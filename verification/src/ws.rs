pub mod candle;
pub mod json;
pub mod model;
pub mod numeric;
pub mod websockets;
