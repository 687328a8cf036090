//! OKX client logic.

pub mod restful;
pub mod ws;
