use vstd::prelude::*;

verus! {

/// One candle of a push on an OKX candle channel.
///
/// The price and volume fields hold their decimal text exactly as the
/// exchange sent it; every one of them has passed the grammar of
/// `<f64 as FromStr>::from_str`, so converting them to floats succeeds.
#[derive(Debug, Clone)]
pub struct Candle {
    pub ts: i64,
    pub open: String,
    pub high: String,
    pub low: String,
    pub close: String,
    pub volume: String,
    pub confirm: bool,
}

/// A push on an OKX candle channel: the channel, the instrument and its
/// candles in the order in which they came.
#[derive(Debug, Clone)]
pub struct OkxCandleMsg {
    pub channel: String,
    pub inst_id: String,
    pub candles: Vec<Candle>,
}

/// What a `Candle` holds, its texts as character sequences.
pub struct CandleView {
    pub ts: i64,
    pub open: Seq<char>,
    pub high: Seq<char>,
    pub low: Seq<char>,
    pub close: Seq<char>,
    pub volume: Seq<char>,
    pub confirm: bool,
}

/// What an `OkxCandleMsg` holds.
pub struct OkxCandleMsgView {
    pub channel: Seq<char>,
    pub inst_id: Seq<char>,
    pub candles: Seq<CandleView>,
}

impl View for Candle {
    type V = CandleView;

    open spec fn view(&self) -> CandleView {
        CandleView {
            ts: self.ts,
            open: self.open@,
            high: self.high@,
            low: self.low@,
            close: self.close@,
            volume: self.volume@,
            confirm: self.confirm,
        }
    }
}

pub open spec fn candles_view(candles: Seq<Candle>) -> Seq<CandleView> {
    candles.map_values(|c: Candle| c@)
}

impl View for OkxCandleMsg {
    type V = OkxCandleMsgView;

    open spec fn view(&self) -> OkxCandleMsgView {
        OkxCandleMsgView {
            channel: self.channel@,
            inst_id: self.inst_id@,
            candles: candles_view(self.candles@),
        }
    }
}

} // verus!
