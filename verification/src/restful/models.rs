use vstd::prelude::*;

verus! {

/// The envelope of every OKX REST reply: the result code, its message and the records.
#[derive(Debug)]
pub struct RestApi<T> {
    pub code: String,
    pub msg: String,
    pub data: Vec<T>,
}

/// The balance of the trading account (`GET /api/v5/account/balance`).
#[derive(Debug, Clone)]
pub struct AccountBalance {
    pub adj_eq: String,
    pub borrow_froz: String,
    pub details: Vec<AccountBalanceDetail>,
    pub imr: String,
    pub iso_eq: String,
}

/// The balance of one currency of the trading account.
#[derive(Debug, Clone)]
pub struct AccountBalanceDetail {
    pub avail_bal: String,
    pub avail_eq: String,
    pub borrow_froz: String,
    pub cash_bal: String,
    pub ccy: String,
    pub acc_avg_px: String,
    pub spot_upl_ratio: String,
    pub spot_bal: String,
    pub open_avg_px: String,
}

/// The leverage that was set (`POST /api/v5/account/set-leverage`).
#[derive(Debug)]
pub struct AccountSetLeverage {
    pub lever: String,
    pub mgn_mode: String,
    pub inst_id: String,
    pub pos_side: String,
}

/// An order that has not been filled yet (`GET /api/v5/trade/orders-pending`).
#[derive(Debug)]
pub struct TradeOrdersPending {
    pub inst_type: String,
    pub inst_id: String,
    pub tgt_ccy: String,
    pub ccy: String,
    pub ord_id: String,
    pub cl_ord_id: String,
    pub tag: String,
    pub px: String,
    pub sz: String,
    pub pnl: String,
    pub ord_type: String,
    pub side: String,
    pub pos_side: String,
    pub td_mode: String,
    pub acc_fill_sz: String,
    pub fill_px: String,
    pub trade_id: String,
    pub fill_sz: String,
    pub fill_time: String,
    pub avg_px: String,
    pub state: String,
    pub lever: String,
    pub tp_trigger_px: String,
    pub tp_trigger_px_type: String,
    pub sl_trigger_px: String,
    pub sl_trigger_px_type: String,
    pub sl_ord_px: String,
    pub tp_ord_px: String,
    pub fee_ccy: String,
    pub fee: String,
    pub rebate_ccy: String,
    pub source: String,
    pub rebate: String,
    pub category: String,
    pub reduce_only: String,
    pub quick_mgn_type: String,
    pub u_time: String,
    pub c_time: String,
}

/// The outcome of cancelling one order of a batch (`POST /api/v5/trade/cancel-batch-orders`, at most 20 orders a request).
#[derive(Debug)]
pub struct TradeCancelBatchOrders {
    pub ord_id: String,
    pub cl_ord_id: String,
    pub s_code: String,
    pub s_msg: String,
}

/// The outcome of placing an order: the order, the client order id, the result code (`0` on success), the tag, the time of handling in Unix milliseconds and the message.
#[derive(Debug)]
pub struct TradeOrder {
    pub ord_id: String,
    pub cl_ord_id: String,
    pub s_code: String,
    pub tag: String,
    pub ts: String,
    pub s_msg: String,
}

/// The outcome of amending an order that has not been filled yet.
#[derive(Debug)]
pub struct TradeAmendOrder {
    pub ord_id: String,
    pub cl_ord_id: String,
    pub req_id: String,
    pub s_code: String,
    pub s_msg: String,
}

/// The details of one order.
#[derive(Debug)]
pub struct TradeOrderGet {
    pub inst_type: String,
    pub inst_id: String,
    pub tgt_ccy: String,
    pub ccy: String,
    pub ord_id: String,
    pub cl_ord_id: String,
    pub tag: String,
    pub px: String,
    pub sz: String,
    pub pnl: String,
    pub ord_type: String,
    pub side: String,
    pub pos_side: String,
    pub td_mode: String,
    pub acc_fill_sz: String,
    pub state: String,
}

/// The outcome of closing a position.
#[derive(Debug)]
pub struct ClosePostion {
    pub inst_id: String,
    pub poss_side: String,
    pub cl_ord_id: String,
    pub tag: String,
}

} // verus!
