use vstd::prelude::*;

use crate::ws::json::{spec_as_array, spec_as_str, spec_get, JsonValue};
use crate::ws::model::{candles_view, Candle, CandleView, OkxCandleMsg, OkxCandleMsgView};
use crate::ws::numeric::{
    check_float_syntax, parse_i64, spec_float_syntax, spec_parse_i64, FloatParseError,
    IntParseError,
};

verus! {

/// Why a push could not be read as candles.
#[derive(Debug, Clone, Copy, PartialEq, Eq, Structural)]
pub enum CandleError {
    /// The push has no `arg` member.
    NoArg,
    /// `arg` has no string member `channel`.
    NoChannel,
    /// `arg` has no string member `instId`.
    NoInstId,
    /// The push has no `data` member.
    NoData,
    /// `data` is no array.
    DataNotArray,
    /// An element of `data` is no array.
    RowNotArray,
    /// A field of a row that is read as a number is no string.
    NotString,
    /// The timestamp text is no decimal `i64`.
    Int(IntParseError),
    /// A price or volume text is no floating-point literal.
    Float(FloatParseError),
}

/// The least number of fields that a row must have to be read.
pub const ROW_FIELDS: usize = 9;

/// A timestamp field: a string holding a decimal `i64`.
pub open spec fn spec_int_field(v: JsonValue) -> Result<i64, CandleError> {
    match spec_as_str(v) {
        None => Err(CandleError::NotString),
        Some(t) => match spec_parse_i64(t) {
            Ok(n) => Ok(n),
            Err(e) => Err(CandleError::Int(e)),
        },
    }
}

/// A price or volume field: a string holding a floating-point literal.
pub open spec fn spec_float_field(v: JsonValue) -> Result<Seq<char>, CandleError> {
    match spec_as_str(v) {
        None => Err(CandleError::NotString),
        Some(t) => match spec_float_syntax(t) {
            Ok(()) => Ok(t),
            Err(e) => Err(CandleError::Float(e)),
        },
    }
}

/// One element of `data`: an array; one of fewer than nine fields is
/// skipped; otherwise fields 0 to 5 are read in order, the first failure
/// deciding the error, and field 8 confirms the candle when it is the
/// string `"1"`.
pub open spec fn spec_candle_row(item: JsonValue) -> Result<Option<CandleView>, CandleError> {
    match spec_as_array(item) {
        None => Err(CandleError::RowNotArray),
        Some(row) => if row.len() < ROW_FIELDS {
            Ok(None)
        } else {
            match spec_int_field(row[0]) {
                Err(e) => Err(e),
                Ok(ts) => match spec_float_field(row[1]) {
                    Err(e) => Err(e),
                    Ok(open) => match spec_float_field(row[2]) {
                        Err(e) => Err(e),
                        Ok(high) => match spec_float_field(row[3]) {
                            Err(e) => Err(e),
                            Ok(low) => match spec_float_field(row[4]) {
                                Err(e) => Err(e),
                                Ok(close) => match spec_float_field(row[5]) {
                                    Err(e) => Err(e),
                                    Ok(volume) => Ok(
                                        Some(
                                            CandleView {
                                                ts,
                                                open,
                                                high,
                                                low,
                                                close,
                                                volume,
                                                confirm: spec_as_str(row[8]) == Some(seq!['1']),
                                            },
                                        ),
                                    ),
                                },
                            },
                        },
                    },
                },
            }
        },
    }
}

/// The candles of the elements of `data`, read in order; the first element
/// that fails decides the error.
pub open spec fn spec_candle_rows(items: Seq<JsonValue>) -> Result<Seq<CandleView>, CandleError>
    decreases items.len(),
{
    if items.len() == 0 {
        Ok(seq![])
    } else {
        match spec_candle_rows(items.drop_last()) {
            Err(e) => Err(e),
            Ok(done) => match spec_candle_row(items.last()) {
                Err(e) => Err(e),
                Ok(None) => Ok(done),
                Ok(Some(c)) => Ok(done.push(c)),
            },
        }
    }
}

proof fn lemma_rows_error_persists(items: Seq<JsonValue>, k: int, e: CandleError)
    requires
        0 <= k <= items.len(),
        spec_candle_rows(items.take(k)) == Err::<Seq<CandleView>, CandleError>(e),
    ensures
        spec_candle_rows(items) == Err::<Seq<CandleView>, CandleError>(e),
    decreases items.len() - k,
{
    if k < items.len() {
        assert(items.take(k + 1).drop_last() =~= items.take(k));
        lemma_rows_error_persists(items, k + 1, e);
    } else {
        assert(items.take(k) =~= items);
    }
}

/// Each candle comes from its own element of `data`: there are never more
/// candles than elements.
pub proof fn lemma_rows_at_most_items(items: Seq<JsonValue>)
    ensures
        spec_candle_rows(items) matches Ok(c) ==> c.len() <= items.len(),
    decreases items.len(),
{
    if items.len() > 0 {
        lemma_rows_at_most_items(items.drop_last());
    }
}

/// An element of `data` that is an array of fewer than nine fields.
pub open spec fn is_short_row(v: JsonValue) -> bool {
    spec_as_array(v) matches Some(fields) && fields.len() < ROW_FIELDS
}

/// The elements of `data` without its short rows, in order.
pub open spec fn without_short_rows(items: Seq<JsonValue>) -> Seq<JsonValue>
    decreases items.len(),
{
    if items.len() == 0 {
        seq![]
    } else if is_short_row(items.last()) {
        without_short_rows(items.drop_last())
    } else {
        without_short_rows(items.drop_last()).push(items.last())
    }
}

/// Short rows are skipped wherever they stand: the rows of `data` read as
/// the rows without its short ones do.
pub proof fn lemma_rows_ignore_short_rows(items: Seq<JsonValue>)
    ensures
        spec_candle_rows(items) == spec_candle_rows(without_short_rows(items)),
    decreases items.len(),
{
    if items.len() > 0 {
        lemma_rows_ignore_short_rows(items.drop_last());
        if !is_short_row(items.last()) {
            let w = without_short_rows(items.drop_last());
            assert(w.push(items.last()).drop_last() =~= w);
        }
    }
}

/// Inserting a short row at position `i` leaves the rows without short ones
/// as they were.
proof fn lemma_without_insert_short(items: Seq<JsonValue>, i: int, row: JsonValue)
    requires
        is_short_row(row),
        0 <= i <= items.len(),
    ensures
        without_short_rows(items.insert(i, row)) == without_short_rows(items),
    decreases items.len(),
{
    let grown = items.insert(i, row);
    if i == items.len() {
        assert(grown.drop_last() =~= items);
    } else {
        lemma_without_insert_short(items.drop_last(), i, row);
        assert(grown.drop_last() =~= items.drop_last().insert(i, row));
        assert(grown.last() == items.last());
    }
}

/// Two `data` arrays that differ only in short rows, any number of them at
/// any positions, read as the same candles or fail with the same error.
pub proof fn lemma_short_rows_change_nothing(a: Seq<JsonValue>, b: Seq<JsonValue>)
    requires
        without_short_rows(a) == without_short_rows(b),
    ensures
        spec_candle_rows(a) == spec_candle_rows(b),
{
    lemma_rows_ignore_short_rows(a);
    lemma_rows_ignore_short_rows(b);
}

/// A short row inserted at any position of `data` changes nothing.
pub proof fn lemma_short_row_skipped(items: Seq<JsonValue>, i: int, row: JsonValue)
    requires
        is_short_row(row),
        0 <= i <= items.len(),
    ensures
        spec_candle_rows(items.insert(i, row)) == spec_candle_rows(items),
{
    lemma_without_insert_short(items, i, row);
    lemma_short_rows_change_nothing(items.insert(i, row), items);
}

/// A candle push: `arg.channel`, `arg.instId`, then the rows of `data`.
pub open spec fn spec_extract(json: JsonValue) -> Result<OkxCandleMsgView, CandleError> {
    match spec_get(json, seq!['a', 'r', 'g']) {
        None => Err(CandleError::NoArg),
        Some(arg) => match spec_get(arg, seq!['c', 'h', 'a', 'n', 'n', 'e', 'l']) {
            None => Err(CandleError::NoChannel),
            Some(channel_value) => match spec_as_str(channel_value) {
                None => Err(CandleError::NoChannel),
                Some(channel) => match spec_get(arg, seq!['i', 'n', 's', 't', 'I', 'd']) {
                    None => Err(CandleError::NoInstId),
                    Some(inst_value) => match spec_as_str(inst_value) {
                        None => Err(CandleError::NoInstId),
                        Some(inst_id) => match spec_get(json, seq!['d', 'a', 't', 'a']) {
                            None => Err(CandleError::NoData),
                            Some(data_value) => match spec_as_array(data_value) {
                                None => Err(CandleError::DataNotArray),
                                Some(items) => match spec_candle_rows(items) {
                                    Err(e) => Err(e),
                                    Ok(candles) => Ok(OkxCandleMsgView { channel, inst_id, candles }),
                                },
                            },
                        },
                    },
                },
            },
        },
    }
}

fn int_field(v: &JsonValue) -> (r: Result<i64, CandleError>)
    ensures
        r == spec_int_field(*v),
{
    match v.as_str() {
        None => Err(CandleError::NotString),
        Some(t) => match parse_i64(t) {
            Ok(n) => Ok(n),
            Err(e) => Err(CandleError::Int(e)),
        },
    }
}

fn float_field(v: &JsonValue) -> (r: Result<String, CandleError>)
    ensures
        r matches Ok(t) ==> spec_float_field(*v) == Ok::<Seq<char>, CandleError>(t@),
        r matches Err(e) ==> spec_float_field(*v) == Err::<Seq<char>, CandleError>(e),
{
    match v.as_str() {
        None => Err(CandleError::NotString),
        Some(t) => match check_float_syntax(t) {
            Ok(()) => Ok(String::from_str(t)),
            Err(e) => Err(CandleError::Float(e)),
        },
    }
}

fn is_one(v: &JsonValue) -> (b: bool)
    ensures
        b == (spec_as_str(*v) == Some(seq!['1'])),
{
    match v.as_str() {
        None => false,
        Some(t) => {
            let n = t.unicode_len();
            if n != 1 {
                proof {
                    assert(t@.len() != seq!['1'].len());
                }
                false
            } else {
                let c = t.get_char(0);
                proof {
                    if c == '1' {
                        assert(t@ =~= seq!['1']);
                    } else {
                        assert(t@[0] != seq!['1'][0]);
                    }
                }
                c == '1'
            }
        },
    }
}

/// Reads one element of `data` as `spec_candle_row` says.
pub fn candle_row(item: &JsonValue) -> (r: Result<Option<Candle>, CandleError>)
    ensures
        r matches Ok(Some(c)) ==> spec_candle_row(*item) == Ok::<Option<CandleView>, CandleError>(
            Some(c@),
        ),
        r matches Ok(None) ==> spec_candle_row(*item) == Ok::<Option<CandleView>, CandleError>(
            None,
        ),
        r matches Err(e) ==> spec_candle_row(*item) == Err::<Option<CandleView>, CandleError>(e),
{
    let row = match item.as_array() {
        None => {
            return Err(CandleError::RowNotArray);
        },
        Some(row) => row,
    };
    if row.len() < ROW_FIELDS {
        return Ok(None);
    }
    let ts = match int_field(&row[0]) {
        Err(e) => {
            return Err(e);
        },
        Ok(ts) => ts,
    };
    let open = match float_field(&row[1]) {
        Err(e) => {
            return Err(e);
        },
        Ok(t) => t,
    };
    let high = match float_field(&row[2]) {
        Err(e) => {
            return Err(e);
        },
        Ok(t) => t,
    };
    let low = match float_field(&row[3]) {
        Err(e) => {
            return Err(e);
        },
        Ok(t) => t,
    };
    let close = match float_field(&row[4]) {
        Err(e) => {
            return Err(e);
        },
        Ok(t) => t,
    };
    let volume = match float_field(&row[5]) {
        Err(e) => {
            return Err(e);
        },
        Ok(t) => t,
    };
    let confirm = is_one(&row[8]);
    Ok(Some(Candle { ts, open, high, low, close, volume, confirm }))
}

/// Reads a candle push: the channel and instrument of `arg`, and one
/// candle per element of `data` that has nine fields or more.
pub fn extract_okx_candles(json: &JsonValue) -> (r: Result<OkxCandleMsg, CandleError>)
    ensures
        r matches Ok(m) ==> spec_extract(*json) == Ok::<OkxCandleMsgView, CandleError>(m@),
        r matches Err(e) ==> spec_extract(*json) == Err::<OkxCandleMsgView, CandleError>(e),
{
    proof {
        reveal_strlit("arg");
        reveal_strlit("channel");
        reveal_strlit("instId");
        reveal_strlit("data");
        assert("arg"@ =~= seq!['a', 'r', 'g']);
        assert("channel"@ =~= seq!['c', 'h', 'a', 'n', 'n', 'e', 'l']);
        assert("instId"@ =~= seq!['i', 'n', 's', 't', 'I', 'd']);
        assert("data"@ =~= seq!['d', 'a', 't', 'a']);
    }
    let arg = match json.get("arg") {
        None => {
            return Err(CandleError::NoArg);
        },
        Some(a) => a,
    };
    let channel = match arg.get("channel") {
        None => {
            return Err(CandleError::NoChannel);
        },
        Some(v) => match v.as_str() {
            None => {
                return Err(CandleError::NoChannel);
            },
            Some(t) => String::from_str(t),
        },
    };
    let inst_id = match arg.get("instId") {
        None => {
            return Err(CandleError::NoInstId);
        },
        Some(v) => match v.as_str() {
            None => {
                return Err(CandleError::NoInstId);
            },
            Some(t) => String::from_str(t),
        },
    };
    let data = match json.get("data") {
        None => {
            return Err(CandleError::NoData);
        },
        Some(v) => match v.as_array() {
            None => {
                return Err(CandleError::DataNotArray);
            },
            Some(items) => items,
        },
    };
    let n = data.len();
    let mut candles: Vec<Candle> = Vec::with_capacity(n);
    assert(data@.take(0) =~= Seq::<JsonValue>::empty());
    assert(candles_view(candles@) =~= Seq::<CandleView>::empty());
    let mut i: usize = 0;
    while i < n
        invariant
            n == data@.len(),
            0 <= i <= n,
            spec_candle_rows(data@.take(i as int)) == Ok::<Seq<CandleView>, CandleError>(
                candles_view(candles@),
            ),
            spec_extract(*json) == match spec_candle_rows(data@) {
                Err(e) => Err::<OkxCandleMsgView, CandleError>(e),
                Ok(c) => Ok(OkxCandleMsgView { channel: channel@, inst_id: inst_id@, candles: c }),
            },
        decreases n - i,
    {
        let ghost before = candles@;
        assert(data@.take(i + 1).drop_last() =~= data@.take(i as int));
        assert(data@.take(i + 1).last() == data@[i as int]);
        match candle_row(&data[i]) {
            Err(e) => {
                proof {
                    lemma_rows_error_persists(data@, i + 1, e);
                }
                return Err(e);
            },
            Ok(None) => {},
            Ok(Some(c)) => {
                candles.push(c);
                assert(candles_view(candles@) =~= candles_view(before).push(c@));
            },
        }
        i = i + 1;
    }
    assert(data@.take(n as int) =~= data@);
    Ok(OkxCandleMsg { channel, inst_id, candles })
}

/// Two pushes with the same `arg` whose `data` arrays differ only in short
/// rows, any number of them at any positions, give the same channel,
/// instrument and candles, or the same error.
pub proof fn lemma_extract_ignores_short_rows(
    json: JsonValue,
    other: JsonValue,
    items: Seq<JsonValue>,
    other_items: Seq<JsonValue>,
)
    requires
        spec_get(json, seq!['a', 'r', 'g']) == spec_get(other, seq!['a', 'r', 'g']),
        spec_get(json, seq!['d', 'a', 't', 'a']) matches Some(d) && spec_as_array(d) == Some(
            items,
        ),
        spec_get(other, seq!['d', 'a', 't', 'a']) matches Some(d) && spec_as_array(d) == Some(
            other_items,
        ),
        without_short_rows(items) == without_short_rows(other_items),
    ensures
        spec_extract(json) == spec_extract(other),
{
    lemma_short_rows_change_nothing(items, other_items);
}

/// The candle that a row of at least nine fields stands for: the timestamp
/// is the `i64` that field 0 holds; open, high, low, close and volume are
/// the texts of fields 1 to 5, each a floating-point literal; the candle is
/// confirmed exactly when field 8 is the string `"1"`.
pub open spec fn candle_matches_row(c: CandleView, row: Seq<JsonValue>) -> bool {
    &&& row.len() >= 9
    &&& (spec_as_str(row[0]) matches Some(t) && spec_parse_i64(t) == Ok::<i64, IntParseError>(c.ts))
    &&& spec_as_str(row[1]) == Some(c.open)
    &&& spec_as_str(row[2]) == Some(c.high)
    &&& spec_as_str(row[3]) == Some(c.low)
    &&& spec_as_str(row[4]) == Some(c.close)
    &&& spec_as_str(row[5]) == Some(c.volume)
    &&& spec_float_syntax(c.open) is Ok
    &&& spec_float_syntax(c.high) is Ok
    &&& spec_float_syntax(c.low) is Ok
    &&& spec_float_syntax(c.close) is Ok
    &&& spec_float_syntax(c.volume) is Ok
    &&& c.confirm == (spec_as_str(row[8]) == Some(seq!['1']))
}

/// A row of at least nine fields whose field 0 holds an `i64` and whose
/// fields 1 to 5 hold floating-point literals.
pub open spec fn row_fields_valid(row: Seq<JsonValue>) -> bool {
    &&& row.len() >= 9
    &&& (spec_as_str(row[0]) matches Some(t) && spec_parse_i64(t) is Ok)
    &&& forall|f: int|
        1 <= f <= 5 ==> (spec_as_str(#[trigger] row[f]) matches Some(x) && spec_float_syntax(x) is Ok)
}

/// `item` is an array that stands for candle `c`.
pub open spec fn row_gives_candle(item: JsonValue, c: CandleView) -> bool {
    spec_as_array(item) matches Some(row) && candle_matches_row(c, row)
}

/// The `k`-th candle stands for the `k`-th row, for every `k`.
pub open spec fn candles_match_rows(cs: Seq<CandleView>, rows: Seq<JsonValue>) -> bool {
    &&& cs.len() == rows.len()
    &&& forall|k: int| 0 <= k < cs.len() ==> #[trigger] row_gives_candle(rows[k], cs[k])
}

/// What reading one element of `data` gives: an error for an element that
/// is no array, nothing for a short row, and otherwise, when it succeeds, the
/// candle whose fields are the row's fields, in their places; a row whose
/// fields 0 to 5 are all well-formed is always read.
pub proof fn lemma_candle_row_law(item: JsonValue)
    ensures
        spec_as_array(item) is None ==> spec_candle_row(item) == Err::<Option<CandleView>, CandleError>(
            CandleError::RowNotArray,
        ),
        is_short_row(item) ==> spec_candle_row(item) == Ok::<Option<CandleView>, CandleError>(None),
        spec_candle_row(item) matches Ok(Some(c)) ==> row_gives_candle(item, c),
        spec_candle_row(item) matches Ok(None) ==> is_short_row(item),
        (spec_as_array(item) matches Some(row) && row_fields_valid(row)) ==> (spec_candle_row(
            item,
        ) matches Ok(Some(_))),
{
    if spec_as_array(item) is Some {
        let row = spec_as_array(item).unwrap();
        if row.len() >= 9 {
            assert(row[1] == row[1] && row[2] == row[2] && row[3] == row[3] && row[4] == row[4]
                && row[5] == row[5]);
        }
    }
}

/// Reading `data` gives, in order, one candle per element that is not a
/// short row, each standing for its row.
pub proof fn lemma_candle_rows_law(items: Seq<JsonValue>)
    ensures
        spec_candle_rows(items) matches Ok(cs) ==> candles_match_rows(cs, without_short_rows(items)),
        spec_candle_rows(items) is Ok ==> forall|k: int|
            0 <= k < items.len() ==> spec_as_array(#[trigger] items[k]) is Some,
    decreases items.len(),
{
    if items.len() > 0 {
        let prefix = items.drop_last();
        let last = items.last();
        lemma_candle_rows_law(prefix);
        lemma_candle_row_law(last);
        if spec_candle_rows(items) is Ok {
            assert forall|k: int| 0 <= k < items.len() implies spec_as_array(
                #[trigger] items[k],
            ) is Some by {
                if k < items.len() - 1 {
                    assert(items[k] == prefix[k]);
                }
            }
        }
        if let Ok(cs) = spec_candle_rows(items) {
            let done = spec_candle_rows(prefix).unwrap();
            let w = without_short_rows(prefix);
            if !is_short_row(last) {
                let c = spec_candle_row(last).unwrap().unwrap();
                assert(cs == done.push(c));
                assert(without_short_rows(items) == w.push(last));
                assert forall|k: int| 0 <= k < cs.len() implies #[trigger] row_gives_candle(
                    without_short_rows(items)[k],
                    cs[k],
                ) by {
                    if k < done.len() {
                        assert(cs[k] == done[k]);
                        assert(without_short_rows(items)[k] == w[k]);
                        assert(row_gives_candle(w[k], done[k]));
                    }
                }
            }
        }
    } else {
        assert(without_short_rows(items).len() == 0);
    }
}

/// What reading a push gives: its channel and instrument are the texts of
/// `arg.channel` and `arg.instId`, and its candles stand, in order, for the
/// rows of `data` that are not short.
pub proof fn lemma_extract_law(json: JsonValue)
    ensures
        spec_extract(json) matches Ok(m) ==> {
            &&& spec_get(json, seq!['a', 'r', 'g']) matches Some(arg)
            &&& spec_get(arg, seq!['c', 'h', 'a', 'n', 'n', 'e', 'l']) matches Some(cv)
            &&& spec_as_str(cv) == Some(m.channel)
            &&& spec_get(arg, seq!['i', 'n', 's', 't', 'I', 'd']) matches Some(iv)
            &&& spec_as_str(iv) == Some(m.inst_id)
            &&& spec_get(json, seq!['d', 'a', 't', 'a']) matches Some(d)
            &&& spec_as_array(d) matches Some(items)
            &&& candles_match_rows(m.candles, without_short_rows(items))
        },
{
    if let Some(d) = spec_get(json, seq!['d', 'a', 't', 'a']) {
        if let Some(items) = spec_as_array(d) {
            lemma_candle_rows_law(items);
        }
    }
}

impl CandleError {
    /// The text by which the error is reported.
    pub open spec fn spec_message(self) -> Seq<char> {
        match self {
            CandleError::NoArg => "no arg"@,
            CandleError::NoChannel => "no channel"@,
            CandleError::NoInstId => "no instId"@,
            CandleError::NoData => "no data"@,
            CandleError::DataNotArray => "data not array"@,
            CandleError::RowNotArray => "not array"@,
            CandleError::NotString => "str"@,
            CandleError::Int(IntParseError::Empty) => "cannot parse integer from empty string"@,
            CandleError::Int(IntParseError::InvalidDigit) => "invalid digit found in string"@,
            CandleError::Int(IntParseError::PosOverflow) => "number too large to fit in target type"@,
            CandleError::Int(IntParseError::NegOverflow) => "number too small to fit in target type"@,
            CandleError::Float(FloatParseError::Empty) => "cannot parse float from empty string"@,
            CandleError::Float(FloatParseError::Invalid) => "invalid float literal"@,
        }
    }

    /// The text by which the error is reported: the words of the push's
    /// missing part, or the standard library's words for a number that does
    /// not parse.
    pub fn message(&self) -> (r: String)
        ensures
            r@ == self.spec_message(),
    {
        match self {
            CandleError::NoArg => String::from_str("no arg"),
            CandleError::NoChannel => String::from_str("no channel"),
            CandleError::NoInstId => String::from_str("no instId"),
            CandleError::NoData => String::from_str("no data"),
            CandleError::DataNotArray => String::from_str("data not array"),
            CandleError::RowNotArray => String::from_str("not array"),
            CandleError::NotString => String::from_str("str"),
            CandleError::Int(IntParseError::Empty) => String::from_str(
                "cannot parse integer from empty string",
            ),
            CandleError::Int(IntParseError::InvalidDigit) => String::from_str(
                "invalid digit found in string",
            ),
            CandleError::Int(IntParseError::PosOverflow) => String::from_str(
                "number too large to fit in target type",
            ),
            CandleError::Int(IntParseError::NegOverflow) => String::from_str(
                "number too small to fit in target type",
            ),
            CandleError::Float(FloatParseError::Empty) => String::from_str(
                "cannot parse float from empty string",
            ),
            CandleError::Float(FloatParseError::Invalid) => String::from_str(
                "invalid float literal",
            ),
        }
    }
}

} // verus!
