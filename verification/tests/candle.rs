use okx_client::ws::candle::{extract_okx_candles, CandleError};
use okx_client::ws::json::JsonValue;
use okx_client::ws::numeric::{FloatParseError, IntParseError};

fn s(t: &str) -> JsonValue {
    JsonValue::String(t.to_string())
}

fn row(fields: &[&str]) -> JsonValue {
    JsonValue::Array(fields.iter().map(|f| s(f)).collect())
}

fn push(arg: Vec<(&str, JsonValue)>, data: JsonValue) -> JsonValue {
    JsonValue::Object(vec![
        (
            "arg".to_string(),
            JsonValue::Object(arg.into_iter().map(|(k, v)| (k.to_string(), v)).collect()),
        ),
        ("data".to_string(), data),
    ])
}

fn good_arg() -> Vec<(&'static str, JsonValue)> {
    vec![("channel", s("candle1m")), ("instId", s("BTC-USDT-SWAP"))]
}

#[test]
fn extracts_candles_in_order() {
    let json = push(
        good_arg(),
        JsonValue::Array(vec![
            row(&["1597026383085", "8533.02", "8553.74", "8527.17", "8548.26", "45247", "529.5858061", "5.1", "0"]),
            row(&["1597026443085", "8548.26", "8550", "8540.1", "8545", "120", "1", "2", "1"]),
        ]),
    );
    let msg = extract_okx_candles(&json).unwrap();
    assert_eq!(msg.channel, "candle1m");
    assert_eq!(msg.inst_id, "BTC-USDT-SWAP");
    assert_eq!(msg.candles.len(), 2);
    assert_eq!(msg.candles[0].ts, 1597026383085);
    assert_eq!(msg.candles[0].open, "8533.02");
    assert_eq!(msg.candles[0].high, "8553.74");
    assert_eq!(msg.candles[0].low, "8527.17");
    assert_eq!(msg.candles[0].close, "8548.26");
    assert_eq!(msg.candles[0].volume, "45247");
    assert!(!msg.candles[0].confirm);
    assert_eq!(msg.candles[1].ts, 1597026443085);
    assert!(msg.candles[1].confirm);
}

#[test]
fn short_rows_are_skipped() {
    let json = push(
        good_arg(),
        JsonValue::Array(vec![
            row(&["1", "2", "3"]),
            row(&["5", "1", "1", "1", "1", "1", "x", "x", "1"]),
        ]),
    );
    let msg = extract_okx_candles(&json).unwrap();
    assert_eq!(msg.candles.len(), 1);
    assert_eq!(msg.candles[0].ts, 5);
}

#[test]
fn confirm_needs_the_string_one() {
    let mut fields: Vec<JsonValue> = ["5", "1", "1", "1", "1", "1", "x", "x"].iter().map(|f| s(f)).collect();
    fields.push(JsonValue::Number("1".to_string()));
    let json = push(good_arg(), JsonValue::Array(vec![JsonValue::Array(fields)]));
    let msg = extract_okx_candles(&json).unwrap();
    assert!(!msg.candles[0].confirm);
}

#[test]
fn each_error_variant() {
    let no_arg = JsonValue::Object(vec![("data".to_string(), JsonValue::Array(vec![]))]);
    assert_eq!(extract_okx_candles(&no_arg).unwrap_err(), CandleError::NoArg);
    assert_eq!(extract_okx_candles(&JsonValue::Null).unwrap_err(), CandleError::NoArg);

    let no_channel = push(vec![("instId", s("X"))], JsonValue::Array(vec![]));
    assert_eq!(extract_okx_candles(&no_channel).unwrap_err(), CandleError::NoChannel);
    let channel_not_str = push(
        vec![("channel", JsonValue::Bool(true)), ("instId", s("X"))],
        JsonValue::Array(vec![]),
    );
    assert_eq!(extract_okx_candles(&channel_not_str).unwrap_err(), CandleError::NoChannel);

    let no_inst = push(vec![("channel", s("c"))], JsonValue::Array(vec![]));
    assert_eq!(extract_okx_candles(&no_inst).unwrap_err(), CandleError::NoInstId);

    let no_data = JsonValue::Object(vec![(
        "arg".to_string(),
        JsonValue::Object(vec![("channel".to_string(), s("c")), ("instId".to_string(), s("i"))]),
    )]);
    assert_eq!(extract_okx_candles(&no_data).unwrap_err(), CandleError::NoData);

    let data_obj = push(good_arg(), JsonValue::Object(vec![]));
    assert_eq!(extract_okx_candles(&data_obj).unwrap_err(), CandleError::DataNotArray);

    let row_not_array = push(good_arg(), JsonValue::Array(vec![s("x")]));
    assert_eq!(extract_okx_candles(&row_not_array).unwrap_err(), CandleError::RowNotArray);

    let ts_number = push(
        good_arg(),
        JsonValue::Array(vec![JsonValue::Array(vec![
            JsonValue::Number("1".to_string()),
            s("1"), s("1"), s("1"), s("1"), s("1"), s("1"), s("1"), s("1"),
        ])]),
    );
    assert_eq!(extract_okx_candles(&ts_number).unwrap_err(), CandleError::NotString);

    let bad_ts = push(good_arg(), JsonValue::Array(vec![row(&["1a", "1", "1", "1", "1", "1", "1", "1", "1"])]));
    assert_eq!(extract_okx_candles(&bad_ts).unwrap_err(), CandleError::Int(IntParseError::InvalidDigit));

    let bad_float = push(good_arg(), JsonValue::Array(vec![row(&["1", "1", "1", "", "1", "1", "1", "1", "1"])]));
    assert_eq!(extract_okx_candles(&bad_float).unwrap_err(), CandleError::Float(FloatParseError::Empty));
}

#[test]
fn first_failing_row_decides() {
    let json = push(
        good_arg(),
        JsonValue::Array(vec![
            row(&["1", "1", "1", "1", "1", "zz", "1", "1", "1"]),
            row(&["q", "1", "1", "1", "1", "1", "1", "1", "1"]),
        ]),
    );
    assert_eq!(extract_okx_candles(&json).unwrap_err(), CandleError::Float(FloatParseError::Invalid));
}

#[test]
fn first_duplicate_member_is_read() {
    let json = JsonValue::Object(vec![
        (
            "arg".to_string(),
            JsonValue::Object(vec![
                ("channel".to_string(), s("first")),
                ("channel".to_string(), s("second")),
                ("instId".to_string(), s("i")),
            ]),
        ),
        ("data".to_string(), JsonValue::Array(vec![])),
    ]);
    assert_eq!(extract_okx_candles(&json).unwrap().channel, "first");
}

#[test]
fn error_messages() {
    assert_eq!(CandleError::NoArg.message(), "no arg");
    assert_eq!(CandleError::NotString.message(), "str");
    assert_eq!(
        CandleError::Int(IntParseError::InvalidDigit).message(),
        "1a".parse::<i64>().unwrap_err().to_string()
    );
    assert_eq!(
        CandleError::Int(IntParseError::PosOverflow).message(),
        "99999999999999999999".parse::<i64>().unwrap_err().to_string()
    );
    assert_eq!(
        CandleError::Int(IntParseError::NegOverflow).message(),
        "-99999999999999999999".parse::<i64>().unwrap_err().to_string()
    );
    assert_eq!(CandleError::Int(IntParseError::Empty).message(), "".parse::<i64>().unwrap_err().to_string());
    assert_eq!(CandleError::Float(FloatParseError::Empty).message(), "".parse::<f64>().unwrap_err().to_string());
    assert_eq!(CandleError::Float(FloatParseError::Invalid).message(), "x".parse::<f64>().unwrap_err().to_string());
}

#[test]
fn short_rows_anywhere_change_nothing() {
    let full_a = || row(&["5", "1", "2", "3", "4", "6", "x", "x", "1"]);
    let full_b = || row(&["7", "1.5", "2", "3", "4", "6", "x", "x", "0"]);
    let plain = push(good_arg(), JsonValue::Array(vec![full_a(), full_b()]));
    let padded = push(
        good_arg(),
        JsonValue::Array(vec![
            row(&[]),
            full_a(),
            row(&["x", "y"]),
            JsonValue::Array((0..8).map(|_| JsonValue::Null).collect()),
            full_b(),
            row(&["1", "2", "3", "4", "5", "6", "7", "8"]),
        ]),
    );
    let a = extract_okx_candles(&plain).unwrap();
    let b = extract_okx_candles(&padded).unwrap();
    assert_eq!(a.channel, b.channel);
    assert_eq!(a.inst_id, b.inst_id);
    assert_eq!(a.candles.len(), b.candles.len());
    for (x, y) in a.candles.iter().zip(b.candles.iter()) {
        assert_eq!((x.ts, &x.open, &x.high, &x.low, &x.close, &x.volume, x.confirm),
                   (y.ts, &y.open, &y.high, &y.low, &y.close, &y.volume, y.confirm));
    }
    let bad = || row(&["q", "1", "1", "1", "1", "1", "1", "1", "1"]);
    let e1 = extract_okx_candles(&push(good_arg(), JsonValue::Array(vec![bad()]))).unwrap_err();
    let e2 = extract_okx_candles(&push(good_arg(), JsonValue::Array(vec![row(&["1"]), bad()]))).unwrap_err();
    assert_eq!(e1, e2);
}
