use okx_client::ws::websockets::{
    checks_heartbeat, heartbeat_expired, on_read, refreshes_last_message, subscribe_message,
    subscribe_messages, ReadAction, Reconnect, RunStep, SessionEnd, WsEvent,
};

fn expected_value(symbol: &str, interval: &str) -> serde_json::Value {
    let mut arg = serde_json::Map::new();
    arg.insert("instId".to_string(), serde_json::Value::String(symbol.to_string()));
    arg.insert("channel".to_string(), serde_json::Value::String(interval.to_string()));
    arg.insert("instType".to_string(), serde_json::Value::String("SWAP".to_string()));
    let mut top = serde_json::Map::new();
    top.insert("op".to_string(), serde_json::Value::String("subscribe".to_string()));
    top.insert("args".to_string(), serde_json::Value::Array(vec![serde_json::Value::Object(arg)]));
    serde_json::Value::Object(top)
}

#[test]
fn subscribe_message_text() {
    assert_eq!(
        subscribe_message("BTC-USDT-SWAP", "candle1m"),
        r#"{"args":[{"channel":"candle1m","instId":"BTC-USDT-SWAP","instType":"SWAP"}],"op":"subscribe"}"#
    );
}

#[test]
fn subscribe_message_matches_serde_json() {
    let texts = ["BTC-USDT-SWAP", "candle1H", "a\"b", "back\\slash", "tab\tnl\ncr\r", "\u{1}\u{1f}\u{8}\u{c}", "é€😀", "\u{7f}", ""];
    for sym in texts {
        for iv in texts {
            let ours = subscribe_message(sym, iv);
            assert_eq!(ours, expected_value(sym, iv).to_string());
            let parsed: serde_json::Value = serde_json::from_str(&ours).unwrap();
            assert_eq!(parsed, expected_value(sym, iv));
        }
    }
}

#[test]
fn escaping_follows_serde_json_for_every_ascii_char() {
    for b in 0u8..128 {
        let c = b as char;
        let t = c.to_string();
        let ours = subscribe_message(&t, "x");
        assert_eq!(ours, expected_value(&t, "x").to_string(), "char {:#x}", b);
    }
}

#[test]
fn subscribe_messages_symbol_by_symbol() {
    let subs = vec![
        ("BTC-USDT-SWAP".to_string(), vec!["candle1m".to_string(), "candle5m".to_string()]),
        ("ETH-USDT-SWAP".to_string(), vec![]),
        ("SOL-USDT-SWAP".to_string(), vec!["candle1H".to_string()]),
    ];
    let msgs = subscribe_messages(&subs);
    assert_eq!(
        msgs,
        vec![
            subscribe_message("BTC-USDT-SWAP", "candle1m"),
            subscribe_message("BTC-USDT-SWAP", "candle5m"),
            subscribe_message("SOL-USDT-SWAP", "candle1H"),
        ]
    );
}

#[test]
fn reconnect_schedule() {
    let mut r = Reconnect::new();
    let mut waits = Vec::new();
    while let Some(w) = r.on_session_end() {
        waits.push(w);
    }
    assert_eq!(waits, vec![5, 10, 20, 40, 60, 60, 60, 60, 60]);
    assert_eq!(r.on_session_end(), None);
}

#[test]
fn read_actions() {
    assert!(matches!(on_read(WsEvent::Text("ping".to_string())), ReadAction::ReplyPong));
    match on_read(WsEvent::Text("{\"event\":\"x\"}".to_string())) {
        ReadAction::Deliver(t) => assert_eq!(t, "{\"event\":\"x\"}"),
        other => panic!("unexpected {:?}", other),
    }
    assert!(matches!(on_read(WsEvent::Text("PING".to_string())), ReadAction::Deliver(_)));
    assert!(matches!(on_read(WsEvent::Pong), ReadAction::KeepAlive));
    assert!(matches!(on_read(WsEvent::Close), ReadAction::Stop));
    assert!(matches!(on_read(WsEvent::ReadError), ReadAction::Fail));
    assert!(matches!(on_read(WsEvent::Other), ReadAction::Ignore));
}

#[test]
fn heartbeat_rules() {
    assert!(refreshes_last_message(&ReadAction::ReplyPong));
    assert!(!checks_heartbeat(&ReadAction::ReplyPong));
    assert!(checks_heartbeat(&ReadAction::Deliver(String::new())));
    assert!(checks_heartbeat(&ReadAction::Ignore));
    assert!(!refreshes_last_message(&ReadAction::Ignore));
    assert!(!heartbeat_expired(90, 0));
    assert!(heartbeat_expired(90, 1));
    assert!(heartbeat_expired(91, 0));
    assert!(!heartbeat_expired(0, 999_999_999));
}

#[test]
fn run_steps_after_sessions() {
    let mut r = Reconnect::new();
    assert_eq!(r.on_session_outcome(SessionEnd::ConnectFailed), RunStep::Wait(5));
    assert_eq!(r.on_session_outcome(SessionEnd::ReadFailed), RunStep::Abort);
    assert_eq!(r.on_session_outcome(SessionEnd::HeartbeatExpired), RunStep::Abort);
    assert_eq!(r.on_session_outcome(SessionEnd::SubscribeFailed), RunStep::Abort);
    assert_eq!(r.on_session_outcome(SessionEnd::Closed), RunStep::Wait(10));
    let mut steps = Vec::new();
    loop {
        let s = r.on_session_outcome(SessionEnd::Closed);
        steps.push(s);
        if s == RunStep::Finish {
            break;
        }
    }
    assert_eq!(
        steps,
        vec![
            RunStep::Wait(20),
            RunStep::Wait(40),
            RunStep::Wait(60),
            RunStep::Wait(60),
            RunStep::Wait(60),
            RunStep::Wait(60),
            RunStep::Wait(60),
            RunStep::Finish,
        ]
    );
}
