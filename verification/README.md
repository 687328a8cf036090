# okx_client

Client logic for the OKX exchange API, verified with Verus.

- `src/` is the verified library:
  - `restful::params`: query parameters kept in increasing key order, each key once;
  - `restful::market`: the parameters of the market endpoints;
  - `restful::models`: the REST payloads that hold no floats;
  - `ws::json`, `ws::numeric`, `ws::candle`, `ws::model`: reading candle pushes,
    with decimal integers parsed and float literals checked as the standard
    library does;
  - `ws::websockets`: subscription requests and the decisions of the session
    loop (reconnection back-off, what to do with each frame, heartbeat timeout).
- `app/` holds the I/O: the REST client over a pluggable transport, the
  websocket loop on tokio-tungstenite, serde forms of the payloads and the
  conversion of price texts to floats.
- `tests/` runs the library against the standard library and serde_json.
