//! End-to-end tests of the wire codec, framing, typed conversions and
//! dispatch.

use stratum_core::codec;
use stratum_core::dispatch::{handle_request, V1Handler};
use stratum_core::framing::{
    decode_frame, encode_frame, Frame, FrameError, Method, Request, RequestPayload, Response,
    ResponsePayload, StratumError, StratumResult,
};
use stratum_core::hex::{HexBytes, HexU32Le};
use stratum_core::json::{json_dup, JsonValue};
use stratum_core::messages::{
    Authorize, BooleanResult, Bits, CoinBase1, CoinBase2, ConversionError, ExtraNonce1, JobId,
    MerkleBranch, Notify, PrevHash, Subscribe, SubscribeResult, Subscription, Time, Version,
};

fn obj(members: Vec<(&str, JsonValue)>) -> JsonValue {
    JsonValue::Obj(
        members
            .into_iter()
            .map(|(k, v)| (k.as_bytes().to_vec(), v))
            .collect(),
    )
}

fn jstr(s: &str) -> JsonValue {
    JsonValue::Str(s.as_bytes().to_vec())
}

#[test]
fn hex_u32_little_endian_word() {
    // "01000000" decoded with the little-endian-word convention is 1.
    assert_eq!(HexU32Le::from_wire(b"01000000").unwrap().value(), 1);
    // "000000ff" is 0xff000000 (4278190080), not 255.
    assert_eq!(HexU32Le::from_wire(b"000000ff").unwrap().value(), 0xff00_0000);
    assert_eq!(HexU32Le::from_wire(b"000000ff").unwrap().value(), 4_278_190_080);
}

#[test]
fn hex_u32_wire_round_trip() {
    for v in [0u32, 1, 0xdead_beef, u32::MAX] {
        let wire = HexU32Le(v).to_wire();
        assert_eq!(HexU32Le::from_wire(&wire).unwrap().value(), v);
    }
    assert_eq!(HexU32Le(1).to_wire(), b"01000000".to_vec());
}

#[test]
fn hex_u32_rejects_bad_wire() {
    assert!(HexU32Le::from_wire(b"0100000").is_none());
    assert!(HexU32Le::from_wire(b"0100000g").is_none());
    assert!(HexU32Le::from_wire(b"0100000000").is_none());
}

#[test]
fn hex_bytes_round_trip() {
    let h = HexBytes::from_wire(b"deadbeef").unwrap();
    assert_eq!(h.as_bytes(), &[0xde, 0xad, 0xbe, 0xef]);
    assert_eq!(h.to_wire(), b"deadbeef".to_vec());
    // Uppercase digits decode too; the wire form is lowercase.
    let h2 = HexBytes::from_wire(b"DEADBEEF").unwrap();
    assert_eq!(h2.as_bytes(), &[0xde, 0xad, 0xbe, 0xef]);
    assert!(HexBytes::from_wire(b"abc").is_none());
    assert!(HexBytes::from_wire(b"zz").is_none());
}

#[test]
fn malformed_frame_bare_id() {
    // An object with neither method nor result/error is malformed,
    // never a default-constructed response.
    let r = codec::decode(b"{\"id\":1}");
    assert!(matches!(r, Err(FrameError::Malformed(_))));
}

#[test]
fn classification_boundary_is_method_presence() {
    // With a method member it is a request ...
    let f = codec::decode(b"{\"id\":1,\"method\":\"mining.subscribe\",\"params\":[]}").unwrap();
    assert!(matches!(f, Frame::Request(_)));
    // ... without one but with a result it is a response.
    let f = codec::decode(b"{\"id\":1,\"result\":true,\"error\":null}").unwrap();
    assert!(matches!(f, Frame::Response(_)));
    // An unknown method name is malformed.
    assert!(codec::decode(b"{\"id\":1,\"method\":\"mining.frobnicate\",\"params\":[]}").is_err());
    // A response with both members present is malformed.
    assert!(codec::decode(b"{\"id\":1,\"result\":true,\"error\":[20,\"x\",null]}").is_err());
}

#[test]
fn decode_error_response() {
    let f = codec::decode(b"{\"id\":7,\"result\":null,\"error\":[21,\"Job not found\",null]}")
        .unwrap();
    match f {
        Frame::Response(resp) => {
            assert_eq!(resp.id, 7);
            assert!(resp.payload.result.is_none());
            let e = resp.payload.error.unwrap();
            assert_eq!(e.code, 21);
            assert_eq!(e.message, b"Job not found".to_vec());
            assert!(e.traceback.is_none());
        }
        Frame::Request(_) => panic!("classified as request"),
    }
}

#[test]
fn decode_notify_request_and_convert() {
    let text = b"{\"id\":null,\"method\":\"mining.notify\",\"params\":[\"abcd\",\"01000000\",\"aa\",\"bb\",[\"cafe\",\"f00d\"],\"02000000\",\"000000ff\",\"10000000\",true]}";
    let f = codec::decode(text).unwrap();
    let req = match f {
        Frame::Request(req) => req,
        Frame::Response(_) => panic!("classified as response"),
    };
    assert_eq!(req.id, None);
    assert_eq!(req.payload.method, Method::Notify);
    let n = Notify::from_request(req).unwrap();
    assert_eq!(n.job_id(), &[0xab, 0xcd]);
    assert_eq!(n.prev_hash(), 1);
    assert_eq!(n.coin_base_1(), &[0xaa]);
    assert_eq!(n.coin_base_2(), &[0xbb]);
    assert_eq!(n.version(), 2);
    assert_eq!(n.bits(), 0xff00_0000);
    assert_eq!(n.time(), 0x10);
    assert!(n.clean_jobs());
}

fn sample_notify() -> Notify {
    Notify(
        JobId(HexBytes(vec![0xab, 0xcd])),
        PrevHash(HexU32Le(1)),
        CoinBase1(HexBytes(vec![0xaa])),
        CoinBase2(HexBytes(vec![0xbb, 0xcc])),
        MerkleBranch(vec![HexBytes(vec![0xca, 0xfe]), HexBytes(vec![0xf0, 0x0d])]),
        Version(HexU32Le(2)),
        Bits(HexU32Le(0xff00_0000)),
        Time(HexU32Le(0x10)),
        true,
    )
}

#[test]
fn notify_round_trip() {
    let payload = sample_notify().to_request_payload().unwrap();
    assert_eq!(payload.method, Method::Notify);
    let req = Request { id: None, payload };
    let back = Notify::from_request(req).unwrap();
    assert_eq!(back, sample_notify());
}

#[test]
fn subscribe_round_trip() {
    let msg = Subscribe(
        Some(b"miner/1.0".to_vec()),
        Some(ExtraNonce1(HexBytes(vec![0x01, 0x02]))),
        Some(b"stratum.example".to_vec()),
        None,
    );
    assert_eq!(msg.agent_signature().unwrap(), &b"miner/1.0".to_vec());
    assert_eq!(msg.url().unwrap(), &b"stratum.example".to_vec());
    assert!(msg.port().is_none());
    let payload = Subscribe(
        Some(b"miner/1.0".to_vec()),
        Some(ExtraNonce1(HexBytes(vec![0x01, 0x02]))),
        Some(b"stratum.example".to_vec()),
        None,
    )
    .to_request_payload()
    .unwrap();
    assert_eq!(payload.method, Method::Subscribe);
    let req = Request { id: Some(1), payload };
    let back = Subscribe::from_request(req).unwrap();
    assert_eq!(back.extra_nonce1().unwrap().0.as_bytes(), &[0x01, 0x02]);
    assert_eq!(back.agent_signature().unwrap(), &b"miner/1.0".to_vec());
    assert!(back.port().is_none());
}

#[test]
fn authorize_round_trip() {
    let payload = Authorize(b"worker".to_vec(), b"secret".to_vec())
        .to_request_payload()
        .unwrap();
    assert_eq!(payload.method, Method::Authorize);
    let req = Request { id: Some(2), payload };
    let back = Authorize::from_request(req).unwrap();
    assert_eq!(back.name(), &b"worker".to_vec());
    assert_eq!(back.password(), &b"secret".to_vec());
}

#[test]
fn subscribe_result_round_trip() {
    let msg = SubscribeResult(
        vec![
            Subscription(b"mining.set_difficulty".to_vec(), b"1".to_vec()),
            Subscription(b"mining.notify".to_vec(), b"abc".to_vec()),
        ],
        ExtraNonce1(HexBytes(vec![0x6c, 0x6f])),
        4,
    );
    let payload = msg.to_response_payload().unwrap();
    assert!(payload.error.is_none());
    let resp = Response { id: 3, payload };
    let back = SubscribeResult::from_response(resp).unwrap();
    assert_eq!(back.subscriptions().len(), 2);
    assert_eq!(back.subscriptions()[0].0, b"mining.set_difficulty".to_vec());
    assert_eq!(back.extra_nonce_1().0.as_bytes(), &[0x6c, 0x6f]);
    assert_eq!(back.extra_nonce_2_size(), 4);
}

#[test]
fn boolean_result_round_trip() {
    for b in [true, false] {
        let payload = BooleanResult(b).to_response_payload().unwrap();
        let resp = Response { id: 4, payload };
        assert_eq!(BooleanResult::from_response(resp).unwrap().0, b);
    }
}

#[test]
fn from_response_without_result_is_missing() {
    let resp = Response {
        id: 5,
        payload: ResponsePayload {
            result: None,
            error: Some(StratumError { code: 20, message: b"other".to_vec(), traceback: None }),
        },
    };
    match BooleanResult::from_response(resp) {
        Err(ConversionError::Missing(name)) => assert_eq!(name, b"result".to_vec()),
        other => panic!("expected a missing-result error, got {:?}", other),
    }
}

#[test]
fn conversion_rejects_wrong_shape() {
    let req = Request {
        id: Some(1),
        payload: RequestPayload {
            method: Method::Authorize,
            params: JsonValue::Arr(vec![jstr("only-one")]),
        },
    };
    assert!(matches!(Authorize::from_request(req), Err(ConversionError::Json(_))));
    let req = Request {
        id: Some(1),
        payload: RequestPayload { method: Method::Notify, params: JsonValue::Bool(true) },
    };
    assert!(matches!(Notify::from_request(req), Err(ConversionError::Json(_))));
}

#[test]
fn encode_then_decode_request_frame() {
    let payload = sample_notify().to_request_payload().unwrap();
    let frame = Frame::Request(Request { id: Some(9), payload });
    let bytes = codec::encode(&frame);
    let back = codec::decode(&bytes).unwrap();
    assert_eq!(back, frame);
}

#[test]
fn encode_then_decode_response_frame() {
    let payload = BooleanResult(true).to_response_payload().unwrap();
    let frame = Frame::Response(Response { id: 11, payload });
    let bytes = codec::encode(&frame);
    assert_eq!(
        bytes,
        b"{\"id\":11,\"result\":true,\"error\":null}".to_vec()
    );
    let back = codec::decode(&bytes).unwrap();
    assert_eq!(back, frame);
}

#[test]
fn encoder_agrees_with_serde_json() {
    let payload = Authorize(b"worker".to_vec(), b"top\"secret\\".to_vec())
        .to_request_payload()
        .unwrap();
    let frame = Frame::Request(Request { id: Some(2), payload });
    let bytes = codec::encode(&frame);
    let v: serde_json::Value = serde_json::from_slice(&bytes).unwrap();
    assert_eq!(v["id"], serde_json::Value::from(2u32));
    assert_eq!(v["method"], serde_json::Value::from("mining.authorize"));
    assert_eq!(v["params"][0], serde_json::Value::from("worker"));
    assert_eq!(v["params"][1], serde_json::Value::from("top\"secret\\"));
}

#[test]
fn parser_accepts_serde_json_output() {
    let text = "{\"id\": 1, \"method\": \"mining.subscribe\", \"params\": [null, null, \"url\", \"3333\"]}";
    let v: serde_json::Value = serde_json::from_str(text).unwrap();
    let compact = serde_json::to_vec(&v).unwrap();
    let f = codec::decode(&compact).unwrap();
    match f {
        Frame::Request(req) => {
            assert_eq!(req.id, Some(1));
            assert_eq!(req.payload.method, Method::Subscribe);
            let s = Subscribe::from_request(req).unwrap();
            assert!(s.agent_signature().is_none());
            assert_eq!(s.url().unwrap(), &b"url".to_vec());
        }
        Frame::Response(_) => panic!("classified as response"),
    }
}

#[test]
fn parser_rejects_malformed_documents() {
    for text in [
        &b"{"[..],
        b"[1,",
        b"\"abc",
        b"tru",
        b"{\"a\":1,}",
        b"1 2",
        b"",
        b"{\"a\" 1}",
        b"1.",
        b"1e",
        b"1e+",
        b"-",
        b".5",
        b"\"\\x\"",
        b"\"\\u12\"",
    ] {
        assert!(codec::json_parse(text).is_none(), "accepted {:?}", text);
    }
}

#[test]
fn parser_handles_numbers_and_escapes() {
    assert_eq!(codec::json_parse(b"9223372036854775807"), Some(JsonValue::Num(i64::MAX)));
    assert_eq!(codec::json_parse(b"-42"), Some(JsonValue::Num(-42)));
    assert_eq!(codec::json_parse(b" 0 "), Some(JsonValue::Num(0)));
    assert_eq!(
        codec::json_parse(b"\"a\\\"b\\\\c\\u0001\""),
        Some(JsonValue::Str(vec![b'a', b'"', b'b', b'\\', b'c', 0x01]))
    );
}

#[test]
fn parser_keeps_non_integer_numbers_as_lexemes() {
    // Fractional, exponent and out-of-range number tokens survive as
    // their exact lexeme bytes.
    assert_eq!(codec::json_parse(b"0.5"), Some(JsonValue::NumRaw(b"0.5".to_vec())));
    assert_eq!(codec::json_parse(b"-1.25e-3"), Some(JsonValue::NumRaw(b"-1.25e-3".to_vec())));
    assert_eq!(codec::json_parse(b"2E8"), Some(JsonValue::NumRaw(b"2E8".to_vec())));
    assert_eq!(
        codec::json_parse(b"9223372036854775808"),
        Some(JsonValue::NumRaw(b"9223372036854775808".to_vec()))
    );
    // The lexeme re-encodes verbatim.
    let bytes = codec::json_encode(&JsonValue::NumRaw(b"0.5".to_vec()));
    assert_eq!(bytes, b"0.5".to_vec());
    let sv: serde_json::Value = serde_json::from_slice(&bytes).unwrap();
    assert_eq!(sv, serde_json::Value::from(0.5f64));
}

#[test]
fn fractional_difficulty_frame_reaches_the_handler() {
    // A pool setting a fractional difficulty must not kill the frame.
    let f = codec::decode(b"{\"id\":1,\"method\":\"mining.set_difficulty\",\"params\":[0.5]}")
        .unwrap();
    match f {
        Frame::Request(req) => {
            assert_eq!(req.payload.method, Method::SetDifficulty);
            assert_eq!(
                req.payload.params,
                JsonValue::Arr(vec![JsonValue::NumRaw(b"0.5".to_vec())])
            );
        }
        Frame::Response(_) => panic!("classified as response"),
    }
}

#[test]
fn parser_accepts_standard_escapes() {
    assert_eq!(
        codec::json_parse(b"\"\\n\\t\\r\\b\\f\\/\""),
        Some(JsonValue::Str(vec![0x0a, 0x09, 0x0d, 0x08, 0x0c, b'/']))
    );
    // \u00e9 is two UTF-8 bytes, \u20ac three.
    assert_eq!(
        codec::json_parse(b"\"\\u00e9\\u20ac\""),
        Some(JsonValue::Str(vec![0xc3, 0xa9, 0xe2, 0x82, 0xac]))
    );
    // serde_json's own escaping of a newline is accepted.
    let sv = serde_json::Value::from("a\nb");
    let bytes = serde_json::to_vec(&sv).unwrap();
    assert_eq!(
        codec::json_parse(&bytes),
        Some(JsonValue::Str(vec![b'a', 0x0a, b'b']))
    );
}

#[test]
fn encoder_escapes_and_reparses() {
    let v = obj(vec![("k\"ey", jstr("a\\b")), ("ctl", JsonValue::Str(vec![0x01, 0x0a]))]);
    let bytes = codec::json_encode(&v);
    let back = codec::json_parse(&bytes).unwrap();
    assert_eq!(back, v);
    let sv: serde_json::Value = serde_json::from_slice(&bytes).unwrap();
    assert_eq!(sv["k\"ey"], serde_json::Value::from("a\\b"));
}

#[test]
fn json_dup_preserves_structure() {
    let v = obj(vec![("a", JsonValue::Arr(vec![JsonValue::Num(1), JsonValue::Null]))]);
    assert_eq!(json_dup(&v), v);
}

#[test]
fn request_id_forms() {
    // Absent and null ids are notifications; a numeric id is kept.
    let f = codec::decode(b"{\"method\":\"mining.notify\",\"params\":[]}").unwrap();
    assert!(matches!(f, Frame::Request(Request { id: None, .. })));
    let f = codec::decode(b"{\"id\":null,\"method\":\"mining.authorize\",\"params\":[]}").unwrap();
    assert!(matches!(f, Frame::Request(Request { id: None, .. })));
    // A string id is malformed; an out-of-range id is malformed.
    assert!(codec::decode(b"{\"id\":\"x\",\"method\":\"mining.authorize\",\"params\":[]}").is_err());
    assert!(codec::decode(b"{\"id\":4294967296,\"method\":\"mining.authorize\",\"params\":[]}")
        .is_err());
}

#[test]
fn encode_frame_decode_frame_value_level() {
    let payload = Authorize(b"w".to_vec(), b"p".to_vec()).to_request_payload().unwrap();
    let frame = Frame::Request(Request { id: None, payload });
    let v = encode_frame(&frame);
    let back = decode_frame(&v).unwrap();
    assert_eq!(back, frame);
}

struct RecordingHandler {
    subscribes: usize,
    authorizes: usize,
    difficulties: usize,
    notifies: usize,
    last_id: Option<u32>,
}

impl V1Handler for RecordingHandler {
    fn visit_subscribe(&mut self, id: Option<u32>, _payload: &Subscribe) {
        self.subscribes += 1;
        self.last_id = id;
    }

    fn visit_authorize(&mut self, id: Option<u32>, _payload: &Authorize) {
        self.authorizes += 1;
        self.last_id = id;
    }

    fn visit_set_difficulty(&mut self, id: Option<u32>, _params: &JsonValue) {
        self.difficulties += 1;
        self.last_id = id;
    }

    fn visit_notify(&mut self, id: Option<u32>, _payload: &Notify) {
        self.notifies += 1;
        self.last_id = id;
    }
}

#[test]
fn dispatch_routes_by_method() {
    let mut h = RecordingHandler {
        subscribes: 0,
        authorizes: 0,
        difficulties: 0,
        notifies: 0,
        last_id: None,
    };
    let notify = Request { id: Some(5), payload: sample_notify().to_request_payload().unwrap() };
    handle_request(notify, &mut h).unwrap();
    assert_eq!(h.notifies, 1);
    assert_eq!(h.last_id, Some(5));

    let auth = Request {
        id: None,
        payload: Authorize(b"w".to_vec(), b"p".to_vec()).to_request_payload().unwrap(),
    };
    handle_request(auth, &mut h).unwrap();
    assert_eq!(h.authorizes, 1);
    assert_eq!(h.last_id, None);

    // Difficulty updates hand the raw params through.
    let diff = match codec::decode(b"{\"id\":1,\"method\":\"mining.set_difficulty\",\"params\":[2]}")
        .unwrap()
    {
        Frame::Request(req) => req,
        Frame::Response(_) => panic!("classified as response"),
    };
    handle_request(diff, &mut h).unwrap();
    assert_eq!(h.difficulties, 1);

    // A bad payload is reported, and no visit happens.
    let bad = Request {
        id: Some(1),
        payload: RequestPayload { method: Method::Subscribe, params: JsonValue::Num(3) },
    };
    assert!(handle_request(bad, &mut h).is_err());
    assert_eq!(h.subscribes, 0);
}

#[test]
fn stratum_result_carries_value() {
    let payload = ResponsePayload {
        result: Some(StratumResult(JsonValue::Bool(false))),
        error: None,
    };
    let resp = Response { id: 1, payload };
    assert_eq!(BooleanResult::from_response(resp).unwrap(), BooleanResult(false));
}
