//! Wire framing of the JSON-RPC-style envelope.
//!
//! One frame is one JSON object: a request carries `id`, `method` and
//! `params`; a response carries `id` and exactly one of `result` and
//! `error`.  The boundary between the two is the presence of the
//! `method` member: an object without one is never read as a request,
//! and an object with neither `method` nor `result`/`error` is
//! malformed rather than a default response.

use vstd::prelude::*;
use vstd::string::StrSliceExecFns;
use vstd::string::StringSliceAdditionalSpecFns;

use crate::json::{json_view, jv_lookup, lookup_member, obj_view, JsonValue, Jv};

verus! {

/// The methods of the mining protocol this crate speaks.
#[derive(Clone, Copy, Debug, PartialEq, Eq, Structural)]
pub enum Method {
    Subscribe,
    Authorize,
    SetDifficulty,
    Notify,
}

/// Wire name of a method.
pub open spec fn method_name_view(m: Method) -> Seq<u8> {
    match m {
        Method::Subscribe => "mining.subscribe".spec_bytes(),
        Method::Authorize => "mining.authorize".spec_bytes(),
        Method::SetDifficulty => "mining.set_difficulty".spec_bytes(),
        Method::Notify => "mining.notify".spec_bytes(),
    }
}

/// Method denoted by a wire name, if any.
pub open spec fn method_of_name(s: Seq<u8>) -> Option<Method> {
    if s == "mining.subscribe".spec_bytes() {
        Some(Method::Subscribe)
    } else if s == "mining.authorize".spec_bytes() {
        Some(Method::Authorize)
    } else if s == "mining.set_difficulty".spec_bytes() {
        Some(Method::SetDifficulty)
    } else if s == "mining.notify".spec_bytes() {
        Some(Method::Notify)
    } else {
        None
    }
}

/// Wire name of a method, as bytes.
pub fn method_name(m: Method) -> (r: Vec<u8>)
    ensures
        r@ == method_name_view(m),
{
    match m {
        Method::Subscribe => ("mining.subscribe").as_bytes_vec(),
        Method::Authorize => ("mining.authorize").as_bytes_vec(),
        Method::SetDifficulty => ("mining.set_difficulty").as_bytes_vec(),
        Method::Notify => ("mining.notify").as_bytes_vec(),
    }
}

/// Look a wire name up among the known methods.
pub fn method_from_name(s: &[u8]) -> (r: Option<Method>)
    ensures
        r == method_of_name(s@),
{
    if crate::bytes_eq(s, ("mining.subscribe").as_bytes()) {
        Some(Method::Subscribe)
    } else if crate::bytes_eq(s, ("mining.authorize").as_bytes()) {
        Some(Method::Authorize)
    } else if crate::bytes_eq(s, ("mining.set_difficulty").as_bytes()) {
        Some(Method::SetDifficulty)
    } else if crate::bytes_eq(s, ("mining.notify").as_bytes()) {
        Some(Method::Notify)
    } else {
        None
    }
}

/// A request's payload: the method tag and the positional parameters.
#[derive(Debug, PartialEq, Eq)]
pub struct RequestPayload {
    pub method: Method,
    pub params: JsonValue,
}

/// A request envelope.  `id` is the correlation token; a notification
/// carries none.
#[derive(Debug, PartialEq, Eq)]
pub struct Request {
    pub id: Option<u32>,
    pub payload: RequestPayload,
}

/// The `result` member of a success response, still untyped.
#[derive(Debug, PartialEq, Eq)]
pub struct StratumResult(pub JsonValue);

/// The structured `error` member of a failure response, carried on the
/// wire as `[code, message, traceback]`.
#[derive(Debug, PartialEq, Eq)]
pub struct StratumError {
    pub code: i64,
    pub message: Vec<u8>,
    pub traceback: Option<Vec<u8>>,
}

/// A response's payload; exactly one of the two members is present.
#[derive(Debug, PartialEq, Eq)]
pub struct ResponsePayload {
    pub result: Option<StratumResult>,
    pub error: Option<StratumError>,
}

/// A response envelope; the `id` correlates it with a request.
#[derive(Debug, PartialEq, Eq)]
pub struct Response {
    pub id: u32,
    pub payload: ResponsePayload,
}

/// A decoded frame.
#[derive(Debug, PartialEq, Eq)]
pub enum Frame {
    Request(Request),
    Response(Response),
}

/// Why a frame could not be decoded.
#[derive(Debug, PartialEq, Eq)]
pub enum FrameError {
    /// The bytes are not a well-formed frame; carries a short reason.
    Malformed(Vec<u8>),
}

/// Model of a request.
pub ghost struct RequestV {
    pub id: Option<u32>,
    pub method: Method,
    pub params: Jv,
}

/// Model of a response's error member.
pub ghost struct StratumErrorV {
    pub code: int,
    pub message: Seq<u8>,
    pub traceback: Option<Seq<u8>>,
}

/// Model of a response.
pub ghost struct ResponseV {
    pub id: u32,
    pub result: Option<Jv>,
    pub error: Option<StratumErrorV>,
}

/// Model of a frame.
pub ghost enum FrameV {
    Request(RequestV),
    Response(ResponseV),
}

impl View for Request {
    type V = RequestV;

    open spec fn view(&self) -> RequestV {
        RequestV { id: self.id, method: self.payload.method, params: json_view(self.payload.params) }
    }
}

impl View for StratumError {
    type V = StratumErrorV;

    open spec fn view(&self) -> StratumErrorV {
        StratumErrorV {
            code: self.code as int,
            message: self.message@,
            traceback: match self.traceback {
                Some(t) => Some(t@),
                None => None,
            },
        }
    }
}

impl View for Response {
    type V = ResponseV;

    open spec fn view(&self) -> ResponseV {
        ResponseV {
            id: self.id,
            result: match self.payload.result {
                Some(r) => Some(json_view(r.0)),
                None => None,
            },
            error: match self.payload.error {
                Some(e) => Some(e@),
                None => None,
            },
        }
    }
}

impl View for Frame {
    type V = FrameV;

    open spec fn view(&self) -> FrameV {
        match self {
            Frame::Request(r) => FrameV::Request(r@),
            Frame::Response(r) => FrameV::Response(r@),
        }
    }
}

impl Response {
    /// Exactly one of `result` and `error` is present.
    pub open spec fn wf(&self) -> bool {
        self@.result is Some <==> self@.error is None
    }
}

impl Frame {
    /// Well-formedness: a response frame carries exactly one of
    /// `result` and `error`.
    pub open spec fn wf(&self) -> bool {
        match self {
            Frame::Request(_) => true,
            Frame::Response(r) => r.wf(),
        }
    }
}

/// The correlation token denoted by an optional `id` member: absent or
/// null means a notification; a number in 32-bit range is a token;
/// anything else is malformed.
pub open spec fn id_of_member(o: Option<Jv>) -> Option<Option<u32>> {
    match o {
        Option::None => Some(Option::<u32>::None),
        Option::Some(Jv::Null) => Some(Option::<u32>::None),
        Option::Some(Jv::Num(n)) => if 0 <= n <= u32::MAX {
            Some(Some(n as u32))
        } else {
            None
        },
        Option::Some(_) => None,
    }
}

/// The error member denoted by a JSON value: `[code, message]` with an
/// optional third element holding a traceback string or null.
pub open spec fn error_of_jv(v: Jv) -> Option<StratumErrorV> {
    match v {
        Jv::Arr(items) => {
            if 2 <= items.len() <= 3 && items[0] is Num && items[1] is Str && i64::MIN
                <= items[0]->Num_0 <= i64::MAX {
                let tb = if items.len() == 3 {
                    match items[2] {
                        Jv::Str(t) => Some(Some(t)),
                        Jv::Null => Some(Option::<Seq<u8>>::None),
                        _ => None,
                    }
                } else {
                    Some(Option::<Seq<u8>>::None)
                };
                match tb {
                    Some(t) => Some(
                        StratumErrorV {
                            code: items[0]->Num_0,
                            message: items[1]->Str_0,
                            traceback: t,
                        },
                    ),
                    None => None,
                }
            } else {
                None
            }
        },
        _ => None,
    }
}

/// An absent member: missing from the object or set to null.
pub open spec fn member_absent(o: Option<Jv>) -> bool {
    o is None || o == Some(Jv::Null)
}

/// Classification of a JSON object as a request, keyed on the method
/// member already found.
pub open spec fn classify_request(entries: Seq<(Seq<u8>, Jv)>, mv: Jv) -> Option<FrameV> {
    match mv {
        Jv::Str(name) => match method_of_name(name) {
            Some(m) => match jv_lookup(entries, "params".spec_bytes()) {
                Some(p) => match id_of_member(jv_lookup(entries, "id".spec_bytes())) {
                    Some(id) => Some(FrameV::Request(RequestV { id, method: m, params: p })),
                    None => None,
                },
                None => None,
            },
            None => None,
        },
        _ => None,
    }
}

/// Classification of a JSON object as a response: a numeric `id` and
/// exactly one of `result` and `error` present.
pub open spec fn classify_response(entries: Seq<(Seq<u8>, Jv)>) -> Option<FrameV> {
    let idm = jv_lookup(entries, "id".spec_bytes());
    let resm = jv_lookup(entries, "result".spec_bytes());
    let errm = jv_lookup(entries, "error".spec_bytes());
    if idm matches Some(Jv::Num(n)) && 0 <= n <= u32::MAX {
        if member_absent(errm) {
            match resm {
                Some(rv) => if rv != Jv::Null {
                    Some(
                        FrameV::Response(
                            ResponseV {
                                id: idm->0->Num_0 as u32,
                                result: Some(rv),
                                error: Option::<StratumErrorV>::None,
                            },
                        ),
                    )
                } else {
                    None
                },
                None => None,
            }
        } else if member_absent(resm) {
            match errm {
                Some(ev) => match error_of_jv(ev) {
                    Some(e) => Some(
                        FrameV::Response(
                            ResponseV {
                                id: idm->0->Num_0 as u32,
                                result: Option::<Jv>::None,
                                error: Some(e),
                            },
                        ),
                    ),
                    None => None,
                },
                None => None,
            }
        } else {
            None
        }
    } else {
        None
    }
}

/// Classification of a JSON value as a frame: an object with a
/// `method` member is read as a request and nothing else; an object
/// without one must qualify as a response.
pub open spec fn classify(v: Jv) -> Option<FrameV> {
    match v {
        Jv::Obj(entries) => match jv_lookup(entries, "method".spec_bytes()) {
            Some(mv) => classify_request(entries, mv),
            None => classify_response(entries),
        },
        _ => None,
    }
}

fn malformed(reason: &str) -> (r: FrameError) {
    FrameError::Malformed(reason.as_bytes_vec())
}

/// Read the optional `id` member of a request object.
fn decode_id_member(entries: &Vec<(Vec<u8>, JsonValue)>) -> (r: Result<Option<u32>, FrameError>)
    ensures
        match r {
            Ok(id) => id_of_member(jv_lookup(obj_view(entries@), "id".spec_bytes())) == Some(id),
            Err(_) => id_of_member(jv_lookup(obj_view(entries@), "id".spec_bytes())) is None,
        },
{
    match lookup_member(entries, ("id").as_bytes()) {
        Option::None => Ok(Option::None),
        Option::Some(JsonValue::Null) => Ok(Option::None),
        Option::Some(JsonValue::Num(n)) => {
            if *n >= 0 && *n <= u32::MAX as i64 {
                Ok(Some(*n as u32))
            } else {
                Err(malformed("id out of range"))
            }
        },
        Option::Some(_) => Err(malformed("id is not a number")),
    }
}

/// Read a request object, given its `method` member.
fn decode_request(entries: &Vec<(Vec<u8>, JsonValue)>, mv: &JsonValue) -> (r: Result<
    Frame,
    FrameError,
>)
    ensures
        match r {
            Ok(f) => classify_request(obj_view(entries@), json_view(*mv)) == Some(f@) && f.wf(),
            Err(_) => classify_request(obj_view(entries@), json_view(*mv)) is None,
        },
{
    let name = match mv {
        JsonValue::Str(name) => name,
        _ => {
            return Err(malformed("method is not a string"));
        },
    };
    let m = match method_from_name(name.as_slice()) {
        Some(m) => m,
        None => {
            return Err(malformed("unknown method"));
        },
    };
    let params = match lookup_member(entries, ("params").as_bytes()) {
        Some(p) => crate::json::json_dup(p),
        None => {
            return Err(malformed("missing params"));
        },
    };
    let id = match decode_id_member(entries) {
        Ok(id) => id,
        Err(e) => {
            return Err(e);
        },
    };
    Ok(Frame::Request(Request { id, payload: RequestPayload { method: m, params } }))
}

/// Read the error member's `[code, message, traceback]` array.
fn decode_error_member(ev: &JsonValue) -> (r: Option<StratumError>)
    ensures
        match r {
            Some(e) => error_of_jv(json_view(*ev)) == Some(e@),
            None => error_of_jv(json_view(*ev)) is None,
        },
{
    let items = match ev {
        JsonValue::Arr(items) => items,
        _ => {
            return None;
        },
    };
    if items.len() < 2 || items.len() > 3 {
        return None;
    }
    proof {
        let ji = json_view(*ev)->Arr_0;
        assert(ji.len() == items@.len());
        assert(ji[0] == json_view(items@[0]));
        assert(ji[1] == json_view(items@[1]));
        if items@.len() == 3 {
            assert(ji[2] == json_view(items@[2]));
        }
    }
    let code = match &items[0] {
        JsonValue::Num(c) => *c,
        _ => {
            return None;
        },
    };
    let message = match &items[1] {
        JsonValue::Str(msg) => vstd::slice::slice_to_vec(msg.as_slice()),
        _ => {
            return None;
        },
    };
    let traceback = if items.len() == 3 {
        match &items[2] {
            JsonValue::Str(t) => Some(vstd::slice::slice_to_vec(t.as_slice())),
            JsonValue::Null => None,
            _ => {
                return None;
            },
        }
    } else {
        None
    };
    Some(StratumError { code, message, traceback })
}

/// Is this member value absent-or-null?
fn member_is_absent(o: &Option<&JsonValue>) -> (r: bool)
    ensures
        r == member_absent(
            match *o {
                Some(v) => Some(json_view(*v)),
                None => None,
            },
        ),
{
    match o {
        Option::None => true,
        Option::Some(JsonValue::Null) => true,
        Option::Some(_) => false,
    }
}

/// Read a response object.
fn decode_response(entries: &Vec<(Vec<u8>, JsonValue)>) -> (r: Result<Frame, FrameError>)
    ensures
        match r {
            Ok(f) => classify_response(obj_view(entries@)) == Some(f@) && f.wf(),
            Err(_) => classify_response(obj_view(entries@)) is None,
        },
{
    let id = match lookup_member(entries, ("id").as_bytes()) {
        Option::Some(JsonValue::Num(n)) => {
            if *n >= 0 && *n <= u32::MAX as i64 {
                *n as u32
            } else {
                return Err(malformed("id out of range"));
            }
        },
        _ => {
            return Err(malformed("response without a numeric id"));
        },
    };
    let resm = lookup_member(entries, ("result").as_bytes());
    let errm = lookup_member(entries, ("error").as_bytes());
    if member_is_absent(&errm) {
        match resm {
            Option::Some(rv) => {
                if matches!(rv, JsonValue::Null) {
                    return Err(malformed("response with neither result nor error"));
                }
                Ok(
                    Frame::Response(
                        Response {
                            id,
                            payload: ResponsePayload {
                                result: Some(StratumResult(crate::json::json_dup(rv))),
                                error: None,
                            },
                        },
                    ),
                )
            },
            Option::None => Err(malformed("response with neither result nor error")),
        }
    } else if member_is_absent(&resm) {
        match errm {
            Option::Some(ev) => {
                match decode_error_member(ev) {
                    Some(e) => Ok(
                        Frame::Response(
                            Response {
                                id,
                                payload: ResponsePayload { result: None, error: Some(e) },
                            },
                        ),
                    ),
                    None => Err(malformed("malformed error member")),
                }
            },
            Option::None => Err(malformed("response with neither result nor error")),
        }
    } else {
        Err(malformed("response with both result and error"))
    }
}

/// Decode a JSON value into a frame.  An object with a `method`
/// member is a request; one without is a response needing a numeric
/// `id` and exactly one of `result`/`error`; everything else is
/// malformed — in particular an object with none of the three, such
/// as a bare `{"id":1}`, is never read as a default response.
pub fn decode_frame(v: &JsonValue) -> (r: Result<Frame, FrameError>)
    ensures
        match r {
            Ok(f) => classify(json_view(*v)) == Some(f@) && f.wf(),
            Err(_) => classify(json_view(*v)) is None,
        },
{
    let entries = match v {
        JsonValue::Obj(entries) => entries,
        _ => {
            return Err(malformed("frame is not an object"));
        },
    };
    match lookup_member(entries, ("method").as_bytes()) {
        Some(mv) => decode_request(entries, mv),
        None => decode_response(entries),
    }
}

/// JSON form of an optional correlation token.
pub open spec fn jv_of_id(id: Option<u32>) -> Jv {
    match id {
        Some(n) => Jv::Num(n as int),
        None => Jv::Null,
    }
}

/// JSON form of the error member: always `[code, message, traceback]`.
pub open spec fn jv_of_error(e: StratumErrorV) -> Jv {
    Jv::Arr(
        seq![
            Jv::Num(e.code),
            Jv::Str(e.message),
            match e.traceback {
                Some(t) => Jv::Str(t),
                None => Jv::Null,
            },
        ],
    )
}

/// JSON form of a frame: a request carries `id`, `method`, `params`;
/// a response carries `id` and both `result` and `error`, the absent
/// one as null.
pub open spec fn jv_of_frame(f: FrameV) -> Jv {
    match f {
        FrameV::Request(rq) => Jv::Obj(
            seq![
                ("id".spec_bytes(), jv_of_id(rq.id)),
                ("method".spec_bytes(), Jv::Str(method_name_view(rq.method))),
                ("params".spec_bytes(), rq.params),
            ],
        ),
        FrameV::Response(rs) => Jv::Obj(
            seq![
                ("id".spec_bytes(), Jv::Num(rs.id as int)),
                (
                    "result".spec_bytes(),
                    match rs.result {
                        Some(rv) => rv,
                        None => Jv::Null,
                    },
                ),
                (
                    "error".spec_bytes(),
                    match rs.error {
                        Some(e) => jv_of_error(e),
                        None => Jv::Null,
                    },
                ),
            ],
        ),
    }
}

/// Encode a frame as a JSON value.
pub fn encode_frame(f: &Frame) -> (r: JsonValue)
    ensures
        json_view(r) == jv_of_frame(f@),
{
    match f {
        Frame::Request(rq) => {
            let idv = match rq.id {
                Some(n) => JsonValue::Num(n as i64),
                None => JsonValue::Null,
            };
            let mut entries: Vec<(Vec<u8>, JsonValue)> = Vec::new();
            entries.push((("id").as_bytes_vec(), idv));
            entries.push(
                (("method").as_bytes_vec(), JsonValue::Str(method_name(rq.payload.method))),
            );
            entries.push((("params").as_bytes_vec(), crate::json::json_dup(&rq.payload.params)));
            let r = JsonValue::Obj(entries);
            proof {
                let m = obj_view(entries@);
                let t = jv_of_frame(f@)->Obj_0;
                assert(entries@[0].0@ == "id".spec_bytes() && json_view(entries@[0].1) == jv_of_id(
                    rq.id,
                ));
                assert(entries@[1].0@ == "method".spec_bytes() && json_view(entries@[1].1)
                    == Jv::Str(method_name_view(rq.payload.method)));
                assert(entries@[2].0@ == "params".spec_bytes() && json_view(entries@[2].1)
                    == rq@.params);
                assert(m[0] == t[0] && m[1] == t[1] && m[2] == t[2]);
                assert(m =~= t);
            }
            r
        },
        Frame::Response(rs) => {
            let resv = match &rs.payload.result {
                Some(sr) => crate::json::json_dup(&sr.0),
                None => JsonValue::Null,
            };
            let errv = match &rs.payload.error {
                Some(e) => {
                    let mut items: Vec<JsonValue> = Vec::new();
                    items.push(JsonValue::Num(e.code));
                    items.push(JsonValue::Str(vstd::slice::slice_to_vec(e.message.as_slice())));
                    items.push(
                        match &e.traceback {
                            Some(t) => JsonValue::Str(vstd::slice::slice_to_vec(t.as_slice())),
                            None => JsonValue::Null,
                        },
                    );
                    let ev = JsonValue::Arr(items);
                    proof {
                        let m = json_view(ev)->Arr_0;
                        let t = jv_of_error(e@)->Arr_0;
                        assert(json_view(items@[0]) == Jv::Num(e@.code));
                        assert(json_view(items@[1]) == Jv::Str(e@.message));
                        assert(json_view(items@[2]) == (match e@.traceback {
                            Some(tb) => Jv::Str(tb),
                            None => Jv::Null,
                        }));
                        assert(m[0] == t[0] && m[1] == t[1] && m[2] == t[2]);
                        assert(m =~= t);
                    }
                    ev
                },
                None => JsonValue::Null,
            };
            let mut entries: Vec<(Vec<u8>, JsonValue)> = Vec::new();
            entries.push((("id").as_bytes_vec(), JsonValue::Num(rs.id as i64)));
            entries.push((("result").as_bytes_vec(), resv));
            entries.push((("error").as_bytes_vec(), errv));
            let r = JsonValue::Obj(entries);
            proof {
                let m = obj_view(entries@);
                let t = jv_of_frame(f@)->Obj_0;
                assert(entries@[0].0@ == "id".spec_bytes() && json_view(entries@[0].1) == Jv::Num(
                    rs.id as int,
                ));
                assert(entries@[1].0@ == "result".spec_bytes() && json_view(entries@[1].1)
                    == (match rs@.result {
                    Some(rv) => rv,
                    None => Jv::Null,
                }));
                assert(entries@[2].0@ == "error".spec_bytes() && json_view(entries@[2].1)
                    == (match rs@.error {
                    Some(e) => jv_of_error(e),
                    None => Jv::Null,
                }));
                assert(m[0] == t[0] && m[1] == t[1] && m[2] == t[2]);
                assert(m =~= t);
            }
            r
        },
    }
}

} // verus!

verus! {

proof fn lemma_wire_keys()
    ensures
        "id".spec_bytes() != "method".spec_bytes(),
        "params".spec_bytes() != "method".spec_bytes(),
        "result".spec_bytes() != "method".spec_bytes(),
        "error".spec_bytes() != "method".spec_bytes(),
        "id".spec_bytes() != "params".spec_bytes(),
        "id".spec_bytes() != "result".spec_bytes(),
        "id".spec_bytes() != "error".spec_bytes(),
        "result".spec_bytes() != "error".spec_bytes(),
{
    reveal_strlit("id");
    reveal_strlit("method");
    reveal_strlit("params");
    reveal_strlit("result");
    reveal_strlit("error");
    broadcast use vstd::string::is_ascii_spec_bytes;

    assert(vstd::string::is_ascii("id"));
    assert(vstd::string::is_ascii("method"));
    assert(vstd::string::is_ascii("params"));
    assert(vstd::string::is_ascii("result"));
    assert(vstd::string::is_ascii("error"));
    assert("id".spec_bytes().len() == 2);
    assert("method".spec_bytes().len() == 6);
    assert("params".spec_bytes().len() == 6);
    assert("result".spec_bytes().len() == 6);
    assert("error".spec_bytes().len() == 5);
    assert("method".spec_bytes()[0] == 0x6du8);
    assert("params".spec_bytes()[0] == 0x70u8);
    assert("result".spec_bytes()[0] == 0x72u8);
}

/// Every method name maps back to its method: the name table has no
/// collisions.
pub proof fn lemma_method_name_round_trip(m: Method)
    ensures
        method_of_name(method_name_view(m)) == Some(m),
{
    reveal_strlit("mining.subscribe");
    reveal_strlit("mining.authorize");
    reveal_strlit("mining.set_difficulty");
    reveal_strlit("mining.notify");
    broadcast use vstd::string::is_ascii_spec_bytes;

    assert(vstd::string::is_ascii("mining.subscribe"));
    assert(vstd::string::is_ascii("mining.authorize"));
    assert(vstd::string::is_ascii("mining.set_difficulty"));
    assert(vstd::string::is_ascii("mining.notify"));
    assert("mining.subscribe".spec_bytes().len() == 16);
    assert("mining.authorize".spec_bytes().len() == 16);
    assert("mining.set_difficulty".spec_bytes().len() == 21);
    assert("mining.notify".spec_bytes().len() == 13);
    assert("mining.subscribe".spec_bytes()[7] == 0x73u8);
    assert("mining.authorize".spec_bytes()[7] == 0x61u8);
}

/// Round trip: a well-formed frame survives encoding to a JSON value
/// and classification back unchanged.  Left out: a response whose
/// `result` is the JSON null (its wire form reads as an absent
/// result), and an error code outside the wire's 64-bit signed range.
pub proof fn lemma_frame_round_trip(f: FrameV)
    requires
        f matches FrameV::Response(rs) ==> {
            &&& rs.result is Some <==> rs.error is None
            &&& (rs.result matches Some(rv) ==> rv != Jv::Null)
            &&& (rs.error matches Some(e) ==> i64::MIN <= e.code <= i64::MAX)
        },
    ensures
        classify(jv_of_frame(f)) == Some(f),
{
    lemma_wire_keys();
    reveal_with_fuel(jv_lookup, 5);
    let entries = jv_of_frame(f)->Obj_0;
    assert(entries.drop_first() =~= seq![entries[1], entries[2]]);
    assert(entries.drop_first().drop_first() =~= seq![entries[2]]);
    assert(entries.drop_first().drop_first().drop_first() =~= Seq::<(Seq<u8>, Jv)>::empty());
    match f {
        FrameV::Request(rq) => {
            lemma_method_name_round_trip(rq.method);
            assert(jv_lookup(entries, "method".spec_bytes()) == Some(
                Jv::Str(method_name_view(rq.method)),
            ));
            assert(jv_lookup(entries, "params".spec_bytes()) == Some(rq.params));
            assert(jv_lookup(entries, "id".spec_bytes()) == Some(jv_of_id(rq.id)));
            assert(id_of_member(Some(jv_of_id(rq.id))) == Some(rq.id));
        },
        FrameV::Response(rs) => {
            assert(jv_lookup(entries, "method".spec_bytes()) is None);
            assert(jv_lookup(entries, "id".spec_bytes()) == Some(Jv::Num(rs.id as int)));
            assert(jv_lookup(entries, "result".spec_bytes()) == Some(entries[1].1));
            assert(jv_lookup(entries, "error".spec_bytes()) == Some(entries[2].1));
            match rs.error {
                Some(e) => {
                    assert(error_of_jv(jv_of_error(e)) == Some(e));
                },
                None => {},
            }
        },
    }
}

} // verus!
