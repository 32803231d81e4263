//! Typed mining messages and their positional payload conversions.
//!
//! Each message maps 1:1 to a wire method; its fields travel
//! positionally in the `params` array (requests) or in the `result`
//! member (responses).  The two directions are mutually inverse on
//! well-formed values; the round-trip lemmas at the end state that.

use vstd::prelude::*;
use vstd::string::StrSliceExecFns;
use vstd::string::StringSliceAdditionalSpecFns;

use crate::framing::{Method, Request, RequestPayload, Response, ResponsePayload, StratumResult};
use crate::hex::{
    hex_decoding_of, hex_encoding_of, is_hex_string, le_bytes_of_u32, u32_of_le_bytes, HexBytes,
    HexU32Le,
};
use crate::json::{json_view, JsonValue, Jv};

verus! {

/// Why a typed conversion failed.
#[derive(Debug, PartialEq, Eq)]
pub enum ConversionError {
    /// The payload's shape does not fit the message; short description.
    Json(Vec<u8>),
    /// An expected member was absent; carries the member's name.
    Missing(Vec<u8>),
}

/// Server-assigned nonce prefix, a hex string on the wire.
#[derive(Debug, PartialEq, Eq)]
pub struct ExtraNonce1(pub HexBytes);

impl View for ExtraNonce1 {
    type V = Seq<u8>;

    open spec fn view(&self) -> Seq<u8> {
        self.0.0@
    }
}

/// Optional byte-string field as an optional sequence.
pub open spec fn opt_bytes(o: Option<Vec<u8>>) -> Option<Seq<u8>> {
    match o {
        Some(v) => Some(v@),
        None => None,
    }
}

/// JSON form of an optional string field: the string or null.
pub open spec fn jv_of_opt_str(o: Option<Seq<u8>>) -> Jv {
    match o {
        Some(s) => Jv::Str(s),
        None => Jv::Null,
    }
}

/// JSON form of an optional binary field: its hex string or null.
pub open spec fn jv_of_opt_hex(o: Option<Seq<u8>>) -> Jv {
    match o {
        Some(bs) => Jv::Str(hex_encoding_of(bs)),
        None => Jv::Null,
    }
}

/// Optional string field denoted by a JSON value.
pub open spec fn opt_str_of_jv(v: Jv) -> Option<Option<Seq<u8>>> {
    match v {
        Jv::Null => Some(Option::<Seq<u8>>::None),
        Jv::Str(s) => Some(Some(s)),
        _ => None,
    }
}

/// Optional binary field denoted by a JSON value holding hex.
pub open spec fn opt_hex_of_jv(v: Jv) -> Option<Option<Seq<u8>>> {
    match v {
        Jv::Null => Some(Option::<Seq<u8>>::None),
        Jv::Str(s) => if is_hex_string(s) {
            Some(Some(hex_decoding_of(s)))
        } else {
            None
        },
        _ => None,
    }
}

fn bad_shape(reason: &str) -> (r: ConversionError)
    ensures
        r is Json,
{
    ConversionError::Json(reason.as_bytes_vec())
}

/// Read an optional string parameter.
fn opt_str_param(v: JsonValue) -> (r: Result<Option<Vec<u8>>, ConversionError>)
    ensures
        match r {
            Ok(o) => opt_str_of_jv(json_view(v)) == Some(opt_bytes(o)),
            Err(e) => opt_str_of_jv(json_view(v)) is None && e is Json,
        },
{
    match v {
        JsonValue::Null => Ok(None),
        JsonValue::Str(s) => Ok(Some(s)),
        _ => Err(bad_shape("expected a string or null")),
    }
}

/// Read an optional hex-encoded binary parameter.
fn opt_hex_param(v: JsonValue) -> (r: Result<Option<HexBytes>, ConversionError>)
    ensures
        match r {
            Ok(o) => opt_hex_of_jv(json_view(v)) == Some(
                match o {
                    Some(h) => Some(h.0@),
                    None => None,
                },
            ),
            Err(e) => opt_hex_of_jv(json_view(v)) is None && e is Json,
        },
{
    match v {
        JsonValue::Null => Ok(None),
        JsonValue::Str(s) => match HexBytes::from_wire(s.as_slice()) {
            Some(h) => Ok(Some(h)),
            None => Err(bad_shape("expected a hex string")),
        },
        _ => Err(bad_shape("expected a hex string or null")),
    }
}

/// Read a required hex-encoded binary parameter.
fn hex_param(v: JsonValue) -> (r: Result<HexBytes, ConversionError>)
    ensures
        match r {
            Ok(h) => json_view(v) matches Jv::Str(s) && is_hex_string(s) && h.0@
                == hex_decoding_of(s),
            Err(e) => !(json_view(v) matches Jv::Str(s) && is_hex_string(s)) && e is Json,
        },
{
    match v {
        JsonValue::Str(s) => match HexBytes::from_wire(s.as_slice()) {
            Some(h) => Ok(h),
            None => Err(bad_shape("expected a hex string")),
        },
        _ => Err(bad_shape("expected a hex string")),
    }
}

/// Read a 32-bit little-endian-hex parameter.
fn hex_u32_param(v: JsonValue) -> (r: Result<HexU32Le, ConversionError>)
    ensures
        match r {
            Ok(h) => json_view(v) matches Jv::Str(s) && s.len() == 8 && is_hex_string(s) && h.0
                == u32_of_le_bytes(hex_decoding_of(s)),
            Err(e) => !(json_view(v) matches Jv::Str(s) && s.len() == 8 && is_hex_string(s)) && e
                is Json,
        },
{
    match v {
        JsonValue::Str(s) => match HexU32Le::from_wire(s.as_slice()) {
            Some(h) => Ok(h),
            None => Err(bad_shape("expected eight hex digits")),
        },
        _ => Err(bad_shape("expected eight hex digits")),
    }
}

/// Mining subscription request: optional agent signature, previous
/// extra-nonce prefix, pool URL and port, all positional.
#[derive(Debug, PartialEq, Eq)]
pub struct Subscribe(
    pub Option<Vec<u8>>,
    pub Option<ExtraNonce1>,
    pub Option<Vec<u8>>,
    pub Option<Vec<u8>>,
);

/// Model of [`Subscribe`].
pub ghost struct SubscribeV {
    pub agent_signature: Option<Seq<u8>>,
    pub extra_nonce1: Option<Seq<u8>>,
    pub url: Option<Seq<u8>>,
    pub port: Option<Seq<u8>>,
}

impl View for Subscribe {
    type V = SubscribeV;

    open spec fn view(&self) -> SubscribeV {
        SubscribeV {
            agent_signature: opt_bytes(self.0),
            extra_nonce1: match self.1 {
                Some(en) => Some(en@),
                None => None,
            },
            url: opt_bytes(self.2),
            port: opt_bytes(self.3),
        }
    }
}

/// Positional params of a subscription request.
pub open spec fn subscribe_params(v: SubscribeV) -> Jv {
    Jv::Arr(
        seq![
            jv_of_opt_str(v.agent_signature),
            jv_of_opt_hex(v.extra_nonce1),
            jv_of_opt_str(v.url),
            jv_of_opt_str(v.port),
        ],
    )
}

/// Subscription request denoted by a params value, if well-shaped.
pub open spec fn subscribe_of_params(p: Jv) -> Option<SubscribeV> {
    match p {
        Jv::Arr(items) => {
            if items.len() == 4 {
                match (
                    opt_str_of_jv(items[0]),
                    opt_hex_of_jv(items[1]),
                    opt_str_of_jv(items[2]),
                    opt_str_of_jv(items[3]),
                ) {
                    (Some(a), Some(e), Some(u), Some(po)) => Some(
                        SubscribeV { agent_signature: a, extra_nonce1: e, url: u, port: po },
                    ),
                    _ => None,
                }
            } else {
                None
            }
        },
        _ => None,
    }
}

impl Subscribe {
    /// The mining agent's signature string, if given.
    pub fn agent_signature(&self) -> (r: Option<&Vec<u8>>)
        ensures
            match r {
                Some(s) => self@.agent_signature == Some(s@),
                None => self@.agent_signature is None,
            },
    {
        self.0.as_ref()
    }

    /// The extra-nonce prefix of a previous session, if given.
    pub fn extra_nonce1(&self) -> (r: Option<&ExtraNonce1>)
        ensures
            match r {
                Some(en) => self@.extra_nonce1 == Some(en@),
                None => self@.extra_nonce1 is None,
            },
    {
        self.1.as_ref()
    }

    /// The pool URL, if given.
    pub fn url(&self) -> (r: Option<&Vec<u8>>)
        ensures
            match r {
                Some(s) => self@.url == Some(s@),
                None => self@.url is None,
            },
    {
        self.2.as_ref()
    }

    /// The pool TCP port, if given.
    pub fn port(&self) -> (r: Option<&Vec<u8>>)
        ensures
            match r {
                Some(s) => self@.port == Some(s@),
                None => self@.port is None,
            },
    {
        self.3.as_ref()
    }

    /// Serialize into a tagged request payload.
    pub fn to_request_payload(self) -> (r: Result<RequestPayload, ConversionError>)
        ensures
            r matches Ok(p) && p.method == Method::Subscribe && json_view(p.params)
                == subscribe_params(self@),
    {
        let ghost model = self@;
        let Subscribe(a, e, u, po) = self;
        let mut items: Vec<JsonValue> = Vec::new();
        items.push(
            match a {
                Some(s) => JsonValue::Str(s),
                None => JsonValue::Null,
            },
        );
        items.push(
            match e {
                Some(en) => JsonValue::Str(en.0.to_wire()),
                None => JsonValue::Null,
            },
        );
        items.push(
            match u {
                Some(s) => JsonValue::Str(s),
                None => JsonValue::Null,
            },
        );
        items.push(
            match po {
                Some(s) => JsonValue::Str(s),
                None => JsonValue::Null,
            },
        );
        let params = JsonValue::Arr(items);
        proof {
            crate::json::lemma_json_view_arr(items, 0);
            crate::json::lemma_json_view_arr(items, 1);
            crate::json::lemma_json_view_arr(items, 2);
            crate::json::lemma_json_view_arr(items, 3);
            assert(json_view(items@[0]) == jv_of_opt_str(model.agent_signature));
            assert(json_view(items@[1]) == jv_of_opt_hex(model.extra_nonce1));
            assert(json_view(items@[2]) == jv_of_opt_str(model.url));
            assert(json_view(items@[3]) == jv_of_opt_str(model.port));
            assert(json_view(params)->Arr_0 =~= subscribe_params(model)->Arr_0);
        }
        Ok(RequestPayload { method: Method::Subscribe, params })
    }

    /// Deserialize from a request envelope.
    ///
    /// The caller has already matched the envelope's method against
    /// this type's tag; passing a request with any other tag is a
    /// programming error, excluded by precondition rather than
    /// reported at run time.
    pub fn from_request(req: Request) -> (r: Result<Subscribe, ConversionError>)
        requires
            req@.method == Method::Subscribe,
        ensures
            match r {
                Ok(t) => subscribe_of_params(req@.params) == Some(t@),
                Err(e) => subscribe_of_params(req@.params) is None && e is Json,
            },
    {
        let mut items = match req.payload.params {
            JsonValue::Arr(items) => items,
            _ => {
                return Err(bad_shape("params is not an array"));
            },
        };
        if items.len() != 4 {
            return Err(bad_shape("subscribe takes four parameters"));
        }
        let ghost ji = json_view(JsonValue::Arr(items))->Arr_0;
        proof {
            crate::json::lemma_json_view_arr(items, 0);
            crate::json::lemma_json_view_arr(items, 1);
            crate::json::lemma_json_view_arr(items, 2);
            crate::json::lemma_json_view_arr(items, 3);
        }
        let i3 = items.pop().unwrap();
        let i2 = items.pop().unwrap();
        let i1 = items.pop().unwrap();
        let i0 = items.pop().unwrap();
        let a = match opt_str_param(i0) {
            Ok(o) => o,
            Err(e) => {
                return Err(e);
            },
        };
        let en = match opt_hex_param(i1) {
            Ok(o) => match o {
                Some(h) => Some(ExtraNonce1(h)),
                None => None,
            },
            Err(e) => {
                return Err(e);
            },
        };
        let u = match opt_str_param(i2) {
            Ok(o) => o,
            Err(e) => {
                return Err(e);
            },
        };
        let po = match opt_str_param(i3) {
            Ok(o) => o,
            Err(e) => {
                return Err(e);
            },
        };
        Ok(Subscribe(a, en, u, po))
    }
}

/// Round trip: a subscription request survives conversion to params
/// and back unchanged.
pub proof fn lemma_subscribe_round_trip(v: SubscribeV)
    ensures
        subscribe_of_params(subscribe_params(v)) == Some(v),
{
    match v.extra_nonce1 {
        Some(bs) => crate::hex::lemma_hex_round_trip(bs),
        None => {},
    }
}

/// Custom subscription entry: a pair of method name and session id.
#[derive(Debug, PartialEq, Eq)]
pub struct Subscription(pub Vec<u8>, pub Vec<u8>);

impl View for Subscription {
    type V = (Seq<u8>, Seq<u8>);

    open spec fn view(&self) -> (Seq<u8>, Seq<u8>) {
        (self.0@, self.1@)
    }
}

/// Worker authorization request: name and password, positional.
#[derive(Debug, PartialEq, Eq)]
pub struct Authorize(pub Vec<u8>, pub Vec<u8>);

/// Model of [`Authorize`].
pub ghost struct AuthorizeV {
    pub name: Seq<u8>,
    pub password: Seq<u8>,
}

impl View for Authorize {
    type V = AuthorizeV;

    open spec fn view(&self) -> AuthorizeV {
        AuthorizeV { name: self.0@, password: self.1@ }
    }
}

/// Positional params of an authorization request.
pub open spec fn authorize_params(v: AuthorizeV) -> Jv {
    Jv::Arr(seq![Jv::Str(v.name), Jv::Str(v.password)])
}

/// Authorization request denoted by a params value, if well-shaped.
pub open spec fn authorize_of_params(p: Jv) -> Option<AuthorizeV> {
    match p {
        Jv::Arr(items) => {
            if items.len() == 2 && items[0] is Str && items[1] is Str {
                Some(AuthorizeV { name: items[0]->Str_0, password: items[1]->Str_0 })
            } else {
                None
            }
        },
        _ => None,
    }
}

impl Authorize {
    /// The worker's login name.
    pub fn name(&self) -> (r: &Vec<u8>)
        ensures
            r@ == self@.name,
    {
        &self.0
    }

    /// The worker's password.
    pub fn password(&self) -> (r: &Vec<u8>)
        ensures
            r@ == self@.password,
    {
        &self.1
    }

    /// Serialize into a tagged request payload.
    pub fn to_request_payload(self) -> (r: Result<RequestPayload, ConversionError>)
        ensures
            r matches Ok(p) && p.method == Method::Authorize && json_view(p.params)
                == authorize_params(self@),
    {
        let ghost model = self@;
        let Authorize(name, password) = self;
        let mut items: Vec<JsonValue> = Vec::new();
        items.push(JsonValue::Str(name));
        items.push(JsonValue::Str(password));
        let params = JsonValue::Arr(items);
        proof {
            crate::json::lemma_json_view_arr(items, 0);
            crate::json::lemma_json_view_arr(items, 1);
            assert(json_view(items@[0]) == Jv::Str(model.name));
            assert(json_view(items@[1]) == Jv::Str(model.password));
            assert(json_view(params)->Arr_0 =~= authorize_params(model)->Arr_0);
        }
        Ok(RequestPayload { method: Method::Authorize, params })
    }

    /// Deserialize from a request envelope; the caller has already
    /// matched the method tag (precondition, as for
    /// [`Subscribe::from_request`]).
    pub fn from_request(req: Request) -> (r: Result<Authorize, ConversionError>)
        requires
            req@.method == Method::Authorize,
        ensures
            match r {
                Ok(t) => authorize_of_params(req@.params) == Some(t@),
                Err(e) => authorize_of_params(req@.params) is None && e is Json,
            },
    {
        let mut items = match req.payload.params {
            JsonValue::Arr(items) => items,
            _ => {
                return Err(bad_shape("params is not an array"));
            },
        };
        if items.len() != 2 {
            return Err(bad_shape("authorize takes two parameters"));
        }
        let ghost ji = json_view(JsonValue::Arr(items))->Arr_0;
        proof {
            crate::json::lemma_json_view_arr(items, 0);
            crate::json::lemma_json_view_arr(items, 1);
        }
        let i1 = items.pop().unwrap();
        let i0 = items.pop().unwrap();
        let name = match i0 {
            JsonValue::Str(s) => s,
            _ => {
                return Err(bad_shape("name is not a string"));
            },
        };
        let password = match i1 {
            JsonValue::Str(s) => s,
            _ => {
                return Err(bad_shape("password is not a string"));
            },
        };
        Ok(Authorize(name, password))
    }
}

/// Round trip: an authorization request survives conversion to params
/// and back unchanged.
pub proof fn lemma_authorize_round_trip(v: AuthorizeV)
    ensures
        authorize_of_params(authorize_params(v)) == Some(v),
{
}

/// Opaque job identifier, hex on the wire.
#[derive(Debug, PartialEq, Eq)]
pub struct JobId(pub HexBytes);

/// Word of the previous block hash, little-endian hex on the wire.
#[derive(Debug, PartialEq, Eq)]
pub struct PrevHash(pub HexU32Le);

/// Leading part of the coinbase transaction.
#[derive(Debug, PartialEq, Eq)]
pub struct CoinBase1(pub HexBytes);

/// Trailing part of the coinbase transaction.
#[derive(Debug, PartialEq, Eq)]
pub struct CoinBase2(pub HexBytes);

/// Merkle branch of transaction hashes leading to the coinbase.
#[derive(Debug, PartialEq, Eq)]
pub struct MerkleBranch(pub Vec<HexBytes>);

impl View for MerkleBranch {
    type V = Seq<Seq<u8>>;

    open spec fn view(&self) -> Seq<Seq<u8>> {
        Seq::new(
            self.0@.len(),
            |i: int|
                if 0 <= i < self.0@.len() {
                    self.0@[i].0@
                } else {
                    Seq::empty()
                },
        )
    }
}

/// Version field of the block header, little-endian hex on the wire.
#[derive(Debug, PartialEq, Eq)]
pub struct Version(pub HexU32Le);

/// Network difficulty target bits, little-endian hex on the wire.
#[derive(Debug, PartialEq, Eq)]
pub struct Bits(pub HexU32Le);

/// Network time, little-endian hex on the wire.
#[derive(Debug, PartialEq, Eq)]
pub struct Time(pub HexU32Le);

/// New mining job notification.
#[derive(Debug, PartialEq, Eq)]
pub struct Notify(
    pub JobId,
    pub PrevHash,
    pub CoinBase1,
    pub CoinBase2,
    pub MerkleBranch,
    pub Version,
    pub Bits,
    pub Time,
    pub bool,
);

/// Model of [`Notify`].
pub ghost struct NotifyV {
    pub job_id: Seq<u8>,
    pub prev_hash: u32,
    pub coin_base_1: Seq<u8>,
    pub coin_base_2: Seq<u8>,
    pub merkle_branch: Seq<Seq<u8>>,
    pub version: u32,
    pub bits: u32,
    pub time: u32,
    pub clean_jobs: bool,
}

impl View for Notify {
    type V = NotifyV;

    open spec fn view(&self) -> NotifyV {
        NotifyV {
            job_id: self.0.0.0@,
            prev_hash: self.1.0.0,
            coin_base_1: self.2.0.0@,
            coin_base_2: self.3.0.0@,
            merkle_branch: self.4@,
            version: self.5.0.0,
            bits: self.6.0.0,
            time: self.7.0.0,
            clean_jobs: self.8,
        }
    }
}

/// JSON form of a 32-bit field: its little-endian bytes, hex encoded.
pub open spec fn hex_u32_jv(x: u32) -> Jv {
    Jv::Str(hex_encoding_of(le_bytes_of_u32(x)))
}

/// 32-bit field denoted by a JSON value holding eight hex digits.
pub open spec fn hex_u32_of_jv(v: Jv) -> Option<u32> {
    match v {
        Jv::Str(s) => if s.len() == 8 && is_hex_string(s) {
            Some(u32_of_le_bytes(hex_decoding_of(s)))
        } else {
            None
        },
        _ => None,
    }
}

/// Binary field denoted by a JSON value holding hex.
pub open spec fn hex_of_jv(v: Jv) -> Option<Seq<u8>> {
    match v {
        Jv::Str(s) => if is_hex_string(s) {
            Some(hex_decoding_of(s))
        } else {
            None
        },
        _ => None,
    }
}

/// JSON form of a merkle branch: an array of hex strings.
pub open spec fn merkle_jv(mb: Seq<Seq<u8>>) -> Jv {
    Jv::Arr(
        Seq::new(
            mb.len(),
            |i: int|
                if 0 <= i < mb.len() {
                    Jv::Str(hex_encoding_of(mb[i]))
                } else {
                    Jv::Null
                },
        ),
    )
}

/// Every element is a hex string.
pub open spec fn hex_list_shape(items: Seq<Jv>) -> bool {
    forall|i: int| 0 <= i < items.len() ==> items[i] is Str && is_hex_string(items[i]->Str_0)
}

/// The byte strings denoted by a list of hex strings.
pub open spec fn hex_list_of(items: Seq<Jv>) -> Seq<Seq<u8>>
    recommends
        hex_list_shape(items),
{
    Seq::new(
        items.len(),
        |i: int|
            if 0 <= i < items.len() {
                hex_decoding_of(items[i]->Str_0)
            } else {
                Seq::empty()
            },
    )
}

/// Positional params of a job notification.
pub open spec fn notify_params(v: NotifyV) -> Jv {
    Jv::Arr(
        seq![
            Jv::Str(hex_encoding_of(v.job_id)),
            hex_u32_jv(v.prev_hash),
            Jv::Str(hex_encoding_of(v.coin_base_1)),
            Jv::Str(hex_encoding_of(v.coin_base_2)),
            merkle_jv(v.merkle_branch),
            hex_u32_jv(v.version),
            hex_u32_jv(v.bits),
            hex_u32_jv(v.time),
            Jv::Bool(v.clean_jobs),
        ],
    )
}

/// Shape a params array must have to denote a job notification.
pub open spec fn notify_shape(items: Seq<Jv>) -> bool {
    &&& items.len() == 9
    &&& hex_of_jv(items[0]) is Some
    &&& hex_u32_of_jv(items[1]) is Some
    &&& hex_of_jv(items[2]) is Some
    &&& hex_of_jv(items[3]) is Some
    &&& items[4] is Arr && hex_list_shape(items[4]->Arr_0)
    &&& hex_u32_of_jv(items[5]) is Some
    &&& hex_u32_of_jv(items[6]) is Some
    &&& hex_u32_of_jv(items[7]) is Some
    &&& items[8] is Bool
}

/// Job notification denoted by a params value, if well-shaped.
pub open spec fn notify_of_params(p: Jv) -> Option<NotifyV> {
    match p {
        Jv::Arr(items) => if notify_shape(items) {
            Some(
                NotifyV {
                    job_id: hex_of_jv(items[0])->0,
                    prev_hash: hex_u32_of_jv(items[1])->0,
                    coin_base_1: hex_of_jv(items[2])->0,
                    coin_base_2: hex_of_jv(items[3])->0,
                    merkle_branch: hex_list_of(items[4]->Arr_0),
                    version: hex_u32_of_jv(items[5])->0,
                    bits: hex_u32_of_jv(items[6])->0,
                    time: hex_u32_of_jv(items[7])->0,
                    clean_jobs: items[8]->Bool_0,
                },
            )
        } else {
            None
        },
        _ => None,
    }
}

/// Read the merkle-branch parameter: an array of hex strings.
fn merkle_param(v: JsonValue) -> (r: Result<MerkleBranch, ConversionError>)
    ensures
        match r {
            Ok(mb) => json_view(v) matches Jv::Arr(mitems) && hex_list_shape(mitems) && mb@
                == hex_list_of(mitems),
            Err(e) => !(json_view(v) matches Jv::Arr(mitems) && hex_list_shape(mitems)) && e
                is Json,
        },
{
    let mitems = match v {
        JsonValue::Arr(mitems) => mitems,
        _ => {
            return Err(bad_shape("merkle branch is not an array"));
        },
    };
    let ghost jm = json_view(JsonValue::Arr(mitems))->Arr_0;
    let mut out: Vec<HexBytes> = Vec::new();
    let mut i: usize = 0;
    while i < mitems.len()
        invariant
            0 <= i <= mitems@.len(),
            out@.len() == i,
            jm == json_view(JsonValue::Arr(mitems))->Arr_0,
            json_view(v) == Jv::Arr(jm),
            jm.len() == mitems@.len(),
            forall|j: int|
                0 <= j < i ==> jm[j] is Str && is_hex_string(jm[j]->Str_0) && out@[j].0@
                    == hex_decoding_of(jm[j]->Str_0),
        decreases mitems@.len() - i,
    {
        proof {
            crate::json::lemma_json_view_arr(mitems, i as int);
        }
        let s = match &mitems[i] {
            JsonValue::Str(s) => s,
            _ => {
                proof {
                    assert(!(jm[i as int] is Str));
                    assert(!hex_list_shape(jm));
                }
                return Err(bad_shape("merkle branch element is not a string"));
            },
        };
        let h = match HexBytes::from_wire(s.as_slice()) {
            Some(h) => h,
            None => {
                proof {
                    assert(!(is_hex_string(jm[i as int]->Str_0)));
                    assert(!hex_list_shape(jm));
                }
                return Err(bad_shape("merkle branch element is not hex"));
            },
        };
        out.push(h);
        i += 1;
    }
    let mb = MerkleBranch(out);
    proof {
        assert(mb@ =~~= hex_list_of(jm));
    }
    Ok(mb)
}

impl Notify {
    /// The job's opaque identifier.
    pub fn job_id(&self) -> (r: &[u8])
        ensures
            r@ == self@.job_id,
    {
        self.0.0.0.as_slice()
    }

    /// Word of the previous block hash.
    pub fn prev_hash(&self) -> (r: u32)
        ensures
            r == self@.prev_hash,
    {
        self.1.0.0
    }

    /// Leading part of the coinbase transaction.
    pub fn coin_base_1(&self) -> (r: &[u8])
        ensures
            r@ == self@.coin_base_1,
    {
        self.2.0.0.as_slice()
    }

    /// Trailing part of the coinbase transaction.
    pub fn coin_base_2(&self) -> (r: &[u8])
        ensures
            r@ == self@.coin_base_2,
    {
        self.3.0.0.as_slice()
    }

    /// Version field of the block header.
    pub fn version(&self) -> (r: u32)
        ensures
            r == self@.version,
    {
        self.5.0.0
    }

    /// Network difficulty target bits.
    pub fn bits(&self) -> (r: u32)
        ensures
            r == self@.bits,
    {
        self.6.0.0
    }

    /// Network time.
    pub fn time(&self) -> (r: u32)
        ensures
            r == self@.time,
    {
        self.7.0.0
    }

    /// Whether pending work should be discarded for this job.
    pub fn clean_jobs(&self) -> (r: bool)
        ensures
            r == self@.clean_jobs,
    {
        self.8
    }

    /// Serialize into a tagged request payload.
    pub fn to_request_payload(self) -> (r: Result<RequestPayload, ConversionError>)
        ensures
            r matches Ok(p) && p.method == Method::Notify && json_view(p.params) == notify_params(
                self@,
            ),
    {
        let ghost model = self@;
        let Notify(job, prev, cb1, cb2, merkle, version, bits, time, clean) = self;
        let mut mitems: Vec<JsonValue> = Vec::new();
        let mut i: usize = 0;
        while i < merkle.0.len()
            invariant
                0 <= i <= merkle.0@.len(),
                mitems@.len() == i,
                forall|j: int|
                    0 <= j < i ==> json_view(mitems@[j]) == Jv::Str(
                        hex_encoding_of(merkle.0@[j].0@),
                    ),
            decreases merkle.0@.len() - i,
        {
            mitems.push(JsonValue::Str(merkle.0[i].to_wire()));
            i += 1;
        }
        let marr = JsonValue::Arr(mitems);
        proof {
            assert forall|j: int| 0 <= j < merkle.0@.len() implies json_view(marr)->Arr_0[j]
                == merkle_jv(model.merkle_branch)->Arr_0[j] by {
                crate::json::lemma_json_view_arr(mitems, j);
            }
            assert(json_view(marr)->Arr_0 =~= merkle_jv(model.merkle_branch)->Arr_0);
        }
        let mut items: Vec<JsonValue> = Vec::new();
        items.push(JsonValue::Str(job.0.to_wire()));
        items.push(JsonValue::Str(prev.0.to_wire()));
        items.push(JsonValue::Str(cb1.0.to_wire()));
        items.push(JsonValue::Str(cb2.0.to_wire()));
        items.push(marr);
        items.push(JsonValue::Str(version.0.to_wire()));
        items.push(JsonValue::Str(bits.0.to_wire()));
        items.push(JsonValue::Str(time.0.to_wire()));
        items.push(JsonValue::Bool(clean));
        let params = JsonValue::Arr(items);
        proof {
            crate::json::lemma_json_view_arr(items, 0);
            crate::json::lemma_json_view_arr(items, 1);
            crate::json::lemma_json_view_arr(items, 2);
            crate::json::lemma_json_view_arr(items, 3);
            crate::json::lemma_json_view_arr(items, 4);
            crate::json::lemma_json_view_arr(items, 5);
            crate::json::lemma_json_view_arr(items, 6);
            crate::json::lemma_json_view_arr(items, 7);
            crate::json::lemma_json_view_arr(items, 8);
            assert(json_view(params)->Arr_0 =~= notify_params(model)->Arr_0);
        }
        Ok(RequestPayload { method: Method::Notify, params })
    }

    /// Deserialize from a request envelope; the caller has already
    /// matched the method tag (precondition, as for
    /// [`Subscribe::from_request`]).
    pub fn from_request(req: Request) -> (r: Result<Notify, ConversionError>)
        requires
            req@.method == Method::Notify,
        ensures
            match r {
                Ok(t) => notify_of_params(req@.params) == Some(t@),
                Err(e) => notify_of_params(req@.params) is None && e is Json,
            },
    {
        let mut items = match req.payload.params {
            JsonValue::Arr(items) => items,
            _ => {
                return Err(bad_shape("params is not an array"));
            },
        };
        if items.len() != 9 {
            return Err(bad_shape("notify takes nine parameters"));
        }
        let ghost ji = json_view(JsonValue::Arr(items))->Arr_0;
        proof {
            crate::json::lemma_json_view_arr(items, 0);
            crate::json::lemma_json_view_arr(items, 1);
            crate::json::lemma_json_view_arr(items, 2);
            crate::json::lemma_json_view_arr(items, 3);
            crate::json::lemma_json_view_arr(items, 4);
            crate::json::lemma_json_view_arr(items, 5);
            crate::json::lemma_json_view_arr(items, 6);
            crate::json::lemma_json_view_arr(items, 7);
            crate::json::lemma_json_view_arr(items, 8);
        }
        let i8 = items.pop().unwrap();
        let i7 = items.pop().unwrap();
        let i6 = items.pop().unwrap();
        let i5 = items.pop().unwrap();
        let i4 = items.pop().unwrap();
        let i3 = items.pop().unwrap();
        let i2 = items.pop().unwrap();
        let i1 = items.pop().unwrap();
        let i0 = items.pop().unwrap();
        let job = match hex_param(i0) {
            Ok(h) => JobId(h),
            Err(e) => {
                return Err(e);
            },
        };
        let prev = match hex_u32_param(i1) {
            Ok(h) => PrevHash(h),
            Err(e) => {
                return Err(e);
            },
        };
        let cb1 = match hex_param(i2) {
            Ok(h) => CoinBase1(h),
            Err(e) => {
                return Err(e);
            },
        };
        let cb2 = match hex_param(i3) {
            Ok(h) => CoinBase2(h),
            Err(e) => {
                return Err(e);
            },
        };
        let merkle = match merkle_param(i4) {
            Ok(mb) => mb,
            Err(e) => {
                return Err(e);
            },
        };
        let version = match hex_u32_param(i5) {
            Ok(h) => Version(h),
            Err(e) => {
                return Err(e);
            },
        };
        let bits = match hex_u32_param(i6) {
            Ok(h) => Bits(h),
            Err(e) => {
                return Err(e);
            },
        };
        let time = match hex_u32_param(i7) {
            Ok(h) => Time(h),
            Err(e) => {
                return Err(e);
            },
        };
        let clean = match i8 {
            JsonValue::Bool(b) => b,
            _ => {
                return Err(bad_shape("clean jobs flag is not a boolean"));
            },
        };
        Ok(Notify(job, prev, cb1, cb2, merkle, version, bits, time, clean))
    }
}

/// Round trip: a job notification survives conversion to params and
/// back unchanged.
#[verifier::rlimit(100)]
#[verifier::spinoff_prover]
pub proof fn lemma_notify_round_trip(v: NotifyV)
    ensures
        notify_of_params(notify_params(v)) == Some(v),
{
    crate::hex::lemma_hex_round_trip(v.job_id);
    crate::hex::lemma_hex_round_trip(v.coin_base_1);
    crate::hex::lemma_hex_round_trip(v.coin_base_2);
    lemma_hex_u32_round_trip(v.prev_hash);
    lemma_hex_u32_round_trip(v.version);
    lemma_hex_u32_round_trip(v.bits);
    lemma_hex_u32_round_trip(v.time);
    let items = notify_params(v)->Arr_0;
    assert(items.len() == 9);
    assert(items[0] == Jv::Str(hex_encoding_of(v.job_id)));
    assert(items[1] == hex_u32_jv(v.prev_hash));
    assert(items[2] == Jv::Str(hex_encoding_of(v.coin_base_1)));
    assert(items[3] == Jv::Str(hex_encoding_of(v.coin_base_2)));
    assert(items[4] == merkle_jv(v.merkle_branch));
    assert(items[5] == hex_u32_jv(v.version));
    assert(items[6] == hex_u32_jv(v.bits));
    assert(items[7] == hex_u32_jv(v.time));
    assert(items[8] == Jv::Bool(v.clean_jobs));
    assert(hex_of_jv(items[0]) == Some(v.job_id));
    assert(hex_u32_of_jv(items[1]) == Some(v.prev_hash));
    assert(hex_of_jv(items[2]) == Some(v.coin_base_1));
    assert(hex_of_jv(items[3]) == Some(v.coin_base_2));
    let ms = items[4]->Arr_0;
    assert forall|i: int| 0 <= i < ms.len() implies ms[i] is Str && is_hex_string(ms[i]->Str_0)
        && hex_decoding_of(ms[i]->Str_0) == v.merkle_branch[i] by {
        crate::hex::lemma_hex_round_trip(v.merkle_branch[i]);
    }
    assert(hex_list_shape(ms));
    assert(hex_list_of(ms) =~= v.merkle_branch);
    assert(hex_u32_of_jv(items[5]) == Some(v.version));
    assert(hex_u32_of_jv(items[6]) == Some(v.bits));
    assert(hex_u32_of_jv(items[7]) == Some(v.time));
    assert(notify_shape(items));
}

/// Round trip: a 32-bit field survives the little-endian hex wire
/// form and back.
pub proof fn lemma_hex_u32_round_trip(x: u32)
    ensures
        hex_u32_of_jv(hex_u32_jv(x)) == Some(x),
{
    crate::hex::lemma_u32_le_round_trip(x);
    crate::hex::lemma_hex_round_trip(le_bytes_of_u32(x));
}

fn missing_result() -> (r: ConversionError)
    ensures
        r matches ConversionError::Missing(nm) && nm@ == "result".spec_bytes(),
{
    ConversionError::Missing(("result").as_bytes_vec())
}

/// Subscription response: granted subscriptions, the extra-nonce
/// prefix, and the extra-nonce-2 byte count.
#[derive(Debug, PartialEq, Eq)]
pub struct SubscribeResult(pub Vec<Subscription>, pub ExtraNonce1, pub usize);

/// Model of [`SubscribeResult`].
pub ghost struct SubscribeResultV {
    pub subscriptions: Seq<(Seq<u8>, Seq<u8>)>,
    pub extra_nonce_1: Seq<u8>,
    pub extra_nonce_2_size: int,
}

impl View for SubscribeResult {
    type V = SubscribeResultV;

    open spec fn view(&self) -> SubscribeResultV {
        SubscribeResultV {
            subscriptions: Seq::new(
                self.0@.len(),
                |i: int|
                    if 0 <= i < self.0@.len() {
                        self.0@[i]@
                    } else {
                        (Seq::empty(), Seq::empty())
                    },
            ),
            extra_nonce_1: self.1@,
            extra_nonce_2_size: self.2 as int,
        }
    }
}

/// JSON form of the subscription list: an array of `[name, id]` pairs.
pub open spec fn subscriptions_jv(subs: Seq<(Seq<u8>, Seq<u8>)>) -> Jv {
    Jv::Arr(
        Seq::new(
            subs.len(),
            |i: int|
                if 0 <= i < subs.len() {
                    Jv::Arr(seq![Jv::Str(subs[i].0), Jv::Str(subs[i].1)])
                } else {
                    Jv::Null
                },
        ),
    )
}

/// Every element is a `[string, string]` pair.
pub open spec fn subscription_list_shape(items: Seq<Jv>) -> bool {
    forall|i: int|
        0 <= i < items.len() ==> items[i] is Arr && items[i]->Arr_0.len() == 2
            && items[i]->Arr_0[0] is Str && items[i]->Arr_0[1] is Str
}

/// The pairs denoted by a subscription list.
pub open spec fn subscription_list_of(items: Seq<Jv>) -> Seq<(Seq<u8>, Seq<u8>)>
    recommends
        subscription_list_shape(items),
{
    Seq::new(
        items.len(),
        |i: int|
            if 0 <= i < items.len() {
                (items[i]->Arr_0[0]->Str_0, items[i]->Arr_0[1]->Str_0)
            } else {
                (Seq::empty(), Seq::empty())
            },
    )
}

/// The `result` member of a subscription response.
pub open spec fn subscribe_result_jv(v: SubscribeResultV) -> Jv {
    Jv::Arr(
        seq![
            subscriptions_jv(v.subscriptions),
            Jv::Str(hex_encoding_of(v.extra_nonce_1)),
            Jv::Num(v.extra_nonce_2_size),
        ],
    )
}

/// Subscription response denoted by a result value, if well-shaped.
pub open spec fn subscribe_result_of(p: Jv) -> Option<SubscribeResultV> {
    match p {
        Jv::Arr(items) => {
            if items.len() == 3 && items[0] is Arr && subscription_list_shape(items[0]->Arr_0)
                && hex_of_jv(items[1]) is Some && items[2] is Num && 0 <= items[2]->Num_0
                <= usize::MAX {
                Some(
                    SubscribeResultV {
                        subscriptions: subscription_list_of(items[0]->Arr_0),
                        extra_nonce_1: hex_of_jv(items[1])->0,
                        extra_nonce_2_size: items[2]->Num_0,
                    },
                )
            } else {
                None
            }
        },
        _ => None,
    }
}

impl SubscribeResult {
    /// The granted subscriptions, in wire order.
    pub fn subscriptions(&self) -> (r: &Vec<Subscription>)
        ensures
            r == &self.0,
    {
        &self.0
    }

    /// The server-assigned extra-nonce prefix.
    pub fn extra_nonce_1(&self) -> (r: &ExtraNonce1)
        ensures
            r@ == self@.extra_nonce_1,
    {
        &self.1
    }

    /// How many extra-nonce-2 bytes the miner must roll.
    pub fn extra_nonce_2_size(&self) -> (r: usize)
        ensures
            r == self@.extra_nonce_2_size,
    {
        self.2
    }

    /// Serialize into a response payload, as the `result` member.
    /// The nonce count must fit the wire's integer range.
    pub fn to_response_payload(self) -> (r: Result<ResponsePayload, ConversionError>)
        requires
            self.2 <= i64::MAX,
        ensures
            ({
                &&& r matches Ok(p)
                &&& p.error is None
                &&& p.result matches Some(sr)
                &&& json_view(sr.0) == subscribe_result_jv(self@)
            }),
    {
        let ghost model = self@;
        let SubscribeResult(subs, en1, size) = self;
        let mut sitems: Vec<JsonValue> = Vec::new();
        let mut i: usize = 0;
        while i < subs.len()
            invariant
                0 <= i <= subs@.len(),
                sitems@.len() == i,
                forall|j: int|
                    0 <= j < i ==> json_view(sitems@[j]) == Jv::Arr(
                        seq![Jv::Str(subs@[j].0@), Jv::Str(subs@[j].1@)],
                    ),
            decreases subs@.len() - i,
        {
            let mut pair: Vec<JsonValue> = Vec::new();
            pair.push(JsonValue::Str(vstd::slice::slice_to_vec(subs[i].0.as_slice())));
            pair.push(JsonValue::Str(vstd::slice::slice_to_vec(subs[i].1.as_slice())));
            let pv = JsonValue::Arr(pair);
            proof {
                crate::json::lemma_json_view_arr(pair, 0);
                crate::json::lemma_json_view_arr(pair, 1);
                assert(json_view(pv)->Arr_0 =~= seq![
                    Jv::Str(subs@[i as int].0@),
                    Jv::Str(subs@[i as int].1@),
                ]);
            }
            sitems.push(pv);
            i += 1;
        }
        let sarr = JsonValue::Arr(sitems);
        proof {
            assert forall|j: int| 0 <= j < subs@.len() implies json_view(sarr)->Arr_0[j]
                == subscriptions_jv(model.subscriptions)->Arr_0[j] by {
                crate::json::lemma_json_view_arr(sitems, j);
            }
            assert(json_view(sarr)->Arr_0 =~= subscriptions_jv(model.subscriptions)->Arr_0);
        }
        let mut items: Vec<JsonValue> = Vec::new();
        items.push(sarr);
        items.push(JsonValue::Str(en1.0.to_wire()));
        items.push(JsonValue::Num(size as i64));
        let rv = JsonValue::Arr(items);
        proof {
            crate::json::lemma_json_view_arr(items, 0);
            crate::json::lemma_json_view_arr(items, 1);
            crate::json::lemma_json_view_arr(items, 2);
            assert(json_view(rv)->Arr_0 =~= subscribe_result_jv(model)->Arr_0);
        }
        Ok(ResponsePayload { result: Some(StratumResult(rv)), error: None })
    }

    /// Deserialize from a response envelope: absence of the `result`
    /// member (an error envelope) is `Missing("result")`; a present
    /// result of the wrong shape is a `Json` error.
    pub fn from_response(resp: Response) -> (r: Result<SubscribeResult, ConversionError>)
        ensures
            match resp@.result {
                None => {
                    &&& r matches Err(e)
                    &&& e matches ConversionError::Missing(nm)
                    &&& nm@ == "result".spec_bytes()
                },
                Some(rv) => match r {
                    Ok(t) => subscribe_result_of(rv) == Some(t@),
                    Err(e) => subscribe_result_of(rv) is None && e is Json,
                },
            },
    {
        let sr = match resp.payload.result {
            Some(sr) => sr,
            None => {
                return Err(missing_result());
            },
        };
        let mut items = match sr.0 {
            JsonValue::Arr(items) => items,
            _ => {
                return Err(bad_shape("result is not an array"));
            },
        };
        if items.len() != 3 {
            return Err(bad_shape("subscribe result takes three elements"));
        }
        let ghost ji = json_view(JsonValue::Arr(items))->Arr_0;
        proof {
            crate::json::lemma_json_view_arr(items, 0);
            crate::json::lemma_json_view_arr(items, 1);
            crate::json::lemma_json_view_arr(items, 2);
        }
        let i2 = items.pop().unwrap();
        let i1 = items.pop().unwrap();
        let i0 = items.pop().unwrap();
        let sitems = match i0 {
            JsonValue::Arr(sitems) => sitems,
            _ => {
                return Err(bad_shape("subscriptions are not an array"));
            },
        };
        let ghost js = json_view(JsonValue::Arr(sitems))->Arr_0;
        let mut subs: Vec<Subscription> = Vec::new();
        let mut i: usize = 0;
        while i < sitems.len()
            invariant
                0 <= i <= sitems@.len(),
                subs@.len() == i,
                js == json_view(JsonValue::Arr(sitems))->Arr_0,
                resp@.result == Some(Jv::Arr(ji)),
                ji.len() == 3,
                ji[0] == Jv::Arr(js),
                js.len() == sitems@.len(),
                forall|j: int|
                    0 <= j < i ==> js[j] is Arr && js[j]->Arr_0.len() == 2 && js[j]->Arr_0[0]
                        is Str && js[j]->Arr_0[1] is Str && subs@[j]@ == (
                    js[j]->Arr_0[0]->Str_0,
                    js[j]->Arr_0[1]->Str_0,
                ),
            decreases sitems@.len() - i,
        {
            proof {
                crate::json::lemma_json_view_arr(sitems, i as int);
            }
            let pair = match &sitems[i] {
                JsonValue::Arr(pair) => pair,
                _ => {
                    proof {
                        assert(!subscription_list_shape(js));
                    }
                    return Err(bad_shape("subscription entry is not a pair"));
                },
            };
            if pair.len() != 2 {
                proof {
                    assert(!subscription_list_shape(js));
                }
                return Err(bad_shape("subscription entry is not a pair"));
            }
            proof {
                crate::json::lemma_json_view_arr(*pair, 0);
                crate::json::lemma_json_view_arr(*pair, 1);
            }
            let name = match &pair[0] {
                JsonValue::Str(s) => vstd::slice::slice_to_vec(s.as_slice()),
                _ => {
                    proof {
                        assert(!subscription_list_shape(js));
                    }
                    return Err(bad_shape("subscription name is not a string"));
                },
            };
            let sid = match &pair[1] {
                JsonValue::Str(s) => vstd::slice::slice_to_vec(s.as_slice()),
                _ => {
                    proof {
                        assert(!subscription_list_shape(js));
                    }
                    return Err(bad_shape("subscription id is not a string"));
                },
            };
            subs.push(Subscription(name, sid));
            i += 1;
        }
        let en1 = match hex_param(i1) {
            Ok(h) => ExtraNonce1(h),
            Err(e) => {
                return Err(e);
            },
        };
        let size = match i2 {
            JsonValue::Num(n) => {
                if n >= 0 && (n as u64) <= (usize::MAX as u64) {
                    n as usize
                } else {
                    return Err(bad_shape("nonce size out of range"));
                }
            },
            _ => {
                return Err(bad_shape("nonce size is not a number"));
            },
        };
        let t = SubscribeResult(subs, en1, size);
        proof {
            assert(subscription_list_shape(js));
            assert(t@.subscriptions =~~= subscription_list_of(js));
        }
        Ok(t)
    }
}

/// Round trip: a subscription response survives conversion to its
/// result member and back unchanged.
#[verifier::rlimit(100)]
pub proof fn lemma_subscribe_result_round_trip(v: SubscribeResultV)
    requires
        0 <= v.extra_nonce_2_size <= usize::MAX,
    ensures
        subscribe_result_of(subscribe_result_jv(v)) == Some(v),
{
    crate::hex::lemma_hex_round_trip(v.extra_nonce_1);
    let items = subscribe_result_jv(v)->Arr_0;
    let ss = items[0]->Arr_0;
    assert(subscription_list_shape(ss));
    assert(subscription_list_of(ss) =~= v.subscriptions);
}

/// Generic accept/reject response.
#[derive(Debug, PartialEq, Eq)]
pub struct BooleanResult(pub bool);

/// The `result` member of a boolean response.
pub open spec fn boolean_result_jv(b: bool) -> Jv {
    Jv::Bool(b)
}

/// Boolean response denoted by a result value.
pub open spec fn boolean_result_of(p: Jv) -> Option<bool> {
    match p {
        Jv::Bool(b) => Some(b),
        _ => None,
    }
}

impl BooleanResult {
    /// Serialize into a response payload, as the `result` member.
    pub fn to_response_payload(self) -> (r: Result<ResponsePayload, ConversionError>)
        ensures
            ({
                &&& r matches Ok(p)
                &&& p.error is None
                &&& p.result matches Some(sr)
                &&& json_view(sr.0) == boolean_result_jv(self.0)
            }),
    {
        Ok(ResponsePayload { result: Some(StratumResult(JsonValue::Bool(self.0))), error: None })
    }

    /// Deserialize from a response envelope, as for
    /// [`SubscribeResult::from_response`].
    pub fn from_response(resp: Response) -> (r: Result<BooleanResult, ConversionError>)
        ensures
            match resp@.result {
                None => {
                    &&& r matches Err(e)
                    &&& e matches ConversionError::Missing(nm)
                    &&& nm@ == "result".spec_bytes()
                },
                Some(rv) => match r {
                    Ok(t) => boolean_result_of(rv) == Some(t.0),
                    Err(e) => boolean_result_of(rv) is None && e is Json,
                },
            },
    {
        let sr = match resp.payload.result {
            Some(sr) => sr,
            None => {
                return Err(missing_result());
            },
        };
        match sr.0 {
            JsonValue::Bool(b) => Ok(BooleanResult(b)),
            _ => Err(bad_shape("result is not a boolean")),
        }
    }
}

/// Round trip: a boolean response survives conversion to its result
/// member and back unchanged.
pub proof fn lemma_boolean_result_round_trip(b: bool)
    ensures
        boolean_result_of(boolean_result_jv(b)) == Some(b),
{
}

} // verus!
