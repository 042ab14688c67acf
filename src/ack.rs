//! The acknowledgement envelope and its success payload, with their wire
//! encoding: `{"result":"<base64 payload>"}` or `{"error":"<message>"}`,
//! and `{"count":<n>,"callback":<bool>}`.
use vstd::prelude::*;
use vstd::utf8::{decode_utf8, encode_utf8, valid_utf8, encode_utf8_decode_utf8, encode_utf8_valid_utf8};
use crate::bytes::{bytes_eq, copy_range, extend, holds_at};
use crate::error::ContractError;
use crate::escape::{escape, lemma_unescape_escape, read_escaped, write_escaped};
use crate::number::{dec, lemma_dec, lemma_read_back, read_digits, write_dec};

verus! {

/// The standard base64 text (with padding) of `b`, as ASCII bytes.
pub uninterp spec fn base64_of(b: Seq<u8>) -> Seq<u8>;

/// Where `s` is the standard base64 text of some bytes, `d` holds them.
pub open spec fn decodes_to(s: Seq<u8>, d: Option<Seq<u8>>) -> bool {
    forall|x: Seq<u8>| #[trigger] base64_of(x) == s ==> d == Some(x)
}

/// The bytes held, if any.
pub open spec fn opt_bytes(r: Option<Vec<u8>>) -> Option<Seq<u8>> {
    match r {
        Some(v) => Some(v@),
        None => None,
    }
}

/// Relies on `cosmwasm_std::Binary::to_base64`: the standard base64 text of
/// the bytes.
#[verifier::external_body]
fn to_base64(b: &[u8]) -> (r: Vec<u8>)
    ensures
        r@ == base64_of(b@),
{
    cosmwasm_std::Binary::from(b).to_base64().into_bytes()
}

/// Relies on `cosmwasm_std::Binary::from_base64`: the standard base64 text
/// of some bytes decodes to those bytes.
#[verifier::external_body]
fn from_base64(s: &[u8]) -> (r: Option<Vec<u8>>)
    ensures
        decodes_to(s@, opt_bytes(r)),
{
    match std::str::from_utf8(s) {
        Ok(t) => cosmwasm_std::Binary::from_base64(t).ok().map(|x| x.0),
        Err(_) => None,
    }
}

/// Relies on `String::from_utf8`: it succeeds exactly on valid UTF-8, and
/// the string holds the characters that the bytes encode.
#[verifier::external_body]
pub(crate) fn string_from_utf8(v: Vec<u8>) -> (r: Option<String>)
    ensures
        r is Some <==> valid_utf8(v@),
        r matches Some(s) ==> s@ == decode_utf8(v@),
{
    String::from_utf8(v).ok()
}

/// The payload of a successful acknowledgement.
#[derive(Clone, Copy, Debug, PartialEq, Eq)]
pub struct IncrementMsgAcknowledgement {
    pub count: u32,
    pub callback: bool,
}

/// `{"count":`
pub open spec fn count_head() -> Seq<u8> {
    seq![123u8, 34, 99, 111, 117, 110, 116, 34, 58]
}

/// `,"callback":true}` or `,"callback":false}`
pub open spec fn callback_tail(callback: bool) -> Seq<u8> {
    if callback {
        seq![44u8, 34, 99, 97, 108, 108, 98, 97, 99, 107, 34, 58, 116, 114, 117, 101, 125]
    } else {
        seq![44u8, 34, 99, 97, 108, 108, 98, 97, 99, 107, 34, 58, 102, 97, 108, 115, 101, 125]
    }
}

/// The wire form of a success payload.
pub open spec fn payload_bytes(count: u32, callback: bool) -> Seq<u8> {
    count_head() + dec(count as nat) + callback_tail(callback)
}

fn count_head_exec() -> (r: Vec<u8>)
    ensures
        r@ == count_head(),
{
    let r: Vec<u8> = vec![123u8, 34, 99, 111, 117, 110, 116, 34, 58];
    assert(r@ =~= count_head());
    r
}

fn callback_tail_exec(callback: bool) -> (r: Vec<u8>)
    ensures
        r@ == callback_tail(callback),
{
    if callback {
        let r: Vec<u8> = vec![44u8, 34, 99, 97, 108, 108, 98, 97, 99, 107, 34, 58, 116, 114, 117, 101, 125];
        assert(r@ =~= callback_tail(true));
        r
    } else {
        let r: Vec<u8> = vec![44u8, 34, 99, 97, 108, 108, 98, 97, 99, 107, 34, 58, 102, 97, 108, 115, 101, 125];
        assert(r@ =~= callback_tail(false));
        r
    }
}

impl IncrementMsgAcknowledgement {
    /// The wire form of the payload.
    pub fn to_bytes(&self) -> (r: Vec<u8>)
        ensures
            r@ == payload_bytes(self.count, self.callback),
    {
        let mut r = count_head_exec();
        write_dec(&mut r, self.count);
        let t = callback_tail_exec(self.callback);
        extend(&mut r, t.as_slice());
        r
    }

    /// Reads a payload; accepts exactly the wire forms of payloads.
    pub fn from_bytes(b: &[u8]) -> (r: Option<IncrementMsgAcknowledgement>)
        ensures
            r matches Some(a) ==> payload_bytes(a.count, a.callback) == b@,
            forall|c: u32, cb: bool| #[trigger] payload_bytes(c, cb) == b@ ==> r == Some(
                IncrementMsgAcknowledgement { count: c, callback: cb },
            ),
    {
        let head = count_head_exec();
        if !holds_at(b, 0, head.as_slice()) {
            proof {
                assert forall|c: u32, cb: bool| #[trigger] payload_bytes(c, cb) != b@ by {
                    if payload_bytes(c, cb) == b@ {
                        assert(b@.subrange(0, 9) =~= count_head());
                    }
                }
            }
            return None;
        }
        let (end, v) = read_digits(b, 9);
        let count = match v {
            Some(n) => n,
            None => {
                proof {
                    assert forall|c: u32, cb: bool| #[trigger] payload_bytes(c, cb) != b@ by {
                        if payload_bytes(c, cb) == b@ {
                            lemma_digits_at(b@, c, cb);
                        }
                    }
                }
                return None;
            },
        };
        let callback = b.len() - end > 12 && b[end + 12] == 116;
        let cand = IncrementMsgAcknowledgement { count, callback };
        let enc = cand.to_bytes();
        let r = if bytes_eq(b, enc.as_slice()) {
            Some(cand)
        } else {
            None
        };
        proof {
            assert forall|c: u32, cb: bool| #[trigger] payload_bytes(c, cb) == b@ implies r == Some(
                IncrementMsgAcknowledgement { count: c, callback: cb },
            ) by {
                lemma_digits_at(b@, c, cb);
                assert(count == c);
                assert(b@.len() == end + callback_tail(cb).len());
                assert(b@[end + 12] == callback_tail(cb)[12]);
                assert(callback == cb);
            }
        }
        r
    }
}

proof fn lemma_digits_at(b: Seq<u8>, c: u32, cb: bool)
    requires
        payload_bytes(c, cb) == b,
    ensures
        forall|e: int| #![auto] 9 <= e <= b.len()
            && (forall|j: int| 9 <= j < e ==> crate::number::is_digit(#[trigger] b[j]))
            && (e < b.len() ==> !crate::number::is_digit(b[e]))
            ==> e == 9 + dec(c as nat).len() && crate::number::digits_val(b.subrange(9, e)) == c,
{
    let k: int = 9 + dec(c as nat).len() as int;
    assert(b.subrange(9, k) =~= dec(c as nat));
    assert(b[k] == callback_tail(cb)[0]);
    lemma_read_back(b, 9, c as nat);
}

/// The acknowledgement envelope: a success payload or an error message.
#[derive(Clone, Debug, PartialEq, Eq)]
pub enum Ack {
    Result(Vec<u8>),
    Error(String),
}

/// The value an envelope stands for.
pub enum AckModel {
    Result(Seq<u8>),
    Error(Seq<char>),
}

impl View for Ack {
    type V = AckModel;

    open spec fn view(&self) -> AckModel {
        match self {
            Ack::Result(p) => AckModel::Result(p@),
            Ack::Error(m) => AckModel::Error(m@),
        }
    }
}

/// `{"result":"`
pub open spec fn result_head() -> Seq<u8> {
    seq![123u8, 34, 114, 101, 115, 117, 108, 116, 34, 58, 34]
}

/// `{"error":"`
pub open spec fn error_head() -> Seq<u8> {
    seq![123u8, 34, 101, 114, 114, 111, 114, 34, 58, 34]
}

/// `"}`
pub open spec fn envelope_tail() -> Seq<u8> {
    seq![34u8, 125]
}

/// The wire form of an envelope.
pub open spec fn ack_bytes(a: AckModel) -> Seq<u8> {
    match a {
        AckModel::Result(p) => result_head() + base64_of(p) + envelope_tail(),
        AckModel::Error(m) => error_head() + escape(encode_utf8(m)) + envelope_tail(),
    }
}

fn result_head_exec() -> (r: Vec<u8>)
    ensures
        r@ == result_head(),
{
    let r: Vec<u8> = vec![123u8, 34, 114, 101, 115, 117, 108, 116, 34, 58, 34];
    assert(r@ =~= result_head());
    r
}

fn error_head_exec() -> (r: Vec<u8>)
    ensures
        r@ == error_head(),
{
    let r: Vec<u8> = vec![123u8, 34, 101, 114, 114, 111, 114, 34, 58, 34];
    assert(r@ =~= error_head());
    r
}

fn envelope_tail_exec() -> (r: Vec<u8>)
    ensures
        r@ == envelope_tail(),
{
    let r: Vec<u8> = vec![34u8, 125];
    assert(r@ =~= envelope_tail());
    r
}

impl Ack {
    /// The wire form of the envelope.
    pub fn to_bytes(&self) -> (r: Vec<u8>)
        ensures
            r@ == ack_bytes(self@),
    {
        match self {
            Ack::Result(p) => {
                let mut r = result_head_exec();
                let b = to_base64(p.as_slice());
                extend(&mut r, b.as_slice());
                let t = envelope_tail_exec();
                extend(&mut r, t.as_slice());
                r
            },
            Ack::Error(m) => {
                let mut r = error_head_exec();
                write_escaped(&mut r, m.as_str().as_bytes());
                let t = envelope_tail_exec();
                extend(&mut r, t.as_slice());
                r
            },
        }
    }

    /// Reads an envelope; accepts exactly the wire forms of envelopes.
    pub fn from_bytes(b: &[u8]) -> (r: Option<Ack>)
        ensures
            r matches Some(a) ==> ack_bytes(a@) == b@,
            forall|a: AckModel| #[trigger] ack_bytes(a) == b@ ==> (r matches Some(x) && x@ == a),
    {
        let n = b.len();
        let rh = result_head_exec();
        let eh = error_head_exec();
        let tl = envelope_tail_exec();
        if n < 12 || !holds_at(b, n - 2, tl.as_slice()) {
            proof {
                assert forall|a: AckModel| #[trigger] ack_bytes(a) != b@ by {
                    if ack_bytes(a) == b@ {
                        assert(b@.subrange(n - 2, n as int) =~= envelope_tail());
                    }
                }
            }
            return None;
        }
        let cand = if n >= 13 && holds_at(b, 0, rh.as_slice()) {
            let mid = copy_range(b, 11, n - 2);
            match from_base64(mid.as_slice()) {
                Some(p) => Some(Ack::Result(p)),
                None => None,
            }
        } else if holds_at(b, 0, eh.as_slice()) {
            let mid = copy_range(b, 10, n - 2);
            let raw = read_escaped(mid.as_slice());
            match string_from_utf8(raw) {
                Some(m) => Some(Ack::Error(m)),
                None => None,
            }
        } else {
            None
        };
        let r = match cand {
            Some(a) => {
                let enc = a.to_bytes();
                if bytes_eq(b, enc.as_slice()) {
                    Some(a)
                } else {
                    None
                }
            },
            None => None,
        };
        proof {
            assert forall|a: AckModel| #[trigger] ack_bytes(a) == b@ implies (r matches Some(x) && x@
                == a) by {
                match a {
                    AckModel::Result(p) => {
                        assert(b@.subrange(0, 11) =~= result_head());
                        assert(b@.subrange(11, n - 2) =~= base64_of(p));
                    },
                    AckModel::Error(m) => {
                        assert(b@.subrange(0, 10) =~= error_head());
                        assert(b@[2] != result_head()[2]);
                        assert(b@.subrange(10, n - 2) =~= escape(encode_utf8(m)));
                        lemma_unescape_escape(encode_utf8(m));
                        encode_utf8_valid_utf8(m);
                        encode_utf8_decode_utf8(m);
                    },
                }
            }
        }
        r
    }
}

/// The wire form of a success envelope that carries `(count, callback)`.
pub open spec fn success_ack_bytes(count: u32, callback: bool) -> Seq<u8> {
    ack_bytes(AckModel::Result(payload_bytes(count, callback)))
}

/// The wire form of a failure envelope that carries `message`.
pub open spec fn failure_ack_bytes(message: Seq<char>) -> Seq<u8> {
    ack_bytes(AckModel::Error(message))
}

/// The success envelope that carries `(count, callback)`, encoded.
pub fn make_ack_success(count: u32, callback: bool) -> (r: Vec<u8>)
    ensures
        r@ == success_ack_bytes(count, callback),
{
    let payload = IncrementMsgAcknowledgement { count, callback }.to_bytes();
    Ack::Result(payload).to_bytes()
}

/// The failure envelope that carries `err`, encoded.
pub fn make_ack_fail(err: String) -> (r: Vec<u8>)
    ensures
        r@ == failure_ack_bytes(err@),
{
    Ack::Error(err).to_bytes()
}

/// Distinct payloads have distinct wire forms: a payload's bytes determine
/// its count and callback flag.
pub proof fn lemma_payload_bytes_injective(c1: u32, cb1: bool, c2: u32, cb2: bool)
    requires
        payload_bytes(c1, cb1) == payload_bytes(c2, cb2),
    ensures
        c1 == c2,
        cb1 == cb2,
{
    let b = payload_bytes(c1, cb1);
    lemma_digits_at(b, c1, cb1);
    lemma_digits_at(b, c2, cb2);
    lemma_dec(c1 as nat);
    lemma_dec(c2 as nat);
    let e1: int = 9 + dec(c1 as nat).len() as int;
    assert(b.subrange(9, e1) =~= dec(c1 as nat));
    assert(b[e1] == callback_tail(cb1)[0]);
    assert forall|j: int| 9 <= j < e1 implies crate::number::is_digit(#[trigger] b[j]) by {
        assert(b[j] == dec(c1 as nat)[j - 9]);
    }
    assert(b.len() == e1 + callback_tail(cb1).len());
    assert(b.len() == e1 + callback_tail(cb2).len());
    assert(b[e1 + 12] == callback_tail(cb1)[12]);
    assert(b[e1 + 12] == callback_tail(cb2)[12]);
}

} // verus!
