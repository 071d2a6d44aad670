//! The error envelope: every reply tells a failure the callee understood
//! (`BadRequest`) from one it did not (`Unexpected`), and keeps that split on
//! the wire.
use vstd::prelude::*;

use crate::codec::FrameError;

verus! {

/// The error type of a method that cannot fail.
#[derive(Debug, Clone, Copy, PartialEq, Eq, Structural)]
pub struct Infallible;

/// Why a call failed.
#[derive(Debug)]
pub enum Error<E> {
    /// The callee rejected the input with an error of its own type.
    BadRequest(E),
    /// Something broke; only a diagnostic text survives.
    Unexpected(String),
}

/// A reply as it travels: the JSON text of the value or of the callee's
/// error, or the diagnostic text.
pub type Reply = Result<Vec<u8>, Error<Vec<u8>>>;

/// What a reply holds.
pub enum ReplyModel {
    Value(Seq<u8>),
    BadRequest(Seq<u8>),
    Unexpected(Seq<char>),
}

pub open spec fn reply_model(r: Reply) -> ReplyModel {
    match r {
        Ok(v) => ReplyModel::Value(v@),
        Err(Error::BadRequest(e)) => ReplyModel::BadRequest(e@),
        Err(Error::Unexpected(m)) => ReplyModel::Unexpected(m@),
    }
}

/// The JSON text of a string.
pub uninterp spec fn json_text_of(s: Seq<char>) -> Seq<u8>;

/// The string that a JSON text denotes, if it denotes one.
pub uninterp spec fn json_str_parse(b: Seq<u8>) -> Option<Seq<char>>;

/// Relies on `serde_json::to_vec` on a `str`: it writes the string as a JSON
/// string literal, which `serde_json::from_slice` reads back to the same
/// string. Its only failures are those of the writer, and a `Vec` has none.
#[verifier::external_body]
fn string_to_json(s: &String) -> (r: Option<Vec<u8>>)
    ensures
        r is Some,
        r matches Some(v) ==> v@ == json_text_of(s@) && json_str_parse(v@) == Some(s@),
{
    serde_json::to_vec(s.as_str()).ok()
}

/// Relies on `serde_json::from_slice` into a `String`: the result depends on
/// the bytes alone.
#[verifier::external_body]
fn string_from_json(b: &[u8]) -> (r: Option<String>)
    ensures
        r is Some <==> json_str_parse(b@) is Some,
        r matches Some(s) ==> json_str_parse(b@) == Some(s@),
{
    serde_json::from_slice::<String>(b).ok()
}

/// `{"Ok":`
pub open spec fn ok_open() -> Seq<u8> {
    seq![123u8, 34, 79, 107, 34, 58]
}

/// `{"Err":{"BadRequest":`
pub open spec fn bad_request_open() -> Seq<u8> {
    seq![123u8, 34, 69, 114, 114, 34, 58, 123, 34, 66, 97, 100, 82, 101, 113, 117, 101, 115, 116, 34, 58]
}

/// `{"Err":{"Unexpected":`
pub open spec fn unexpected_open() -> Seq<u8> {
    seq![123u8, 34, 69, 114, 114, 34, 58, 123, 34, 85, 110, 101, 120, 112, 101, 99, 116, 101, 100, 34, 58]
}

/// `}` once, closing the `Ok` form.
pub open spec fn close_one() -> Seq<u8> {
    seq![125u8]
}

/// `}}`, closing the two `Err` forms.
pub open spec fn close_two() -> Seq<u8> {
    seq![125u8, 125]
}

/// The JSON text of a reply: `{"Ok":v}`, `{"Err":{"BadRequest":e}}` or
/// `{"Err":{"Unexpected":"text"}}`.
pub open spec fn reply_text(m: ReplyModel) -> Seq<u8> {
    match m {
        ReplyModel::Value(v) => ok_open() + v + close_one(),
        ReplyModel::BadRequest(e) => bad_request_open() + e + close_two(),
        ReplyModel::Unexpected(s) => unexpected_open() + json_text_of(s) + close_two(),
    }
}

/// `b` opens with `open` and closes with `close`, with room for both.
pub open spec fn wraps(b: Seq<u8>, open: Seq<u8>, close: Seq<u8>) -> bool {
    &&& open.len() + close.len() <= b.len()
    &&& b.take(open.len() as int) == open
    &&& b.skip(b.len() - close.len()) == close
}

/// What lies between `open` and `close`.
pub open spec fn inner(b: Seq<u8>, open: Seq<u8>, close: Seq<u8>) -> Seq<u8> {
    b.subrange(open.len() as int, b.len() - close.len())
}

/// Reads a reply from its JSON text.
pub open spec fn parse_reply(b: Seq<u8>) -> Option<ReplyModel> {
    if wraps(b, ok_open(), close_one()) {
        Some(ReplyModel::Value(inner(b, ok_open(), close_one())))
    } else if wraps(b, bad_request_open(), close_two()) {
        Some(ReplyModel::BadRequest(inner(b, bad_request_open(), close_two())))
    } else if wraps(b, unexpected_open(), close_two()) {
        match json_str_parse(inner(b, unexpected_open(), close_two())) {
            Some(s) => Some(ReplyModel::Unexpected(s)),
            None => None,
        }
    } else {
        None
    }
}

/// The three opening texts differ within their first ten bytes, so a text
/// wraps at most one of them.
proof fn lemma_opens_differ(b: Seq<u8>)
    ensures
        b.len() >= 21 && b.take(6) == ok_open() ==> b.take(21) != bad_request_open() && b.take(21) != unexpected_open(),
        b.len() >= 21 && b.take(21) == bad_request_open() ==> b.take(21) != unexpected_open(),
{
    if b.len() >= 21 && b.take(6) == ok_open() && b.take(21) == bad_request_open() {
        assert(b.take(6)[2] == b[2]);
        assert(b.take(21)[2] == b[2]);
    }
    if b.len() >= 21 && b.take(6) == ok_open() && b.take(21) == unexpected_open() {
        assert(b.take(6)[2] == b[2]);
        assert(b.take(21)[2] == b[2]);
    }
    if b.len() >= 21 && b.take(21) == bad_request_open() && b.take(21) == unexpected_open() {
        assert(bad_request_open()[9] != unexpected_open()[9]);
    }
}

/// The text of a reply reads back as that reply, where the reply's own
/// diagnostic text reads back from its JSON form.
pub proof fn lemma_reply_text_parses(m: ReplyModel)
    requires
        m matches ReplyModel::Unexpected(s) ==> json_str_parse(json_text_of(s)) == Some(s),
    ensures
        parse_reply(reply_text(m)) == Some(m),
{
    let b = reply_text(m);
    lemma_opens_differ(b);
    match m {
        ReplyModel::Value(v) => {
            assert(b.take(6) == ok_open());
            assert(b.skip(b.len() - 1) == close_one());
            assert(inner(b, ok_open(), close_one()) == v);
        },
        ReplyModel::BadRequest(e) => {
            assert(b.take(21) == bad_request_open());
            assert(b.take(6) != ok_open()) by {
                assert(b.take(6)[2] == b[2]);
                assert(b.take(21)[2] == b[2]);
            }
            assert(b.skip(b.len() - 2) == close_two());
            assert(inner(b, bad_request_open(), close_two()) == e);
        },
        ReplyModel::Unexpected(s) => {
            let t = json_text_of(s);
            assert(b.take(21) == unexpected_open());
            assert(b.take(6) != ok_open()) by {
                assert(b.take(6)[2] == b[2]);
                assert(b.take(21)[2] == b[2]);
            }
            assert(b.skip(b.len() - 2) == close_two());
            assert(inner(b, unexpected_open(), close_two()) == t);
        },
    }
}

/// Appends the bytes of `s` to `out`.
fn append(out: &mut Vec<u8>, s: &[u8])
    ensures
        final(out)@ == old(out)@ + s@,
{
    let mut i: usize = 0;
    while i < s.len()
        invariant
            i <= s@.len(),
            out@ == old(out)@ + s@.take(i as int),
        decreases s@.len() - i,
    {
        out.push(s[i]);
        i = i + 1;
        assert(s@.take(i as int) == s@.take(i as int - 1).push(s@[i as int - 1]));
    }
    assert(s@.take(s@.len() as int) == s@);
}

/// Whether `b` opens with `open` and closes with `close`, with room for both.
fn wraps_exec(b: &[u8], open: &[u8], close: &[u8]) -> (r: bool)
    ensures
        r == wraps(b@, open@, close@),
{
    if b.len() < open.len() || b.len() - open.len() < close.len() {
        return false;
    }
    let mut i: usize = 0;
    while i < open.len()
        invariant
            i <= open@.len(),
            open@.len() <= b@.len(),
            forall|k: int| 0 <= k < i ==> b@[k] == open@[k],
        decreases open@.len() - i,
    {
        if b[i] != open[i] {
            assert(b@.take(open@.len() as int)[i as int] != open@[i as int]);
            return false;
        }
        i = i + 1;
    }
    assert(b@.take(open@.len() as int) == open@);
    let start = b.len() - close.len();
    let mut j: usize = 0;
    while j < close.len()
        invariant
            j <= close@.len(),
            start + close@.len() == b.len(),
            forall|k: int| 0 <= k < j ==> b@[start + k] == close@[k],
        decreases close@.len() - j,
    {
        assert(start + j < b@.len());
        if b[start + j] != close[j] {
            assert(b@.skip(start as int)[j as int] != close@[j as int]);
            return false;
        }
        j = j + 1;
    }
    assert(b@.skip(start as int) == close@);
    true
}

/// The bytes of `b` between positions `lo` and `hi`.
fn copy_range(b: &[u8], lo: usize, hi: usize) -> (r: Vec<u8>)
    requires
        lo <= hi <= b@.len(),
    ensures
        r@ == b@.subrange(lo as int, hi as int),
{
    let part = vstd::slice::slice_subrange(b, lo, hi);
    vstd::slice::slice_to_vec(part)
}

/// The JSON text of a reply, which reads back as the same reply.
pub fn encode_reply(r: &Reply) -> (out: Vec<u8>)
    ensures
        out@ == reply_text(reply_model(*r)),
        parse_reply(out@) == Some(reply_model(*r)),
{
    let mut out: Vec<u8> = Vec::new();
    match r {
        Ok(v) => {
            let open: [u8; 6] = [123, 34, 79, 107, 34, 58];
            let close: [u8; 1] = [125];
            assert(open@ == ok_open());
            assert(close@ == close_one());
            append(&mut out, &open);
            append(&mut out, v.as_slice());
            append(&mut out, &close);
        },
        Err(Error::BadRequest(e)) => {
            let open: [u8; 21] = [123, 34, 69, 114, 114, 34, 58, 123, 34, 66, 97, 100, 82, 101, 113, 117, 101, 115, 116, 34, 58];
            let close: [u8; 2] = [125, 125];
            assert(open@ == bad_request_open());
            assert(close@ == close_two());
            append(&mut out, &open);
            append(&mut out, e.as_slice());
            append(&mut out, &close);
        },
        Err(Error::Unexpected(m)) => {
            let text = string_to_json(m).unwrap();
            let open: [u8; 21] = [123, 34, 69, 114, 114, 34, 58, 123, 34, 85, 110, 101, 120, 112, 101, 99, 116, 101, 100, 34, 58];
            let close: [u8; 2] = [125, 125];
            assert(open@ == unexpected_open());
            assert(close@ == close_two());
            append(&mut out, &open);
            append(&mut out, text.as_slice());
            append(&mut out, &close);
        },
    }
    proof {
        lemma_reply_text_parses(reply_model(*r));
    }
    out
}

/// Reads a reply from its JSON text; `Malformed` where the text is not the
/// text of a reply.
pub fn decode_reply(b: &[u8]) -> (r: Result<Reply, FrameError>)
    ensures
        match parse_reply(b@) {
            Some(m) => r matches Ok(x) && reply_model(x) == m,
            None => r matches Err(FrameError::Malformed),
        },
{
    let ok_o: [u8; 6] = [123, 34, 79, 107, 34, 58];
    let bad_o: [u8; 21] = [123, 34, 69, 114, 114, 34, 58, 123, 34, 66, 97, 100, 82, 101, 113, 117, 101, 115, 116, 34, 58];
    let unexp_o: [u8; 21] = [123, 34, 69, 114, 114, 34, 58, 123, 34, 85, 110, 101, 120, 112, 101, 99, 116, 101, 100, 34, 58];
    let close1: [u8; 1] = [125];
    let close2: [u8; 2] = [125, 125];
    assert(ok_o@ == ok_open());
    assert(bad_o@ == bad_request_open());
    assert(unexp_o@ == unexpected_open());
    assert(close1@ == close_one());
    assert(close2@ == close_two());
    if wraps_exec(b, &ok_o, &close1) {
        Ok(Ok(copy_range(b, 6, b.len() - 1)))
    } else if wraps_exec(b, &bad_o, &close2) {
        Ok(Err(Error::BadRequest(copy_range(b, 21, b.len() - 2))))
    } else if wraps_exec(b, &unexp_o, &close2) {
        let text = vstd::slice::slice_subrange(b, 21, b.len() - 2);
        match string_from_json(text) {
            Some(m) => Ok(Err(Error::Unexpected(m))),
            None => Err(FrameError::Malformed),
        }
    } else {
        Err(FrameError::Malformed)
    }
}

} // verus!
