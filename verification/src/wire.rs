//! Serialization of the outgoing command envelope.
//!
//! A command is sent on the wire as the JSON object
//! `{"id": <id>, "method": "<name>", "params": <params>, "sessionId": "<sid>"}`
//! with `sessionId` omitted for browser-level commands.  The method name and
//! session tag are JSON-escaped; the parameter payload is a pre-serialized
//! JSON value supplied by the schema layer and spliced in verbatim.

use vstd::prelude::*;
use vstd::string::StringSliceAdditionalSpecFns;

verus! {

/// The ASCII byte of one hexadecimal digit.
pub open spec fn hex_digit(n: u8) -> u8 {
    if n < 10 {
        (0x30 + n) as u8
    } else {
        (0x57 + n) as u8
    }
}

/// How one byte of a string appears inside a JSON string literal: quote and
/// backslash get a two-byte escape, control bytes get a `\u00XX` escape, and
/// every other byte stands for itself.
pub open spec fn escaped_byte(b: u8) -> Seq<u8> {
    if b == 0x22 {
        seq![0x5cu8, 0x22u8]
    } else if b == 0x5c {
        seq![0x5cu8, 0x5cu8]
    } else if b < 0x20 {
        seq![0x5cu8, 0x75u8, 0x30u8, 0x30u8, hex_digit(b / 16), hex_digit(b % 16)]
    } else {
        seq![b]
    }
}

/// A whole byte string, JSON-escaped byte by byte.
pub open spec fn escaped(s: Seq<u8>) -> Seq<u8>
    decreases s.len(),
{
    if s.len() == 0 {
        Seq::empty()
    } else {
        escaped(s.drop_last()) + escaped_byte(s.last())
    }
}

/// The literal `{"id":`.
pub open spec fn lit_id() -> Seq<u8> {
    seq![0x7bu8, 0x22u8, 0x69u8, 0x64u8, 0x22u8, 0x3au8]
}

/// The literal `,"method":"`.
pub open spec fn lit_method() -> Seq<u8> {
    seq![0x2cu8, 0x22u8, 0x6du8, 0x65u8, 0x74u8, 0x68u8, 0x6fu8, 0x64u8, 0x22u8, 0x3au8, 0x22u8]
}

/// The literal `","params":`.
pub open spec fn lit_params() -> Seq<u8> {
    seq![0x22u8, 0x2cu8, 0x22u8, 0x70u8, 0x61u8, 0x72u8, 0x61u8, 0x6du8, 0x73u8, 0x22u8, 0x3au8]
}

/// The literal `,"sessionId":"`.
pub open spec fn lit_session() -> Seq<u8> {
    seq![0x2cu8, 0x22u8, 0x73u8, 0x65u8, 0x73u8, 0x73u8, 0x69u8, 0x6fu8, 0x6eu8, 0x49u8, 0x64u8, 0x22u8, 0x3au8, 0x22u8]
}

/// The decimal digits of `n`, most significant first.
pub open spec fn dec_digits(n: u64) -> Seq<u8>
    decreases n,
{
    if n < 10 {
        seq![(0x30 + n) as u8]
    } else {
        dec_digits(n / 10).push((0x30 + n % 10) as u8)
    }
}

/// The exact wire frame of one command: the CDP command envelope, with the
/// `sessionId` member present exactly when the call is session-scoped.
pub open spec fn call_frame(
    id: u64,
    method: Seq<u8>,
    params: Seq<u8>,
    session: Option<Seq<u8>>,
) -> Seq<u8> {
    lit_id() + dec_digits(id) + lit_method() + escaped(method) + lit_params() + params + (match session {
        Option::None => Seq::<u8>::empty(),
        Option::Some(s) => lit_session() + escaped(s) + seq![0x22u8],
    }) + seq![0x7du8]
}

fn hex_digit_byte(n: u8) -> (r: u8)
    requires
        n < 16,
    ensures
        r == hex_digit(n),
{
    if n < 10 {
        0x30 + n
    } else {
        0x57 + n
    }
}

fn push_escaped_byte(out: &mut Vec<u8>, b: u8)
    ensures
        final(out)@ == old(out)@ + escaped_byte(b),
{
    if b == 0x22 {
        out.push(0x5c);
        out.push(0x22);
    } else if b == 0x5c {
        out.push(0x5c);
        out.push(0x5c);
    } else if b < 0x20 {
        out.push(0x5c);
        out.push(0x75);
        out.push(0x30);
        out.push(0x30);
        out.push(hex_digit_byte(b / 16));
        out.push(hex_digit_byte(b % 16));
    } else {
        out.push(b);
    }
    assert(out@ =~= old(out)@ + escaped_byte(b));
}

pub(crate) fn push_escaped(out: &mut Vec<u8>, s: &[u8])
    ensures
        final(out)@ == old(out)@ + escaped(s@),
{
    let len: usize = s.len();
    let mut i: usize = 0;
    while i < len
        invariant
            len == s@.len(),
            i <= len,
            out@ == old(out)@ + escaped(s@.subrange(0, i as int)),
        decreases len - i,
    {
        push_escaped_byte(out, s[i]);
        proof {
            let pre = s@.subrange(0, i as int);
            let post = s@.subrange(0, i as int + 1);
            assert(post.drop_last() =~= pre);
            assert(post.last() == s@[i as int]);
        }
        i += 1;
    }
    assert(s@.subrange(0, s@.len() as int) =~= s@);
}

fn push_dec(out: &mut Vec<u8>, n: u64)
    ensures
        final(out)@ == old(out)@ + dec_digits(n),
    decreases n,
{
    if n < 10 {
        out.push(0x30 + (n as u8));
        assert(out@ =~= old(out)@ + dec_digits(n));
    } else {
        assert(n / 10 < n) by (nonlinear_arith)
            requires
                n >= 10,
        ;
        push_dec(out, n / 10);
        out.push(0x30 + ((n % 10) as u8));
        assert(out@ =~= old(out)@ + dec_digits(n));
    }
}

fn push_lit_id(out: &mut Vec<u8>)
    ensures
        final(out)@ == old(out)@ + lit_id(),
{
    out.push(0x7bu8);
    out.push(0x22u8);
    out.push(0x69u8);
    out.push(0x64u8);
    out.push(0x22u8);
    out.push(0x3au8);
    assert(out@ =~= old(out)@ + lit_id());
}

fn push_lit_method(out: &mut Vec<u8>)
    ensures
        final(out)@ == old(out)@ + lit_method(),
{
    out.push(0x2cu8);
    out.push(0x22u8);
    out.push(0x6du8);
    out.push(0x65u8);
    out.push(0x74u8);
    out.push(0x68u8);
    out.push(0x6fu8);
    out.push(0x64u8);
    out.push(0x22u8);
    out.push(0x3au8);
    out.push(0x22u8);
    assert(out@ =~= old(out)@ + lit_method());
}

fn push_lit_params(out: &mut Vec<u8>)
    ensures
        final(out)@ == old(out)@ + lit_params(),
{
    out.push(0x22u8);
    out.push(0x2cu8);
    out.push(0x22u8);
    out.push(0x70u8);
    out.push(0x61u8);
    out.push(0x72u8);
    out.push(0x61u8);
    out.push(0x6du8);
    out.push(0x73u8);
    out.push(0x22u8);
    out.push(0x3au8);
    assert(out@ =~= old(out)@ + lit_params());
}

fn push_lit_session(out: &mut Vec<u8>)
    ensures
        final(out)@ == old(out)@ + lit_session(),
{
    out.push(0x2cu8);
    out.push(0x22u8);
    out.push(0x73u8);
    out.push(0x65u8);
    out.push(0x73u8);
    out.push(0x73u8);
    out.push(0x69u8);
    out.push(0x6fu8);
    out.push(0x6eu8);
    out.push(0x49u8);
    out.push(0x64u8);
    out.push(0x22u8);
    out.push(0x3au8);
    out.push(0x22u8);
    assert(out@ =~= old(out)@ + lit_session());
}

/// The session tag of a call, as bytes: `None` for a browser-level call.
pub open spec fn session_bytes(session_id: Option<&str>) -> Option<Seq<u8>> {
    match session_id {
        Option::None => Option::None,
        Option::Some(s) => Option::Some(s.spec_bytes()),
    }
}

/// Serialize one outgoing command into its exact wire frame.
pub fn encode_call(id: u64, method: &str, params_json: &str, session_id: Option<&str>) -> (out:
    Vec<u8>)
    ensures
        out@ == call_frame(id, method.spec_bytes(), params_json.spec_bytes(), session_bytes(session_id)),
{
    let mut out: Vec<u8> = Vec::new();
    push_lit_id(&mut out);
    push_dec(&mut out, id);
    push_lit_method(&mut out);
    push_escaped(&mut out, method.as_bytes());
    push_lit_params(&mut out);
    let mut i: usize = 0;
    let pbytes: &[u8] = params_json.as_bytes();
    let plen: usize = pbytes.len();
    while i < plen
        invariant
            plen == pbytes@.len(),
            i <= plen,
            out@ == lit_id() + dec_digits(id) + lit_method() + escaped(method.spec_bytes())
                + lit_params() + pbytes@.subrange(0, i as int),
        decreases plen - i,
    {
        out.push(pbytes[i]);
        assert(out@ =~= lit_id() + dec_digits(id) + lit_method() + escaped(method.spec_bytes())
            + lit_params() + pbytes@.subrange(0, i as int + 1));
        i += 1;
    }
    assert(pbytes@.subrange(0, pbytes@.len() as int) =~= pbytes@);
    match session_id {
        Option::None => {
            out.push(0x7du8);
        },
        Option::Some(s) => {
            push_lit_session(&mut out);
            push_escaped(&mut out, s.as_bytes());
            out.push(0x22u8);
            out.push(0x7du8);
        },
    }
    proof {
        let m = method.spec_bytes();
        let p = params_json.spec_bytes();
        let base = lit_id() + dec_digits(id) + lit_method() + escaped(m) + lit_params() + p;
        match session_id {
            Option::None => {
                assert(out@ =~= base + Seq::<u8>::empty() + seq![0x7du8]);
            },
            Option::Some(s) => {
                assert(out@ =~= base + (lit_session() + escaped(s.spec_bytes()) + seq![0x22u8])
                    + seq![0x7du8]);
            },
        }
    }
    out
}

} // verus!
