//! The Input-domain slice of the protocol schema.
//!
//! Each command type supplies the core's three-part contract: a constant
//! wire method name, a parameter payload, and a return-object type.  The
//! core itself stays generic — it only ever sees the method name and the
//! serialized parameter text these produce.

use vstd::prelude::*;
use vstd::string::StringSliceAdditionalSpecFns;

use crate::wire::escaped;

verus! {

/// The literal `{"type":"`.
pub open spec fn lit_type() -> Seq<u8> {
    seq![0x7bu8, 0x22u8, 0x74u8, 0x79u8, 0x70u8, 0x65u8, 0x22u8, 0x3au8, 0x22u8]
}

/// The literal `","key":"`.
pub open spec fn lit_key() -> Seq<u8> {
    seq![0x22u8, 0x2cu8, 0x22u8, 0x6bu8, 0x65u8, 0x79u8, 0x22u8, 0x3au8, 0x22u8]
}

/// The literal `","text":"`.
pub open spec fn lit_text() -> Seq<u8> {
    seq![0x22u8, 0x2cu8, 0x22u8, 0x74u8, 0x65u8, 0x78u8, 0x74u8, 0x22u8, 0x3au8, 0x22u8]
}

/// The exact parameter payload of a key-dispatch command:
/// `{"type":"<t>","key":"<k>","text":"<x>"}` with each value JSON-escaped.
pub open spec fn key_event_params(t: Seq<u8>, k: Seq<u8>, x: Seq<u8>) -> Seq<u8> {
    lit_type() + escaped(t) + lit_key() + escaped(k) + lit_text() + escaped(x) + seq![
        0x22u8,
        0x7du8,
    ]
}

/// Parameters of `Input.dispatchKeyEvent`: the event kind (`keyDown`,
/// `keyUp`, `char`, `rawKeyDown`), the key name, and the text it produces.
pub struct DispatchKeyEvent<'a> {
    pub event_type: &'a str,
    pub key: &'a str,
    pub text: &'a str,
}

/// `Input.dispatchKeyEvent` returns an empty object.
#[derive(PartialEq, Eq, Structural, Debug)]
pub struct DispatchKeyEventReturnObject {}

/// `Input.dispatchMouseEvent` returns an empty object.  (The command's own
/// parameter struct carries floating-point coordinates and lives with the
/// unverified glue.)
#[derive(PartialEq, Eq, Structural, Debug)]
pub struct DispatchMouseEventReturnObject {}

fn push_lit_type(out: &mut Vec<u8>)
    ensures
        final(out)@ == old(out)@ + lit_type(),
{
    out.push(0x7bu8);
    out.push(0x22u8);
    out.push(0x74u8);
    out.push(0x79u8);
    out.push(0x70u8);
    out.push(0x65u8);
    out.push(0x22u8);
    out.push(0x3au8);
    out.push(0x22u8);
    assert(out@ =~= old(out)@ + lit_type());
}

fn push_lit_key(out: &mut Vec<u8>)
    ensures
        final(out)@ == old(out)@ + lit_key(),
{
    out.push(0x22u8);
    out.push(0x2cu8);
    out.push(0x22u8);
    out.push(0x6bu8);
    out.push(0x65u8);
    out.push(0x79u8);
    out.push(0x22u8);
    out.push(0x3au8);
    out.push(0x22u8);
    assert(out@ =~= old(out)@ + lit_key());
}

fn push_lit_text(out: &mut Vec<u8>)
    ensures
        final(out)@ == old(out)@ + lit_text(),
{
    out.push(0x22u8);
    out.push(0x2cu8);
    out.push(0x22u8);
    out.push(0x74u8);
    out.push(0x65u8);
    out.push(0x78u8);
    out.push(0x74u8);
    out.push(0x22u8);
    out.push(0x3au8);
    out.push(0x22u8);
    assert(out@ =~= old(out)@ + lit_text());
}

impl<'a> DispatchKeyEvent<'a> {
    /// The command's constant wire method name.
    pub fn method_name() -> (r: &'static str)
        ensures
            r@ == "Input.dispatchKeyEvent"@,
    {
        "Input.dispatchKeyEvent"
    }

    /// Serialize the parameters into their exact JSON payload, ready to be
    /// spliced into the command envelope.
    pub fn to_params_json(&self) -> (out: Vec<u8>)
        ensures
            out@ == key_event_params(
                self.event_type.spec_bytes(),
                self.key.spec_bytes(),
                self.text.spec_bytes(),
            ),
    {
        let mut out: Vec<u8> = Vec::new();
        push_lit_type(&mut out);
        crate::wire::push_escaped(&mut out, self.event_type.as_bytes());
        push_lit_key(&mut out);
        crate::wire::push_escaped(&mut out, self.key.as_bytes());
        push_lit_text(&mut out);
        crate::wire::push_escaped(&mut out, self.text.as_bytes());
        out.push(0x22u8);
        out.push(0x7du8);
        proof {
            let t = self.event_type.spec_bytes();
            let k = self.key.spec_bytes();
            let x = self.text.spec_bytes();
            assert(out@ =~= lit_type() + escaped(t) + lit_key() + escaped(k) + lit_text()
                + escaped(x) + seq![0x22u8, 0x7du8]);
        }
        out
    }
}

} // verus!
