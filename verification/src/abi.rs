//! The primitive library's string ABI, and the literal globals a lowered
//! plan emits.
//!
//! A literal reaches the synthesised code as a two-word aggregate: a pointer
//! to its bytes and their count.  [`SeparatedStr`] holds the data of one
//! such aggregate; the emitter builds one per literal, in emission order, so
//! the constants match the `lit` indices of the plan's branch blocks.

use vstd::prelude::*;

use vstd::utf8::{decode_utf8, encode_utf8};

verus! {

/// The data of one `{ pointer-to-bytes, length }` string constant: the
/// literal's UTF-8 bytes and, redundantly, their count as the second word.
#[derive(Debug)]
pub struct SeparatedStr {
    pub bytes: Vec<u8>,
    pub len: u64,
}

impl SeparatedStr {
    /// The second word counts the bytes of the first.
    pub open spec fn wf(&self) -> bool {
        self.len == self.bytes@.len()
    }

    /// The text the constant denotes.
    pub open spec fn text(&self) -> Seq<char> {
        decode_utf8(self.bytes@)
    }

    /// Build the constant for one literal: its UTF-8 bytes and byte count.
    pub fn from_literal(text: &str) -> (r: SeparatedStr)
        ensures
            r.wf(),
            r.bytes@ == encode_utf8(text@),
            r.text() == text@,
    {
        proof {
            vstd::utf8::encode_utf8_decode_utf8(text@);
        }
        let b = text.as_bytes();
        let bytes = vstd::slice::slice_to_vec(b);
        let len = bytes.len() as u64;
        SeparatedStr { bytes, len }
    }
}

/// Emit one string constant per literal, in emission order, as the lowering
/// counter named them: constant `i` carries literal `i`.
pub fn emit_literal_globals(literals: &Vec<String>) -> (r: Vec<SeparatedStr>)
    ensures
        r@.len() == literals@.len(),
        forall|i: int|
            0 <= i < r@.len() ==> (#[trigger] r@[i]).wf() && r@[i].bytes@ == encode_utf8(
                literals@[i]@,
            ) && r@[i].text() == literals@[i]@,
{
    let mut out: Vec<SeparatedStr> = Vec::new();
    let n = literals.len();
    for i in 0..n
        invariant
            n == literals@.len(),
            out@.len() == i,
            forall|j: int|
                0 <= j < i ==> (#[trigger] out@[j]).wf() && out@[j].bytes@ == encode_utf8(
                    literals@[j]@,
                ) && out@[j].text() == literals@[j]@,
    {
        out.push(SeparatedStr::from_literal(literals[i].as_str()));
    }
    out
}

} // verus!
