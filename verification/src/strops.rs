//! String comparisons used by leaf filters, with their mathematical meaning.

use vstd::prelude::*;
use vstd::utf8::{decode_utf8, encode_utf8};

verus! {

/// `sub` occurs in `s` starting at position `i`.
pub open spec fn occurs_at<T>(s: Seq<T>, sub: Seq<T>, i: int) -> bool {
    0 <= i && i + sub.len() <= s.len() && s.subrange(i, i + sub.len()) == sub
}

/// `sub` occurs somewhere in `s` as a contiguous run of elements.
pub open spec fn has_substring<T>(s: Seq<T>, sub: Seq<T>) -> bool {
    exists|i: int| occurs_at(s, sub, i)
}

/// The empty sequence occurs in every sequence.
pub proof fn lemma_empty_substring<T>(s: Seq<T>)
    ensures
        forall|sub: Seq<T>| sub.len() == 0 ==> has_substring(s, sub),
{
    assert forall|sub: Seq<T>| sub.len() == 0 implies has_substring(s, sub) by {
        assert(s.subrange(0, 0) =~= sub);
        assert(occurs_at(s, sub, 0));
    }
}

/// Encoding a concatenation concatenates the encodings.
proof fn lemma_encode_utf8_concat(a: Seq<char>, b: Seq<char>)
    ensures
        encode_utf8(a + b) == encode_utf8(a) + encode_utf8(b),
    decreases a.len(),
{
    if a.len() == 0 {
        assert(a + b =~= b);
        assert(encode_utf8(a) + encode_utf8(b) =~= encode_utf8(b));
    } else {
        assert((a + b)[0] == a[0]);
        assert((a + b).drop_first() =~= a.drop_first() + b);
        lemma_encode_utf8_concat(a.drop_first(), b);
        assert(vstd::utf8::encode_scalar(a[0] as u32) + (encode_utf8(a.drop_first())
            + encode_utf8(b)) =~= (vstd::utf8::encode_scalar(a[0] as u32) + encode_utf8(
            a.drop_first(),
        )) + encode_utf8(b));
    }
}

/// A valid, non-empty UTF-8 sequence starts with a leading byte, never with
/// a continuation byte.
proof fn lemma_valid_utf8_first_not_continuation(bytes: Seq<u8>)
    requires
        vstd::utf8::valid_utf8(bytes),
        bytes.len() > 0,
    ensures
        !vstd::utf8::is_continuation_byte(bytes[0]),
{
}

/// The characters of `p` are a prefix of those of `s` exactly when the
/// UTF-8 bytes of `p` are a prefix of those of `s`: the encoding maps
/// splitting points both ways.
pub proof fn lemma_prefix_chars_iff_bytes(s: Seq<char>, p: Seq<char>)
    ensures
        p.is_prefix_of(s) <==> encode_utf8(p).is_prefix_of(encode_utf8(s)),
{
    let sb = encode_utf8(s);
    let pb = encode_utf8(p);
    if p.is_prefix_of(s) {
        let rest = s.skip(p.len() as int);
        assert(s =~= p + rest);
        lemma_encode_utf8_concat(p, rest);
        assert(pb =~= sb.subrange(0, pb.len() as int));
    }
    if pb.is_prefix_of(sb) {
        vstd::utf8::encode_utf8_valid_utf8(s);
        vstd::utf8::encode_utf8_valid_utf8(p);
        let i = pb.len() as int;
        let rb = sb.subrange(i, sb.len() as int);
        assert(sb.subrange(0, i) == pb);
        if !vstd::utf8::valid_utf8(rb) {
            vstd::utf8::partial_valid_partial_invalid_utf8(sb, i);
            assert(false);
        }
        let pd = decode_utf8(pb);
        let rd = decode_utf8(rb);
        vstd::utf8::decode_utf8_encode_utf8(pb);
        vstd::utf8::decode_utf8_encode_utf8(rb);
        lemma_encode_utf8_concat(pd, rd);
        assert(pb + rb =~= sb);
        vstd::utf8::encode_utf8_decode_utf8(pd + rd);
        vstd::utf8::encode_utf8_decode_utf8(s);
        assert(pd + rd == s);
        vstd::utf8::encode_utf8_decode_utf8(p);
        assert(pd == p);
        assert(p =~= s.subrange(0, p.len() as int));
    }
}

/// The characters of `p` are a suffix of those of `s` exactly when the
/// UTF-8 bytes of `p` are a suffix of those of `s`.  A byte-level suffix
/// starts with a leading byte, so it falls on a character boundary: UTF-8
/// is self-synchronising.
pub proof fn lemma_suffix_chars_iff_bytes(s: Seq<char>, p: Seq<char>)
    ensures
        p.is_suffix_of(s) <==> encode_utf8(p).is_suffix_of(encode_utf8(s)),
{
    let sb = encode_utf8(s);
    let pb = encode_utf8(p);
    if p.is_suffix_of(s) {
        let front = s.subrange(0, s.len() - p.len());
        assert(s =~= front + p);
        lemma_encode_utf8_concat(front, p);
        assert(pb =~= sb.subrange(sb.len() - pb.len(), sb.len() as int));
    }
    if pb.is_suffix_of(sb) {
        if pb.len() == 0 {
            assert(p =~= Seq::<char>::empty());
            assert(p =~= s.subrange(s.len() as int, s.len() as int));
        } else {
            vstd::utf8::encode_utf8_valid_utf8(s);
            vstd::utf8::encode_utf8_valid_utf8(p);
            let i = sb.len() - pb.len();
            assert(sb.subrange(i, sb.len() as int) == pb);
            lemma_valid_utf8_first_not_continuation(pb);
            assert(sb[i] == pb[0]);
            vstd::utf8::is_char_boundary_iff_not_is_continuation_byte(sb, i);
            vstd::utf8::decode_utf8_split(sb, i);
            let qb = sb.subrange(0, i);
            vstd::utf8::encode_utf8_decode_utf8(s);
            vstd::utf8::encode_utf8_decode_utf8(p);
            assert(s == decode_utf8(qb) + p);
            assert(p =~= s.subrange(s.len() - p.len(), s.len() as int));
        }
    }
}

/// The characters of `sub` occur in those of `s` exactly when the UTF-8
/// bytes of `sub` occur in those of `s`.  A byte-level occurrence of a
/// valid encoding starts with a leading byte, so it falls on a character
/// boundary, and covers whole characters: UTF-8 is self-synchronising.
pub proof fn lemma_substring_chars_iff_bytes(s: Seq<char>, sub: Seq<char>)
    ensures
        has_substring(s, sub) <==> has_substring(encode_utf8(s), encode_utf8(sub)),
{
    let sb = encode_utf8(s);
    let subb = encode_utf8(sub);
    if has_substring(s, sub) {
        let i = choose|i: int| occurs_at(s, sub, i);
        let pre = s.subrange(0, i);
        let post = s.skip(i + sub.len());
        assert(s =~= pre + (sub + post));
        lemma_encode_utf8_concat(pre, sub + post);
        lemma_encode_utf8_concat(sub, post);
        let j = encode_utf8(pre).len() as int;
        assert(sb.subrange(j, j + subb.len()) =~= subb);
        assert(occurs_at(sb, subb, j));
    }
    if has_substring(sb, subb) {
        if sub.len() == 0 {
            lemma_empty_substring(s);
        } else {
            let j = choose|j: int| occurs_at(sb, subb, j);
            vstd::utf8::encode_utf8_valid_utf8(s);
            vstd::utf8::encode_utf8_valid_utf8(sub);
            lemma_valid_utf8_first_not_continuation(subb);
            assert(sb.subrange(j, j + subb.len())[0] == sb[j]);
            assert(sb[j] == subb[0]);
            vstd::utf8::is_char_boundary_iff_not_is_continuation_byte(sb, j);
            vstd::utf8::valid_utf8_split(sb, j);
            vstd::utf8::decode_utf8_split(sb, j);
            let qb = sb.subrange(0, j);
            let tb = sb.subrange(j, sb.len() as int);
            assert(subb =~= tb.subrange(0, subb.len() as int));
            vstd::utf8::decode_utf8_encode_utf8(tb);
            let td = decode_utf8(tb);
            lemma_prefix_chars_iff_bytes(td, sub);
            assert(encode_utf8(sub).is_prefix_of(encode_utf8(td)));
            assert(sub.is_prefix_of(td));
            vstd::utf8::encode_utf8_decode_utf8(s);
            assert(s == decode_utf8(qb) + td);
            let ci = decode_utf8(qb).len() as int;
            assert(s.subrange(ci, ci + sub.len()) =~= td.subrange(0, sub.len() as int));
            assert(occurs_at(s, sub, ci));
        }
    }
}

/// Whether the bytes of `b` match those of `a` starting at `j`.
fn slice_match_at(a: &[u8], b: &[u8], j: usize) -> (r: bool)
    requires
        j + b@.len() <= a@.len(),
    ensures
        r == (a@.subrange(j as int, j as int + b@.len()) == b@),
{
    let n = b.len();
    let m = a.len();
    for i in 0..n
        invariant
            n == b@.len(),
            m == a@.len(),
            j + n <= a@.len(),
            forall|k: int| 0 <= k < i ==> a@[j + k] == b@[k],
    {
        if a[j + i] != b[i] {
            proof {
                assert(a@.subrange(j as int, j as int + b@.len())[i as int] != b@[i as int]);
            }
            return false;
        }
    }
    proof {
        assert(b@ =~= a@.subrange(j as int, j as int + n as int));
    }
    true
}

/// Whether the bytes of `b` occur contiguously in those of `a`: a
/// straightforward left-to-right search.
fn slice_has_substring(a: &[u8], b: &[u8]) -> (r: bool)
    ensures
        r == has_substring(a@, b@),
{
    if b.len() == 0 {
        proof {
            lemma_empty_substring(a@);
        }
        return true;
    }
    if b.len() > a.len() {
        proof {
            assert(forall|i: int| !occurs_at(a@, b@, i));
        }
        return false;
    }
    let last = a.len() - b.len();
    let mut j: usize = 0;
    while j <= last
        invariant
            1 <= b@.len() <= a@.len(),
            a@.len() <= usize::MAX,
            last == a@.len() - b@.len(),
            j <= last + 1,
            forall|k: int| 0 <= k < j ==> !occurs_at(a@, b@, k),
        decreases last + 1 - j,
    {
        if slice_match_at(a, b, j) {
            proof {
                assert(occurs_at(a@, b@, j as int));
            }
            return true;
        }
        j = j + 1;
    }
    proof {
        assert(forall|k: int| !occurs_at(a@, b@, k));
    }
    false
}

/// The pattern occurs in the receiver exactly when its characters occur
/// contiguously in the receiver's: searched over the UTF-8 bytes and
/// lifted.
pub fn str_contains(s: &str, sub: &str) -> (r: bool)
    ensures
        r == has_substring(s@, sub@),
{
    proof {
        lemma_substring_chars_iff_bytes(s@, sub@);
    }
    slice_has_substring(s.as_bytes(), sub.as_bytes())
}

/// Whether `b` is a prefix of `a`, byte for byte.
fn slice_has_prefix(a: &[u8], b: &[u8]) -> (r: bool)
    ensures
        r == b@.is_prefix_of(a@),
{
    if b.len() > a.len() {
        return false;
    }
    let n = b.len();
    for i in 0..n
        invariant
            n == b@.len() <= a@.len(),
            forall|j: int| 0 <= j < i ==> a@[j] == b@[j],
    {
        if a[i] != b[i] {
            proof {
                assert(a@.subrange(0, n as int)[i as int] != b@[i as int]);
            }
            return false;
        }
    }
    proof {
        assert(b@ =~= a@.subrange(0, n as int));
    }
    true
}

/// Whether `b` is a suffix of `a`, byte for byte.
fn slice_has_suffix(a: &[u8], b: &[u8]) -> (r: bool)
    ensures
        r == b@.is_suffix_of(a@),
{
    if b.len() > a.len() {
        return false;
    }
    let offset = a.len() - b.len();
    let n = b.len();
    for i in 0..n
        invariant
            n == b@.len() <= a@.len(),
            a@.len() <= usize::MAX,
            offset == a@.len() - b@.len(),
            forall|j: int| 0 <= j < i ==> a@[offset + j] == b@[j],
    {
        if a[offset + i] != b[i] {
            proof {
                assert(a@.subrange(offset as int, a@.len() as int)[i as int] != b@[i as int]);
            }
            return false;
        }
    }
    proof {
        assert(b@ =~= a@.subrange(offset as int, a@.len() as int));
    }
    true
}

/// The pattern is a prefix of the receiver exactly when its characters are
/// a prefix of the receiver's: compared over the UTF-8 bytes and lifted.
pub fn str_starts_with(s: &str, prefix: &str) -> (r: bool)
    ensures
        r == prefix@.is_prefix_of(s@),
{
    proof {
        lemma_prefix_chars_iff_bytes(s@, prefix@);
    }
    slice_has_prefix(s.as_bytes(), prefix.as_bytes())
}

/// The pattern is a suffix of the receiver exactly when its characters are
/// a suffix of the receiver's: compared over the UTF-8 bytes and lifted.
pub fn str_ends_with(s: &str, suffix: &str) -> (r: bool)
    ensures
        r == suffix@.is_suffix_of(s@),
{
    proof {
        lemma_suffix_chars_iff_bytes(s@, suffix@);
    }
    slice_has_suffix(s.as_bytes(), suffix.as_bytes())
}

/// Two string slices are equal exactly when their character sequences are:
/// their UTF-8 bytes are compared one by one, and the encoding is injective.
pub fn str_eq(s: &str, other: &str) -> (r: bool)
    ensures
        r == (s@ == other@),
{
    let a = s.as_bytes();
    let b = other.as_bytes();
    proof {
        vstd::utf8::encode_utf8_decode_utf8(s@);
        vstd::utf8::encode_utf8_decode_utf8(other@);
        if s@ == other@ {
            assert(a@ == b@);
        }
        if a@ == b@ {
            assert(decode_utf8(encode_utf8(s@)) == decode_utf8(encode_utf8(other@)));
        }
    }
    if a.len() != b.len() {
        return false;
    }
    let n = a.len();
    for i in 0..n
        invariant
            n == a@.len() == b@.len(),
            (s@ == other@) <==> (a@ == b@),
            forall|j: int| 0 <= j < i ==> a@[j] == b@[j],
    {
        if a[i] != b[i] {
            return false;
        }
    }
    proof {
        assert(a@ =~= b@);
    }
    true
}

} // verus!
