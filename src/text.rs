//! Character-level helpers: Unicode white space, trimming, and moving
//! between `&str`, `String` and `Vec<char>`.
use vstd::prelude::*;
use vstd::string::StringSliceAdditionalSpecFns;
use vstd::utf8::{decode_utf8, is_char_boundary};

verus! {

/// The characters that carry the Unicode `White_Space` property.
pub open spec fn is_space(c: char) -> bool {
    ||| ('\u{9}' <= c && c <= '\u{d}')
    ||| c == ' '
    ||| c == '\u{85}'
    ||| c == '\u{a0}'
    ||| c == '\u{1680}'
    ||| ('\u{2000}' <= c && c <= '\u{200a}')
    ||| c == '\u{2028}'
    ||| c == '\u{2029}'
    ||| c == '\u{202f}'
    ||| c == '\u{205f}'
    ||| c == '\u{3000}'
}

pub fn is_space_char(c: char) -> (r: bool)
    ensures
        r == is_space(c),
{
    ('\u{9}' <= c && c <= '\u{d}') || c == ' ' || c == '\u{85}' || c == '\u{a0}' || c
        == '\u{1680}' || ('\u{2000}' <= c && c <= '\u{200a}') || c == '\u{2028}' || c
        == '\u{2029}' || c == '\u{202f}' || c == '\u{205f}' || c == '\u{3000}'
}

/// `s` without its leading white space.
pub open spec fn trim_start(s: Seq<char>) -> Seq<char>
    decreases s.len(),
{
    if s.len() > 0 && is_space(s[0]) {
        trim_start(s.drop_first())
    } else {
        s
    }
}

/// `s` without its trailing white space.
pub open spec fn trim_end(s: Seq<char>) -> Seq<char>
    decreases s.len(),
{
    if s.len() > 0 && is_space(s.last()) {
        trim_end(s.drop_last())
    } else {
        s
    }
}

/// `s` without white space at either end.
pub open spec fn trim(s: Seq<char>) -> Seq<char> {
    trim_end(trim_start(s))
}

/// The characters of an optional string.
pub open spec fn opt_chars(o: Option<String>) -> Option<Seq<char>> {
    match o {
        Some(s) => Some(s@),
        None => None,
    }
}

/// The characters of the UTF-8 text `bytes[a..b]`.
pub open spec fn text_of(bytes: Seq<u8>, a: int, b: int) -> Seq<char> {
    decode_utf8(bytes.subrange(a, b))
}

/// The elements `a..b` of `v`, copied.
pub fn copy_range(v: &Vec<char>, a: usize, b: usize) -> (r: Vec<char>)
    requires
        a <= b <= v.len(),
    ensures
        r@ == v@.subrange(a as int, b as int),
{
    let mut r: Vec<char> = Vec::new();
    let mut i: usize = a;
    while i < b
        invariant
            a <= i <= b <= v.len(),
            r@ == v@.subrange(a as int, i as int),
        decreases b - i,
    {
        r.push(v[i]);
        i = i + 1;
        assert(r@ =~= v@.subrange(a as int, i as int));
    }
    r
}

/// `s` without white space at either end.
pub fn trim_chars(s: &Vec<char>) -> (r: Vec<char>)
    ensures
        r@ == trim(s@),
{
    let mut a: usize = 0;
    assert(s@.subrange(0, s.len() as int) =~= s@);
    while a < s.len() && is_space_char(s[a])
        invariant
            a <= s.len(),
            trim_start(s@.subrange(a as int, s.len() as int)) == trim_start(s@),
        decreases s.len() - a,
    {
        assert(s@.subrange(a as int, s.len() as int).drop_first() =~= s@.subrange(
            a + 1,
            s.len() as int,
        ));
        a = a + 1;
    }
    let ghost front = s@.subrange(a as int, s.len() as int);
    assert(trim_start(front) == front);
    let mut b: usize = s.len();
    while b > a && is_space_char(s[b - 1])
        invariant
            a <= b <= s.len(),
            front == s@.subrange(a as int, s.len() as int),
            trim_end(s@.subrange(a as int, b as int)) == trim_end(front),
        decreases b,
    {
        assert(s@.subrange(a as int, b as int).drop_last() =~= s@.subrange(a as int, b - 1));
        b = b - 1;
    }
    assert(s@.subrange(a as int, s.len() as int) =~= front);
    copy_range(s, a, b)
}

/// The characters of `s`, in order.
pub fn chars_of(s: &str) -> (r: Vec<char>)
    ensures
        r@ == s@,
{
    broadcast use vstd::string::group_string_axioms;
    let mut r: Vec<char> = Vec::new();
    for c in it: s.chars()
        invariant
            it.seq() == s@,
            r@ == s@.subrange(0, it.index() as int),
    {
        r.push(c);
        assert(r@ =~= s@.subrange(0, it.index() + 1));
    }
    assert(r@ =~= s@);
    r
}

/// Relies on `String`'s `FromIterator<char>`: the string holds the chars
/// in the order the iterator yields them.
#[verifier::external_body]
pub(crate) fn string_of(chars: &Vec<char>) -> (r: String)
    ensures
        r@ == chars@,
{
    chars.iter().collect()
}

/// The text `s[a..b]` for byte offsets `a` and `b` that fall on character
/// boundaries.
pub fn slice(s: &str, a: usize, b: usize) -> (r: &str)
    requires
        a <= b <= s.spec_bytes().len(),
        is_char_boundary(s.spec_bytes(), a as int),
        is_char_boundary(s.spec_bytes(), b as int),
    ensures
        r@ == text_of(s.spec_bytes(), a as int, b as int),
{
    broadcast use vstd::utf8::group_utf8_lib;

    let (_head, rest) = s.split_at(a);
    proof {
        let bs = s.spec_bytes();
        let ys = rest.spec_bytes();
        vstd::utf8::valid_utf8_split(bs, a as int);
        if b < bs.len() {
            vstd::utf8::is_char_boundary_iff_not_is_continuation_byte(bs, b as int);
            vstd::utf8::is_char_boundary_iff_not_is_continuation_byte(ys, (b - a) as int);
        } else {
            vstd::utf8::is_char_boundary_start_end_of_seq(ys);
        }
    }
    let (mid, _tail) = rest.split_at(b - a);
    assert(mid.spec_bytes() =~= s.spec_bytes().subrange(a as int, b as int));
    mid
}

/// The length of `s` in bytes.
pub fn byte_len(s: &str) -> (n: usize)
    ensures
        n == s.spec_bytes().len(),
{
    broadcast use vstd::slice::group_slice_axioms;

    s.as_bytes().len()
}

/// Whether two texts hold the same characters.
pub fn same_text(x: &str, y: &str) -> (r: bool)
    ensures
        r == (x@ == y@),
{
    broadcast use vstd::utf8::group_utf8_lib;

    let xb = x.as_bytes();
    let yb = y.as_bytes();
    if xb.len() != yb.len() {
        assert(x.spec_bytes() != y.spec_bytes());
        return false;
    }
    let mut i: usize = 0;
    while i < xb.len()
        invariant
            xb@ == x.spec_bytes(),
            yb@ == y.spec_bytes(),
            xb.len() == yb.len(),
            i <= xb.len(),
            forall|j: int| 0 <= j < i ==> xb@[j] == yb@[j],
        decreases xb.len() - i,
    {
        if xb[i] != yb[i] {
            assert(xb@[i as int] != yb@[i as int]);
            return false;
        }
        i = i + 1;
    }
    assert(xb@ =~= yb@);
    assert(x@ == decode_utf8(x.spec_bytes()));
    true
}

/// Texts of adjacent spans join into the text of the whole span.
pub proof fn lemma_text_concat(bytes: Seq<u8>, a: int, b: int, c: int)
    requires
        vstd::utf8::valid_utf8(bytes),
        0 <= a <= b <= c <= bytes.len(),
        is_char_boundary(bytes, a),
        is_char_boundary(bytes, b),
        is_char_boundary(bytes, c),
    ensures
        text_of(bytes, a, c) == text_of(bytes, a, b) + text_of(bytes, b, c),
{
    broadcast use vstd::utf8::group_utf8_lib;

    let s = bytes.subrange(a, bytes.len() as int);
    vstd::utf8::valid_utf8_split(bytes, a);
    if c < bytes.len() {
        vstd::utf8::is_char_boundary_iff_not_is_continuation_byte(bytes, c);
        vstd::utf8::is_char_boundary_iff_not_is_continuation_byte(s, c - a);
    } else {
        vstd::utf8::is_char_boundary_start_end_of_seq(s);
    }
    vstd::utf8::valid_utf8_split(s, c - a);
    let t = s.subrange(0, c - a);
    assert(t =~= bytes.subrange(a, c));
    if b < c {
        vstd::utf8::is_char_boundary_iff_not_is_continuation_byte(bytes, b);
        vstd::utf8::is_char_boundary_iff_not_is_continuation_byte(t, b - a);
    } else {
        vstd::utf8::is_char_boundary_start_end_of_seq(t);
    }
    vstd::utf8::decode_utf8_split(t, b - a);
    assert(t.subrange(0, b - a) =~= bytes.subrange(a, b));
    assert(t.subrange(b - a, t.len() as int) =~= bytes.subrange(b, c));
}

} // verus!
