//! Text helpers: the few calls into std's string functions that the library relies on.
use vstd::prelude::*;
use vstd::utf8::encode_utf8;
use core::cmp::Ordering;

verus! {

/// The characters that lossy UTF-8 decoding yields for a byte sequence.
pub uninterp spec fn utf8_lossy(b: Seq<u8>) -> Seq<char>;

/// Relies on `String::from_utf8_lossy`: the text of the bytes, with each invalid
/// sequence replaced by U+FFFD (so valid UTF-8 is decoded as it is); the result depends
/// on the bytes alone.
#[verifier::external_body]
pub(crate) fn lossy_string(b: &[u8]) -> (r: String)
    ensures
        r@ == utf8_lossy(b@),
        vstd::utf8::valid_utf8(b@) ==> r@ == vstd::utf8::decode_utf8(b@),
{
    String::from_utf8_lossy(b).into_owned()
}

/// Relies on `String::push`: appends one character.
#[verifier::external_body]
pub(crate) fn push_char(s: &mut String, c: char)
    ensures
        final(s)@ == old(s)@.push(c),
{
    s.push(c)
}

/// A binary class name with its package separators `/` turned into `.`.
pub open spec fn dotted(s: Seq<char>) -> Seq<char> {
    Seq::new(s.len(), |i: int| if s[i] == '/' { '.' } else { s[i] })
}

/// The element type named by an object-array class name: `[L<type>;` and `[[L<type>;`
/// lose their prefix and their last character; any other name stays as it is.
pub open spec fn array_element_name(s: Seq<char>) -> Seq<char> {
    if s.len() >= 3 && s[0] == '[' && s[1] == 'L' {
        s.subrange(2, s.len() - 1)
    } else if s.len() >= 4 && s[0] == '[' && s[1] == '[' && s[2] == 'L' {
        s.subrange(3, s.len() - 1)
    } else {
        s
    }
}

/// Appends the characters `from..to` of `s`, each mapped through `dotted` when `dot`.
fn push_chars(out: &mut String, s: &str, from: usize, to: usize, dot: bool)
    requires
        from <= to <= s@.len(),
    ensures
        final(out)@ == old(out)@ + if dot {
            dotted(s@.subrange(from as int, to as int))
        } else {
            s@.subrange(from as int, to as int)
        },
{
    let mut i = from;
    while i < to
        invariant
            from <= i <= to <= s@.len(),
            out@ == old(out)@ + if dot {
                dotted(s@.subrange(from as int, i as int))
            } else {
                s@.subrange(from as int, i as int)
            },
        decreases to - i,
    {
        let c = s.get_char(i);
        push_char(out, if dot && c == '/' { '.' } else { c });
        i = i + 1;
        assert(s@.subrange(from as int, i as int) =~= s@.subrange(from as int, i - 1).push(c));
        assert(dotted(s@.subrange(from as int, i as int)) =~= dotted(s@.subrange(from as int, i - 1)).push(if c == '/' { '.' } else { c }));
    }
}

pub fn dotted_name(s: &str) -> (r: String)
    ensures
        r@ == dotted(s@),
{
    let mut r = String::new();
    let n = s.unicode_len();
    push_chars(&mut r, s, 0, n, true);
    assert(s@.subrange(0, n as int) =~= s@);
    r
}

pub fn array_element_name_of(s: &str) -> (r: String)
    ensures
        r@ == array_element_name(s@),
{
    let n = s.unicode_len();
    let mut r = String::new();
    if n >= 3 && s.get_char(0) == '[' && s.get_char(1) == 'L' {
        push_chars(&mut r, s, 2, n - 1, false);
    } else if n >= 4 && s.get_char(0) == '[' && s.get_char(1) == '[' && s.get_char(2) == 'L' {
        push_chars(&mut r, s, 3, n - 1, false);
    } else {
        push_chars(&mut r, s, 0, n, false);
        assert(s@.subrange(0, n as int) =~= s@);
    }
    r
}

/// `a` comes no later than `b` in lexicographic byte order.
pub open spec fn lex_le(a: Seq<u8>, b: Seq<u8>) -> bool
    decreases a.len(),
{
    if a.len() == 0 {
        true
    } else if b.len() == 0 {
        false
    } else if a[0] != b[0] {
        a[0] < b[0]
    } else {
        lex_le(a.drop_first(), b.drop_first())
    }
}

/// Strings in the order of their UTF-8 bytes.
pub open spec fn text_le(a: Seq<char>, b: Seq<char>) -> bool {
    lex_le(encode_utf8(a), encode_utf8(b))
}

/// The characters of each string.
pub open spec fn texts(v: Seq<String>) -> Seq<Seq<char>> {
    Seq::new(v.len(), |i: int| v[i]@)
}

pub open spec fn texts_sorted(v: Seq<String>) -> bool {
    forall|i: int, j: int| 0 <= i < j < v.len() ==> text_le(v[i]@, v[j]@)
}

/// Compares two byte strings lexicographically.
pub fn compare_bytes(a: &[u8], b: &[u8]) -> (r: Ordering)
    ensures
        (r == Ordering::Less) == !lex_le(b@, a@),
        (r == Ordering::Greater) == !lex_le(a@, b@),
        (r == Ordering::Equal) == (a@ == b@),
{
    let mut i: usize = 0;
    assert(a@.subrange(0, a@.len() as int) =~= a@);
    assert(b@.subrange(0, b@.len() as int) =~= b@);
    while i < a.len() && i < b.len() && a[i] == b[i]
        invariant
            i <= a@.len(),
            i <= b@.len(),
            a@.subrange(0, i as int) == b@.subrange(0, i as int),
            lex_le(a@, b@) == lex_le(a@.subrange(i as int, a@.len() as int), b@.subrange(i as int, b@.len() as int)),
            lex_le(b@, a@) == lex_le(b@.subrange(i as int, b@.len() as int), a@.subrange(i as int, a@.len() as int)),
        decreases a@.len() - i,
    {
        proof {
            let ra = a@.subrange(i as int, a@.len() as int);
            let rb = b@.subrange(i as int, b@.len() as int);
            assert(ra.drop_first() =~= a@.subrange(i + 1, a@.len() as int));
            assert(rb.drop_first() =~= b@.subrange(i + 1, b@.len() as int));
            assert(a@.subrange(0, i + 1) =~= a@.subrange(0, i as int).push(a@[i as int]));
            assert(b@.subrange(0, i + 1) =~= b@.subrange(0, i as int).push(b@[i as int]));
        }
        i = i + 1;
    }
    proof {
        let ra = a@.subrange(i as int, a@.len() as int);
        let rb = b@.subrange(i as int, b@.len() as int);
        if i == a.len() && i == b.len() {
            assert(a@ =~= a@.subrange(0, i as int));
            assert(b@ =~= b@.subrange(0, i as int));
        }
        if a@ == b@ {
            assert(ra =~= rb);
        }
    }
    if i == a.len() && i == b.len() {
        Ordering::Equal
    } else if i == a.len() {
        Ordering::Less
    } else if i == b.len() {
        Ordering::Greater
    } else if a[i] < b[i] {
        Ordering::Less
    } else {
        Ordering::Greater
    }
}

/// Compares two strings by their UTF-8 bytes.
pub fn compare_text(a: &String, b: &String) -> (r: Ordering)
    ensures
        (r == Ordering::Less) == !text_le(b@, a@),
        (r == Ordering::Greater) == !text_le(a@, b@),
{
    compare_bytes(a.as_str().as_bytes(), b.as_str().as_bytes())
}

/// Relies on `slice::sort_by`, with a comparison that is a total order: the strings are
/// permuted into ascending byte order.
#[verifier::external_body]
pub(crate) fn sort_texts(v: &mut Vec<String>)
    ensures
        texts(final(v)@).to_multiset() == texts(old(v)@).to_multiset(),
        texts_sorted(final(v)@),
{
    v.sort_by(|a, b| compare_text(a, b))
}

/// `sorted` holds the texts of `values` in ascending byte order.
pub open spec fn sorted_texts_of(values: Seq<Seq<char>>, sorted: Seq<Seq<char>>) -> bool {
    &&& sorted.to_multiset() == values.to_multiset()
    &&& forall|i: int, j: int| 0 <= i < j < sorted.len() ==> text_le(sorted[i], sorted[j])
}

/// The number of texts equal to the one before them.
pub open spec fn adjacent_equal(s: Seq<Seq<char>>) -> nat
    decreases s.len(),
{
    if s.len() < 2 {
        0
    } else {
        adjacent_equal(s.drop_last()) + if s[s.len() - 1] == s[s.len() - 2] {
            1nat
        } else {
            0nat
        }
    }
}

/// Each text followed by a line break.
pub open spec fn text_lines(s: Seq<Seq<char>>) -> Seq<char>
    decreases s.len(),
{
    if s.len() == 0 {
        seq![]
    } else {
        text_lines(s.drop_last()) + s.last() + seq!['\n']
    }
}

/// Relies on `slice::sort_unstable`: the ids are permuted into ascending order.
#[verifier::external_body]
pub(crate) fn sort_ids(v: &mut Vec<u64>)
    ensures
        final(v)@.to_multiset() == old(v)@.to_multiset(),
        forall|i: int, j: int| 0 <= i < j < final(v)@.len() ==> final(v)@[i] <= final(v)@[j],
{
    v.sort_unstable()
}

} // verus!
