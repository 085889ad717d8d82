//! Cleaning of user text before injection and its split into UTF-16 batches.
use vstd::prelude::*;
use crate::chars::{chars_of, string_of};

verus! {

/// The cleaned text, its length in Unicode scalars, and its UTF-16 batches.
#[derive(Debug, Clone, PartialEq, Eq)]
pub struct TextPreview {
    pub cleaned_text: String,
    pub scalar_count: usize,
    pub utf16_batches: Vec<Vec<u16>>,
}

/// Why a text cannot be previewed.
#[derive(Debug, Clone, PartialEq, Eq)]
pub enum TextError {
    Empty,
    TooLong { actual: usize, limit: usize },
    InvalidBatchSize,
}

/// Line breaks, NUL, the Unicode line/paragraph separators and C0/C1 controls.
pub open spec fn spec_is_disallowed(c: char) -> bool {
    ||| c == '\r'
    ||| c == '\n'
    ||| c == '\0'
    ||| c == '\u{2028}'
    ||| c == '\u{2029}'
    ||| (0x0001 <= (c as u32) && (c as u32) <= 0x001f)
    ||| (0x007f <= (c as u32) && (c as u32) <= 0x009f)
}

/// The input with every disallowed character removed, order kept.
pub open spec fn spec_clean_text(s: Seq<char>) -> Seq<char> {
    s.filter(|c: char| !spec_is_disallowed(c))
}

/// UTF-16 code units of one scalar value.
pub open spec fn utf16_of_char(c: char) -> Seq<u16> {
    let v = c as u32;
    if v < 0x10000 {
        seq![v as u16]
    } else {
        seq![(0xD800 + (v - 0x10000) / 0x400) as u16, (0xDC00 + (v - 0x10000) % 0x400) as u16]
    }
}

/// UTF-16 code units of a character sequence.
pub open spec fn utf16_of(s: Seq<char>) -> Seq<u16>
    decreases s.len(),
{
    if s.len() == 0 {
        Seq::empty()
    } else {
        utf16_of(s.drop_last()) + utf16_of_char(s.last())
    }
}

/// The UTF-16 encodings of consecutive chunks of `size` scalars (the last
/// chunk may be shorter).
pub open spec fn utf16_batches_of(s: Seq<char>, size: nat) -> Seq<Seq<u16>>
    decreases s.len(),
{
    if s.len() == 0 || size == 0 {
        Seq::empty()
    } else if s.len() <= size {
        seq![utf16_of(s)]
    } else {
        seq![utf16_of(s.take(size as int))] + utf16_batches_of(s.skip(size as int), size)
    }
}

/// The view of a vector of vectors as a sequence of sequences.
pub open spec fn nested_view(v: Seq<Vec<u16>>) -> Seq<Seq<u16>> {
    Seq::new(v.len(), |i: int| v[i]@)
}

pub fn is_disallowed(character: char) -> (r: bool)
    ensures
        r == spec_is_disallowed(character),
{
    let v = character as u32;
    character == '\r' || character == '\n' || character == '\0' || character == '\u{2028}'
        || character == '\u{2029}' || (0x0001 <= v && v <= 0x001f) || (0x007f <= v && v <= 0x009f)
}

proof fn lemma_filter_step(s: Seq<char>, i: int)
    requires
        0 <= i < s.len(),
    ensures
        spec_clean_text(s.take(i + 1)) == if spec_is_disallowed(s[i]) {
            spec_clean_text(s.take(i))
        } else {
            spec_clean_text(s.take(i)).push(s[i])
        },
{
    reveal(Seq::filter);
    assert(s.take(i + 1).drop_last() =~= s.take(i));
}

/// Removes line breaks, NUL and control characters.
pub fn clean_text(input: &str) -> (r: String)
    ensures
        r@ == spec_clean_text(input@),
{
    let cs = chars_of(input);
    let mut out: Vec<char> = Vec::new();
    let mut i: usize = 0;
    while i < cs.len()
        invariant
            cs@ == input@,
            i <= cs.len(),
            out@ == spec_clean_text(cs@.take(i as int)),
        decreases cs.len() - i,
    {
        proof {
            lemma_filter_step(cs@, i as int);
        }
        if !is_disallowed(cs[i]) {
            out.push(cs[i]);
        }
        i = i + 1;
    }
    assert(cs@.take(cs.len() as int) =~= cs@);
    string_of(&out)
}

/// Number of Unicode scalar values.
pub fn scalar_count(input: &str) -> (r: usize)
    ensures
        r == input@.len(),
{
    input.unicode_len()
}

fn push_utf16(c: char, out: &mut Vec<u16>)
    ensures
        final(out)@ == old(out)@ + utf16_of_char(c),
{
    let v = c as u32;
    if v < 0x10000 {
        out.push(v as u16);
    } else {
        let w = v - 0x10000;
        out.push((0xD800 + w / 0x400) as u16);
        out.push((0xDC00 + w % 0x400) as u16);
    }
    assert(final(out)@ =~= old(out)@ + utf16_of_char(c));
}

/// UTF-16 encoding of `cs[start..end]`.
fn encode_range(cs: &Vec<char>, start: usize, end: usize) -> (r: Vec<u16>)
    requires
        start <= end <= cs.len(),
    ensures
        r@ == utf16_of(cs@.subrange(start as int, end as int)),
{
    let mut r: Vec<u16> = Vec::new();
    let mut j = start;
    assert(cs@.subrange(start as int, start as int) =~= Seq::<char>::empty());
    while j < end
        invariant
            start <= j <= end <= cs.len(),
            r@ == utf16_of(cs@.subrange(start as int, j as int)),
        decreases end - j,
    {
        push_utf16(cs[j], &mut r);
        assert(cs@.subrange(start as int, j + 1).drop_last() =~= cs@.subrange(start as int, j as int));
        j = j + 1;
    }
    r
}

/// UTF-16 batches of `size` scalars each.
pub fn utf16_batches(cs: &Vec<char>, size: usize) -> (r: Vec<Vec<u16>>)
    requires
        size > 0,
    ensures
        nested_view(r@) == utf16_batches_of(cs@, size as nat),
{
    let n = cs.len();
    let mut out: Vec<Vec<u16>> = Vec::new();
    let mut i: usize = 0;
    assert(cs@.skip(0) =~= cs@);
    while i < n
        invariant
            n == cs.len(),
            size > 0,
            i <= n,
            nested_view(out@) + utf16_batches_of(cs@.skip(i as int), size as nat)
                == utf16_batches_of(cs@, size as nat),
        decreases n - i,
    {
        let end = if n - i <= size { n } else { i + size };
        let batch = encode_range(cs, i, end);
        let ghost rest = cs@.skip(i as int);
        proof {
            if n - i <= size {
                assert(rest =~= cs@.subrange(i as int, end as int));
                assert(cs@.skip(end as int) =~= Seq::<char>::empty());
            } else {
                assert(rest.take(size as int) =~= cs@.subrange(i as int, end as int));
                assert(rest.skip(size as int) =~= cs@.skip(end as int));
            }
        }
        let ghost before = out@;
        out.push(batch);
        assert(nested_view(out@) =~= nested_view(before).push(batch@));
        i = end;
        assert(nested_view(out@) + utf16_batches_of(cs@.skip(i as int), size as nat)
            =~= utf16_batches_of(cs@, size as nat));
    }
    assert(cs@.skip(n as int) =~= Seq::<char>::empty());
    assert(nested_view(out@) =~= nested_view(out@) + utf16_batches_of(cs@.skip(n as int), size as nat));
    out
}

/// Cleans the text, checks it against the character limit, and splits it
/// into UTF-16 batches of `batch_size` scalars (never splitting a surrogate
/// pair).
pub fn preview_text(input: &str, character_limit: usize, batch_size: usize) -> (r: Result<
    TextPreview,
    TextError,
>)
    ensures
        batch_size == 0 ==> r == Err::<TextPreview, TextError>(TextError::InvalidBatchSize),
        batch_size > 0 && spec_clean_text(input@).len() == 0 ==> r == Err::<
            TextPreview,
            TextError,
        >(TextError::Empty),
        batch_size > 0 && spec_clean_text(input@).len() > character_limit ==> r == Err::<
            TextPreview,
            TextError,
        >(TextError::TooLong { actual: spec_clean_text(input@).len() as usize, limit: character_limit }),
        batch_size > 0 && 0 < spec_clean_text(input@).len() <= character_limit ==> (r matches Ok(p)
            && p.cleaned_text@ == spec_clean_text(input@)
            && p.scalar_count == spec_clean_text(input@).len()
            && nested_view(p.utf16_batches@) == utf16_batches_of(spec_clean_text(input@), batch_size as nat)),
{
    if batch_size == 0 {
        return Err(TextError::InvalidBatchSize);
    }
    let cleaned_text = clean_text(input);
    let count = scalar_count(cleaned_text.as_str());
    if count == 0 {
        return Err(TextError::Empty);
    }
    if count > character_limit {
        return Err(TextError::TooLong { actual: count, limit: character_limit });
    }
    let characters = chars_of(cleaned_text.as_str());
    let utf16_batches = utf16_batches(&characters, batch_size);
    Ok(TextPreview { cleaned_text, scalar_count: count, utf16_batches })
}

} // verus!

verus! {

// ---------------------------------------------------------------------------
// What cleaning and batching keep

proof fn lemma_filter_keeps_all(t: Seq<char>)
    requires
        forall|i: int| 0 <= i < t.len() ==> !spec_is_disallowed(#[trigger] t[i]),
    ensures
        spec_clean_text(t) == t,
    decreases t.len(),
{
    reveal(Seq::filter);
    if t.len() > 0 {
        let d = t.drop_last();
        assert forall|i: int| 0 <= i < d.len() implies !spec_is_disallowed(#[trigger] d[i]) by {
            assert(d[i] == t[i]);
        }
        lemma_filter_keeps_all(d);
        assert(!spec_is_disallowed(t[t.len() - 1]));
        assert(d.push(t.last()) =~= t);
    }
}

/// A cleaned text holds no line break, NUL or control character.
pub proof fn lemma_cleaned_text_is_clean(s: Seq<char>)
    ensures
        forall|i: int| 0 <= i < spec_clean_text(s).len() ==> !spec_is_disallowed(#[trigger] spec_clean_text(s)[i]),
{
    assert forall|i: int| 0 <= i < spec_clean_text(s).len() implies !spec_is_disallowed(#[trigger] spec_clean_text(s)[i]) by {
        s.lemma_filter_pred(|c: char| !spec_is_disallowed(c), i);
    }
}

/// A character is removed exactly when its code is a C0 control
/// (0x00-0x1F), DEL or a C1 control (0x7F-0x9F), or U+2028 / U+2029.
pub proof fn lemma_disallowed_by_code(c: char)
    ensures
        spec_is_disallowed(c) <==> ((c as u32) <= 0x1f || (0x7f <= (c as u32) && (c as u32) <= 0x9f)
            || (c as u32) == 0x2028 || (c as u32) == 0x2029),
{
    assert(('\r' as u32) == 0x0d);
    assert(('\n' as u32) == 0x0a);
    assert(('\0' as u32) == 0);
    assert(('\u{2028}' as u32) == 0x2028);
    assert(('\u{2029}' as u32) == 0x2029);
}

/// Cleaning keeps, in order, exactly the characters whose code is no
/// control character (0x00-0x1F, 0x7F-0x9F) and neither U+2028 nor
/// U+2029.
pub proof fn lemma_clean_text_by_code(s: Seq<char>)
    ensures
        spec_clean_text(s) == s.filter(|c: char| !((c as u32) <= 0x1f || (0x7f <= (c as u32) && (c as u32) <= 0x9f)
            || (c as u32) == 0x2028 || (c as u32) == 0x2029)),
{
    let f1 = |c: char| !spec_is_disallowed(c);
    let f2 = |c: char| !((c as u32) <= 0x1f || (0x7f <= (c as u32) && (c as u32) <= 0x9f)
        || (c as u32) == 0x2028 || (c as u32) == 0x2029);
    assert forall|c: char| #[trigger] f1(c) == f2(c) by {
        lemma_disallowed_by_code(c);
    }
    assert(f1 =~= f2);
}

/// Cleaning a cleaned text changes nothing.
pub proof fn lemma_clean_text_idempotent(s: Seq<char>)
    ensures
        spec_clean_text(spec_clean_text(s)) == spec_clean_text(s),
{
    lemma_cleaned_text_is_clean(s);
    lemma_filter_keeps_all(spec_clean_text(s));
}

proof fn lemma_utf16_of_add(a: Seq<char>, b: Seq<char>)
    ensures
        utf16_of(a + b) == utf16_of(a) + utf16_of(b),
    decreases b.len(),
{
    if b.len() == 0 {
        assert(a + b =~= a);
        assert(utf16_of(a) + utf16_of(b) =~= utf16_of(a));
    } else {
        lemma_utf16_of_add(a, b.drop_last());
        assert((a + b).drop_last() =~= a + b.drop_last());
        assert((a + b).last() == b.last());
        assert(utf16_of(a) + utf16_of(b.drop_last()) + utf16_of_char(b.last())
            =~= utf16_of(a) + (utf16_of(b.drop_last()) + utf16_of_char(b.last())));
    }
}

/// The batches, put back together, are the UTF-16 encoding of the whole
/// text: no character is lost, repeated or split between two batches.
pub proof fn lemma_batches_concatenate(s: Seq<char>, size: nat)
    requires
        size > 0,
    ensures
        utf16_batches_of(s, size).flatten() == utf16_of(s),
    decreases s.len(),
{
    if s.len() == 0 {
    } else if s.len() <= size {
        seq![utf16_of(s)].lemma_flatten_one_element();
    } else {
        let head = s.take(size as int);
        let tail = s.skip(size as int);
        lemma_batches_concatenate(tail, size);
        let batches = seq![utf16_of(head)] + utf16_batches_of(tail, size);
        assert(batches.first() == utf16_of(head));
        assert(batches.drop_first() =~= utf16_batches_of(tail, size));
        lemma_utf16_of_add(head, tail);
        assert(head + tail =~= s);
    }
}

/// Every batch but the last encodes exactly `size` characters, and the last
/// at most `size`: the batches are `ceil(len / size)` in number.
pub proof fn lemma_batch_count(s: Seq<char>, size: nat)
    requires
        size > 0,
    ensures
        utf16_batches_of(s, size).len() == (s.len() + size - 1) / (size as int),
    decreases s.len(),
{
    if s.len() == 0 {
        assert((size - 1) / (size as int) == 0) by (nonlinear_arith)
            requires size > 0;
    } else if s.len() <= size {
        assert((s.len() + size - 1) / (size as int) == 1) by (nonlinear_arith)
            requires size > 0, 0 < s.len() <= size;
    } else {
        lemma_batch_count(s.skip(size as int), size);
        let n = s.len() as int;
        let z = size as int;
        assert((n - z + z - 1) / z + 1 == (n + z - 1) / z) by (nonlinear_arith)
            requires z > 0, n > z;
    }
}

} // verus!
