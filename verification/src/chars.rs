//! Character-sequence helpers shared by the text modules.
use vstd::prelude::*;

verus! {

/// `String::push` from std: appends one character.
#[verifier::external_body]
pub(crate) fn push_char(s: &mut String, c: char)
    ensures
        final(s)@ == old(s)@.push(c),
{
    s.push(c);
}

/// The characters of a string slice, as a vector.
pub fn chars_of(s: &str) -> (v: Vec<char>)
    ensures
        v@ == s@,
{
    let n = s.unicode_len();
    let mut v: Vec<char> = Vec::new();
    let mut i: usize = 0;
    while i < n
        invariant
            n == s@.len(),
            i <= n,
            v@ == s@.take(i as int),
        decreases n - i,
    {
        let c = s.get_char(i);
        v.push(c);
        i = i + 1;
        assert(v@ =~= s@.take(i as int));
    }
    assert(v@ =~= s@);
    v
}

/// A string holding exactly the given characters.
pub fn string_of(v: &[char]) -> (s: String)
    ensures
        s@ == v@,
{
    let mut s = String::new();
    let mut i: usize = 0;
    while i < v.len()
        invariant
            i <= v.len(),
            s@ == v@.take(i as int),
        decreases v.len() - i,
    {
        push_char(&mut s, v[i]);
        i = i + 1;
        assert(s@ =~= v@.take(i as int));
    }
    assert(v@.take(v.len() as int) =~= v@);
    s
}

} // verus!

verus! {

/// Unicode `White_Space`, the property that `char::is_whitespace` tests.
pub open spec fn spec_is_whitespace(c: char) -> bool {
    let v = c as u32;
    ||| (0x09 <= v && v <= 0x0d)
    ||| v == 0x20
    ||| v == 0x85
    ||| v == 0xa0
    ||| v == 0x1680
    ||| (0x2000 <= v && v <= 0x200a)
    ||| v == 0x2028
    ||| v == 0x2029
    ||| v == 0x202f
    ||| v == 0x205f
    ||| v == 0x3000
}

pub fn is_whitespace(c: char) -> (r: bool)
    ensures
        r == spec_is_whitespace(c),
{
    let v = c as u32;
    (0x09 <= v && v <= 0x0d) || v == 0x20 || v == 0x85 || v == 0xa0 || v == 0x1680 || (0x2000
        <= v && v <= 0x200a) || v == 0x2028 || v == 0x2029 || v == 0x202f || v == 0x205f || v
        == 0x3000
}

/// Every character is whitespace (the string is empty after trimming).
pub open spec fn spec_is_blank(s: Seq<char>) -> bool {
    forall|i: int| 0 <= i < s.len() ==> spec_is_whitespace(#[trigger] s[i])
}

pub fn is_blank(s: &str) -> (r: bool)
    ensures
        r == spec_is_blank(s@),
{
    let cs = chars_of(s);
    let mut i: usize = 0;
    while i < cs.len()
        invariant
            cs@ == s@,
            i <= cs.len(),
            forall|j: int| 0 <= j < i ==> spec_is_whitespace(#[trigger] cs@[j]),
        decreases cs.len() - i,
    {
        if !is_whitespace(cs[i]) {
            return false;
        }
        i = i + 1;
    }
    true
}

} // verus!

verus! {

/// Character classes that the chat-line parser trims, splits or stops on.
#[derive(Debug, Clone, Copy, PartialEq, Eq, Structural)]
pub enum CharClass {
    /// Unicode white space.
    Whitespace,
    /// Separators left at the edges of a glued OCR segment.
    SegmentEdge,
    /// Punctuation around a bare speaker-name crumb.
    CrumbEdge,
    /// Punctuation and quotes around a speaker name.
    SpeakerEdge,
    /// Separators and colons left at the end of a message.
    MessageTail,
    /// Characters after which a new speaker prefix may start.
    SegmentBoundary,
    /// Characters that end a speaker name.
    SpeakerStop,
    /// Punctuation allowed inside a speaker name.
    SpeakerPunctuation,
    /// ASCII and full-width colons.
    Colon,
    /// Interpuncts and bullets that OCR inserts between glued lines.
    Interpunct,
    /// The hyphen that ends a line broken inside a word.
    Hyphen,
    /// The space character.
    Space,
    /// The line feed that ends a line.
    Newline,
    /// The carriage return left before a line feed.
    CarriageReturn,
    /// The tab that separates table fields.
    Tab,
    /// Separators between the aliases of a glossary term.
    AliasSeparator,
    /// The slash that may end a URL.
    Slash,
    /// The double quote around a model reply.
    Quote,
    /// The `v` or `V` before a release version.
    VersionPrefix,
    /// Punctuation that closes a phrase and takes no space before it.
    ClosingPunctuation,
    /// Brackets that open a phrase and take no space after them.
    OpeningPunctuation,
}

pub open spec fn in_class(cls: CharClass, c: char) -> bool {
    match cls {
        CharClass::Whitespace => spec_is_whitespace(c),
        CharClass::SegmentEdge => c == '·' || c == '|' || c == ';' || c == '；',
        CharClass::CrumbEdge => c == ':' || c == '：' || c == '·' || c == '|' || c == ';' || c
            == '；' || c == ',' || c == '，',
        CharClass::SpeakerEdge => c == '·' || c == '|' || c == '/' || c == ';' || c == '；' || c
            == ',' || c == '，' || c == '"' || c == '\'' || c == '“' || c == '”',
        CharClass::MessageTail => c == '·' || c == '|' || c == ';' || c == '；' || c == ',' || c
            == '，' || c == ':' || c == '：' || c == ' ',
        CharClass::SegmentBoundary => spec_is_whitespace(c) || c == '·' || c == '|' || c == '/'
            || c == ';' || c == '；' || c == ',' || c == '，' || c == '.' || c == '!' || c == '?'
            || c == '。' || c == '！' || c == '？',
        CharClass::SpeakerStop => spec_is_whitespace(c) || c == ':' || c == '：' || c == '·' || c
            == '|' || c == '/' || c == ';' || c == '；' || c == ',' || c == '，',
        CharClass::SpeakerPunctuation => c == '_' || c == '-' || c == '.' || c == '[' || c == ']'
            || c == '(' || c == ')' || c == '（' || c == '）',
        CharClass::Colon => c == ':' || c == '：',
        CharClass::Interpunct => c == '·' || c == '•' || c == '●',
        CharClass::Hyphen => c == '-',
        CharClass::Space => c == ' ',
        CharClass::Newline => c == '\n',
        CharClass::CarriageReturn => c == '\r',
        CharClass::Tab => c == '\t',
        CharClass::AliasSeparator => c == ';' || c == '|' || c == '、' || c == '，',
        CharClass::Slash => c == '/',
        CharClass::Quote => c == '"',
        CharClass::VersionPrefix => c == 'v' || c == 'V',
        CharClass::ClosingPunctuation => c == ',' || c == '.' || c == ':' || c == ';' || c == '!'
            || c == '?' || c == ')' || c == ']' || c == '}' || c == '，' || c == '。' || c == '：'
            || c == '；' || c == '！' || c == '？' || c == '）' || c == '】' || c == '》',
        CharClass::OpeningPunctuation => c == '(' || c == '[' || c == '{' || c == '（' || c == '【'
            || c == '《',
    }
}

pub fn is_in_class(cls: CharClass, c: char) -> (r: bool)
    ensures
        r == in_class(cls, c),
{
    match cls {
        CharClass::Whitespace => is_whitespace(c),
        CharClass::SegmentEdge => c == '·' || c == '|' || c == ';' || c == '；',
        CharClass::CrumbEdge => c == ':' || c == '：' || c == '·' || c == '|' || c == ';' || c
            == '；' || c == ',' || c == '，',
        CharClass::SpeakerEdge => c == '·' || c == '|' || c == '/' || c == ';' || c == '；' || c
            == ',' || c == '，' || c == '"' || c == '\'' || c == '“' || c == '”',
        CharClass::MessageTail => c == '·' || c == '|' || c == ';' || c == '；' || c == ',' || c
            == '，' || c == ':' || c == '：' || c == ' ',
        CharClass::SegmentBoundary => is_whitespace(c) || c == '·' || c == '|' || c == '/' || c
            == ';' || c == '；' || c == ',' || c == '，' || c == '.' || c == '!' || c == '?' || c
            == '。' || c == '！' || c == '？',
        CharClass::SpeakerStop => is_whitespace(c) || c == ':' || c == '：' || c == '·' || c
            == '|' || c == '/' || c == ';' || c == '；' || c == ',' || c == '，',
        CharClass::SpeakerPunctuation => c == '_' || c == '-' || c == '.' || c == '[' || c == ']'
            || c == '(' || c == ')' || c == '（' || c == '）',
        CharClass::Colon => c == ':' || c == '：',
        CharClass::Interpunct => c == '·' || c == '•' || c == '●',
        CharClass::Hyphen => c == '-',
        CharClass::Space => c == ' ',
        CharClass::Newline => c == '\n',
        CharClass::CarriageReturn => c == '\r',
        CharClass::Tab => c == '\t',
        CharClass::AliasSeparator => c == ';' || c == '|' || c == '、' || c == '，',
        CharClass::Slash => c == '/',
        CharClass::Quote => c == '"',
        CharClass::VersionPrefix => c == 'v' || c == 'V',
        CharClass::ClosingPunctuation => c == ',' || c == '.' || c == ':' || c == ';' || c == '!'
            || c == '?' || c == ')' || c == ']' || c == '}' || c == '，' || c == '。' || c == '：'
            || c == '；' || c == '！' || c == '？' || c == '）' || c == '】' || c == '》',
        CharClass::OpeningPunctuation => c == '(' || c == '[' || c == '{' || c == '（' || c == '【'
            || c == '《',
    }
}

/// Index of the first character at or after `i` outside the class.
pub open spec fn first_outside(s: Seq<char>, cls: CharClass, i: int) -> int
    decreases s.len() - i,
{
    if 0 <= i < s.len() && in_class(cls, s[i]) {
        first_outside(s, cls, i + 1)
    } else {
        i
    }
}

/// End of the prefix of `s.take(j)` that remains once trailing class
/// characters are removed.
pub open spec fn last_outside_end(s: Seq<char>, cls: CharClass, j: int) -> int
    decreases j,
{
    if 0 < j <= s.len() && in_class(cls, s[j - 1]) {
        last_outside_end(s, cls, j - 1)
    } else {
        j
    }
}

pub open spec fn trim_start_by(s: Seq<char>, cls: CharClass) -> Seq<char> {
    s.skip(first_outside(s, cls, 0))
}

pub open spec fn trim_end_by(s: Seq<char>, cls: CharClass) -> Seq<char> {
    s.take(last_outside_end(s, cls, s.len() as int))
}

/// Both ends stripped of class characters (`str::trim_matches`).
pub open spec fn trim_by(s: Seq<char>, cls: CharClass) -> Seq<char> {
    trim_end_by(trim_start_by(s, cls), cls)
}

/// `str::trim`.
pub open spec fn trim_ws(s: Seq<char>) -> Seq<char> {
    trim_by(s, CharClass::Whitespace)
}

pub proof fn lemma_first_outside_bounds(s: Seq<char>, cls: CharClass, i: int)
    requires
        0 <= i <= s.len(),
    ensures
        i <= first_outside(s, cls, i) <= s.len(),
        forall|k: int| i <= k < first_outside(s, cls, i) ==> in_class(cls, #[trigger] s[k]),
        first_outside(s, cls, i) < s.len() ==> !in_class(cls, s[first_outside(s, cls, i)]),
    decreases s.len() - i,
{
    if i < s.len() && in_class(cls, s[i]) {
        lemma_first_outside_bounds(s, cls, i + 1);
    }
}

pub proof fn lemma_last_outside_end_bounds(s: Seq<char>, cls: CharClass, j: int)
    requires
        0 <= j <= s.len(),
    ensures
        0 <= last_outside_end(s, cls, j) <= j,
        forall|k: int| last_outside_end(s, cls, j) <= k < j ==> in_class(cls, #[trigger] s[k]),
        last_outside_end(s, cls, j) > 0 ==> !in_class(cls, s[last_outside_end(s, cls, j) - 1]),
    decreases j,
{
    if 0 < j && in_class(cls, s[j - 1]) {
        lemma_last_outside_end_bounds(s, cls, j - 1);
    }
}

/// `s[start..end]` as a vector.
pub fn copy_range(s: &[char], start: usize, end: usize) -> (r: Vec<char>)
    requires
        start <= end <= s@.len(),
    ensures
        r@ == s@.subrange(start as int, end as int),
{
    let mut r: Vec<char> = Vec::new();
    let mut k = start;
    while k < end
        invariant
            start <= k <= end <= s@.len(),
            r@ == s@.subrange(start as int, k as int),
        decreases end - k,
    {
        r.push(s[k]);
        k = k + 1;
        assert(r@ =~= s@.subrange(start as int, k as int));
    }
    r
}

/// Start of what remains once leading class characters are skipped.
pub fn skip_class(s: &[char], cls: CharClass, from: usize) -> (r: usize)
    requires
        from <= s@.len(),
    ensures
        r == first_outside(s@, cls, from as int),
{
    let mut i = from;
    while i < s.len() && is_in_class(cls, s[i])
        invariant
            from <= i <= s@.len(),
            first_outside(s@, cls, from as int) == first_outside(s@, cls, i as int),
        decreases s@.len() - i,
    {
        i = i + 1;
    }
    i
}

/// End of what remains once trailing class characters before `to` are dropped.
pub fn back_skip_class(s: &[char], cls: CharClass, to: usize) -> (r: usize)
    requires
        to <= s@.len(),
    ensures
        r == last_outside_end(s@, cls, to as int),
{
    let mut j = to;
    while j > 0 && is_in_class(cls, s[j - 1])
        invariant
            j <= to <= s@.len(),
            last_outside_end(s@, cls, to as int) == last_outside_end(s@, cls, j as int),
        decreases j,
    {
        j = j - 1;
    }
    j
}

pub fn trim_start_class(s: &[char], cls: CharClass) -> (r: Vec<char>)
    ensures
        r@ == trim_start_by(s@, cls),
{
    let i = skip_class(s, cls, 0);
    proof {
        lemma_first_outside_bounds(s@, cls, 0);
    }
    let r = copy_range(s, i, s.len());
    assert(r@ =~= trim_start_by(s@, cls));
    r
}

pub fn trim_end_class(s: &[char], cls: CharClass) -> (r: Vec<char>)
    ensures
        r@ == trim_end_by(s@, cls),
{
    let j = back_skip_class(s, cls, s.len());
    proof {
        lemma_last_outside_end_bounds(s@, cls, s@.len() as int);
    }
    let r = copy_range(s, 0, j);
    assert(r@ =~= trim_end_by(s@, cls));
    r
}

pub fn trim_class(s: &[char], cls: CharClass) -> (r: Vec<char>)
    ensures
        r@ == trim_by(s@, cls),
{
    let a = trim_start_class(s, cls);
    trim_end_class(a.as_slice(), cls)
}

pub fn trim_whitespace(s: &[char]) -> (r: Vec<char>)
    ensures
        r@ == trim_ws(s@),
{
    trim_class(s, CharClass::Whitespace)
}

/// Han ideographs: CJK Unified Ideographs, Extension A and Compatibility.
pub open spec fn spec_is_han(c: char) -> bool {
    let v = c as u32;
    (0x3400 <= v && v <= 0x4DBF) || (0x4E00 <= v && v <= 0x9FFF) || (0xF900 <= v && v <= 0xFAFF)
}

pub fn is_han(c: char) -> (r: bool)
    ensures
        r == spec_is_han(c),
{
    let v = c as u32;
    (0x3400 <= v && v <= 0x4DBF) || (0x4E00 <= v && v <= 0x9FFF) || (0xF900 <= v && v <= 0xFAFF)
}

pub open spec fn spec_is_ascii_alphanumeric(c: char) -> bool {
    ('0' <= c && c <= '9') || ('A' <= c && c <= 'Z') || ('a' <= c && c <= 'z')
}

pub fn is_ascii_alphanumeric(c: char) -> (r: bool)
    ensures
        r == spec_is_ascii_alphanumeric(c),
{
    ('0' <= c && c <= '9') || ('A' <= c && c <= 'Z') || ('a' <= c && c <= 'z')
}

pub open spec fn spec_is_ascii_alphabetic(c: char) -> bool {
    ('A' <= c && c <= 'Z') || ('a' <= c && c <= 'z')
}

/// What `char::is_alphanumeric` answers (Unicode Alphabetic or Numeric).
pub uninterp spec fn char_is_alphanumeric(c: char) -> bool;

/// `char::is_alphanumeric` from std: a function of the character alone.
/// Among ASCII characters exactly the letters and digits qualify, as its
/// documentation states; for other characters the Unicode tables decide and
/// nothing more is stated here.
#[verifier::external_body]
pub(crate) fn is_alphanumeric(c: char) -> (r: bool)
    ensures
        r == char_is_alphanumeric(c),
        (c as u32) < 0x80 ==> (r <==> spec_is_ascii_alphanumeric(c)),
{
    c.is_alphanumeric()
}

/// What `char::to_lowercase` yields (one to three characters).
pub uninterp spec fn char_lowercase(c: char) -> Seq<char>;

/// `char::to_lowercase` from std, collected: a function of the character
/// alone. For ASCII it maps `A`..`Z` to `a`..`z` and keeps every other
/// character; outside ASCII the Unicode case tables decide and nothing more
/// is stated here.
#[verifier::external_body]
pub(crate) fn to_lowercase(c: char) -> (r: Vec<char>)
    ensures
        r@ == char_lowercase(c),
        (c as u32) < 0x80 && 'A' <= c && c <= 'Z' ==> r@ == seq![((c as u32) + 32) as char],
        (c as u32) < 0x80 && !('A' <= c && c <= 'Z') ==> r@ == seq![c],
{
    c.to_lowercase().collect()
}

/// What `char::to_uppercase` yields (one to three characters).
pub uninterp spec fn char_uppercase(c: char) -> Seq<char>;

/// `char::to_uppercase` from std, collected: a function of the character
/// alone. For ASCII it maps `a`..`z` to `A`..`Z` and keeps every other
/// character; outside ASCII the Unicode case tables decide and nothing more
/// is stated here.
#[verifier::external_body]
pub(crate) fn to_uppercase(c: char) -> (r: Vec<char>)
    ensures
        r@ == char_uppercase(c),
        (c as u32) < 0x80 && 'a' <= c && c <= 'z' ==> r@ == seq![((c as u32) - 32) as char],
        (c as u32) < 0x80 && !('a' <= c && c <= 'z') ==> r@ == seq![c],
{
    c.to_uppercase().collect()
}

/// `str::to_uppercase`: every character upper-cased in turn.
pub open spec fn uppercase(s: Seq<char>) -> Seq<char>
    decreases s.len(),
{
    if s.len() == 0 {
        Seq::empty()
    } else {
        uppercase(s.drop_last()) + char_uppercase(s.last())
    }
}

/// Length of a character vector, which std bounds by `isize::MAX` bytes.
#[verifier::external_body]
pub(crate) fn char_vec_len(v: &Vec<char>) -> (n: usize)
    ensures
        n == v@.len(),
        n <= (isize::MAX as usize) / 4,
{
    v.len()
}

} // verus!

verus! {

/// Some character of `s` is in the class.
pub open spec fn has_class(s: Seq<char>, cls: CharClass) -> bool {
    exists|i: int| 0 <= i < s.len() && in_class(cls, #[trigger] s[i])
}

pub fn contains_class(s: &[char], cls: CharClass) -> (r: bool)
    ensures
        r == has_class(s@, cls),
{
    let mut i: usize = 0;
    while i < s.len()
        invariant
            i <= s@.len(),
            forall|k: int| 0 <= k < i ==> !in_class(cls, #[trigger] s@[k]),
        decreases s@.len() - i,
    {
        if is_in_class(cls, s[i]) {
            assert(in_class(cls, s@[i as int]));
            return true;
        }
        i = i + 1;
    }
    false
}

/// Every character of `s` is a Han ideograph.
pub open spec fn all_han(s: Seq<char>) -> bool {
    forall|i: int| 0 <= i < s.len() ==> spec_is_han(#[trigger] s[i])
}

pub fn is_all_han(s: &[char]) -> (r: bool)
    ensures
        r == all_han(s@),
{
    let mut i: usize = 0;
    while i < s.len()
        invariant
            i <= s@.len(),
            forall|k: int| 0 <= k < i ==> spec_is_han(#[trigger] s@[k]),
        decreases s@.len() - i,
    {
        if !is_han(s[i]) {
            return false;
        }
        i = i + 1;
    }
    true
}

/// Some character of `s` is a Han ideograph.
pub open spec fn any_han(s: Seq<char>) -> bool {
    exists|i: int| 0 <= i < s.len() && spec_is_han(#[trigger] s[i])
}

pub fn has_han(s: &[char]) -> (r: bool)
    ensures
        r == any_han(s@),
{
    let mut i: usize = 0;
    while i < s.len()
        invariant
            i <= s@.len(),
            forall|k: int| 0 <= k < i ==> !spec_is_han(#[trigger] s@[k]),
        decreases s@.len() - i,
    {
        if is_han(s[i]) {
            assert(spec_is_han(s@[i as int]));
            return true;
        }
        i = i + 1;
    }
    false
}

/// Index of the first occurrence of `c`.
pub open spec fn first_index_of(s: Seq<char>, c: char, i: int) -> Option<int>
    decreases s.len() - i,
{
    if i < 0 || i >= s.len() {
        None
    } else if s[i] == c {
        Some(i)
    } else {
        first_index_of(s, c, i + 1)
    }
}

/// `a` and `b` hold the same characters.
pub fn chars_equal(a: &[char], b: &[char]) -> (r: bool)
    ensures
        r == (a@ == b@),
{
    if a.len() != b.len() {
        return false;
    }
    let mut i: usize = 0;
    while i < a.len()
        invariant
            a@.len() == b@.len(),
            i <= a@.len(),
            forall|k: int| 0 <= k < i ==> a@[k] == b@[k],
        decreases a.len() - i,
    {
        if a[i] != b[i] {
            return false;
        }
        i = i + 1;
    }
    assert(a@ =~= b@);
    true
}

/// `c` with ASCII `A`..`Z` mapped to `a`..`z`.
pub open spec fn ascii_lower(c: char) -> char {
    if 'A' <= c && c <= 'Z' {
        ((c as u32) + 32) as char
    } else {
        c
    }
}

/// Equal up to ASCII case, as `str::eq_ignore_ascii_case` compares.
pub open spec fn eq_ignore_ascii_case(a: Seq<char>, b: Seq<char>) -> bool {
    a.len() == b.len() && forall|i: int| 0 <= i < a.len() ==> ascii_lower(#[trigger] a[i]) == ascii_lower(b[i])
}

/// The code of `ascii_lower(c)`.
pub fn ascii_lower_code(c: char) -> (r: u32)
    ensures
        r == ascii_lower(c) as u32,
{
    if 'A' <= c && c <= 'Z' {
        (c as u32) + 32
    } else {
        c as u32
    }
}

pub fn chars_eq_ignore_ascii_case(a: &[char], b: &[char]) -> (r: bool)
    ensures
        r == eq_ignore_ascii_case(a@, b@),
{
    if a.len() != b.len() {
        return false;
    }
    let mut i: usize = 0;
    while i < a.len()
        invariant
            a@.len() == b@.len(),
            i <= a@.len(),
            forall|k: int| 0 <= k < i ==> ascii_lower(#[trigger] a@[k]) == ascii_lower(b@[k]),
        decreases a.len() - i,
    {
        if ascii_lower_code(a[i]) != ascii_lower_code(b[i]) {
            return false;
        }
        i = i + 1;
    }
    true
}

pub proof fn lemma_first_index_of(s: Seq<char>, c: char, i: int)
    requires
        0 <= i,
    ensures
        first_index_of(s, c, i) is None <==> (forall|j: int| i <= j < s.len() ==> s[j] != c),
        first_index_of(s, c, i) matches Some(k) ==> i <= k < s.len() && s[k] == c && (forall|j: int|
            i <= j < k ==> s[j] != c),
    decreases s.len() - i,
{
    if i < s.len() && s[i] != c {
        lemma_first_index_of(s, c, i + 1);
    }
}

pub fn find_char(s: &[char], c: char) -> (r: Option<usize>)
    ensures
        r matches Some(k) ==> first_index_of(s@, c, 0) == Some(k as int) && k < s@.len(),
        r is None ==> first_index_of(s@, c, 0) is None,
{
    let mut i: usize = 0;
    while i < s.len()
        invariant
            i <= s@.len(),
            first_index_of(s@, c, 0) == first_index_of(s@, c, i as int),
        decreases s@.len() - i,
    {
        if s[i] == c {
            return Some(i);
        }
        i = i + 1;
    }
    None
}

/// Index of the last occurrence of `c` before position `j`.
pub open spec fn last_index_of(s: Seq<char>, c: char, j: int) -> Option<int>
    decreases j,
{
    if j <= 0 || j > s.len() {
        None
    } else if s[j - 1] == c {
        Some(j - 1)
    } else {
        last_index_of(s, c, j - 1)
    }
}

pub fn rfind_char(s: &[char], c: char) -> (r: Option<usize>)
    ensures
        r matches Some(k) ==> last_index_of(s@, c, s@.len() as int) == Some(k as int) && k < s@.len(),
        r is None ==> last_index_of(s@, c, s@.len() as int) is None,
{
    let mut j = s.len();
    while j > 0
        invariant
            j <= s@.len(),
            last_index_of(s@, c, s@.len() as int) == last_index_of(s@, c, j as int),
        decreases j,
    {
        if s[j - 1] == c {
            return Some(j - 1);
        }
        j = j - 1;
    }
    None
}

// ---------------------------------------------------------------------------
// Decimal numbers

/// Value of a non-empty run of decimal digits.
pub open spec fn digits_value(s: Seq<char>) -> int
    decreases s.len(),
{
    if s.len() == 0 {
        0
    } else {
        digits_value(s.drop_last()) * 10 + (s.last() as int - '0' as int)
    }
}

pub open spec fn all_digits(s: Seq<char>) -> bool {
    forall|i: int| 0 <= i < s.len() ==> '0' <= #[trigger] s[i] <= '9'
}

/// What `str::parse` gives for an unsigned type whose largest value is
/// `max`: an optional `+`, then decimal digits whose value is at most `max`.
pub open spec fn spec_parse_decimal(s: Seq<char>, max: int) -> Option<int> {
    let body = if s.len() > 0 && s[0] == '+' {
        s.drop_first()
    } else {
        s
    };
    if body.len() > 0 && all_digits(body) && digits_value(body) <= max {
        Some(digits_value(body))
    } else {
        None
    }
}

pub proof fn lemma_digits_value_grows(s: Seq<char>, k: int)
    requires
        all_digits(s),
        0 <= k <= s.len(),
    ensures
        0 <= digits_value(s.take(k)) <= digits_value(s),
    decreases s.len() - k,
{
    if k < s.len() {
        lemma_digits_value_grows(s, k + 1);
        assert(s.take(k + 1).drop_last() =~= s.take(k));
        assert(s.take(k + 1).last() == s[k]);
    } else {
        assert(s.take(k) =~= s);
        lemma_digits_value_nonneg(s);
    }
}

pub proof fn lemma_digits_value_nonneg(s: Seq<char>)
    requires
        all_digits(s),
    ensures
        digits_value(s) >= 0,
    decreases s.len(),
{
    if s.len() > 0 {
        assert(all_digits(s.drop_last())) by {
            assert forall|i: int| 0 <= i < s.drop_last().len() implies '0' <= #[trigger] s.drop_last()[i] <= '9' by {
                assert(s.drop_last()[i] == s[i]);
            }
        }
        lemma_digits_value_nonneg(s.drop_last());
    }
}

pub fn parse_decimal(s: &[char], max: u64) -> (r: Option<u64>)
    ensures
        match spec_parse_decimal(s@, max as int) {
            None => r is None,
            Some(v) => r == Some(v as u64),
        },
        r matches Some(n) ==> spec_parse_decimal(s@, max as int) == Some(n as int) && n <= max,
{
    let start: usize = if s.len() > 0 && s[0] == '+' {
        1
    } else {
        0
    };
    let ghost body = if s@.len() > 0 && s@[0] == '+' {
        s@.drop_first()
    } else {
        s@
    };
    assert(body =~= s@.skip(start as int));
    if start >= s.len() {
        return None;
    }
    let mut value: u128 = 0;
    let mut i = start;
    while i < s.len()
        invariant
            start <= i <= s@.len(),
            start < s@.len(),
            body == s@.skip(start as int),
            body == (if s@.len() > 0 && s@[0] == '+' {
                s@.drop_first()
            } else {
                s@
            }),
            all_digits(body.take(i - start)),
            value == digits_value(body.take(i - start)),
            value <= max,
        decreases s.len() - i,
    {
        let c = s[i];
        if c < '0' || c > '9' {
            assert(body[i - start] == c);
            assert(!all_digits(body));
            return None;
        }
        assert(body.take(i - start + 1).drop_last() =~= body.take(i - start));
        assert(body.take(i - start + 1).last() == c);
        assert(all_digits(body.take(i - start + 1))) by {
            assert forall|j: int| 0 <= j < body.take(i - start + 1).len() implies '0' <= #[trigger] body.take(
                i - start + 1,
            )[j] <= '9' by {
                if j < i - start {
                    assert(body.take(i - start + 1)[j] == body.take(i - start)[j]);
                }
            }
        }
        let d = (c as u32 - '0' as u32) as u128;
        value = value * 10 + d;
        if value > max as u128 {
            proof {
                if all_digits(body) {
                    lemma_digits_value_grows(body, i - start + 1);
                }
            }
            return None;
        }
        i = i + 1;
    }
    assert(body.take(i - start) =~= body);
    Some(value as u64)
}

/// The digit of value `d` in base 16 (upper case); `0`..`9` for `d < 10`.
pub open spec fn digit_char(d: int) -> char {
    if d < 10 {
        (48 + d) as char
    } else {
        (55 + d) as char
    }
}

/// `n` written in base `base` (10 or 16) without leading zeros.
pub open spec fn spec_digits(n: nat, base: nat) -> Seq<char>
    decreases n,
{
    if base < 2 || n < base {
        seq![digit_char(n as int)]
    } else {
        proof {
            assert(n / base < n) by (nonlinear_arith)
                requires
                    base >= 2,
                    n >= base,
            ;
        }
        spec_digits(n / base, base).push(digit_char((n % base) as int))
    }
}

fn digit_of(d: u64) -> (r: char)
    requires
        d < 16,
    ensures
        r == digit_char(d as int),
{
    if d < 10 {
        ((d as u8) + 48) as char
    } else {
        ((d as u8) + 55) as char
    }
}

/// The digits of `n` in base 10 or 16, as `format!("{}")` and
/// `format!("{:X}")` write them.
pub fn digits_of(n: u64, base: u64) -> (r: Vec<char>)
    requires
        base == 10 || base == 16,
    ensures
        r@ == spec_digits(n as nat, base as nat),
    decreases n,
{
    if n < base {
        let mut v: Vec<char> = Vec::new();
        v.push(digit_of(n));
        v
    } else {
        let mut v = digits_of(n / base, base);
        v.push(digit_of(n % base));
        v
    }
}

// ---------------------------------------------------------------------------
// Splitting

/// The pieces of `s` between characters of the class, as `str::split`
/// yields them (always at least one, possibly empty, piece).
pub open spec fn split_class(s: Seq<char>, cls: CharClass) -> Seq<Seq<char>>
    decreases s.len(),
{
    if s.len() == 0 {
        seq![Seq::empty()]
    } else if in_class(cls, s.last()) {
        split_class(s.drop_last(), cls).push(Seq::empty())
    } else {
        let p = split_class(s.drop_last(), cls);
        p.update(p.len() - 1, p.last().push(s.last()))
    }
}

pub proof fn lemma_split_class_nonempty(s: Seq<char>, cls: CharClass)
    ensures
        split_class(s, cls).len() >= 1,
    decreases s.len(),
{
    if s.len() > 0 {
        lemma_split_class_nonempty(s.drop_last(), cls);
    }
}

pub open spec fn pieces_view(v: Seq<Vec<char>>) -> Seq<Seq<char>> {
    Seq::new(v.len(), |i: int| v[i]@)
}

pub fn split_by_class(s: &[char], cls: CharClass) -> (r: Vec<Vec<char>>)
    ensures
        pieces_view(r@) == split_class(s@, cls),
{
    let mut parts: Vec<Vec<char>> = Vec::new();
    let mut current: Vec<char> = Vec::new();
    let mut i: usize = 0;
    while i < s.len()
        invariant
            i <= s@.len(),
            pieces_view(parts@).push(current@) == split_class(s@.take(i as int), cls),
        decreases s.len() - i,
    {
        proof {
            lemma_split_class_nonempty(s@.take(i as int), cls);
        }
        assert(s@.take(i + 1).drop_last() =~= s@.take(i as int));
        let c = s[i];
        if is_in_class(cls, c) {
            let ghost before = parts@;
            let ghost cur = current@;
            parts.push(current);
            current = Vec::new();
            assert(pieces_view(parts@) =~= pieces_view(before).push(cur));
            assert(pieces_view(parts@).push(current@) =~= split_class(s@.take(i + 1), cls));
        } else {
            let ghost before = current@;
            current.push(c);
            assert(pieces_view(parts@).push(current@) =~= split_class(s@.take(i + 1), cls));
        }
        i = i + 1;
    }
    assert(s@.take(s@.len() as int) =~= s@);
    let ghost before = parts@;
    let ghost cur = current@;
    parts.push(current);
    assert(pieces_view(parts@) =~= pieces_view(before).push(cur));
    parts
}

/// `needle` occurs in `hay` starting at `i`.
pub open spec fn occurs_at(hay: Seq<char>, needle: Seq<char>, i: int) -> bool {
    0 <= i && i + needle.len() <= hay.len() && hay.subrange(i, i + needle.len()) == needle
}

/// `needle` occurs somewhere in `hay`, as `str::contains` tests (an empty
/// needle always does).
pub open spec fn seq_contains(hay: Seq<char>, needle: Seq<char>) -> bool {
    exists|i: int| #[trigger] occurs_at(hay, needle, i)
}

fn occurs_at_exec(hay: &[char], needle: &[char], i: usize) -> (r: bool)
    requires
        i + needle@.len() <= hay@.len(),
    ensures
        r == occurs_at(hay@, needle@, i as int),
{
    let hn = hay.len();
    let mut k: usize = 0;
    while k < needle.len()
        invariant
            hn == hay@.len(),
            i + needle@.len() <= hay@.len(),
            k <= needle@.len(),
            forall|j: int| 0 <= j < k ==> hay@[i + j] == needle@[j],
        decreases needle.len() - k,
    {
        if hay[i + k] != needle[k] {
            assert(hay@.subrange(i as int, i + needle@.len())[k as int] != needle@[k as int]);
            return false;
        }
        k = k + 1;
    }
    assert(hay@.subrange(i as int, i + needle@.len()) =~= needle@);
    true
}

pub fn contains_chars(hay: &[char], needle: &[char]) -> (r: bool)
    ensures
        r == seq_contains(hay@, needle@),
{
    if needle.len() > hay.len() {
        assert forall|i: int| !occurs_at(hay@, needle@, i) by {}
        return false;
    }
    let last = hay.len() - needle.len();
    let mut i: usize = 0;
    while i < last
        invariant
            last == hay@.len() - needle@.len(),
            i <= last,
            forall|j: int| 0 <= j < i ==> !#[trigger] occurs_at(hay@, needle@, j),
        decreases last - i,
    {
        if occurs_at_exec(hay, needle, i) {
            return true;
        }
        i = i + 1;
    }
    if occurs_at_exec(hay, needle, last) {
        return true;
    }
    assert forall|j: int| !#[trigger] occurs_at(hay@, needle@, j) by {
        if 0 <= j && j < i {
        }
    }
    false
}

/// `s` with ASCII letters lowered, as `str::to_ascii_lowercase` gives.
pub open spec fn ascii_lowercase(s: Seq<char>) -> Seq<char> {
    Seq::new(s.len(), |i: int| ascii_lower(s[i]))
}

pub fn to_ascii_lowercase(s: &[char]) -> (r: Vec<char>)
    ensures
        r@ == ascii_lowercase(s@),
{
    let mut out: Vec<char> = Vec::new();
    let mut i: usize = 0;
    while i < s.len()
        invariant
            i <= s@.len(),
            out@ == ascii_lowercase(s@).take(i as int),
        decreases s.len() - i,
    {
        let c = s[i];
        let lower = if 'A' <= c && c <= 'Z' {
            let d = ((c as u32) + 32) as u8;
            d as char
        } else {
            c
        };
        out.push(lower);
        assert(out@ =~= ascii_lowercase(s@).take(i + 1));
        i = i + 1;
    }
    assert(ascii_lowercase(s@).take(s@.len() as int) =~= ascii_lowercase(s@));
    out
}

/// `s` begins with `p`.
pub open spec fn has_prefix(s: Seq<char>, p: Seq<char>) -> bool {
    p.len() <= s.len() && s.subrange(0, p.len() as int) == p
}

/// `s` ends with `p`.
pub open spec fn has_suffix(s: Seq<char>, p: Seq<char>) -> bool {
    p.len() <= s.len() && s.subrange(s.len() - p.len(), s.len() as int) == p
}

pub fn starts_with_chars(s: &[char], p: &[char]) -> (r: bool)
    ensures
        r == has_prefix(s@, p@),
{
    if p.len() > s.len() {
        return false;
    }
    let mut i: usize = 0;
    while i < p.len()
        invariant
            p@.len() <= s@.len(),
            i <= p@.len(),
            forall|k: int| 0 <= k < i ==> s@[k] == p@[k],
        decreases p.len() - i,
    {
        if s[i] != p[i] {
            assert(s@.subrange(0, p@.len() as int)[i as int] != p@[i as int]);
            return false;
        }
        i = i + 1;
    }
    assert(s@.subrange(0, p@.len() as int) =~= p@);
    true
}

pub fn ends_with_chars(s: &[char], p: &[char]) -> (r: bool)
    ensures
        r == has_suffix(s@, p@),
{
    if p.len() > s.len() {
        return false;
    }
    let offset = s.len() - p.len();
    let sn = s.len();
    let mut i: usize = 0;
    while i < p.len()
        invariant
            sn == s@.len(),
            p@.len() <= s@.len(),
            offset == s@.len() - p@.len(),
            i <= p@.len(),
            forall|k: int| 0 <= k < i ==> s@[offset + k] == p@[k],
        decreases p.len() - i,
    {
        if s[offset + i] != p[i] {
            assert(s@.subrange(offset as int, s@.len() as int)[i as int] != p@[i as int]);
            return false;
        }
        i = i + 1;
    }
    assert(s@.subrange(offset as int, s@.len() as int) =~= p@);
    true
}

} // verus!
