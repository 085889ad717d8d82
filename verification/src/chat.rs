//! Parsing of OCR-read chat lines into speaker and message.
use vstd::prelude::*;
use crate::chars::{
    all_han, char_is_alphanumeric, contains_class, copy_range, first_index_of, first_outside,
    find_char, has_class, in_class, is_all_han, is_alphanumeric, is_han, is_in_class,
    is_whitespace, last_index_of, skip_class, spec_is_ascii_alphanumeric, is_ascii_alphanumeric, rfind_char, spec_is_han, spec_is_whitespace, string_of,
    trim_by, trim_class, trim_end_by, trim_end_class, trim_whitespace, trim_ws, CharClass,
};

verus! {

/// One chat message: who said it and what was said.
#[derive(Debug, Clone, PartialEq, Eq)]
pub struct ParsedChatLine {
    pub speaker: String,
    pub message: String,
}

impl View for ParsedChatLine {
    type V = (Seq<char>, Seq<char>);

    open spec fn view(&self) -> (Seq<char>, Seq<char>) {
        (self.speaker@, self.message@)
    }
}

pub open spec fn lines_view(v: Seq<ParsedChatLine>) -> Seq<(Seq<char>, Seq<char>)> {
    Seq::new(v.len(), |i: int| v[i]@)
}

pub fn make_line(speaker: &[char], message: &[char]) -> (r: ParsedChatLine)
    ensures
        r@ == (speaker@, message@),
{
    ParsedChatLine { speaker: string_of(speaker), message: string_of(message) }
}

pub fn clone_line(l: &ParsedChatLine) -> (r: ParsedChatLine)
    ensures
        r@ == l@,
{
    ParsedChatLine { speaker: l.speaker.clone(), message: l.message.clone() }
}

// ---------------------------------------------------------------------------
// OCR noise collapse

/// Scan state of the noise collapse: output so far and whether it ends in a
/// collapsed separator.
pub open spec fn collapse_state(s: Seq<char>) -> (Seq<char>, bool)
    decreases s.len(),
{
    if s.len() == 0 {
        (Seq::empty(), false)
    } else {
        let (out, prev) = collapse_state(s.drop_last());
        let c = s.last();
        if spec_is_whitespace(c) || in_class(CharClass::Interpunct, c) {
            if !prev && out.len() > 0 {
                (out.push(' '), true)
            } else {
                (out, prev)
            }
        } else {
            (out.push(c), false)
        }
    }
}

/// Runs of white space and OCR bullets become one space; the result is trimmed.
pub open spec fn spec_collapse_noise(s: Seq<char>) -> Seq<char> {
    trim_ws(collapse_state(s).0)
}

pub fn collapse_ocr_noise(value: &[char]) -> (r: Vec<char>)
    ensures
        r@ == spec_collapse_noise(value@),
{
    let mut output: Vec<char> = Vec::new();
    let mut previous_space = false;
    let mut i: usize = 0;
    while i < value.len()
        invariant
            i <= value@.len(),
            (output@, previous_space) == collapse_state(value@.take(i as int)),
        decreases value@.len() - i,
    {
        let c = value[i];
        assert(value@.take(i + 1).drop_last() =~= value@.take(i as int));
        if is_whitespace(c) || is_in_class(CharClass::Interpunct, c) {
            if !previous_space && output.len() > 0 {
                output.push(' ');
                previous_space = true;
            }
        } else {
            previous_space = false;
            output.push(c);
        }
        i = i + 1;
    }
    assert(value@.take(value@.len() as int) =~= value@);
    trim_whitespace(output.as_slice())
}

// ---------------------------------------------------------------------------
// Speaker plausibility

/// Number of letters, digits and Han ideographs.
pub open spec fn meaningful_count(s: Seq<char>) -> nat
    decreases s.len(),
{
    if s.len() == 0 {
        0
    } else {
        meaningful_count(s.drop_last()) + if char_is_alphanumeric(s.last()) || spec_is_han(
            s.last(),
        ) {
            1nat
        } else {
            0nat
        }
    }
}

/// A speaker name: 1..=20 characters, no colon, and at least half of it
/// letters, digits or Han ideographs.
pub open spec fn spec_plausible_speaker(s: Seq<char>) -> bool {
    &&& 0 < s.len() <= 20
    &&& !has_class(s, CharClass::Colon)
    &&& meaningful_count(s) > 0
    &&& meaningful_count(s) * 2 >= s.len()
}

pub proof fn lemma_meaningful_count_bound(s: Seq<char>)
    ensures
        meaningful_count(s) <= s.len(),
    decreases s.len(),
{
    if s.len() > 0 {
        lemma_meaningful_count_bound(s.drop_last());
    }
}

/// A letter, digit or Han ideograph.
pub open spec fn is_meaningful_char(c: char) -> bool {
    char_is_alphanumeric(c) || spec_is_han(c)
}

proof fn lemma_meaningful_count_is_filter(s: Seq<char>)
    ensures
        meaningful_count(s) == s.filter(|c: char| is_meaningful_char(c)).len(),
    decreases s.len(),
{
    reveal(Seq::filter);
    if s.len() > 0 {
        lemma_meaningful_count_is_filter(s.drop_last());
    }
}

/// A speaker name is plausible exactly when it has 1 to 20 characters,
/// holds neither `:` nor `：`, and at least one, and at least half, of its
/// characters are letters, digits or Han ideographs (so `Mr_Freedom`, with
/// one underscore, is a name).
pub proof fn lemma_plausible_speaker_by_characters(s: Seq<char>)
    ensures
        spec_plausible_speaker(s) <==> {
            let meaningful = s.filter(|c: char| is_meaningful_char(c)).len();
            &&& 0 < s.len() <= 20
            &&& forall|i: int| 0 <= i < s.len() ==> s[i] != ':' && s[i] != '：'
            &&& meaningful > 0
            &&& 2 * meaningful >= s.len()
        },
{
    lemma_meaningful_count_is_filter(s);
    if has_class(s, CharClass::Colon) {
        let i = choose|i: int| 0 <= i < s.len() && in_class(CharClass::Colon, #[trigger] s[i]);
        assert(s[i] == ':' || s[i] == '：');
    } else {
        assert forall|i: int| 0 <= i < s.len() implies s[i] != ':' && s[i] != '：' by {
            if s[i] == ':' || s[i] == '：' {
                assert(in_class(CharClass::Colon, s[i]));
            }
        }
    }
}

pub fn is_plausible_speaker(value: &[char]) -> (r: bool)
    ensures
        r == spec_plausible_speaker(value@),
{
    let count = value.len();
    if count == 0 || count > 20 {
        return false;
    }
    if contains_class(value, CharClass::Colon) {
        return false;
    }
    let mut meaningful: usize = 0;
    let mut i: usize = 0;
    while i < count
        invariant
            count == value@.len(),
            count <= 20,
            i <= count,
            meaningful == meaningful_count(value@.take(i as int)),
        decreases count - i,
    {
        proof {
            lemma_meaningful_count_bound(value@.take(i as int));
        }
        assert(value@.take(i + 1).drop_last() =~= value@.take(i as int));
        if is_alphanumeric(value[i]) || is_han(value[i]) {
            meaningful = meaningful + 1;
        }
        i = i + 1;
    }
    assert(value@.take(count as int) =~= value@);
    proof {
        lemma_meaningful_count_bound(value@);
    }
    meaningful > 0 && meaningful * 2 >= count
}

// ---------------------------------------------------------------------------
// Speaker and message cleanup

pub open spec fn spec_clean_speaker(s: Seq<char>) -> Seq<char> {
    trim_by(trim_ws(s), CharClass::SpeakerEdge)
}

pub fn clean_speaker(value: &[char]) -> (r: Vec<char>)
    ensures
        r@ == spec_clean_speaker(value@),
{
    let t = trim_whitespace(value);
    trim_class(t.as_slice(), CharClass::SpeakerEdge)
}

/// A bare Han speaker name left at the end of a message by OCR.
pub open spec fn is_trailing_name(tail: Seq<char>) -> bool {
    tail.len() > 0 && all_han(tail) && spec_plausible_speaker(tail) && !has_class(
        tail,
        CharClass::Space,
    )
}

/// The message trimmed, stripped of trailing separators and colons, and of a
/// trailing Han speaker crumb after its last space.
pub open spec fn spec_clean_message(s: Seq<char>) -> Seq<char> {
    let m = trim_end_by(trim_ws(s), CharClass::MessageTail);
    let m2 = match last_index_of(m, ' ', m.len() as int) {
        Some(k) => {
            let tail = trim_ws(m.skip(k + 1));
            if is_trailing_name(tail) {
                trim_end_by(m.take(k), CharClass::Whitespace)
            } else {
                m
            }
        },
        None => m,
    };
    trim_ws(m2)
}

pub fn clean_message(value: &[char]) -> (r: Vec<char>)
    ensures
        r@ == spec_clean_message(value@),
{
    let t = trim_whitespace(value);
    let m = trim_end_class(t.as_slice(), CharClass::MessageTail);
    let found = rfind_char(m.as_slice(), ' ');
    let m2 = match found {
        Some(k) => {
            let len = m.len();
            assert(k < len);
            let after = copy_range(m.as_slice(), k + 1, m.len());
            let tail = trim_whitespace(after.as_slice());
            assert(after@ =~= m@.skip(k + 1));
            if tail.len() > 0 && is_all_han(tail.as_slice()) && is_plausible_speaker(
                tail.as_slice(),
            ) && !contains_class(tail.as_slice(), CharClass::Space) {
                let head = copy_range(m.as_slice(), 0, k);
                assert(head@ =~= m@.take(k as int));
                trim_end_class(head.as_slice(), CharClass::Whitespace)
            } else {
                m
            }
        },
        None => m,
    };
    trim_whitespace(m2.as_slice())
}

pub open spec fn spec_is_speaker_only_crumb(s: Seq<char>) -> bool {
    let t = trim_by(trim_ws(s), CharClass::CrumbEdge);
    t.len() > 0 && !has_class(t, CharClass::Space) && all_han(t) && spec_plausible_speaker(t)
}

pub fn is_speaker_only_crumb(value: &[char]) -> (r: bool)
    ensures
        r == spec_is_speaker_only_crumb(value@),
{
    let t0 = trim_whitespace(value);
    let t = trim_class(t0.as_slice(), CharClass::CrumbEdge);
    t.len() > 0 && !contains_class(t.as_slice(), CharClass::Space) && is_all_han(t.as_slice())
        && is_plausible_speaker(t.as_slice())
}

// ---------------------------------------------------------------------------
// Single line

/// Outcome of splitting at the first `delimiter`: `None` when there is no
/// delimiter or the part before it is no plausible speaker (try something
/// else), `Some(None)` for a bare `Name:` crumb, `Some(Some(line))` for a line.
pub open spec fn split_attempt(n: Seq<char>, delimiter: char) -> Option<
    Option<(Seq<char>, Seq<char>)>,
> {
    match first_index_of(n, delimiter, 0) {
        Some(k) => {
            let speaker = spec_clean_speaker(n.take(k));
            let message = spec_clean_message(n.skip(k + 1));
            if spec_plausible_speaker(speaker) {
                if message.len() == 0 {
                    Some(None)
                } else {
                    Some(Some((speaker, message)))
                }
            } else {
                None
            }
        },
        None => None,
    }
}

/// One OCR chat line as `Speaker: message`, a speakerless message, or nothing.
pub open spec fn spec_parse_single(value: Seq<char>) -> Option<(Seq<char>, Seq<char>)> {
    let n = spec_collapse_noise(value);
    if n.len() == 0 {
        None
    } else {
        match split_attempt(n, ':') {
            Some(r) => r,
            None => match split_attempt(n, '：') {
                Some(r) => r,
                None => {
                    let m = spec_clean_message(n);
                    if m.len() == 0 || spec_is_speaker_only_crumb(m) {
                        None
                    } else {
                        Some((Seq::empty(), m))
                    }
                },
            },
        }
    }
}

/// What a parsed chat line is, stated directly: it always carries a
/// message. A line with a speaker was split at the first `:` or the first
/// `：` of the de-noised text; the speaker is the cleaned text before that
/// delimiter and a plausible name, the message the cleaned text after it.
/// A line without a speaker is the whole cleaned text, and no bare
/// `Name:` crumb.
pub proof fn lemma_parsed_line_shape(value: Seq<char>)
    ensures
        spec_parse_single(value) matches Some(l) ==> {
            let n = spec_collapse_noise(value);
            &&& l.1.len() > 0
            &&& l.0.len() > 0 ==> exists|k: int|
                #![trigger n[k]]
                0 <= k < n.len() && (n[k] == ':' || n[k] == '：') && (forall|j: int| 0 <= j < k ==> n[j] != n[k])
                    && l.0 == spec_clean_speaker(n.take(k)) && l.1 == spec_clean_message(n.skip(k + 1))
                    && spec_plausible_speaker(l.0)
            &&& l.0.len() == 0 ==> l.1 == spec_clean_message(n) && !spec_is_speaker_only_crumb(l.1)
        },
{
    let n = spec_collapse_noise(value);
    crate::chars::lemma_first_index_of(n, ':', 0);
    crate::chars::lemma_first_index_of(n, '：', 0);
    if let Some(l) = spec_parse_single(value) {
        if n.len() > 0 {
            match split_attempt(n, ':') {
                Some(_) => {
                    let k = first_index_of(n, ':', 0)->0;
                    assert(n[k] == ':');
                },
                None => match split_attempt(n, '：') {
                    Some(_) => {
                        let k = first_index_of(n, '：', 0)->0;
                        assert(n[k] == '：');
                    },
                    None => {},
                },
            }
        }
    }
}

/// A line that reads `name:message` once de-noised, where the name holds
/// no `:` and cleans to a plausible speaker and the message cleans to
/// something, is parsed into that speaker and that message.
pub proof fn lemma_name_colon_message_is_split(value: Seq<char>, name: Seq<char>, rest: Seq<char>)
    requires
        spec_collapse_noise(value) == name + seq![':'] + rest,
        forall|i: int| 0 <= i < name.len() ==> name[i] != ':',
        spec_plausible_speaker(spec_clean_speaker(name)),
        spec_clean_message(rest).len() > 0,
    ensures
        spec_parse_single(value) == Some((spec_clean_speaker(name), spec_clean_message(rest))),
{
    let n = spec_collapse_noise(value);
    crate::chars::lemma_first_index_of(n, ':', 0);
    assert(n[name.len() as int] == ':');
    assert forall|j: int| 0 <= j < name.len() implies n[j] != ':' by {
        assert(n[j] == name[j]);
    }
    let k = first_index_of(n, ':', 0)->0;
    assert(k == name.len());
    assert(n.take(k) =~= name);
    assert(n.skip(k + 1) =~= rest);
}

fn try_split(n: &Vec<char>, delimiter: char) -> (r: Option<Option<ParsedChatLine>>)
    ensures
        match split_attempt(n@, delimiter) {
            None => r is None,
            Some(None) => r matches Some(None),
            Some(Some(l)) => r matches Some(Some(p)) && p@ == l,
        },
{
    let found = find_char(n.as_slice(), delimiter);
    match found {
        Some(k) => {
            let len = n.len();
            assert(k < len);
            let before = copy_range(n.as_slice(), 0, k);
            let after = copy_range(n.as_slice(), k + 1, n.len());
            assert(before@ =~= n@.take(k as int));
            assert(after@ =~= n@.skip(k + 1));
            let speaker = clean_speaker(before.as_slice());
            let message = clean_message(after.as_slice());
            if is_plausible_speaker(speaker.as_slice()) {
                if message.len() == 0 {
                    Some(None)
                } else {
                    Some(Some(make_line(speaker.as_slice(), message.as_slice())))
                }
            } else {
                None
            }
        },
        None => None,
    }
}

pub fn parse_single_chat_line(value: &[char]) -> (r: Option<ParsedChatLine>)
    ensures
        match spec_parse_single(value@) {
            None => r is None,
            Some(l) => r matches Some(p) && p@ == l,
        },
{
    let normalized = collapse_ocr_noise(value);
    if normalized.len() == 0 {
        return None;
    }
    match try_split(&normalized, ':') {
        Some(r) => return r,
        None => {},
    }
    match try_split(&normalized, '：') {
        Some(r) => return r,
        None => {},
    }
    let message = clean_message(normalized.as_slice());
    if message.len() == 0 || is_speaker_only_crumb(message.as_slice()) {
        None
    } else {
        let empty: Vec<char> = Vec::new();
        Some(make_line(empty.as_slice(), message.as_slice()))
    }
}

} // verus!

verus! {

// ---------------------------------------------------------------------------
// Glued speaker prefixes

/// Scans a candidate speaker name starting at `start`: `None` rejects a
/// mixed-script name; otherwise its end and whether it held Han or Latin.
pub open spec fn prefix_scan(cs: Seq<char>, start: int, i: int, han: bool, latin: bool) -> Option<
    (int, bool, bool),
>
    decreases cs.len() - i,
{
    if start <= i && i < cs.len() && i - start < 24 {
        let c = cs[i];
        if in_class(CharClass::SpeakerStop, c) {
            Some((i, han, latin))
        } else if spec_is_han(c) {
            if latin {
                None
            } else {
                prefix_scan(cs, start, i + 1, true, latin)
            }
        } else if spec_is_ascii_alphanumeric(c) {
            if han {
                None
            } else {
                prefix_scan(cs, start, i + 1, han, true)
            }
        } else if !in_class(CharClass::SpeakerPunctuation, c) {
            Some((i, han, latin))
        } else {
            prefix_scan(cs, start, i + 1, han, latin)
        }
    } else {
        Some((i, han, latin))
    }
}

/// Length of a `Name:` prefix at `start` up to the start of the message
/// body that follows the colon, when there is one.
pub open spec fn spec_speaker_prefix_length(cs: Seq<char>, start: int) -> Option<int> {
    match prefix_scan(cs, start, start, false, false) {
        None => None,
        Some((end, han, latin)) => {
            let length = end - start;
            if length == 0 || length > 20 || !(han || latin) {
                None
            } else {
                let cursor = first_outside(cs, CharClass::Whitespace, end);
                if cursor >= cs.len() || !in_class(CharClass::Colon, cs[cursor]) {
                    None
                } else {
                    let body = first_outside(cs, CharClass::Whitespace, cursor + 1);
                    if body >= cs.len() {
                        None
                    } else {
                        Some(body - start)
                    }
                }
            }
        },
    }
}

proof fn lemma_prefix_scan(cs: Seq<char>, start: int, i: int, han: bool, latin: bool)
    requires
        0 <= start <= i <= cs.len(),
    ensures
        prefix_scan(cs, start, i, han, latin) matches Some((end, h, l)) ==> i <= end <= cs.len()
            && (end == i ==> h == han && l == latin) && (han ==> h) && (latin ==> l),
    decreases cs.len() - i,
{
    if start <= i && i < cs.len() && i - start < 24 {
        let c = cs[i];
        if in_class(CharClass::SpeakerStop, c) {
        } else if spec_is_han(c) {
            if !latin {
                lemma_prefix_scan(cs, start, i + 1, true, latin);
            }
        } else if spec_is_ascii_alphanumeric(c) {
            if !han {
                lemma_prefix_scan(cs, start, i + 1, han, true);
            }
        } else if !in_class(CharClass::SpeakerPunctuation, c) {
        } else {
            lemma_prefix_scan(cs, start, i + 1, han, latin);
        }
    }
}

pub proof fn lemma_speaker_prefix_length(cs: Seq<char>, start: int)
    requires
        0 <= start <= cs.len(),
    ensures
        spec_speaker_prefix_length(cs, start) matches Some(l) ==> 0 < l && start + l < cs.len(),
{
    lemma_prefix_scan(cs, start, start, false, false);
    match prefix_scan(cs, start, start, false, false) {
        None => {},
        Some((end, han, latin)) => {
            crate::chars::lemma_first_outside_bounds(cs, CharClass::Whitespace, end);
            let cursor = first_outside(cs, CharClass::Whitespace, end);
            if cursor < cs.len() {
                crate::chars::lemma_first_outside_bounds(cs, CharClass::Whitespace, cursor + 1);
            }
        },
    }
}

fn speaker_prefix_length(cs: &[char], start: usize) -> (r: Option<usize>)
    requires
        start <= cs@.len(),
    ensures
        match spec_speaker_prefix_length(cs@, start as int) {
            None => r is None,
            Some(l) => r == Some(l as usize) && 0 < l && start + l < cs@.len(),
        },
{
    proof {
        lemma_speaker_prefix_length(cs@, start as int);
    }
    let n = cs.len();
    let mut i = start;
    let mut has_han = false;
    let mut has_latin = false;
    while i < n && i - start < 24
        invariant
            n == cs@.len(),
            start <= i <= n,
            prefix_scan(cs@, start as int, start as int, false, false) == prefix_scan(
                cs@,
                start as int,
                i as int,
                has_han,
                has_latin,
            ),
        ensures
            prefix_scan(cs@, start as int, i as int, has_han, has_latin) == Some(
                (i as int, has_han, has_latin),
            ),
        decreases n - i,
    {
        let c = cs[i];
        if is_in_class(CharClass::SpeakerStop, c) {
            break;
        }
        if is_han(c) {
            if has_latin {
                return None;
            }
            has_han = true;
        } else if is_ascii_alphanumeric(c) {
            if has_han {
                return None;
            }
            has_latin = true;
        } else if !is_in_class(CharClass::SpeakerPunctuation, c) {
            break;
        }
        i = i + 1;
    }
    let length = i - start;
    if length == 0 || length > 20 || !(has_han || has_latin) {
        return None;
    }
    let cursor = skip_class(cs, CharClass::Whitespace, i);
    proof {
        crate::chars::lemma_first_outside_bounds(cs@, CharClass::Whitespace, i as int);
    }
    if cursor >= n || !is_in_class(CharClass::Colon, cs[cursor]) {
        return None;
    }
    let body = skip_class(cs, CharClass::Whitespace, cursor + 1);
    proof {
        crate::chars::lemma_first_outside_bounds(cs@, CharClass::Whitespace, cursor + 1);
    }
    if body >= n {
        return None;
    }
    Some(body - start)
}

/// A speaker prefix at `index` may start a new segment: at the start, after
/// a separator, or where Latin text runs straight into a Han name.
pub open spec fn is_segment_boundary(cs: Seq<char>, index: int) -> bool {
    ||| index == 0
    ||| in_class(CharClass::SegmentBoundary, cs[index - 1])
    ||| (spec_is_ascii_alphanumeric(cs[index - 1]) && spec_is_han(cs[index]))
}

/// Positions at or after `index` where a glued chat segment starts.
pub open spec fn spec_starts(cs: Seq<char>, index: int) -> Seq<int>
    decreases cs.len() - index,
{
    if index < 0 || index >= cs.len() {
        Seq::empty()
    } else {
        proof {
            lemma_speaker_prefix_length(cs, index);
        }
        match spec_speaker_prefix_length(cs, index) {
            Some(length) => if is_segment_boundary(cs, index) {
                seq![index] + spec_starts(cs, index + length)
            } else {
                spec_starts(cs, index + 1)
            },
            None => spec_starts(cs, index + 1),
        }
    }
}

proof fn lemma_starts(cs: Seq<char>, index: int)
    requires
        0 <= index,
    ensures
        forall|k: int|
            0 <= k < spec_starts(cs, index).len() ==> index <= #[trigger] spec_starts(
                cs,
                index,
            )[k] < cs.len(),
        forall|k: int, j: int|
            0 <= k < j < spec_starts(cs, index).len() ==> #[trigger] spec_starts(cs, index)[k]
                < #[trigger] spec_starts(cs, index)[j],
    decreases cs.len() - index,
{
    if index < cs.len() {
        lemma_speaker_prefix_length(cs, index);
        match spec_speaker_prefix_length(cs, index) {
            Some(length) => if is_segment_boundary(cs, index) {
                lemma_starts(cs, index + length);
                let rest = spec_starts(cs, index + length);
                assert(spec_starts(cs, index) == seq![index] + rest);
                assert forall|k: int| 0 <= k < spec_starts(cs, index).len() implies index
                    <= #[trigger] spec_starts(cs, index)[k] < cs.len() by {
                    if k > 0 {
                        assert(spec_starts(cs, index)[k] == rest[k - 1]);
                    }
                }
                assert forall|k: int, j: int|
                    0 <= k < j < spec_starts(cs, index).len() implies #[trigger] spec_starts(
                    cs,
                    index,
                )[k] < #[trigger] spec_starts(cs, index)[j] by {
                    assert(spec_starts(cs, index)[j] == rest[j - 1]);
                    if k > 0 {
                        assert(spec_starts(cs, index)[k] == rest[k - 1]);
                    }
                }
            } else {
                lemma_starts(cs, index + 1);
                assert(spec_starts(cs, index) == spec_starts(cs, index + 1));
            },
            None => {
                lemma_starts(cs, index + 1);
                assert(spec_starts(cs, index) == spec_starts(cs, index + 1));
            },
        }
    }
}

pub open spec fn usizes_view(v: Seq<usize>) -> Seq<int> {
    Seq::new(v.len(), |i: int| v[i] as int)
}

fn segment_starts(cs: &[char]) -> (r: Vec<usize>)
    ensures
        usizes_view(r@) == spec_starts(cs@, 0),
{
    let n = cs.len();
    let mut starts: Vec<usize> = Vec::new();
    let mut index: usize = 0;
    while index < n
        invariant
            n == cs@.len(),
            index <= n,
            usizes_view(starts@) + spec_starts(cs@, index as int) == spec_starts(cs@, 0),
        decreases n - index,
    {
        let ghost before = starts@;
        match speaker_prefix_length(cs, index) {
            Some(length) => {
                let boundary = if index == 0 {
                    true
                } else {
                    let previous = cs[index - 1];
                    is_in_class(CharClass::SegmentBoundary, previous) || (is_ascii_alphanumeric(
                        previous,
                    ) && is_han(cs[index]))
                };
                if boundary {
                    starts.push(index);
                    assert(usizes_view(starts@) =~= usizes_view(before).push(index as int));
                    assert(usizes_view(starts@) + spec_starts(cs@, (index + length) as int)
                        =~= usizes_view(before) + spec_starts(cs@, index as int));
                    index = index + length;
                    continue ;
                }
            },
            None => {},
        }
        index = index + 1;
    }
    assert(usizes_view(starts@) =~= usizes_view(starts@) + spec_starts(cs@, n as int));
    starts
}

/// The trimmed text of one glued segment.
pub open spec fn spec_chunk(cs: Seq<char>, start: int, end: int) -> Seq<char> {
    trim_by(trim_ws(cs.subrange(start, end)), CharClass::SegmentEdge)
}

/// The chat lines parsed from the segments that start at `starts[p..]`.
pub open spec fn segments_from(cs: Seq<char>, starts: Seq<int>, p: int) -> Seq<
    (Seq<char>, Seq<char>),
>
    decreases starts.len() - p,
{
    if p < 0 || p >= starts.len() {
        Seq::empty()
    } else {
        let end = if p + 1 < starts.len() {
            starts[p + 1]
        } else {
            cs.len() as int
        };
        let chunk = spec_chunk(cs, starts[p], end);
        let rest = segments_from(cs, starts, p + 1);
        if chunk.len() == 0 {
            rest
        } else {
            match spec_parse_single(chunk) {
                Some(l) => if trim_ws(l.1).len() > 0 {
                    seq![l] + rest
                } else {
                    rest
                },
                None => rest,
            }
        }
    }
}

/// All chat lines glued into one OCR line.
pub open spec fn spec_split_segments(value: Seq<char>) -> Seq<(Seq<char>, Seq<char>)> {
    let n = spec_collapse_noise(value);
    if n.len() == 0 {
        Seq::empty()
    } else {
        let starts = spec_starts(n, 0);
        if starts.len() == 0 {
            match spec_parse_single(n) {
                Some(l) => seq![l],
                None => Seq::empty(),
            }
        } else {
            let segments = segments_from(n, starts, 0);
            if segments.len() == 0 {
                match spec_parse_single(n) {
                    Some(l) => seq![l],
                    None => seq![(Seq::empty(), n)],
                }
            } else {
                segments
            }
        }
    }
}

fn split_ocr_chat_segments(value: &[char]) -> (r: Vec<ParsedChatLine>)
    ensures
        lines_view(r@) == spec_split_segments(value@),
{
    let normalized = collapse_ocr_noise(value);
    if normalized.len() == 0 {
        let r: Vec<ParsedChatLine> = Vec::new();
        assert(lines_view(r@) =~= Seq::<(Seq<char>, Seq<char>)>::empty());
        return r;
    }
    let cs = normalized.as_slice();
    let starts = segment_starts(cs);
    proof {
        lemma_starts(cs@, 0);
    }
    let ghost sv = usizes_view(starts@);
    assert(sv == spec_starts(cs@, 0));
    let mut segments: Vec<ParsedChatLine> = Vec::new();
    if starts.len() > 0 {
        let mut p: usize = 0;
        while p < starts.len()
            invariant
                sv == usizes_view(starts@),
                sv == spec_starts(cs@, 0),
                cs@ == normalized@,
                p <= starts.len(),
                forall|k: int| 0 <= k < sv.len() ==> 0 <= #[trigger] sv[k] < cs@.len(),
                forall|k: int, j: int| 0 <= k < j < sv.len() ==> #[trigger] sv[k] < #[trigger] sv[j],
                lines_view(segments@) + segments_from(cs@, sv, p as int) == segments_from(
                    cs@,
                    sv,
                    0,
                ),
            decreases starts.len() - p,
        {
            let start = starts[p];
            let end = if p + 1 < starts.len() {
                starts[p + 1]
            } else {
                cs.len()
            };
            assert(sv[p as int] == start);
            assert(p + 1 < starts.len() ==> sv[p + 1] == end);
            let raw = copy_range(cs, start, end);
            let trimmed = trim_whitespace(raw.as_slice());
            let chunk = trim_class(trimmed.as_slice(), CharClass::SegmentEdge);
            let ghost before = segments@;
            if chunk.len() > 0 {
                match parse_single_chat_line(chunk.as_slice()) {
                    Some(parsed) => {
                        let message = crate::chars::chars_of(parsed.message.as_str());
                        let t = trim_whitespace(message.as_slice());
                        if t.len() > 0 {
                            let ghost l = parsed@;
                            segments.push(parsed);
                            assert(lines_view(segments@) =~= lines_view(before).push(l));
                            assert(lines_view(segments@) + segments_from(cs@, sv, p + 1)
                                =~= lines_view(before) + segments_from(cs@, sv, p as int));
                        }
                    },
                    None => {},
                }
            }
            p = p + 1;
        }
        assert(lines_view(segments@) =~= lines_view(segments@) + segments_from(
            cs@,
            sv,
            starts.len() as int,
        ));
    }
    if segments.len() == 0 {
        let mut r: Vec<ParsedChatLine> = Vec::new();
        match parse_single_chat_line(cs) {
            Some(parsed) => {
                r.push(parsed);
            },
            None => {
                if starts.len() > 0 {
                    let empty: Vec<char> = Vec::new();
                    r.push(make_line(empty.as_slice(), cs));
                }
            },
        }
        assert(lines_view(r@) =~= spec_split_segments(value@));
        return r;
    }
    segments
}

/// The first line whose message is not blank, from position `i` on.
pub open spec fn first_with_message(lines: Seq<(Seq<char>, Seq<char>)>, i: int) -> Option<
    (Seq<char>, Seq<char>),
>
    decreases lines.len() - i,
{
    if i < 0 || i >= lines.len() {
        None
    } else if trim_ws(lines[i].1).len() > 0 {
        Some(lines[i])
    } else {
        first_with_message(lines, i + 1)
    }
}

/// A chat line as speaker and message; when OCR glued several messages the
/// first complete one is kept.
pub open spec fn spec_parse_chat_line(value: Seq<char>) -> (Seq<char>, Seq<char>) {
    let segments = spec_split_segments(value);
    if segments.len() == 1 {
        segments[0]
    } else {
        match first_with_message(segments, 0) {
            Some(l) => l,
            None => (Seq::empty(), trim_ws(value)),
        }
    }
}

pub fn message_is_blank(l: &ParsedChatLine) -> (r: bool)
    ensures
        r == (trim_ws(l@.1).len() == 0),
{
    let m = crate::chars::chars_of(l.message.as_str());
    let t = trim_whitespace(m.as_slice());
    t.len() == 0
}

pub fn parse_chat_line(value: &str) -> (r: ParsedChatLine)
    ensures
        r@ == spec_parse_chat_line(value@),
{
    let cs = crate::chars::chars_of(value);
    let segments = split_ocr_chat_segments(cs.as_slice());
    let ghost sv = lines_view(segments@);
    if segments.len() == 1 {
        return clone_line(&segments[0]);
    }
    let mut i: usize = 0;
    while i < segments.len()
        invariant
            sv == lines_view(segments@),
            sv == spec_split_segments(value@),
            segments.len() != 1,
            i <= segments.len(),
            first_with_message(sv, 0) == first_with_message(sv, i as int),
        decreases segments.len() - i,
    {
        if !message_is_blank(&segments[i]) {
            return clone_line(&segments[i]);
        }
        i = i + 1;
    }
    let empty: Vec<char> = Vec::new();
    let t = trim_whitespace(cs.as_slice());
    make_line(empty.as_slice(), t.as_slice())
}

/// The glued segments whose message is not blank.
pub open spec fn spec_expand_ocr_chat_line(value: Seq<char>) -> Seq<(Seq<char>, Seq<char>)> {
    spec_split_segments(value).filter(|l: (Seq<char>, Seq<char>)| trim_ws(l.1).len() > 0)
}

pub fn expand_ocr_chat_line(value: &str) -> (r: Vec<ParsedChatLine>)
    ensures
        lines_view(r@) == spec_expand_ocr_chat_line(value@),
{
    let cs = crate::chars::chars_of(value);
    expand_chars(cs.as_slice())
}

fn expand_chars(cs: &[char]) -> (r: Vec<ParsedChatLine>)
    ensures
        lines_view(r@) == spec_expand_ocr_chat_line(cs@),
{
    let segments = split_ocr_chat_segments(cs);
    let ghost sv = lines_view(segments@);
    let mut out: Vec<ParsedChatLine> = Vec::new();
    let mut i: usize = 0;
    while i < segments.len()
        invariant
            sv == lines_view(segments@),
            i <= segments.len(),
            lines_view(out@) == sv.take(i as int).filter(
                |l: (Seq<char>, Seq<char>)| trim_ws(l.1).len() > 0,
            ),
        decreases segments.len() - i,
    {
        proof {
            reveal(Seq::filter);
            assert(sv.take(i + 1).drop_last() =~= sv.take(i as int));
        }
        let ghost before = out@;
        if !message_is_blank(&segments[i]) {
            out.push(clone_line(&segments[i]));
            assert(lines_view(out@) =~= lines_view(before).push(sv[i as int]));
        }
        i = i + 1;
    }
    assert(sv.take(segments.len() as int) =~= sv);
    out
}

} // verus!
