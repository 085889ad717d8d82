//! OCR readings with line positions, and the merging of two readings of the
//! same chat area into chat lines.
//!
//! Positions are integers in thousandths of a pixel: `top` is the upper edge
//! of a line and `height` its height.
use vstd::prelude::*;
use crate::chars::{chars_of, has_han, spec_is_ascii_alphabetic, spec_is_ascii_alphanumeric, any_han};
use crate::chat::{
    clone_line, expand_ocr_chat_line, lines_view, message_is_blank, parse_chat_line,
    spec_expand_ocr_chat_line, spec_parse_chat_line, ParsedChatLine,
};
use crate::chars::{string_of, trim_end_by, trim_end_class, trim_start_by, trim_start_class, trim_ws, CharClass};

verus! {

/// One OCR line of text with its vertical position.
#[derive(Debug, Clone, PartialEq, Eq)]
pub struct PositionedOcrLine {
    pub text: String,
    pub top: i64,
    pub height: i64,
}

impl View for PositionedOcrLine {
    type V = (Seq<char>, int, int);

    open spec fn view(&self) -> (Seq<char>, int, int) {
        (self.text@, self.top as int, self.height as int)
    }
}

/// What one OCR engine read, and in which language it read it.
#[derive(Debug, Clone, PartialEq, Eq)]
pub struct OcrReading {
    pub language: String,
    pub lines: Vec<PositionedOcrLine>,
}

pub open spec fn ocr_view(v: Seq<PositionedOcrLine>) -> Seq<(Seq<char>, int, int)> {
    Seq::new(v.len(), |i: int| v[i]@)
}

/// A line height for tolerances: the taller of two lines, at least 12 px.
pub open spec fn tolerance_base(a: int, b: int) -> int {
    let m = if a >= b {
        a
    } else {
        b
    };
    if m >= 12000 {
        m
    } else {
        12000
    }
}

pub open spec fn abs(x: int) -> int {
    if x >= 0 {
        x
    } else {
        -x
    }
}

/// `candidate` lies on the same row as `line`: their tops differ by at most
/// `num / den` of the tolerance base.
pub open spec fn same_row(line: (Seq<char>, int, int), candidate: (Seq<char>, int, int), num: int, den: int) -> bool {
    abs(candidate.1 - line.1) * den <= tolerance_base(line.2, candidate.2) * num
}

fn tolerance_base_exec(a: i64, b: i64) -> (r: i128)
    ensures
        r == tolerance_base(a as int, b as int),
{
    let m = if a >= b {
        a
    } else {
        b
    };
    if m >= 12000 {
        m as i128
    } else {
        12000
    }
}

fn top_distance(a: i64, b: i64) -> (r: i128)
    ensures
        r == abs(b - a),
{
    let d = (b as i128) - (a as i128);
    if d >= 0 {
        d
    } else {
        -d
    }
}

fn is_same_row(line: &PositionedOcrLine, candidate: &PositionedOcrLine, num: i128, den: i128) -> (r: bool)
    requires
        0 <= num <= 100,
        0 <= den <= 100,
    ensures
        r == same_row(line@, candidate@, num as int, den as int),
{
    let d = top_distance(line.top, candidate.top);
    let m = tolerance_base_exec(line.height, candidate.height);
    assert(0 <= d * den <= 0x2_0000_0000_0000_0000 * 100) by (nonlinear_arith)
        requires
            0 <= d <= 0x2_0000_0000_0000_0000,
            0 <= den <= 100,
    ;
    assert(-0x1_0000_0000_0000_0000 * 100 <= m * num <= 0x1_0000_0000_0000_0000 * 100) by (nonlinear_arith)
        requires
            12000 <= m <= 0x1_0000_0000_0000_0000,
            0 <= num <= 100,
    ;
    d * den <= m * num
}

// ---------------------------------------------------------------------------
// Speaker from a second reading

/// The first speaker named among `lines[i..]`.
pub open spec fn first_named(lines: Seq<(Seq<char>, Seq<char>)>, i: int) -> Option<Seq<char>>
    decreases lines.len() - i,
{
    if i < 0 || i >= lines.len() {
        None
    } else if lines[i].0.len() > 0 {
        Some(lines[i].0)
    } else {
        first_named(lines, i + 1)
    }
}

/// The first speaker named by a source line on the same row as `line`,
/// looking at `sources[i..]` in order.
pub open spec fn speaker_from(line: (Seq<char>, int, int), sources: Seq<(Seq<char>, int, int)>, i: int) -> Option<
    Seq<char>,
>
    decreases sources.len() - i,
{
    if i < 0 || i >= sources.len() {
        None
    } else {
        let named = first_named(spec_expand_ocr_chat_line(sources[i].0), 0);
        if same_row(line, sources[i], 7, 10) && named is Some {
            named
        } else {
            speaker_from(line, sources, i + 1)
        }
    }
}

/// `lines` with each missing speaker filled in from `speaker`, when there is one.
pub open spec fn with_speaker(lines: Seq<(Seq<char>, Seq<char>)>, speaker: Option<Seq<char>>) -> Seq<
    (Seq<char>, Seq<char>),
> {
    Seq::new(
        lines.len(),
        |i: int|
            if lines[i].0.len() == 0 && speaker is Some {
                (speaker->0, lines[i].1)
            } else {
                lines[i]
            },
    )
}

pub open spec fn has_message(l: (Seq<char>, Seq<char>)) -> bool {
    trim_ws(l.1).len() > 0
}

/// The chat lines of one primary OCR line, speakers completed from the
/// second reading.
pub open spec fn merged_line(line: (Seq<char>, int, int), sources: Seq<(Seq<char>, int, int)>) -> Seq<
    (Seq<char>, Seq<char>),
> {
    let segments = spec_expand_ocr_chat_line(line.0);
    if segments.len() == 0 {
        Seq::empty()
    } else {
        with_speaker(segments, speaker_from(line, sources, 0)).filter(|l: (Seq<char>, Seq<char>)| has_message(l))
    }
}

/// The chat lines of `primary[..k]`, in order.
pub open spec fn merge_prefix(primary: Seq<(Seq<char>, int, int)>, sources: Seq<(Seq<char>, int, int)>, k: int) -> Seq<
    (Seq<char>, Seq<char>),
>
    decreases k,
{
    if k <= 0 || k > primary.len() {
        Seq::empty()
    } else {
        merge_prefix(primary, sources, k - 1) + merged_line(primary[k - 1], sources)
    }
}

fn first_speaker(lines: &Vec<ParsedChatLine>) -> (r: Option<String>)
    ensures
        match first_named(lines_view(lines@), 0) {
            None => r is None,
            Some(s) => r is Some && r->0@ == s,
        },
{
    let mut i: usize = 0;
    while i < lines.len()
        invariant
            i <= lines@.len(),
            first_named(lines_view(lines@), 0) == first_named(lines_view(lines@), i as int),
        decreases lines.len() - i,
    {
        if !lines[i].speaker.as_str().is_empty() {
            return Some(lines[i].speaker.clone());
        }
        i = i + 1;
    }
    None
}

fn speaker_for(line: &PositionedOcrLine, sources: &[PositionedOcrLine]) -> (r: Option<String>)
    ensures
        match speaker_from(line@, ocr_view(sources@), 0) {
            None => r is None,
            Some(s) => r is Some && r->0@ == s,
        },
{
    let ghost sv = ocr_view(sources@);
    let mut i: usize = 0;
    while i < sources.len()
        invariant
            sv == ocr_view(sources@),
            i <= sources@.len(),
            speaker_from(line@, sv, 0) == speaker_from(line@, sv, i as int),
        decreases sources.len() - i,
    {
        assert(sv[i as int] == sources@[i as int]@);
        if is_same_row(line, &sources[i], 7, 10) {
            let expanded = expand_ocr_chat_line(sources[i].text.as_str());
            let named = first_speaker(&expanded);
            if named.is_some() {
                return named;
            }
        }
        i = i + 1;
    }
    None
}

/// Chat lines from the primary reading, each missing speaker taken from the
/// first named speaker that the other reading shows on the same row.
pub fn merge_ocr_chat_lines(primary: &[PositionedOcrLine], speaker_source: &[PositionedOcrLine]) -> (r: Vec<
    ParsedChatLine,
>)
    ensures
        lines_view(r@) == merge_prefix(ocr_view(primary@), ocr_view(speaker_source@), primary@.len() as int),
{
    let ghost pv = ocr_view(primary@);
    let ghost sv = ocr_view(speaker_source@);
    let mut out: Vec<ParsedChatLine> = Vec::new();
    let mut k: usize = 0;
    while k < primary.len()
        invariant
            pv == ocr_view(primary@),
            sv == ocr_view(speaker_source@),
            k <= primary@.len(),
            lines_view(out@) == merge_prefix(pv, sv, k as int),
        decreases primary.len() - k,
    {
        let line = &primary[k];
        assert(pv[k as int] == line@);
        let segments = expand_ocr_chat_line(line.text.as_str());
        let ghost segv = lines_view(segments@);
        if segments.len() > 0 {
            let speaker = speaker_for(line, speaker_source);
            let ghost filled = with_speaker(segv, speaker_from(line@, sv, 0));
            let ghost base = lines_view(out@);
            let mut j: usize = 0;
            while j < segments.len()
                invariant
                    segv == lines_view(segments@),
                    filled == with_speaker(segv, speaker_from(line@, sv, 0)),
                    match speaker_from(line@, sv, 0) {
                        None => speaker is None,
                        Some(s) => speaker is Some && speaker->0@ == s,
                    },
                    j <= segments@.len(),
                    lines_view(out@) == base + filled.take(j as int).filter(
                        |l: (Seq<char>, Seq<char>)| has_message(l),
                    ),
                decreases segments.len() - j,
            {
                proof {
                    reveal(Seq::filter);
                    assert(filled.take(j + 1).drop_last() =~= filled.take(j as int));
                }
                let segment = &segments[j];
                let next = if segment.speaker.as_str().is_empty() {
                    match &speaker {
                        Some(s) => ParsedChatLine { speaker: s.clone(), message: segment.message.clone() },
                        None => clone_line(segment),
                    }
                } else {
                    clone_line(segment)
                };
                assert(next@ == filled[j as int]);
                if !message_is_blank(&next) {
                    let ghost before = out@;
                    out.push(next);
                    assert(lines_view(out@) =~= lines_view(before).push(filled[j as int]));
                }
                j = j + 1;
            }
            assert(filled.take(segments.len() as int) =~= filled);
        }
        assert(merge_prefix(pv, sv, k + 1) == merge_prefix(pv, sv, k as int) + merged_line(pv[k as int], sv));
        assert(segments.len() == 0 ==> lines_view(out@) =~= merge_prefix(pv, sv, k as int) + merged_line(pv[k as int], sv));
        k = k + 1;
    }
    out
}

// ---------------------------------------------------------------------------
// Choosing between two readings of one line

/// Number of ASCII letters and digits.
pub open spec fn latin_score(s: Seq<char>) -> nat {
    s.filter(|c: char| spec_is_ascii_alphanumeric(c)).len()
}

/// Number of ASCII letters.
pub open spec fn letter_count(s: Seq<char>) -> nat {
    s.filter(|c: char| spec_is_ascii_alphabetic(c)).len()
}

fn count_latin(s: &str, letters_only: bool) -> (r: usize)
    ensures
        letters_only ==> r == letter_count(s@),
        !letters_only ==> r == latin_score(s@),
{
    let cs = chars_of(s);
    let mut count: usize = 0;
    let mut i: usize = 0;
    while i < cs.len()
        invariant
            cs@ == s@,
            i <= cs@.len(),
            count <= i,
            letters_only ==> count == cs@.take(i as int).filter(|c: char| spec_is_ascii_alphabetic(c)).len(),
            !letters_only ==> count == cs@.take(i as int).filter(|c: char| spec_is_ascii_alphanumeric(c)).len(),
        decreases cs.len() - i,
    {
        proof {
            reveal(Seq::filter);
            assert(cs@.take(i + 1).drop_last() =~= cs@.take(i as int));
        }
        let c = cs[i];
        let counted = if letters_only {
            ('A' <= c && c <= 'Z') || ('a' <= c && c <= 'z')
        } else {
            ('A' <= c && c <= 'Z') || ('a' <= c && c <= 'z') || ('0' <= c && c <= '9')
        };
        if counted {
            count = count + 1;
        }
        i = i + 1;
    }
    assert(cs@.take(cs@.len() as int) =~= cs@);
    count
}

/// The first chat line of an OCR text, or the whole text parsed as one.
pub open spec fn first_or_parsed(text: Seq<char>) -> (Seq<char>, Seq<char>) {
    let expanded = spec_expand_ocr_chat_line(text);
    if expanded.len() > 0 {
        expanded[0]
    } else {
        spec_parse_chat_line(text)
    }
}

/// One chat line from two readings of the same text: Han text from the
/// Chinese reading, otherwise the reading with more Latin letters and
/// digits; the Chinese speaker when it is Han, else the English one.
pub open spec fn spec_choose_bilingual(chinese: Seq<char>, english: Seq<char>) -> (Seq<char>, Seq<char>) {
    let c = first_or_parsed(chinese);
    let e = first_or_parsed(english);
    let message = if any_han(c.1) {
        c.1
    } else if latin_score(e.1) > 0 && latin_score(e.1) >= latin_score(c.1) {
        e.1
    } else if c.1.len() > 0 {
        c.1
    } else {
        e.1
    };
    let speaker = if any_han(c.0) {
        c.0
    } else if e.0.len() > 0 {
        e.0
    } else {
        c.0
    };
    (speaker, message)
}

fn first_or_parse(text: &str) -> (r: ParsedChatLine)
    ensures
        r@ == first_or_parsed(text@),
{
    let expanded = expand_ocr_chat_line(text);
    if expanded.len() > 0 {
        clone_line(&expanded[0])
    } else {
        parse_chat_line(text)
    }
}

fn choose_bilingual_chat_line(chinese: &str, english: &str) -> (r: ParsedChatLine)
    ensures
        r@ == spec_choose_bilingual(chinese@, english@),
{
    let c = first_or_parse(chinese);
    let e = first_or_parse(english);
    let c_message = chars_of(c.message.as_str());
    let c_speaker = chars_of(c.speaker.as_str());
    let english_score = count_latin(e.message.as_str(), false);
    let message = if has_han(c_message.as_slice()) {
        c.message.clone()
    } else if english_score > 0 && english_score >= count_latin(c.message.as_str(), false) {
        e.message.clone()
    } else if !c.message.as_str().is_empty() {
        c.message.clone()
    } else {
        e.message.clone()
    };
    let speaker = if has_han(c_speaker.as_slice()) {
        c.speaker.clone()
    } else if !e.speaker.as_str().is_empty() {
        e.speaker.clone()
    } else {
        c.speaker.clone()
    };
    ParsedChatLine { speaker, message }
}

/// The reading that split the line into several chat lines, Chinese first;
/// empty when neither did.
pub open spec fn spec_expand_preferred(chinese: Seq<char>, english: Seq<char>) -> Seq<(Seq<char>, Seq<char>)> {
    let c = spec_expand_ocr_chat_line(chinese);
    let e = spec_expand_ocr_chat_line(english);
    if c.len() > 1 {
        c
    } else if e.len() > 1 {
        e
    } else {
        Seq::empty()
    }
}

fn expand_preferred_ocr_lines(chinese: &str, english: &str) -> (r: Vec<ParsedChatLine>)
    ensures
        lines_view(r@) == spec_expand_preferred(chinese@, english@),
{
    let c = expand_ocr_chat_line(chinese);
    let e = expand_ocr_chat_line(english);
    if c.len() > 1 {
        return c;
    }
    if e.len() > 1 {
        return e;
    }
    let r: Vec<ParsedChatLine> = Vec::new();
    assert(lines_view(r@) =~= Seq::<(Seq<char>, Seq<char>)>::empty());
    r
}

/// ASCII letters over all lines of a reading.
pub open spec fn reading_letters(lines: Seq<(Seq<char>, int, int)>) -> int
    decreases lines.len(),
{
    if lines.len() == 0 {
        0
    } else {
        reading_letters(lines.drop_last()) + letter_count(lines.last().0)
    }
}

fn latin_ocr_score(reading: &OcrReading) -> (r: u128)
    ensures
        r == reading_letters(ocr_view(reading.lines@)),
        r <= 0xffff_ffff_ffff_ffff * 0xffff_ffff_ffff_ffff,
{
    let ghost lv = ocr_view(reading.lines@);
    let mut total: u128 = 0;
    let mut i: usize = 0;
    while i < reading.lines.len()
        invariant
            lv == ocr_view(reading.lines@),
            i <= reading.lines@.len(),
            total == reading_letters(lv.take(i as int)),
            total <= i * 0xffff_ffff_ffff_ffff,
        decreases reading.lines.len() - i,
    {
        assert(lv.take(i + 1).drop_last() =~= lv.take(i as int));
        let count = count_latin(reading.lines[i].text.as_str(), true);
        assert(count <= 0xffff_ffff_ffff_ffff);
        total = total + count as u128;
        i = i + 1;
    }
    assert(lv.take(lv.len() as int) =~= lv);
    assert(total <= 0xffff_ffff_ffff_ffff * 0xffff_ffff_ffff_ffff) by (nonlinear_arith)
        requires
            total <= i * 0xffff_ffff_ffff_ffff,
            i <= 0xffff_ffff_ffff_ffff,
    ;
    total
}

/// The English reading when it holds more than four ASCII letters more than
/// the configured one; the configured reading otherwise.
pub fn prefer_latin_ocr<'a>(configured: &'a OcrReading, english: &'a OcrReading) -> (r: &'a OcrReading)
    ensures
        reading_letters(ocr_view(english.lines@)) > reading_letters(ocr_view(configured.lines@)) + 4
            ==> r == english,
        reading_letters(ocr_view(english.lines@)) <= reading_letters(ocr_view(configured.lines@)) + 4
            ==> r == configured,
{
    let configured_score = latin_ocr_score(configured);
    let english_score = latin_ocr_score(english);
    if english_score > configured_score + 4 {
        english
    } else {
        configured
    }
}

// ---------------------------------------------------------------------------
// Wrapped lines

/// A message continued on the next OCR row: a trailing hyphen joins the two
/// parts directly, otherwise one space does.
pub open spec fn spec_join_wrapped(first: Seq<char>, continuation: Seq<char>) -> Seq<char> {
    let f = trim_end_by(first, CharClass::Whitespace);
    let c = trim_start_by(continuation, CharClass::Whitespace);
    if f.len() > 0 && f.last() == '-' {
        trim_end_by(f, CharClass::Hyphen) + c
    } else {
        f + seq![' '] + c
    }
}

fn join_wrapped_message(first: &str, continuation: &str) -> (r: String)
    ensures
        r@ == spec_join_wrapped(first@, continuation@),
{
    let fc = chars_of(first);
    let cc = chars_of(continuation);
    let f = trim_end_class(fc.as_slice(), CharClass::Whitespace);
    let c = trim_start_class(cc.as_slice(), CharClass::Whitespace);
    let mut out: Vec<char> = if f.len() > 0 && f[f.len() - 1] == '-' {
        trim_end_class(f.as_slice(), CharClass::Hyphen)
    } else {
        let mut g = f;
        g.push(' ');
        g
    };
    let ghost head = out@;
    let mut i: usize = 0;
    while i < c.len()
        invariant
            i <= c@.len(),
            out@ == head + c@.take(i as int),
        decreases c.len() - i,
    {
        out.push(c[i]);
        assert(head + c@.take(i + 1) =~= (head + c@.take(i as int)).push(c@[i as int]));
        i = i + 1;
    }
    assert(c@.take(c@.len() as int) =~= c@);
    string_of(out.as_slice())
}

/// A chat line with its row position: top and height.
pub type Row = (int, int, (Seq<char>, Seq<char>));

/// A speakerless line at `top` continues the message above it when the gap
/// is within 1.8 line heights, or within 2.4 for a short line without a colon.
pub open spec fn looks_like_wrap(previous_top: int, previous_height: int, top: int, height: int, message: Seq<char>) -> bool {
    let gap = top - (previous_top + previous_height);
    let base = tolerance_base(previous_height, height);
    ||| gap * 10 <= base * 18
    ||| (gap * 10 <= base * 24 && message.len() <= 28 && !message.contains(':'))
}

/// One step of wrapped-line merging over the rows seen so far.
pub open spec fn wrap_step(out: Seq<Row>, row: Row) -> Seq<Row> {
    let (top, height, line) = row;
    if trim_ws(line.1).len() == 0 {
        out
    } else if line.0.len() == 0 && out.len() > 0 && out.last().2.0.len() > 0 && looks_like_wrap(
        out.last().0,
        out.last().1,
        top,
        height,
        line.1,
    ) {
        let (previous_top, previous_height, previous) = out.last();
        let grown = if top + height - previous_top >= previous_height {
            top + height - previous_top
        } else {
            previous_height
        };
        out.update(
            out.len() - 1,
            (previous_top, grown, (previous.0, spec_join_wrapped(previous.1, line.1))),
        )
    } else {
        out.push(row)
    }
}

pub open spec fn wrap_rows(rows: Seq<Row>, k: int) -> Seq<Row>
    decreases k,
{
    if k <= 0 || k > rows.len() {
        Seq::empty()
    } else {
        wrap_step(wrap_rows(rows, k - 1), rows[k - 1])
    }
}

pub open spec fn row_lines(rows: Seq<Row>) -> Seq<(Seq<char>, Seq<char>)> {
    Seq::new(rows.len(), |i: int| rows[i].2)
}

/// Rows sorted by top in the order given: blank lines dropped and wrapped
/// continuations joined to the message above.
pub open spec fn spec_merge_wrapped(rows: Seq<Row>) -> Seq<(Seq<char>, Seq<char>)> {
    row_lines(wrap_rows(rows, rows.len() as int))
}

pub open spec fn rows_view(v: Seq<(i64, i64, ParsedChatLine)>) -> Seq<Row> {
    Seq::new(v.len(), |i: int| (v[i].0 as int, v[i].1 as int, v[i].2@))
}

pub open spec fn wide_rows_view(v: Seq<(i64, i128, ParsedChatLine)>) -> Seq<Row> {
    Seq::new(v.len(), |i: int| (v[i].0 as int, v[i].1 as int, v[i].2@))
}

fn merge_wrapped_chat_lines(lines: Vec<(i64, i64, ParsedChatLine)>) -> (r: Vec<ParsedChatLine>)
    ensures
        lines_view(r@) == spec_merge_wrapped(rows_view(lines@)),
{
    let ghost rv = rows_view(lines@);
    let mut output: Vec<(i64, i128, ParsedChatLine)> = Vec::new();
    let mut k: usize = 0;
    while k < lines.len()
        invariant
            rv == rows_view(lines@),
            k <= lines@.len(),
            wide_rows_view(output@) == wrap_rows(rv, k as int),
            forall|i: int|
                0 <= i < output@.len() ==> -0x8000_0000_0000_0000 <= #[trigger] output@[i].1
                    <= 0x2_0000_0000_0000_0000,
        decreases lines.len() - k,
    {
        let top = lines[k].0;
        let height = lines[k].1;
        let line = &lines[k].2;
        assert(rv[k as int] == (top as int, height as int, line@));
        let ghost before = output@;
        if message_is_blank(line) {
            k = k + 1;
            continue;
        }
        let n = output.len();
        if line.speaker.as_str().is_empty() && n > 0 && !output[n - 1].2.speaker.as_str().is_empty() {
            let previous_top = output[n - 1].0;
            let previous_height = output[n - 1].1;
            let gap: i128 = (top as i128) - ((previous_top as i128) + previous_height);
            let m = if previous_height >= height as i128 {
                previous_height
            } else {
                height as i128
            };
            let base: i128 = if m >= 12000 {
                m
            } else {
                12000
            };
            let message = chars_of(line.message.as_str());
            let short_plain = message.len() <= 28 && crate::chars::find_char(message.as_slice(), ':').is_none();
            proof {
                crate::chars::lemma_first_index_of(message@, ':', 0);
                assert(message@.contains(':') <==> crate::chars::first_index_of(message@, ':', 0) is Some);
            }
            if gap * 10 <= base * 18 || (gap * 10 <= base * 24 && short_plain) {
                let joined = join_wrapped_message(output[n - 1].2.message.as_str(), line.message.as_str());
                let extent: i128 = (top as i128) + (height as i128) - (previous_top as i128);
                let grown = if extent >= previous_height {
                    extent
                } else {
                    previous_height
                };
                let speaker = output[n - 1].2.speaker.clone();
                output.set(n - 1, (previous_top, grown, ParsedChatLine { speaker, message: joined }));
                assert(wide_rows_view(output@) =~= wrap_rows(rv, k + 1));
                k = k + 1;
                continue;
            }
        }
        output.push((top, height as i128, clone_line(line)));
        assert(wide_rows_view(output@) =~= wide_rows_view(before).push(rv[k as int]));
        k = k + 1;
    }
    let mut r: Vec<ParsedChatLine> = Vec::new();
    let mut i: usize = 0;
    while i < output.len()
        invariant
            i <= output@.len(),
            lines_view(r@) == row_lines(wide_rows_view(output@)).take(i as int),
        decreases output.len() - i,
    {
        let ghost before = r@;
        r.push(clone_line(&output[i].2));
        assert(lines_view(r@) =~= lines_view(before).push(output@[i as int].2@));
        assert(lines_view(r@) =~= row_lines(wide_rows_view(output@)).take(i + 1));
        i = i + 1;
    }
    assert(row_lines(wide_rows_view(output@)).take(output@.len() as int) =~= row_lines(
        wide_rows_view(output@),
    ));
    r
}

// ---------------------------------------------------------------------------
// Stable ordering by row

/// `sorted` with `row` placed after every row whose top is not below it.
pub open spec fn insert_by_top(sorted: Seq<Row>, row: Row) -> Seq<Row>
    decreases sorted.len(),
{
    if sorted.len() == 0 {
        seq![row]
    } else if sorted.last().0 <= row.0 {
        sorted.push(row)
    } else {
        insert_by_top(sorted.drop_last(), row).push(sorted.last())
    }
}

/// The rows ordered by top; rows with equal tops keep their order.
pub open spec fn sort_by_top(rows: Seq<Row>) -> Seq<Row>
    decreases rows.len(),
{
    if rows.len() == 0 {
        Seq::empty()
    } else {
        insert_by_top(sort_by_top(rows.drop_last()), rows.last())
    }
}

proof fn lemma_insert_by_top(sorted: Seq<Row>, row: Row, j: int)
    requires
        0 <= j <= sorted.len(),
        forall|k: int| j <= k < sorted.len() ==> #[trigger] sorted[k].0 > row.0,
        j > 0 ==> sorted[j - 1].0 <= row.0,
    ensures
        insert_by_top(sorted, row) == sorted.insert(j, row),
    decreases sorted.len(),
{
    if sorted.len() == j {
        assert(sorted.insert(j, row) =~= sorted.push(row));
    } else {
        let d = sorted.drop_last();
        assert forall|k: int| j <= k < d.len() implies #[trigger] d[k].0 > row.0 by {
            assert(d[k] == sorted[k]);
        }
        lemma_insert_by_top(d, row, j);
        assert(d.insert(j, row).push(sorted.last()) =~= sorted.insert(j, row));
    }
}

fn sort_rows(rows: &Vec<(i64, i64, ParsedChatLine)>) -> (r: Vec<(i64, i64, ParsedChatLine)>)
    ensures
        rows_view(r@) == sort_by_top(rows_view(rows@)),
{
    let ghost rv = rows_view(rows@);
    let mut sorted: Vec<(i64, i64, ParsedChatLine)> = Vec::new();
    let mut k: usize = 0;
    while k < rows.len()
        invariant
            rv == rows_view(rows@),
            k <= rows@.len(),
            rows_view(sorted@) == sort_by_top(rv.take(k as int)),
        decreases rows.len() - k,
    {
        assert(rv.take(k + 1).drop_last() =~= rv.take(k as int));
        let top = rows[k].0;
        let row = (top, rows[k].1, clone_line(&rows[k].2));
        assert(rv[k as int] == (row.0 as int, row.1 as int, row.2@));
        let mut j = sorted.len();
        while j > 0 && sorted[j - 1].0 > top
            invariant
                j <= sorted@.len(),
                forall|i: int| j <= i < sorted@.len() ==> #[trigger] sorted@[i].0 > top,
            decreases j,
        {
            j = j - 1;
        }
        proof {
            let sv = rows_view(sorted@);
            assert forall|i: int| j <= i < sv.len() implies #[trigger] sv[i].0 > rv[k as int].0 by {
                assert(sv[i].0 == sorted@[i].0);
            }
            lemma_insert_by_top(sv, rv[k as int], j as int);
        }
        let ghost before = sorted@;
        sorted.insert(j, row);
        assert(rows_view(sorted@) =~= rows_view(before).insert(j as int, rv[k as int]));
        k = k + 1;
    }
    assert(rv.take(rows@.len() as int) =~= rv);
    sorted
}

// ---------------------------------------------------------------------------
// Merging a Chinese and an English reading

/// Among `english[..k]`, the unpaired line on the same row as `line`
/// (within 0.75 of the tolerance base) whose top is closest to it; the
/// earliest on a tie.
pub open spec fn best_english(
    line: (Seq<char>, int, int),
    english: Seq<(Seq<char>, int, int)>,
    paired: Seq<bool>,
    k: int,
) -> Option<int>
    decreases k,
{
    if k <= 0 {
        None
    } else {
        let b = best_english(line, english, paired, k - 1);
        if !paired[k - 1] && same_row(line, english[k - 1], 3, 4) && (b is None || abs(
            english[k - 1].1 - line.1,
        ) < abs(english[b->0].1 - line.1)) {
            Some(k - 1)
        } else {
            b
        }
    }
}

pub proof fn lemma_best_english(
    line: (Seq<char>, int, int),
    english: Seq<(Seq<char>, int, int)>,
    paired: Seq<bool>,
    k: int,
)
    ensures
        best_english(line, english, paired, k) matches Some(i) ==> 0 <= i < k,
    decreases k,
{
    if k > 0 {
        lemma_best_english(line, english, paired, k - 1);
    }
}

pub open spec fn rows_at(top: int, height: int, lines: Seq<(Seq<char>, Seq<char>)>) -> Seq<Row> {
    Seq::new(lines.len(), |j: int| (top, height, lines[j]))
}

/// The rows one Chinese line contributes, paired with English line `best`.
pub open spec fn chinese_rows(line: (Seq<char>, int, int), english: Seq<(Seq<char>, int, int)>, best: Option<int>) -> Seq<Row> {
    match best {
        Some(i) => {
            let e = english[i];
            let top = if line.1 <= e.1 {
                line.1
            } else {
                e.1
            };
            let height = if line.2 >= e.2 {
                line.2
            } else {
                e.2
            };
            let expanded = spec_expand_preferred(line.0, e.0);
            if expanded.len() == 0 {
                seq![(top, height, spec_choose_bilingual(line.0, e.0))]
            } else {
                rows_at(top, height, expanded)
            }
        },
        None => rows_at(line.1, line.2, spec_expand_ocr_chat_line(line.0)),
    }
}

/// Which English lines are paired, and the rows, after `chinese[..k]`.
pub open spec fn bilingual_state(chinese: Seq<(Seq<char>, int, int)>, english: Seq<(Seq<char>, int, int)>, k: int) -> (
    Seq<bool>,
    Seq<Row>,
)
    decreases k,
{
    if k <= 0 || k > chinese.len() {
        (Seq::new(english.len(), |i: int| false), Seq::empty())
    } else {
        let previous = bilingual_state(chinese, english, k - 1);
        let best = best_english(chinese[k - 1], english, previous.0, english.len() as int);
        let paired = match best {
            Some(i) => previous.0.update(i, true),
            None => previous.0,
        };
        (paired, previous.1 + chinese_rows(chinese[k - 1], english, best))
    }
}

pub proof fn lemma_bilingual_state(chinese: Seq<(Seq<char>, int, int)>, english: Seq<(Seq<char>, int, int)>, k: int)
    ensures
        bilingual_state(chinese, english, k).0.len() == english.len(),
    decreases k,
{
    if k > 0 && k <= chinese.len() {
        lemma_bilingual_state(chinese, english, k - 1);
        let previous = bilingual_state(chinese, english, k - 1);
        lemma_best_english(chinese[k - 1], english, previous.0, english.len() as int);
    }
}

/// The rows of the English lines `english[..k]` that no Chinese line took.
pub open spec fn unpaired_rows(english: Seq<(Seq<char>, int, int)>, paired: Seq<bool>, k: int) -> Seq<Row>
    decreases k,
{
    if k <= 0 {
        Seq::empty()
    } else if !paired[k - 1] {
        unpaired_rows(english, paired, k - 1) + rows_at(
            english[k - 1].1,
            english[k - 1].2,
            spec_expand_ocr_chat_line(english[k - 1].0),
        )
    } else {
        unpaired_rows(english, paired, k - 1)
    }
}

/// Chat lines from a Chinese and an English reading of the same area: each
/// Chinese line is paired with the nearest free English line on its row,
/// the rest of both readings are kept, rows are ordered top to bottom and
/// wrapped continuations are joined.
pub open spec fn spec_merge_bilingual(chinese: Seq<(Seq<char>, int, int)>, english: Seq<(Seq<char>, int, int)>) -> Seq<
    (Seq<char>, Seq<char>),
> {
    let state = bilingual_state(chinese, english, chinese.len() as int);
    spec_merge_wrapped(sort_by_top(state.1 + unpaired_rows(english, state.0, english.len() as int)))
}

fn push_rows(out: &mut Vec<(i64, i64, ParsedChatLine)>, top: i64, height: i64, lines: &Vec<ParsedChatLine>)
    ensures
        rows_view(final(out)@) == rows_view(old(out)@) + rows_at(top as int, height as int, lines_view(lines@)),
{
    let ghost base = rows_view(out@);
    let mut j: usize = 0;
    while j < lines.len()
        invariant
            j <= lines@.len(),
            rows_view(out@) == base + rows_at(top as int, height as int, lines_view(lines@)).take(j as int),
        decreases lines.len() - j,
    {
        let ghost before = out@;
        out.push((top, height, clone_line(&lines[j])));
        assert(rows_view(out@) =~= rows_view(before).push((top as int, height as int, lines@[j as int]@)));
        assert(rows_at(top as int, height as int, lines_view(lines@)).take(j + 1) =~= rows_at(
            top as int,
            height as int,
            lines_view(lines@),
        ).take(j as int).push((top as int, height as int, lines@[j as int]@)));
        j = j + 1;
    }
    assert(rows_at(top as int, height as int, lines_view(lines@)).take(lines@.len() as int) =~= rows_at(
        top as int,
        height as int,
        lines_view(lines@),
    ));
}

fn find_best_english(line: &PositionedOcrLine, english: &[PositionedOcrLine], paired: &Vec<bool>) -> (r: Option<usize>)
    requires
        paired@.len() == english@.len(),
    ensures
        match best_english(line@, ocr_view(english@), paired@, english@.len() as int) {
            None => r is None,
            Some(i) => r == Some(i as usize),
        },
{
    let ghost ev = ocr_view(english@);
    let mut best: Option<usize> = None;
    let mut best_distance: i128 = 0;
    let mut i: usize = 0;
    while i < english.len()
        invariant
            ev == ocr_view(english@),
            paired@.len() == english@.len(),
            i <= english@.len(),
            match best_english(line@, ev, paired@, i as int) {
                None => best is None,
                Some(b) => best == Some(b as usize) && best_distance == abs(ev[b].1 - line@.1),
            },
        decreases english.len() - i,
    {
        proof {
            lemma_best_english(line@, ev, paired@, i as int);
        }
        assert(ev[i as int] == english@[i as int]@);
        if !paired[i] && is_same_row(line, &english[i], 3, 4) {
            let distance = top_distance(line.top, english[i].top);
            let better = match best {
                None => true,
                Some(_) => distance < best_distance,
            };
            if better {
                best = Some(i);
                best_distance = distance;
            }
        }
        i = i + 1;
    }
    best
}

/// Chat lines from a Chinese and an English reading of the same chat area.
pub fn merge_bilingual_ocr_lines(chinese: &[PositionedOcrLine], english: &[PositionedOcrLine]) -> (r: Vec<
    ParsedChatLine,
>)
    ensures
        lines_view(r@) == spec_merge_bilingual(ocr_view(chinese@), ocr_view(english@)),
{
    let ghost cv = ocr_view(chinese@);
    let ghost ev = ocr_view(english@);
    let mut paired: Vec<bool> = Vec::new();
    let mut j: usize = 0;
    while j < english.len()
        invariant
            j <= english@.len(),
            paired@.len() == j,
            forall|i: int| 0 <= i < j ==> !#[trigger] paired@[i],
        decreases english.len() - j,
    {
        paired.push(false);
        j = j + 1;
    }
    assert(paired@ =~= bilingual_state(cv, ev, 0).0);
    let mut merged: Vec<(i64, i64, ParsedChatLine)> = Vec::new();
    assert(rows_view(merged@) =~= bilingual_state(cv, ev, 0).1);
    let mut k: usize = 0;
    while k < chinese.len()
        invariant
            cv == ocr_view(chinese@),
            ev == ocr_view(english@),
            k <= chinese@.len(),
            paired@ == bilingual_state(cv, ev, k as int).0,
            rows_view(merged@) == bilingual_state(cv, ev, k as int).1,
        decreases chinese.len() - k,
    {
        proof {
            lemma_bilingual_state(cv, ev, k as int);
        }
        let line = &chinese[k];
        assert(cv[k as int] == line@);
        let best = find_best_english(line, english, &paired);
        proof {
            lemma_best_english(line@, ev, paired@, ev.len() as int);
        }
        match best {
            Some(i) => {
                paired.set(i, true);
                let e = &english[i];
                assert(ev[i as int] == e@);
                let top = if line.top <= e.top {
                    line.top
                } else {
                    e.top
                };
                let height = if line.height >= e.height {
                    line.height
                } else {
                    e.height
                };
                let expanded = expand_preferred_ocr_lines(line.text.as_str(), e.text.as_str());
                if expanded.len() == 0 {
                    let ghost before = merged@;
                    merged.push((top, height, choose_bilingual_chat_line(line.text.as_str(), e.text.as_str())));
                    assert(rows_view(merged@) =~= rows_view(before) + chinese_rows(cv[k as int], ev, Some(i as int)));
                } else {
                    push_rows(&mut merged, top, height, &expanded);
                }
            },
            None => {
                let expanded = expand_ocr_chat_line(line.text.as_str());
                push_rows(&mut merged, line.top, line.height, &expanded);
            },
        }
        k = k + 1;
    }
    proof {
        lemma_bilingual_state(cv, ev, chinese@.len() as int);
    }
    let ghost head = rows_view(merged@);
    let mut j: usize = 0;
    while j < english.len()
        invariant
            cv == ocr_view(chinese@),
            ev == ocr_view(english@),
            paired@ == bilingual_state(cv, ev, chinese@.len() as int).0,
            paired@.len() == english@.len(),
            j <= english@.len(),
            rows_view(merged@) == head + unpaired_rows(ev, paired@, j as int),
        decreases english.len() - j,
    {
        if !paired[j] {
            let e = &english[j];
            assert(ev[j as int] == e@);
            let expanded = expand_ocr_chat_line(e.text.as_str());
            push_rows(&mut merged, e.top, e.height, &expanded);
        }
        j = j + 1;
    }
    let sorted = sort_rows(&merged);
    merge_wrapped_chat_lines(sorted)
}

} // verus!

verus! {

// ---------------------------------------------------------------------------
// Pairing the two readings of a capture

/// The English reading to merge with the Chinese one, and the label of the
/// languages that read the messages. An English pass in the Chinese
/// engine's own language adds nothing; without an English engine the
/// Chinese one reads Latin text too.
pub open spec fn spec_pair_readings(chinese_language: Seq<char>, english: Option<(Seq<char>, Seq<char>, Seq<(Seq<char>, int, int)>)>)
    -> (Seq<char>, Seq<(Seq<char>, int, int)>, Seq<char>)
{
    match english {
        Some((requested, language, lines)) => if crate::chars::eq_ignore_ascii_case(chinese_language, requested) {
            (requested, Seq::empty(), chinese_language + "（中英混合）"@)
        } else {
            (language, lines, chinese_language + " + "@ + language)
        },
        None => ("未安装英文 OCR，使用中文引擎兼容拉丁字符"@, Seq::empty(), chinese_language + "（中英混合兼容模式）"@),
    }
}

pub open spec fn english_view(english: Option<(String, OcrReading)>) -> Option<(Seq<char>, Seq<char>, Seq<(Seq<char>, int, int)>)> {
    match english {
        Some((requested, reading)) => Some((requested@, reading.language@, ocr_view(reading.lines@))),
        None => None,
    }
}

/// The English reading and the message-language label for a capture, from
/// the Chinese reading and, where an English engine ran, the language it
/// was asked for and what it read. A capture in which neither reading found
/// a line is an error.
pub fn pair_ocr_readings(chinese: &OcrReading, english: Option<(String, OcrReading)>) -> (r: Result<(OcrReading, String), crate::translation::TranslationError>)
    ensures
        ({
            let (language, lines, label) = spec_pair_readings(chinese.language@, english_view(english));
            if chinese.lines@.len() == 0 && lines.len() == 0 {
                r matches Err(crate::translation::TranslationError::Response(m)) && m@ == "聊天区域未识别到文字"@
            } else {
                r matches Ok((reading, l)) && reading.language@ == language && ocr_view(reading.lines@) == lines
                    && l@ == label
            }
        }),
{
    let (reading, label) = match english {
        Some((requested, reading)) => {
            if crate::chars::chars_eq_ignore_ascii_case(chars_of(chinese.language.as_str()).as_slice(), chars_of(requested.as_str()).as_slice()) {
                let label = crate::ipc::concat2(chinese.language.as_str(), "（中英混合）");
                (OcrReading { language: requested, lines: Vec::new() }, label)
            } else {
                let head = crate::ipc::concat2(chinese.language.as_str(), " + ");
                let label = crate::ipc::concat2(head.as_str(), reading.language.as_str());
                (reading, label)
            }
        },
        None => {
            let language = string_of(chars_of("未安装英文 OCR，使用中文引擎兼容拉丁字符").as_slice());
            let label = crate::ipc::concat2(chinese.language.as_str(), "（中英混合兼容模式）");
            (OcrReading { language, lines: Vec::new() }, label)
        },
    };
    assert(ocr_view(Seq::<PositionedOcrLine>::empty()) =~= Seq::empty());
    if chinese.lines.len() == 0 && reading.lines.len() == 0 {
        Err(crate::translation::TranslationError::Response(string_of(chars_of("聊天区域未识别到文字").as_slice())))
    } else {
        Ok((reading, label))
    }
}

} // verus!
