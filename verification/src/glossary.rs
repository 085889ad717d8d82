//! The official glossary: terms read from the exported tab-separated
//! table, and the prompt extension listing the terms one message mentions.
use vstd::prelude::*;
use crate::chars::{
    ascii_lowercase, chars_of, contains_chars, pieces_view, seq_contains, split_by_class, split_class,
    string_of, to_ascii_lowercase, trim_end_by, trim_end_class, trim_whitespace, trim_ws, CharClass,
};

verus! {

/// At most this many terms are added to one prompt.
pub const MAX_MATCHED_TERMS: usize = 16;

/// Which way a message is translated.
#[derive(Debug, Clone, Copy, PartialEq, Eq, Structural)]
pub enum GlossaryDirection {
    EnglishToChinese,
    ChineseToEnglish,
}

/// One glossary row: category, English name, official Chinese name, and
/// English aliases.
#[derive(Debug, Clone, PartialEq, Eq)]
pub struct OfficialTerm {
    pub category: String,
    pub english: String,
    pub chinese: String,
    pub aliases: Vec<String>,
}

pub type TermView = (Seq<char>, Seq<char>, Seq<char>, Seq<Seq<char>>);

pub open spec fn strings_view(v: Seq<String>) -> Seq<Seq<char>> {
    Seq::new(v.len(), |i: int| v[i]@)
}

impl View for OfficialTerm {
    type V = TermView;

    open spec fn view(&self) -> TermView {
        (self.category@, self.english@, self.chinese@, strings_view(self.aliases@))
    }
}

pub open spec fn terms_view(v: Seq<OfficialTerm>) -> Seq<TermView> {
    Seq::new(v.len(), |i: int| v[i]@)
}

// ---------------------------------------------------------------------------
// Reading the table

/// The lines of a text as `str::lines` yields them: split at line feeds,
/// without the empty piece after a final line feed.
pub open spec fn text_lines(s: Seq<char>) -> Seq<Seq<char>> {
    if s.len() == 0 {
        Seq::empty()
    } else if s.last() == '\n' {
        split_class(s, CharClass::Newline).drop_last()
    } else {
        split_class(s, CharClass::Newline)
    }
}

/// The trimmed, non-empty aliases of an alias field.
pub open spec fn alias_list(pieces: Seq<Seq<char>>) -> Seq<Seq<char>>
    decreases pieces.len(),
{
    if pieces.len() == 0 {
        Seq::empty()
    } else {
        let rest = alias_list(pieces.drop_last());
        let alias = trim_ws(pieces.last());
        if alias.len() > 0 {
            rest.push(alias)
        } else {
            rest
        }
    }
}

/// A table row as a term: the first three tab-separated fields trimmed and
/// non-empty; the fourth, when present, holds the aliases.
pub open spec fn parse_term(raw: Seq<char>) -> Option<TermView> {
    let line = trim_end_by(raw, CharClass::CarriageReturn);
    if trim_ws(line).len() == 0 {
        None
    } else {
        let fields = split_class(line, CharClass::Tab);
        if fields.len() < 3 {
            None
        } else {
            let category = trim_ws(fields[0]);
            let english = trim_ws(fields[1]);
            let chinese = trim_ws(fields[2]);
            let aliases = if fields.len() > 3 {
                alias_list(split_class(fields[3], CharClass::AliasSeparator))
            } else {
                Seq::empty()
            };
            if category.len() == 0 || english.len() == 0 || chinese.len() == 0 {
                None
            } else {
                Some((category, english, chinese, aliases))
            }
        }
    }
}

/// The terms of `lines[1..k]` (the first line is the header).
pub open spec fn terms_of_lines(lines: Seq<Seq<char>>, k: int) -> Seq<TermView>
    decreases k,
{
    if k <= 1 || k > lines.len() {
        Seq::empty()
    } else {
        match parse_term(lines[k - 1]) {
            Some(t) => terms_of_lines(lines, k - 1).push(t),
            None => terms_of_lines(lines, k - 1),
        }
    }
}

/// Every term of a glossary table.
pub open spec fn spec_load_terms(tsv: Seq<char>) -> Seq<TermView> {
    terms_of_lines(text_lines(tsv), text_lines(tsv).len() as int)
}

fn alias_strings(field: &[char]) -> (r: Vec<String>)
    ensures
        strings_view(r@) == alias_list(split_class(field@, CharClass::AliasSeparator)),
{
    let pieces = split_by_class(field, CharClass::AliasSeparator);
    let ghost pv = pieces_view(pieces@);
    let mut out: Vec<String> = Vec::new();
    let mut i: usize = 0;
    while i < pieces.len()
        invariant
            pv == pieces_view(pieces@),
            i <= pieces@.len(),
            strings_view(out@) == alias_list(pv.take(i as int)),
        decreases pieces.len() - i,
    {
        assert(pv.take(i + 1).drop_last() =~= pv.take(i as int));
        assert(pv.take(i + 1).last() == pieces@[i as int]@);
        let alias = trim_whitespace(pieces[i].as_slice());
        if alias.len() > 0 {
            let ghost before = out@;
            out.push(string_of(alias.as_slice()));
            assert(strings_view(out@) =~= strings_view(before).push(alias@));
        }
        i = i + 1;
    }
    assert(pv.take(pieces@.len() as int) =~= pv);
    out
}

fn parse_term_line(raw: &[char]) -> (r: Option<OfficialTerm>)
    ensures
        match parse_term(raw@) {
            None => r is None,
            Some(t) => r is Some && r->0@ == t,
        },
{
    let line = trim_end_class(raw, CharClass::CarriageReturn);
    let trimmed = trim_whitespace(line.as_slice());
    if trimmed.len() == 0 {
        return None;
    }
    let fields = split_by_class(line.as_slice(), CharClass::Tab);
    if fields.len() < 3 {
        return None;
    }
    let category = trim_whitespace(fields[0].as_slice());
    let english = trim_whitespace(fields[1].as_slice());
    let chinese = trim_whitespace(fields[2].as_slice());
    let aliases = if fields.len() > 3 {
        alias_strings(fields[3].as_slice())
    } else {
        let empty: Vec<String> = Vec::new();
        assert(strings_view(empty@) =~= Seq::<Seq<char>>::empty());
        empty
    };
    if category.len() == 0 || english.len() == 0 || chinese.len() == 0 {
        return None;
    }
    Some(
        OfficialTerm {
            category: string_of(category.as_slice()),
            english: string_of(english.as_slice()),
            chinese: string_of(chinese.as_slice()),
            aliases,
        },
    )
}

/// Reads every term of an exported glossary table; the first line is the
/// header, blank and incomplete rows are skipped.
pub fn load_terms(tsv: &str) -> (r: Vec<OfficialTerm>)
    ensures
        terms_view(r@) == spec_load_terms(tsv@),
{
    let cs = chars_of(tsv);
    let pieces = split_by_class(cs.as_slice(), CharClass::Newline);
    let ghost lines = text_lines(tsv@);
    let n: usize = if cs.len() == 0 {
        0
    } else if cs[cs.len() - 1] == '\n' {
        pieces.len() - 1
    } else {
        pieces.len()
    };
    proof {
        crate::chars::lemma_split_class_nonempty(cs@, CharClass::Newline);
    }
    assert(n == lines.len());
    let mut out: Vec<OfficialTerm> = Vec::new();
    let mut k: usize = 1;
    assert(terms_view(out@) =~= terms_of_lines(lines, 1));
    if n == 0 {
        assert(terms_view(out@) =~= terms_of_lines(lines, 0));
        return out;
    }
    while k < n
        invariant
            1 <= k <= n,
            n == lines.len(),
            n <= pieces@.len(),
            lines == text_lines(tsv@),
            cs@ == tsv@,
            forall|j: int| 0 <= j < n ==> lines[j] == #[trigger] pieces@[j]@,
            terms_view(out@) == terms_of_lines(lines, k as int),
        decreases n - k,
    {
        let ghost before = out@;
        match parse_term_line(pieces[k].as_slice()) {
            Some(term) => {
                let ghost tv = term@;
                out.push(term);
                assert(terms_view(out@) =~= terms_view(before).push(tv));
            },
            None => {},
        }
        assert(terms_view(out@) == terms_of_lines(lines, k + 1));
        k = k + 1;
    }
    out
}

// ---------------------------------------------------------------------------
// Terms a message mentions

/// The first of `sources[i..]` that is non-empty and occurs, ignoring ASCII
/// case, in the lowered message.
pub open spec fn first_source_in(sources: Seq<Seq<char>>, lowered: Seq<char>, i: int) -> Option<Seq<char>>
    decreases sources.len() - i,
{
    if i < 0 || i >= sources.len() {
        None
    } else if sources[i].len() > 0 && seq_contains(lowered, ascii_lowercase(sources[i])) {
        Some(sources[i])
    } else {
        first_source_in(sources, lowered, i + 1)
    }
}

/// The name by which a term occurs in a message: for English, its English
/// name or else its first alias found ignoring ASCII case; for Chinese, its
/// official name.
pub open spec fn match_source(t: TermView, direction: GlossaryDirection, text: Seq<char>) -> Option<Seq<char>> {
    match direction {
        GlossaryDirection::EnglishToChinese => first_source_in(seq![t.1] + t.3, ascii_lowercase(text), 0),
        GlossaryDirection::ChineseToEnglish => if seq_contains(text, t.2) {
            Some(t.2)
        } else {
            None
        },
    }
}

/// Every term of `terms[..k]` that occurs, with the name that occurs, in
/// term order.
pub open spec fn candidates(terms: Seq<TermView>, direction: GlossaryDirection, text: Seq<char>, k: int) -> Seq<
    (int, Seq<char>),
>
    decreases k,
{
    if k <= 0 || k > terms.len() {
        Seq::empty()
    } else {
        match match_source(terms[k - 1], direction, text) {
            Some(source) => candidates(terms, direction, text, k - 1).push((k - 1, source)),
            None => candidates(terms, direction, text, k - 1),
        }
    }
}

/// `sorted` with `c` placed after every candidate whose name is at least as
/// long.
pub open spec fn insert_by_length(sorted: Seq<(int, Seq<char>)>, c: (int, Seq<char>)) -> Seq<(int, Seq<char>)>
    decreases sorted.len(),
{
    if sorted.len() == 0 {
        seq![c]
    } else if sorted.last().1.len() >= c.1.len() {
        sorted.push(c)
    } else {
        insert_by_length(sorted.drop_last(), c).push(sorted.last())
    }
}

/// Candidates ordered by name length, longest first, keeping the order of
/// equally long names.
pub open spec fn sort_by_length(cs: Seq<(int, Seq<char>)>) -> Seq<(int, Seq<char>)>
    decreases cs.len(),
{
    if cs.len() == 0 {
        Seq::empty()
    } else {
        insert_by_length(sort_by_length(cs.drop_last()), cs.last())
    }
}

/// A name already selected covers `source` when `source` occurs in it
/// (ignoring ASCII case for English).
pub open spec fn covers(selected: Seq<char>, source: Seq<char>, direction: GlossaryDirection) -> bool {
    match direction {
        GlossaryDirection::EnglishToChinese => seq_contains(ascii_lowercase(selected), ascii_lowercase(source)),
        GlossaryDirection::ChineseToEnglish => seq_contains(selected, source),
    }
}

pub open spec fn covered_by_any(selected: Seq<(int, Seq<char>)>, source: Seq<char>, direction: GlossaryDirection) -> bool {
    exists|j: int| 0 <= j < selected.len() && covers(#[trigger] selected[j].1, source, direction)
}

/// The candidates kept from `sorted[..k]`: each one that no kept name
/// covers, until `MAX_MATCHED_TERMS` are kept.
pub open spec fn select_terms(sorted: Seq<(int, Seq<char>)>, direction: GlossaryDirection, k: int) -> Seq<(int, Seq<char>)>
    decreases k,
{
    if k <= 0 || k > sorted.len() {
        Seq::empty()
    } else {
        let kept = select_terms(sorted, direction, k - 1);
        if kept.len() >= MAX_MATCHED_TERMS || covered_by_any(kept, sorted[k - 1].1, direction) {
            kept
        } else {
            kept.push(sorted[k - 1])
        }
    }
}

/// Indices of the terms a message mentions: longest names first, a name
/// inside an already chosen one skipped, at most `MAX_MATCHED_TERMS`.
pub open spec fn spec_matched_terms(terms: Seq<TermView>, direction: GlossaryDirection, text: Seq<char>) -> Seq<int> {
    let sorted = sort_by_length(candidates(terms, direction, text, terms.len() as int));
    let kept = select_terms(sorted, direction, sorted.len() as int);
    Seq::new(kept.len(), |i: int| kept[i].0)
}

fn find_source(term: &OfficialTerm, direction: GlossaryDirection, text: &[char], lowered: &[char]) -> (r: Option<Vec<char>>)
    requires
        lowered@ == ascii_lowercase(text@),
    ensures
        match match_source(term@, direction, text@) {
            None => r is None,
            Some(s) => r is Some && r->0@ == s,
        },
{
    match direction {
        GlossaryDirection::EnglishToChinese => {
            let ghost sources = seq![term@.1] + term@.3;
            let english = chars_of(term.english.as_str());
            let english_lower = to_ascii_lowercase(english.as_slice());
            assert(sources[0] == english@);
            if english.len() > 0 && contains_chars(lowered, english_lower.as_slice()) {
                return Some(english);
            }
            let mut i: usize = 0;
            while i < term.aliases.len()
                invariant
                    direction == GlossaryDirection::EnglishToChinese,
                    sources == seq![term@.1] + term@.3,
                    lowered@ == ascii_lowercase(text@),
                    i <= term.aliases@.len(),
                    first_source_in(sources, lowered@, 0) == first_source_in(sources, lowered@, i + 1),
                decreases term.aliases.len() - i,
            {
                let alias = chars_of(term.aliases[i].as_str());
                assert(sources[i + 1] == alias@);
                let alias_lower = to_ascii_lowercase(alias.as_slice());
                if alias.len() > 0 && contains_chars(lowered, alias_lower.as_slice()) {
                    return Some(alias);
                }
                i = i + 1;
            }
            None
        },
        GlossaryDirection::ChineseToEnglish => {
            let chinese = chars_of(term.chinese.as_str());
            if contains_chars(text, chinese.as_slice()) {
                Some(chinese)
            } else {
                None
            }
        },
    }
}

pub open spec fn cands_view(v: Seq<(usize, Vec<char>)>) -> Seq<(int, Seq<char>)> {
    Seq::new(v.len(), |i: int| (v[i].0 as int, v[i].1@))
}

proof fn lemma_insert_by_length(sorted: Seq<(int, Seq<char>)>, c: (int, Seq<char>), j: int)
    requires
        0 <= j <= sorted.len(),
        forall|k: int| j <= k < sorted.len() ==> #[trigger] sorted[k].1.len() < c.1.len(),
        j > 0 ==> sorted[j - 1].1.len() >= c.1.len(),
    ensures
        insert_by_length(sorted, c) == sorted.insert(j, c),
    decreases sorted.len(),
{
    if sorted.len() == j {
        assert(sorted.insert(j, c) =~= sorted.push(c));
    } else {
        let d = sorted.drop_last();
        assert forall|k: int| j <= k < d.len() implies #[trigger] d[k].1.len() < c.1.len() by {
            assert(d[k] == sorted[k]);
        }
        lemma_insert_by_length(d, c, j);
        assert(d.insert(j, c).push(sorted.last()) =~= sorted.insert(j, c));
    }
}

fn matched_terms(text: &str, direction: GlossaryDirection, terms: &[OfficialTerm]) -> (r: Vec<usize>)
    ensures
        r@.len() == spec_matched_terms(terms_view(terms@), direction, text@).len(),
        forall|i: int| 0 <= i < r@.len() ==> r@[i] as int == #[trigger] spec_matched_terms(terms_view(terms@), direction, text@)[i],
        forall|i: int| 0 <= i < r@.len() ==> #[trigger] r@[i] < terms@.len(),
{
    let ghost tv = terms_view(terms@);
    let cs = chars_of(text);
    let lowered = to_ascii_lowercase(cs.as_slice());
    // Candidates in term order, each inserted into place by name length.
    let mut sorted: Vec<(usize, Vec<char>)> = Vec::new();
    let mut k: usize = 0;
    while k < terms.len()
        invariant
            tv == terms_view(terms@),
            cs@ == text@,
            lowered@ == ascii_lowercase(text@),
            k <= terms@.len(),
            cands_view(sorted@) == sort_by_length(candidates(tv, direction, text@, k as int)),
            forall|i: int| 0 <= i < sorted@.len() ==> #[trigger] sorted@[i].0 < k,
        decreases terms.len() - k,
    {
        assert(tv[k as int] == terms@[k as int]@);
        match find_source(&terms[k], direction, cs.as_slice(), lowered.as_slice()) {
            Some(source) => {
                let n = source.len();
                let mut j = sorted.len();
                while j > 0 && sorted[j - 1].1.len() < n
                    invariant
                        j <= sorted@.len(),
                        n == source@.len(),
                        forall|i: int| j <= i < sorted@.len() ==> #[trigger] sorted@[i].1@.len() < n,
                    decreases j,
                {
                    j = j - 1;
                }
                let ghost c = (k as int, source@);
                proof {
                    let sv = cands_view(sorted@);
                    assert forall|i: int| j <= i < sv.len() implies #[trigger] sv[i].1.len() < c.1.len() by {
                        assert(sv[i].1 == sorted@[i].1@);
                    }
                    lemma_insert_by_length(sv, c, j as int);
                    let prev = candidates(tv, direction, text@, k as int);
                    assert(candidates(tv, direction, text@, k + 1) == prev.push(c));
                    assert(prev.push(c).drop_last() =~= prev);
                }
                let ghost before = sorted@;
                sorted.insert(j, (k, source));
                assert(cands_view(sorted@) =~= cands_view(before).insert(j as int, c));
            },
            None => {},
        }
        k = k + 1;
    }
    // Keep the candidates that no kept name covers.
    let ghost sv = cands_view(sorted@);
    let mut kept: Vec<(usize, Vec<char>)> = Vec::new();
    let mut i: usize = 0;
    while i < sorted.len()
        invariant
            sv == cands_view(sorted@),
            i <= sorted@.len(),
            cands_view(kept@) == select_terms(sv, direction, i as int),
            forall|p: int| 0 <= p < sorted@.len() ==> #[trigger] sorted@[p].0 < terms@.len(),
            forall|p: int| 0 <= p < kept@.len() ==> #[trigger] kept@[p].0 < terms@.len(),
        decreases sorted.len() - i,
    {
        let ghost prev = select_terms(sv, direction, i as int);
        if kept.len() < MAX_MATCHED_TERMS {
            let source = &sorted[i].1;
            let mut covered = false;
            let mut j: usize = 0;
            while j < kept.len()
                invariant
                    j <= kept@.len(),
                    cands_view(kept@) == prev,
                    sv == cands_view(sorted@),
                    i < sorted@.len(),
                    source@ == sv[i as int].1,
                    covered == exists|m: int| 0 <= m < j && covers(#[trigger] prev[m].1, sv[i as int].1, direction),
                decreases kept.len() - j,
            {
                let hit = match direction {
                    GlossaryDirection::EnglishToChinese => {
                        let a = to_ascii_lowercase(kept[j].1.as_slice());
                        let b = to_ascii_lowercase(source.as_slice());
                        contains_chars(a.as_slice(), b.as_slice())
                    },
                    GlossaryDirection::ChineseToEnglish => contains_chars(kept[j].1.as_slice(), source.as_slice()),
                };
                assert(prev[j as int].1 == kept@[j as int].1@);
                if hit {
                    covered = true;
                }
                j = j + 1;
            }
            if !covered {
                let ghost before = kept@;
                let entry = (sorted[i].0, sorted[i].1.clone());
                kept.push(entry);
                assert(cands_view(kept@) =~= cands_view(before).push(sv[i as int]));
            }
        }
        i = i + 1;
    }
    let mut r: Vec<usize> = Vec::new();
    let mut m: usize = 0;
    while m < kept.len()
        invariant
            m <= kept@.len(),
            r@.len() == m,
            forall|p: int| 0 <= p < m ==> r@[p] as int == #[trigger] cands_view(kept@)[p].0,
            forall|p: int| 0 <= p < kept@.len() ==> #[trigger] kept@[p].0 < terms@.len(),
            forall|p: int| 0 <= p < m ==> #[trigger] r@[p] < terms@.len(),
        decreases kept.len() - m,
    {
        r.push(kept[m].0);
        m = m + 1;
    }
    r
}

// ---------------------------------------------------------------------------
// The prompt

pub open spec fn heading(direction: GlossaryDirection) -> Seq<char> {
    match direction {
        GlossaryDirection::EnglishToChinese => "本条消息命中的官方术语候选（英文/别名 -> 官方简体中文）："@,
        GlossaryDirection::ChineseToEnglish => "本条消息命中的官方术语候选（官方简体中文 -> 英文原名）："@,
    }
}

pub open spec fn usage_rule(direction: GlossaryDirection) -> Seq<char> {
    match direction {
        GlossaryDirection::EnglishToChinese => "使用规则：确认指向《绝地潜兵2》的敌人、战备、武器、分区、星球或其他专有名词时，必须使用官方简体中文译名；不是游戏术语时不要强行替换。"@,
        GlossaryDirection::ChineseToEnglish => "使用规则：确认指向《绝地潜兵2》的官方中文术语时，必须使用对应英文原名；不是游戏术语时不要强行替换。"@,
    }
}

/// One prompt line for a term: `[category] source=target`.
pub open spec fn entry(t: TermView, direction: GlossaryDirection) -> Seq<char> {
    let pair = match direction {
        GlossaryDirection::EnglishToChinese => t.1 + "="@ + t.2,
        GlossaryDirection::ChineseToEnglish => t.2 + "="@ + t.1,
    };
    "["@ + t.0 + "] "@ + pair
}

/// The entries joined by full-width semicolons.
pub open spec fn join_entries(es: Seq<Seq<char>>) -> Seq<char>
    decreases es.len(),
{
    if es.len() == 0 {
        Seq::empty()
    } else if es.len() == 1 {
        es[0]
    } else {
        join_entries(es.drop_last()) + "；"@ + es.last()
    }
}

/// The base prompt, followed, when the message mentions glossary terms, by
/// a heading, the matched terms and the rule for using them.
pub open spec fn spec_prompt_with_official_terms(
    base: Seq<char>,
    text: Seq<char>,
    direction: GlossaryDirection,
    terms: Seq<TermView>,
) -> Seq<char> {
    let matched = spec_matched_terms(terms, direction, text);
    if matched.len() == 0 {
        base
    } else {
        let es = Seq::new(matched.len(), |i: int| entry(terms[matched[i]], direction));
        base + "\n\n"@ + heading(direction) + "\n"@ + join_entries(es) + "\n"@ + usage_rule(direction)
    }
}

fn append(out: &mut Vec<char>, s: &[char])
    ensures
        final(out)@ == old(out)@ + s@,
{
    let mut i: usize = 0;
    while i < s.len()
        invariant
            i <= s@.len(),
            out@ == old(out)@ + s@.take(i as int),
        decreases s.len() - i,
    {
        out.push(s[i]);
        assert(old(out)@ + s@.take(i + 1) =~= (old(out)@ + s@.take(i as int)).push(s@[i as int]));
        i = i + 1;
    }
    assert(s@.take(s@.len() as int) =~= s@);
}

fn append_str(out: &mut Vec<char>, s: &str)
    ensures
        final(out)@ == old(out)@ + s@,
{
    let cs = chars_of(s);
    append(out, cs.as_slice());
}

fn append_entry(out: &mut Vec<char>, term: &OfficialTerm, direction: GlossaryDirection)
    ensures
        final(out)@ == old(out)@ + entry(term@, direction),
{
    append_str(out, "[");
    append_str(out, term.category.as_str());
    append_str(out, "] ");
    match direction {
        GlossaryDirection::EnglishToChinese => {
            append_str(out, term.english.as_str());
            append_str(out, "=");
            append_str(out, term.chinese.as_str());
        },
        GlossaryDirection::ChineseToEnglish => {
            append_str(out, term.chinese.as_str());
            append_str(out, "=");
            append_str(out, term.english.as_str());
        },
    }
    assert(out@ =~= old(out)@ + entry(term@, direction));
}

/// The prompt for translating `text`, extended with the glossary terms it
/// mentions.
pub fn prompt_with_official_terms(base_prompt: &str, text: &str, direction: GlossaryDirection, terms: &[OfficialTerm]) -> (r: String)
    ensures
        r@ == spec_prompt_with_official_terms(base_prompt@, text@, direction, terms_view(terms@)),
{
    let ghost tv = terms_view(terms@);
    let matched = matched_terms(text, direction, terms);
    let ghost mv = spec_matched_terms(tv, direction, text@);
    let mut out: Vec<char> = Vec::new();
    append_str(&mut out, base_prompt);
    if matched.len() == 0 {
        assert(out@ =~= base_prompt@);
        return string_of(out.as_slice());
    }
    let ghost es = Seq::new(mv.len(), |i: int| entry(tv[mv[i]], direction));
    append_str(&mut out, "\n\n");
    match direction {
        GlossaryDirection::EnglishToChinese => append_str(&mut out, "本条消息命中的官方术语候选（英文/别名 -> 官方简体中文）："),
        GlossaryDirection::ChineseToEnglish => append_str(&mut out, "本条消息命中的官方术语候选（官方简体中文 -> 英文原名）："),
    }
    append_str(&mut out, "\n");
    let ghost head = out@;
    let mut k: usize = 0;
    while k < matched.len()
        invariant
            tv == terms_view(terms@),
            matched@.len() == mv.len(),
            forall|i: int| 0 <= i < matched@.len() ==> matched@[i] as int == #[trigger] mv[i],
            forall|i: int| 0 <= i < matched@.len() ==> #[trigger] matched@[i] < terms@.len(),
            es == Seq::new(mv.len(), |i: int| entry(tv[mv[i]], direction)),
            k <= matched@.len(),
            out@ == head + join_entries(es.take(k as int)),
        decreases matched.len() - k,
    {
        let ghost before = out@;
        if k > 0 {
            append_str(&mut out, "；");
        }
        let term = &terms[matched[k]];
        assert(tv[mv[k as int]] == term@);
        append_entry(&mut out, term, direction);
        proof {
            assert(es.take(k + 1).drop_last() =~= es.take(k as int));
            assert(es.take(k + 1).last() == entry(term@, direction));
            if k == 0 {
                assert(es.take(1) =~= seq![es[0]]);
            }
            assert(out@ =~= head + join_entries(es.take(k + 1)));
        }
        k = k + 1;
    }
    assert(es.take(matched@.len() as int) =~= es);
    append_str(&mut out, "\n");
    match direction {
        GlossaryDirection::EnglishToChinese => append_str(
            &mut out,
            "使用规则：确认指向《绝地潜兵2》的敌人、战备、武器、分区、星球或其他专有名词时，必须使用官方简体中文译名；不是游戏术语时不要强行替换。",
        ),
        GlossaryDirection::ChineseToEnglish => append_str(
            &mut out,
            "使用规则：确认指向《绝地潜兵2》的官方中文术语时，必须使用对应英文原名；不是游戏术语时不要强行替换。",
        ),
    }
    string_of(out.as_slice())
}

// ---------------------------------------------------------------------------
// Laws

/// `c` names a term of `terms` that occurs in `text` by that name.
pub open spec fn genuine(terms: Seq<TermView>, direction: GlossaryDirection, text: Seq<char>, c: (int, Seq<char>)) -> bool {
    0 <= c.0 < terms.len() && match_source(terms[c.0], direction, text) == Some(c.1)
}

pub open spec fn all_genuine(terms: Seq<TermView>, direction: GlossaryDirection, text: Seq<char>, cs: Seq<(int, Seq<char>)>) -> bool {
    forall|i: int| 0 <= i < cs.len() ==> genuine(terms, direction, text, #[trigger] cs[i])
}

proof fn lemma_candidates_genuine(terms: Seq<TermView>, direction: GlossaryDirection, text: Seq<char>, k: int)
    ensures
        all_genuine(terms, direction, text, candidates(terms, direction, text, k)),
    decreases k,
{
    if k > 0 && k <= terms.len() {
        lemma_candidates_genuine(terms, direction, text, k - 1);
    }
}

proof fn lemma_insert_genuine(
    terms: Seq<TermView>,
    direction: GlossaryDirection,
    text: Seq<char>,
    sorted: Seq<(int, Seq<char>)>,
    c: (int, Seq<char>),
)
    requires
        all_genuine(terms, direction, text, sorted),
        genuine(terms, direction, text, c),
    ensures
        all_genuine(terms, direction, text, insert_by_length(sorted, c)),
    decreases sorted.len(),
{
    if sorted.len() > 0 && sorted.last().1.len() < c.1.len() {
        let d = sorted.drop_last();
        assert forall|i: int| 0 <= i < d.len() implies genuine(terms, direction, text, #[trigger] d[i]) by {
            assert(d[i] == sorted[i]);
        }
        lemma_insert_genuine(terms, direction, text, d, c);
    }
}

proof fn lemma_sort_genuine(terms: Seq<TermView>, direction: GlossaryDirection, text: Seq<char>, cs: Seq<(int, Seq<char>)>)
    requires
        all_genuine(terms, direction, text, cs),
    ensures
        all_genuine(terms, direction, text, sort_by_length(cs)),
    decreases cs.len(),
{
    if cs.len() > 0 {
        let d = cs.drop_last();
        assert forall|i: int| 0 <= i < d.len() implies genuine(terms, direction, text, #[trigger] d[i]) by {
            assert(d[i] == cs[i]);
        }
        lemma_sort_genuine(terms, direction, text, d);
        lemma_insert_genuine(terms, direction, text, sort_by_length(d), cs.last());
    }
}

proof fn lemma_select_genuine(
    terms: Seq<TermView>,
    direction: GlossaryDirection,
    text: Seq<char>,
    sorted: Seq<(int, Seq<char>)>,
    k: int,
)
    requires
        all_genuine(terms, direction, text, sorted),
    ensures
        all_genuine(terms, direction, text, select_terms(sorted, direction, k)),
        select_terms(sorted, direction, k).len() <= MAX_MATCHED_TERMS,
    decreases k,
{
    if k > 0 && k <= sorted.len() {
        lemma_select_genuine(terms, direction, text, sorted, k - 1);
    }
}

/// Every term added to a prompt occurs in the message: by its English name
/// or an alias (ignoring ASCII case) for English text, by its official
/// Chinese name for Chinese text; and no more than `MAX_MATCHED_TERMS` are
/// added.
pub proof fn lemma_matched_terms_occur(terms: Seq<TermView>, direction: GlossaryDirection, text: Seq<char>)
    ensures
        spec_matched_terms(terms, direction, text).len() <= MAX_MATCHED_TERMS,
        forall|i: int| 0 <= i < spec_matched_terms(terms, direction, text).len() ==> {
            let t = #[trigger] spec_matched_terms(terms, direction, text)[i];
            &&& 0 <= t < terms.len()
            &&& match_source(terms[t], direction, text) is Some
        },
        direction == GlossaryDirection::ChineseToEnglish ==> forall|i: int|
            0 <= i < spec_matched_terms(terms, direction, text).len() ==> seq_contains(
                text,
                terms[#[trigger] spec_matched_terms(terms, direction, text)[i]].2,
            ),
{
    let cs = candidates(terms, direction, text, terms.len() as int);
    lemma_candidates_genuine(terms, direction, text, terms.len() as int);
    lemma_sort_genuine(terms, direction, text, cs);
    let sorted = sort_by_length(cs);
    lemma_select_genuine(terms, direction, text, sorted, sorted.len() as int);
    let kept = select_terms(sorted, direction, sorted.len() as int);
    assert forall|i: int| 0 <= i < spec_matched_terms(terms, direction, text).len() implies {
        let t = #[trigger] spec_matched_terms(terms, direction, text)[i];
        &&& 0 <= t < terms.len()
        &&& match_source(terms[t], direction, text) is Some
    } by {
        assert(genuine(terms, direction, text, kept[i]));
    }
    if direction == GlossaryDirection::ChineseToEnglish {
        assert forall|i: int| 0 <= i < spec_matched_terms(terms, direction, text).len() implies seq_contains(
            text,
            terms[#[trigger] spec_matched_terms(terms, direction, text)[i]].2,
        ) by {
            assert(genuine(terms, direction, text, kept[i]));
        }
    }
}

/// A message that mentions no term leaves the prompt as it is.
pub proof fn lemma_no_match_keeps_prompt(base: Seq<char>, text: Seq<char>, direction: GlossaryDirection, terms: Seq<TermView>)
    requires
        forall|i: int| 0 <= i < terms.len() ==> match_source(#[trigger] terms[i], direction, text) is None,
    ensures
        spec_prompt_with_official_terms(base, text, direction, terms) == base,
{
    lemma_no_candidates(terms, direction, text, terms.len() as int);
}

proof fn lemma_no_candidates(terms: Seq<TermView>, direction: GlossaryDirection, text: Seq<char>, k: int)
    requires
        forall|i: int| 0 <= i < terms.len() ==> match_source(#[trigger] terms[i], direction, text) is None,
    ensures
        candidates(terms, direction, text, k).len() == 0,
    decreases k,
{
    if k > 0 && k <= terms.len() {
        lemma_no_candidates(terms, direction, text, k - 1);
        assert(match_source(terms[k - 1], direction, text) is None);
    }
}


/// Every candidate's name is at least `m` long.
pub open spec fn all_at_least(cs: Seq<(int, Seq<char>)>, m: int) -> bool {
    forall|i: int| 0 <= i < cs.len() ==> (#[trigger] cs[i]).1.len() >= m
}

/// Names never get longer along the sequence.
pub open spec fn longest_first(cs: Seq<(int, Seq<char>)>) -> bool {
    forall|i: int, j: int| 0 <= i < j < cs.len() ==> (#[trigger] cs[i]).1.len() >= (#[trigger] cs[j]).1.len()
}

proof fn lemma_insert_at_least(sorted: Seq<(int, Seq<char>)>, c: (int, Seq<char>), m: int)
    requires
        all_at_least(sorted, m),
        c.1.len() >= m,
    ensures
        all_at_least(insert_by_length(sorted, c), m),
        insert_by_length(sorted, c).len() == sorted.len() + 1,
    decreases sorted.len(),
{
    if sorted.len() > 0 && sorted.last().1.len() < c.1.len() {
        let d = sorted.drop_last();
        assert forall|i: int| 0 <= i < d.len() implies (#[trigger] d[i]).1.len() >= m by {
            assert(d[i] == sorted[i]);
        }
        lemma_insert_at_least(d, c, m);
    }
}

proof fn lemma_insert_longest_first(sorted: Seq<(int, Seq<char>)>, c: (int, Seq<char>))
    requires
        longest_first(sorted),
    ensures
        longest_first(insert_by_length(sorted, c)),
    decreases sorted.len(),
{
    if sorted.len() > 0 {
        let last = sorted.last();
        if last.1.len() >= c.1.len() {
            let r = sorted.push(c);
            assert forall|i: int, j: int| 0 <= i < j < r.len() implies (#[trigger] r[i]).1.len() >= (#[trigger] r[j]).1.len() by {
                if j == sorted.len() {
                    if i < sorted.len() - 1 {
                        assert(sorted[i].1.len() >= sorted[sorted.len() - 1].1.len());
                    }
                } else {
                    assert(r[i] == sorted[i] && r[j] == sorted[j]);
                }
            }
        } else {
            let d = sorted.drop_last();
            assert forall|i: int, j: int| 0 <= i < j < d.len() implies (#[trigger] d[i]).1.len() >= (#[trigger] d[j]).1.len() by {
                assert(d[i] == sorted[i] && d[j] == sorted[j]);
            }
            assert forall|i: int| 0 <= i < d.len() implies (#[trigger] d[i]).1.len() >= last.1.len() by {
                assert(d[i] == sorted[i]);
                assert(sorted[i].1.len() >= sorted[sorted.len() - 1].1.len());
            }
            lemma_insert_longest_first(d, c);
            lemma_insert_at_least(d, c, last.1.len() as int);
            let m = insert_by_length(d, c);
            let r = m.push(last);
            assert forall|i: int, j: int| 0 <= i < j < r.len() implies (#[trigger] r[i]).1.len() >= (#[trigger] r[j]).1.len() by {
                if j == m.len() {
                    assert(r[i] == m[i]);
                } else {
                    assert(r[i] == m[i] && r[j] == m[j]);
                }
            }
        }
    }
}

proof fn lemma_sort_longest_first(cs: Seq<(int, Seq<char>)>)
    ensures
        longest_first(sort_by_length(cs)),
    decreases cs.len(),
{
    if cs.len() > 0 {
        lemma_sort_longest_first(cs.drop_last());
        lemma_insert_longest_first(sort_by_length(cs.drop_last()), cs.last());
    }
}

/// The kept candidates come longest first, none covers a later one, and
/// every kept name is at least as long as any candidate not yet looked at.
proof fn lemma_select_shape(sorted: Seq<(int, Seq<char>)>, direction: GlossaryDirection, k: int)
    requires
        longest_first(sorted),
        k <= sorted.len(),
    ensures
        ({
            let kept = select_terms(sorted, direction, k);
            &&& longest_first(kept)
            &&& forall|i: int, j: int| 0 <= i < j < kept.len() ==> !covers(#[trigger] kept[i].1, #[trigger] kept[j].1, direction)
            &&& forall|i: int, j: int| 0 <= i < kept.len() && k <= j < sorted.len()
                ==> (#[trigger] kept[i]).1.len() >= (#[trigger] sorted[j]).1.len()
        }),
    decreases k,
{
    if k > 0 {
        lemma_select_shape(sorted, direction, k - 1);
        let prev = select_terms(sorted, direction, k - 1);
        let kept = select_terms(sorted, direction, k);
        if !(prev.len() >= MAX_MATCHED_TERMS || covered_by_any(prev, sorted[k - 1].1, direction)) {
            let c = sorted[k - 1];
            assert(kept == prev.push(c));
            assert forall|i: int, j: int| 0 <= i < j < kept.len() implies (#[trigger] kept[i]).1.len() >= (#[trigger] kept[j]).1.len() by {
                if j == prev.len() {
                    assert(kept[i] == prev[i]);
                    assert(prev[i].1.len() >= sorted[k - 1].1.len());
                } else {
                    assert(kept[i] == prev[i] && kept[j] == prev[j]);
                }
            }
            assert forall|i: int, j: int| 0 <= i < j < kept.len() implies !covers(#[trigger] kept[i].1, #[trigger] kept[j].1, direction) by {
                if j == prev.len() {
                    assert(kept[i] == prev[i]);
                    if covers(prev[i].1, c.1, direction) {
                        assert(covered_by_any(prev, c.1, direction));
                    }
                } else {
                    assert(kept[i] == prev[i] && kept[j] == prev[j]);
                }
            }
            assert forall|i: int, j: int| 0 <= i < kept.len() && k <= j < sorted.len()
                implies (#[trigger] kept[i]).1.len() >= (#[trigger] sorted[j]).1.len() by {
                if i == prev.len() {
                    assert(kept[i] == sorted[k - 1]);
                    assert(sorted[k - 1].1.len() >= sorted[j].1.len());
                } else {
                    assert(kept[i] == prev[i]);
                }
            }
        }
    }
}

/// A text that occurs in one at most as long is that same text.
proof fn lemma_contains_no_longer(hay: Seq<char>, needle: Seq<char>)
    requires
        seq_contains(hay, needle),
        hay.len() <= needle.len(),
    ensures
        hay == needle,
{
    let i = choose|i: int| #[trigger] crate::chars::occurs_at(hay, needle, i);
    assert(i == 0);
    assert(hay.subrange(0, hay.len() as int) =~= hay);
}

/// Longest names first: for Chinese text, no official name added to a prompt
/// occurs inside another one added to it (so a shorter name inside a matched
/// longer one is left out); for English text, no matched name occurs,
/// ignoring ASCII case, inside a matched name that comes before it.
pub proof fn lemma_matched_names_not_nested(terms: Seq<TermView>, direction: GlossaryDirection, text: Seq<char>)
    ensures
        direction == GlossaryDirection::ChineseToEnglish ==> forall|i: int, j: int|
            0 <= i < spec_matched_terms(terms, direction, text).len() && 0 <= j < spec_matched_terms(terms, direction, text).len()
                && i != j ==> !seq_contains(
                terms[#[trigger] spec_matched_terms(terms, direction, text)[i]].2,
                terms[#[trigger] spec_matched_terms(terms, direction, text)[j]].2,
            ),
        forall|i: int, j: int| 0 <= i < j < spec_matched_terms(terms, direction, text).len() ==> {
            let a = terms[#[trigger] spec_matched_terms(terms, direction, text)[i]];
            let b = terms[#[trigger] spec_matched_terms(terms, direction, text)[j]];
            !covers(match_source(a, direction, text)->0, match_source(b, direction, text)->0, direction)
        },
{
    let cs = candidates(terms, direction, text, terms.len() as int);
    lemma_candidates_genuine(terms, direction, text, terms.len() as int);
    lemma_sort_genuine(terms, direction, text, cs);
    let sorted = sort_by_length(cs);
    lemma_sort_longest_first(cs);
    lemma_select_genuine(terms, direction, text, sorted, sorted.len() as int);
    lemma_select_shape(sorted, direction, sorted.len() as int);
    let kept = select_terms(sorted, direction, sorted.len() as int);
    let m = spec_matched_terms(terms, direction, text);
    assert forall|i: int, j: int| 0 <= i < j < m.len() implies {
        let a = terms[#[trigger] m[i]];
        let b = terms[#[trigger] m[j]];
        !covers(match_source(a, direction, text)->0, match_source(b, direction, text)->0, direction)
    } by {
        assert(genuine(terms, direction, text, kept[i]));
        assert(genuine(terms, direction, text, kept[j]));
        assert(!covers(kept[i].1, kept[j].1, direction));
    }
    if direction == GlossaryDirection::ChineseToEnglish {
        assert forall|i: int, j: int| 0 <= i < m.len() && 0 <= j < m.len() && i != j implies !seq_contains(
            terms[#[trigger] m[i]].2,
            terms[#[trigger] m[j]].2,
        ) by {
            assert(genuine(terms, direction, text, kept[i]));
            assert(genuine(terms, direction, text, kept[j]));
            if i < j {
                assert(!covers(kept[i].1, kept[j].1, direction));
            } else {
                assert(!covers(kept[j].1, kept[i].1, direction));
                assert(kept[j].1.len() >= kept[i].1.len());
                if seq_contains(kept[i].1, kept[j].1) {
                    lemma_contains_no_longer(kept[i].1, kept[j].1);
                    assert(crate::chars::occurs_at(kept[j].1, kept[i].1, 0)) by {
                        assert(kept[j].1.subrange(0, kept[i].1.len() as int) =~= kept[i].1);
                    }
                }
            }
        }
    }
}

} // verus!
