//! Grouping the words of one OCR line into the rows they stand on, and
//! joining the words of a row into text. Coordinates are in thousandths of
//! a pixel.
use vstd::prelude::*;
use crate::chars::{chars_of, in_class, is_han, is_in_class, spec_is_han, string_of, trim_whitespace, trim_ws, CharClass};
use crate::capture::{normalize_ocr_text, spec_normalize_ocr_text};
use crate::ocr::{ocr_view, PositionedOcrLine};

verus! {

/// A word the OCR engine found, with its bounding box.
#[derive(Debug, Clone, PartialEq, Eq)]
pub struct PositionedOcrWord {
    pub text: String,
    pub left: i64,
    pub top: i64,
    pub width: i64,
    pub height: i64,
}

/// A word as text, left, top, width and height.
pub type WordBox = (Seq<char>, int, int, int, int);

impl View for PositionedOcrWord {
    type V = WordBox;

    open spec fn view(&self) -> WordBox {
        (self.text@, self.left as int, self.top as int, self.width as int, self.height as int)
    }
}

pub open spec fn words_view(v: Seq<PositionedOcrWord>) -> Seq<WordBox> {
    v.map_values(|w: PositionedOcrWord| w@)
}

pub open spec fn min_int(a: int, b: int) -> int {
    if a <= b { a } else { b }
}

pub open spec fn max_int(a: int, b: int) -> int {
    if a >= b { a } else { b }
}

fn clone_word(w: &PositionedOcrWord) -> (r: PositionedOcrWord)
    ensures
        r@ == w@,
{
    PositionedOcrWord { text: w.text.clone(), left: w.left, top: w.top, width: w.width, height: w.height }
}

// ---------------------------------------------------------------------------
// Joining the words of a row

/// Whether a space goes between the text written so far, which ends with
/// `prev`, and the next word `word` with trimmed text `text`: the gap must
/// exceed 0.15 of the smaller height and 1.5 pixels, no bracket or closing
/// punctuation may stand at the seam, and two Han characters never get one.
pub open spec fn needs_space(prev: WordBox, word: WordBox, out: Seq<char>, text: Seq<char>) -> bool {
    let gap = word.1 - (prev.1 + prev.3);
    let threshold = max_int(15 * min_int(prev.4, word.4), 150000);
    let before = out.last();
    let next = text[0];
    &&& 100 * gap > threshold
    &&& !(in_class(CharClass::ClosingPunctuation, next) || in_class(CharClass::OpeningPunctuation, before))
    &&& !(spec_is_han(before) && spec_is_han(next))
}

/// The text of the first `n` words and the last word that added any.
pub open spec fn join_state(words: Seq<WordBox>, n: int) -> (Seq<char>, Option<WordBox>)
    decreases n,
{
    if n <= 0 {
        (Seq::empty(), None)
    } else {
        let (out, prev) = join_state(words, n - 1);
        let word = words[n - 1];
        let text = trim_ws(word.0);
        if text.len() == 0 {
            (out, prev)
        } else {
            let sep = match prev {
                Some(p) => needs_space(p, word, out, text),
                None => false,
            };
            (if sep { out.push(' ') + text } else { out + text }, Some(word))
        }
    }
}

/// The words of a row joined into its text.
pub open spec fn spec_join_row(words: Seq<WordBox>) -> Seq<char> {
    join_state(words, words.len() as int).0
}

proof fn lemma_join_state_prev(words: Seq<WordBox>, n: int)
    ensures
        join_state(words, n).1 is Some ==> join_state(words, n).0.len() > 0,
    decreases n,
{
    if n > 0 {
        lemma_join_state_prev(words, n - 1);
    }
}

fn space_between(prev: &PositionedOcrWord, word: &PositionedOcrWord, out: &Vec<char>, text: &Vec<char>) -> (r: bool)
    requires
        out@.len() > 0,
        text@.len() > 0,
    ensures
        r == needs_space(prev@, word@, out@, text@),
{
    let gap: i128 = word.left as i128 - (prev.left as i128 + prev.width as i128);
    let smaller: i128 = if prev.height <= word.height { prev.height as i128 } else { word.height as i128 };
    let scaled: i128 = 15 * smaller;
    let threshold: i128 = if scaled >= 150000 { scaled } else { 150000 };
    let before = out[out.len() - 1];
    let next = text[0];
    100 * gap > threshold
        && !(is_in_class(CharClass::ClosingPunctuation, next) || is_in_class(CharClass::OpeningPunctuation, before))
        && !(is_han(before) && is_han(next))
}

/// The words of a row, left to right, joined with a space where the gap
/// between them is wide enough.
pub fn join_ocr_row_words(words: &[PositionedOcrWord]) -> (r: String)
    ensures
        r@ == spec_join_row(words_view(words@)),
{
    let ghost wv = words_view(words@);
    let mut out: Vec<char> = Vec::new();
    let mut previous: Option<usize> = None;
    let mut i: usize = 0;
    while i < words.len()
        invariant
            i <= words@.len(),
            wv == words_view(words@),
            wv.len() == words@.len(),
            out@ == join_state(wv, i as int).0,
            match previous {
                Some(p) => p < i && join_state(wv, i as int).1 == Some(wv[p as int]),
                None => join_state(wv, i as int).1 is None,
            },
        decreases words.len() - i,
    {
        proof {
            lemma_join_state_prev(wv, i as int);
        }
        let text = trim_whitespace(chars_of(words[i].text.as_str()).as_slice());
        assert(wv[i as int] == words@[i as int]@);
        if text.len() > 0 {
            let sep = match previous {
                Some(p) => space_between(&words[p], &words[i], &out, &text),
                None => false,
            };
            if sep {
                out.push(' ');
            }
            let ghost mid = out@;
            let mut k: usize = 0;
            while k < text.len()
                invariant
                    k <= text@.len(),
                    out@ == mid + text@.take(k as int),
                decreases text.len() - k,
            {
                out.push(text[k]);
                assert(mid + text@.take(k + 1) =~= (mid + text@.take(k as int)).push(text@[k as int]));
                k = k + 1;
            }
            assert(text@.take(text@.len() as int) =~= text@);
            previous = Some(i);
        }
        i = i + 1;
    }
    string_of(out.as_slice())
}

// ---------------------------------------------------------------------------
// Stable ordering

/// `sorted` with `x` placed after every element that `after` does not put
/// behind it.
pub open spec fn insert_stable<T>(sorted: Seq<T>, x: T, after: spec_fn(T, T) -> bool) -> Seq<T>
    decreases sorted.len(),
{
    if sorted.len() == 0 {
        seq![x]
    } else if !after(sorted.last(), x) {
        sorted.push(x)
    } else {
        insert_stable(sorted.drop_last(), x, after).push(sorted.last())
    }
}

/// `s` ordered by `after`; elements that neither comes after keep their
/// order, as a stable sort leaves them.
pub open spec fn sort_stable<T>(s: Seq<T>, after: spec_fn(T, T) -> bool) -> Seq<T>
    decreases s.len(),
{
    if s.len() == 0 {
        Seq::empty()
    } else {
        insert_stable(sort_stable(s.drop_last(), after), s.last(), after)
    }
}

proof fn lemma_insert_stable<T>(sorted: Seq<T>, x: T, after: spec_fn(T, T) -> bool, j: int)
    requires
        0 <= j <= sorted.len(),
        forall|k: int| j <= k < sorted.len() ==> after(#[trigger] sorted[k], x),
        j > 0 ==> !after(sorted[j - 1], x),
    ensures
        insert_stable(sorted, x, after) == sorted.insert(j, x),
    decreases sorted.len(),
{
    if sorted.len() == j {
        assert(sorted.insert(j, x) =~= sorted.push(x));
    } else {
        let d = sorted.drop_last();
        assert forall|k: int| j <= k < d.len() implies after(#[trigger] d[k], x) by {
            assert(d[k] == sorted[k]);
        }
        lemma_insert_stable(d, x, after, j);
        assert(d.insert(j, x).push(sorted.last()) =~= sorted.insert(j, x));
    }
}

/// Twice the height of a word's centre.
pub open spec fn center2(w: WordBox) -> int {
    2 * w.2 + w.4
}

/// Reading order: by the centre's height, then from the left.
pub open spec fn reading_order() -> spec_fn(WordBox, WordBox) -> bool {
    |a: WordBox, b: WordBox| center2(a) > center2(b) || (center2(a) == center2(b) && a.1 > b.1)
}

/// Left to right.
pub open spec fn left_order() -> spec_fn(WordBox, WordBox) -> bool {
    |a: WordBox, b: WordBox| a.1 > b.1
}

/// A row of words: its top, its bottom and its words.
pub type WordRow = (int, int, Seq<WordBox>);

/// Top to bottom.
pub open spec fn top_order() -> spec_fn(WordRow, WordRow) -> bool {
    |a: WordRow, b: WordRow| a.0 > b.0
}

fn reading_after(a: &PositionedOcrWord, b: &PositionedOcrWord) -> (r: bool)
    ensures
        r == reading_order()(a@, b@),
{
    let ca: i128 = 2 * (a.top as i128) + a.height as i128;
    let cb: i128 = 2 * (b.top as i128) + b.height as i128;
    ca > cb || (ca == cb && a.left > b.left)
}

/// The words in reading order.
fn sort_reading_order(words: &Vec<PositionedOcrWord>) -> (r: Vec<PositionedOcrWord>)
    ensures
        words_view(r@) == sort_stable(words_view(words@), reading_order()),
{
    let ghost wv = words_view(words@);
    let mut sorted: Vec<PositionedOcrWord> = Vec::new();
    let mut k: usize = 0;
    while k < words.len()
        invariant
            wv == words_view(words@),
            k <= words@.len(),
            words_view(sorted@) == sort_stable(wv.take(k as int), reading_order()),
        decreases words.len() - k,
    {
        assert(wv.take(k + 1).drop_last() =~= wv.take(k as int));
        let x = clone_word(&words[k]);
        assert(wv[k as int] == x@);
        let mut j = sorted.len();
        while j > 0 && reading_after(&sorted[j - 1], &x)
            invariant
                j <= sorted@.len(),
                forall|i: int| j <= i < sorted@.len() ==> #[trigger] reading_order()(sorted@[i]@, x@),
            decreases j,
        {
            j = j - 1;
        }
        proof {
            let sv = words_view(sorted@);
            assert forall|i: int| j <= i < sv.len() implies reading_order()(#[trigger] sv[i], x@) by {
                assert(sv[i] == sorted@[i]@);
            }
            if j > 0 {
                assert(sv[j - 1] == sorted@[j - 1]@);
            }
            lemma_insert_stable(sv, x@, reading_order(), j as int);
        }
        let ghost before = sorted@;
        sorted.insert(j, x);
        assert(words_view(sorted@) =~= words_view(before).insert(j as int, wv[k as int]));
        k = k + 1;
    }
    assert(wv.take(words@.len() as int) =~= wv);
    sorted
}

/// The words from left to right.
fn sort_left_to_right(words: &Vec<PositionedOcrWord>) -> (r: Vec<PositionedOcrWord>)
    ensures
        words_view(r@) == sort_stable(words_view(words@), left_order()),
{
    let ghost wv = words_view(words@);
    let mut sorted: Vec<PositionedOcrWord> = Vec::new();
    let mut k: usize = 0;
    while k < words.len()
        invariant
            wv == words_view(words@),
            k <= words@.len(),
            words_view(sorted@) == sort_stable(wv.take(k as int), left_order()),
        decreases words.len() - k,
    {
        assert(wv.take(k + 1).drop_last() =~= wv.take(k as int));
        let x = clone_word(&words[k]);
        assert(wv[k as int] == x@);
        let mut j = sorted.len();
        while j > 0 && sorted[j - 1].left > x.left
            invariant
                j <= sorted@.len(),
                forall|i: int| j <= i < sorted@.len() ==> #[trigger] left_order()(sorted@[i]@, x@),
            decreases j,
        {
            j = j - 1;
        }
        proof {
            let sv = words_view(sorted@);
            assert forall|i: int| j <= i < sv.len() implies left_order()(#[trigger] sv[i], x@) by {
                assert(sv[i] == sorted@[i]@);
            }
            if j > 0 {
                assert(sv[j - 1] == sorted@[j - 1]@);
            }
            lemma_insert_stable(sv, x@, left_order(), j as int);
        }
        let ghost before = sorted@;
        sorted.insert(j, x);
        assert(words_view(sorted@) =~= words_view(before).insert(j as int, wv[k as int]));
        k = k + 1;
    }
    assert(wv.take(words@.len() as int) =~= wv);
    sorted
}

// ---------------------------------------------------------------------------
// Grouping words into rows

/// A word the grouping keeps: a box of positive size around some text.
pub open spec fn word_kept(w: WordBox) -> bool {
    w.3 > 0 && w.4 > 0 && trim_ws(w.0).len() > 0
}

pub open spec fn kept_words(words: Seq<WordBox>) -> Seq<WordBox>
    decreases words.len(),
{
    if words.len() == 0 {
        Seq::empty()
    } else if word_kept(words.last()) {
        kept_words(words.drop_last()).push(words.last())
    } else {
        kept_words(words.drop_last())
    }
}

pub open spec fn abs_int(x: int) -> int {
    if x < 0 { -x } else { x }
}

/// Twice the distance between the centre of a word and that of a row.
pub open spec fn row_distance(top: int, bottom: int, w: WordBox) -> int {
    abs_int(center2(w) - (top + bottom))
}

/// A word belongs to a row when they overlap by more than 0.35 of the
/// smaller height, or their centres are within 0.45 of the larger height.
pub open spec fn row_candidate(top: int, bottom: int, w: WordBox) -> bool {
    let row_height = bottom - top;
    let overlap = min_int(w.2 + w.4, bottom) - max_int(w.2, top);
    ||| 100 * overlap > 35 * min_int(w.4, row_height)
    ||| 10 * row_distance(top, bottom, w) <= 9 * max_int(w.4, row_height)
}

/// Among the first `n` rows, the one the word belongs to whose centre is
/// nearest; the first on a tie.
pub open spec fn best_row(rows: Seq<WordRow>, w: WordBox, n: int) -> Option<int>
    decreases n,
{
    if n <= 0 {
        None
    } else {
        let b = best_row(rows, w, n - 1);
        let row = rows[n - 1];
        if row_candidate(row.0, row.1, w) {
            match b {
                Some(j) => if row_distance(rows[j].0, rows[j].1, w) <= row_distance(row.0, row.1, w) {
                    Some(j)
                } else {
                    Some(n - 1)
                },
                None => Some(n - 1),
            }
        } else {
            b
        }
    }
}

/// The rows after the word joined its best row, or opened a new one.
pub open spec fn add_word(rows: Seq<WordRow>, w: WordBox) -> Seq<WordRow> {
    match best_row(rows, w, rows.len() as int) {
        Some(j) => rows.update(j, (min_int(rows[j].0, w.2), max_int(rows[j].1, w.2 + w.4), rows[j].2.push(w))),
        None => rows.push((w.2, w.2 + w.4, seq![w])),
    }
}

pub open spec fn cluster_rows(words: Seq<WordBox>) -> Seq<WordRow>
    decreases words.len(),
{
    if words.len() == 0 {
        Seq::empty()
    } else {
        add_word(cluster_rows(words.drop_last()), words.last())
    }
}

/// The line a row gives: its words left to right, its top and its height.
pub open spec fn row_line(row: WordRow) -> (Seq<char>, int, int) {
    (spec_join_row(sort_stable(row.2, left_order())), row.0, row.1 - row.0)
}

pub open spec fn row_lines(rows: Seq<WordRow>) -> Seq<(Seq<char>, int, int)>
    decreases rows.len(),
{
    if rows.len() == 0 {
        Seq::empty()
    } else if row_line(rows.last()).0.len() > 0 {
        row_lines(rows.drop_last()).push(row_line(rows.last()))
    } else {
        row_lines(rows.drop_last())
    }
}

/// The visual rows of an OCR line: kept words in reading order each join
/// the row they belong to, and the rows come out from top to bottom.
pub open spec fn spec_cluster_words(words: Seq<WordBox>) -> Seq<(Seq<char>, int, int)> {
    row_lines(sort_stable(cluster_rows(sort_stable(kept_words(words), reading_order())), top_order()))
}

/// The bound on a coordinate, far beyond any screen.
pub open spec fn coordinate_limit() -> int {
    0x1000_0000_0000_0000
}

/// A word whose top and height stay within the bound.
pub open spec fn word_in_range(w: WordBox) -> bool {
    -coordinate_limit() <= w.2 <= coordinate_limit() && -coordinate_limit() <= w.4 <= coordinate_limit()
}

pub open spec fn rows_view(v: Seq<(i64, i64, Vec<PositionedOcrWord>)>) -> Seq<WordRow> {
    v.map_values(|r: (i64, i64, Vec<PositionedOcrWord>)| (r.0 as int, r.1 as int, words_view(r.2@)))
}

fn word_is_kept(w: &PositionedOcrWord) -> (r: bool)
    ensures
        r == word_kept(w@),
{
    w.width > 0 && w.height > 0 && trim_whitespace(chars_of(w.text.as_str()).as_slice()).len() > 0
}

fn clone_words(v: &Vec<PositionedOcrWord>) -> (r: Vec<PositionedOcrWord>)
    ensures
        words_view(r@) == words_view(v@),
{
    let mut out: Vec<PositionedOcrWord> = Vec::new();
    let mut i: usize = 0;
    while i < v.len()
        invariant
            i <= v@.len(),
            words_view(out@) == words_view(v@).take(i as int),
        decreases v.len() - i,
    {
        let w = clone_word(&v[i]);
        let ghost before = out@;
        out.push(w);
        assert(words_view(out@) =~= words_view(before).push(v@[i as int]@));
        assert(words_view(v@).take(i + 1) =~= words_view(v@).take(i as int).push(v@[i as int]@));
        i = i + 1;
    }
    assert(words_view(v@).take(v@.len() as int) =~= words_view(v@));
    out
}

fn row_distance_exec(top: i64, bottom: i64, w: &PositionedOcrWord) -> (r: i128)
    ensures
        r == row_distance(top as int, bottom as int, w@),
{
    let d: i128 = 2 * (w.top as i128) + w.height as i128 - (top as i128 + bottom as i128);
    if d < 0 { -d } else { d }
}

fn is_row_candidate(top: i64, bottom: i64, w: &PositionedOcrWord) -> (r: bool)
    ensures
        r == row_candidate(top as int, bottom as int, w@),
{
    let row_height: i128 = bottom as i128 - top as i128;
    let word_bottom: i128 = w.top as i128 + w.height as i128;
    let low: i128 = if word_bottom <= bottom as i128 { word_bottom } else { bottom as i128 };
    let high: i128 = if w.top >= top { w.top as i128 } else { top as i128 };
    let overlap: i128 = low - high;
    let smaller: i128 = if (w.height as i128) <= row_height { w.height as i128 } else { row_height };
    let larger: i128 = if (w.height as i128) >= row_height { w.height as i128 } else { row_height };
    100 * overlap > 35 * smaller || 10 * row_distance_exec(top, bottom, w) <= 9 * larger
}

proof fn lemma_insert_stable_all<T>(sorted: Seq<T>, x: T, after: spec_fn(T, T) -> bool, p: spec_fn(T) -> bool)
    requires
        forall|i: int| 0 <= i < sorted.len() ==> p(#[trigger] sorted[i]),
        p(x),
    ensures
        insert_stable(sorted, x, after).len() == sorted.len() + 1,
        forall|i: int| 0 <= i < insert_stable(sorted, x, after).len() ==> p(#[trigger] insert_stable(sorted, x, after)[i]),
    decreases sorted.len(),
{
    if sorted.len() > 0 && after(sorted.last(), x) {
        let d = sorted.drop_last();
        assert forall|i: int| 0 <= i < d.len() implies p(#[trigger] d[i]) by {
            assert(d[i] == sorted[i]);
        }
        lemma_insert_stable_all(d, x, after, p);
    }
}

/// Every element of a stably sorted sequence has a property that every
/// element of the sequence has.
proof fn lemma_sort_stable_all<T>(s: Seq<T>, after: spec_fn(T, T) -> bool, p: spec_fn(T) -> bool)
    requires
        forall|i: int| 0 <= i < s.len() ==> p(#[trigger] s[i]),
    ensures
        sort_stable(s, after).len() == s.len(),
        forall|i: int| 0 <= i < sort_stable(s, after).len() ==> p(#[trigger] sort_stable(s, after)[i]),
    decreases s.len(),
{
    if s.len() > 0 {
        let d = s.drop_last();
        assert forall|i: int| 0 <= i < d.len() implies p(#[trigger] d[i]) by {
            assert(d[i] == s[i]);
        }
        lemma_sort_stable_all(d, after, p);
        lemma_insert_stable_all(sort_stable(d, after), s.last(), after, p);
    }
}

/// A kept word within the bound.
pub open spec fn usable_word() -> spec_fn(WordBox) -> bool {
    |w: WordBox| word_kept(w) && word_in_range(w)
}

/// A row within the bound.
pub open spec fn usable_row() -> spec_fn(WordRow) -> bool {
    |r: WordRow| -coordinate_limit() <= r.0 <= coordinate_limit() && r.0 < r.1 <= 2 * coordinate_limit()
}

fn keep_words(words: &Vec<PositionedOcrWord>) -> (r: Vec<PositionedOcrWord>)
    requires
        forall|i: int| 0 <= i < words@.len() ==> word_in_range(#[trigger] words@[i]@),
    ensures
        words_view(r@) == kept_words(words_view(words@)),
        forall|i: int| 0 <= i < r@.len() ==> usable_word()(#[trigger] r@[i]@),
{
    let ghost wv = words_view(words@);
    let mut out: Vec<PositionedOcrWord> = Vec::new();
    let mut i: usize = 0;
    while i < words.len()
        invariant
            wv == words_view(words@),
            i <= words@.len(),
            forall|j: int| 0 <= j < words@.len() ==> word_in_range(#[trigger] words@[j]@),
            words_view(out@) == kept_words(wv.take(i as int)),
            forall|j: int| 0 <= j < out@.len() ==> usable_word()(#[trigger] out@[j]@),
        decreases words.len() - i,
    {
        assert(wv.take(i + 1).drop_last() =~= wv.take(i as int));
        assert(wv[i as int] == words@[i as int]@);
        if word_is_kept(&words[i]) {
            let w = clone_word(&words[i]);
            let ghost before = out@;
            out.push(w);
            assert(words_view(out@) =~= words_view(before).push(wv[i as int]));
            assert(out@[out@.len() - 1]@ == wv[i as int]);
        }
        i = i + 1;
    }
    assert(wv.take(words@.len() as int) =~= wv);
    out
}

/// The row a word joins, as `best_row` picks it.
fn find_best_row(rows: &Vec<(i64, i64, Vec<PositionedOcrWord>)>, w: &PositionedOcrWord) -> (r: Option<usize>)
    ensures
        match r {
            Some(j) => j < rows@.len() && best_row(rows_view(rows@), w@, rows@.len() as int) == Some(j as int),
            None => best_row(rows_view(rows@), w@, rows@.len() as int) is None,
        },
{
    let ghost rv = rows_view(rows@);
    let mut best: Option<usize> = None;
    let mut best_distance: i128 = 0;
    let mut i: usize = 0;
    while i < rows.len()
        invariant
            rv == rows_view(rows@),
            rv.len() == rows@.len(),
            i <= rows@.len(),
            match best {
                Some(b) => b < i && best_row(rv, w@, i as int) == Some(b as int)
                    && best_distance == row_distance(rv[b as int].0, rv[b as int].1, w@),
                None => best_row(rv, w@, i as int) is None,
            },
        decreases rows.len() - i,
    {
        let top = rows[i].0;
        let bottom = rows[i].1;
        assert(rv[i as int].0 == top && rv[i as int].1 == bottom);
        if is_row_candidate(top, bottom, w) {
            let d = row_distance_exec(top, bottom, w);
            match best {
                Some(_) => {
                    if d < best_distance {
                        best = Some(i);
                        best_distance = d;
                    }
                },
                None => {
                    best = Some(i);
                    best_distance = d;
                },
            }
        }
        i = i + 1;
    }
    best
}

/// The kept words, in reading order, grouped into rows.
fn group_rows(words: &Vec<PositionedOcrWord>) -> (r: Vec<(i64, i64, Vec<PositionedOcrWord>)>)
    requires
        forall|i: int| 0 <= i < words@.len() ==> usable_word()(#[trigger] words@[i]@),
    ensures
        rows_view(r@) == cluster_rows(words_view(words@)),
        forall|i: int| 0 <= i < r@.len() ==> usable_row()(#[trigger] rows_view(r@)[i]),
{
    let ghost wv = words_view(words@);
    let mut rows: Vec<(i64, i64, Vec<PositionedOcrWord>)> = Vec::new();
    let mut k: usize = 0;
    while k < words.len()
        invariant
            wv == words_view(words@),
            k <= words@.len(),
            forall|i: int| 0 <= i < words@.len() ==> usable_word()(#[trigger] words@[i]@),
            rows_view(rows@) == cluster_rows(wv.take(k as int)),
            forall|i: int| 0 <= i < rows@.len() ==> usable_row()(#[trigger] rows_view(rows@)[i]),
        decreases words.len() - k,
    {
        assert(wv.take(k + 1).drop_last() =~= wv.take(k as int));
        let w = &words[k];
        assert(wv[k as int] == w@);
        assert(usable_word()(words@[k as int]@));
        let ghost rv = rows_view(rows@);
        let word_bottom: i64 = w.top + w.height;
        match find_best_row(&rows, w) {
            Some(j) => {
                let (top, bottom, mut members) = rows.remove(j);
                assert(rv[j as int] == (top as int, bottom as int, words_view(members@)));
                assert(usable_row()(rv[j as int]));
                let ghost old_members = members@;
                members.push(clone_word(w));
                assert(words_view(members@) =~= words_view(old_members).push(w@));
                let new_top: i64 = if top <= w.top { top } else { w.top };
                let new_bottom: i64 = if bottom >= word_bottom { bottom } else { word_bottom };
                rows.insert(j, (new_top, new_bottom, members));
                assert(rows_view(rows@) =~= rv.update(j as int,
                    (min_int(rv[j as int].0, w@.2), max_int(rv[j as int].1, w@.2 + w@.4), rv[j as int].2.push(w@))));
            },
            None => {
                let members: Vec<PositionedOcrWord> = vec![clone_word(w)];
                assert(words_view(members@) =~= seq![w@]);
                let ghost before = rows@;
                rows.push((w.top, word_bottom, members));
                assert(rows_view(rows@) =~= rv.push((w@.2, w@.2 + w@.4, seq![w@])));
            },
        }
        k = k + 1;
    }
    assert(wv.take(words@.len() as int) =~= wv);
    rows
}

/// The rows from top to bottom.
fn sort_rows_by_top(rows: &Vec<(i64, i64, Vec<PositionedOcrWord>)>) -> (r: Vec<(i64, i64, Vec<PositionedOcrWord>)>)
    ensures
        rows_view(r@) == sort_stable(rows_view(rows@), top_order()),
{
    let ghost rv = rows_view(rows@);
    let mut sorted: Vec<(i64, i64, Vec<PositionedOcrWord>)> = Vec::new();
    let mut k: usize = 0;
    while k < rows.len()
        invariant
            rv == rows_view(rows@),
            k <= rows@.len(),
            rows_view(sorted@) == sort_stable(rv.take(k as int), top_order()),
        decreases rows.len() - k,
    {
        assert(rv.take(k + 1).drop_last() =~= rv.take(k as int));
        let top = rows[k].0;
        let x = (top, rows[k].1, clone_words(&rows[k].2));
        assert(rv[k as int] == (x.0 as int, x.1 as int, words_view(x.2@)));
        let mut j = sorted.len();
        while j > 0 && sorted[j - 1].0 > top
            invariant
                j <= sorted@.len(),
                forall|i: int| j <= i < sorted@.len() ==> #[trigger] sorted@[i].0 > top,
            decreases j,
        {
            j = j - 1;
        }
        proof {
            let sv = rows_view(sorted@);
            assert forall|i: int| j <= i < sv.len() implies top_order()(#[trigger] sv[i], rv[k as int]) by {
                assert(sv[i].0 == sorted@[i].0);
            }
            if j > 0 {
                assert(sv[j - 1].0 == sorted@[j - 1].0);
            }
            lemma_insert_stable(sv, rv[k as int], top_order(), j as int);
        }
        let ghost before = sorted@;
        sorted.insert(j, x);
        assert(rows_view(sorted@) =~= rows_view(before).insert(j as int, rv[k as int]));
        k = k + 1;
    }
    assert(rv.take(rows@.len() as int) =~= rv);
    sorted
}

/// The words of one OCR line regrouped into the rows they stand on, each
/// with its text, top and height, from top to bottom. Words without text
/// or with an empty box are dropped.
pub fn cluster_ocr_words_by_visual_row(words: Vec<PositionedOcrWord>) -> (r: Vec<PositionedOcrLine>)
    requires
        forall|i: int| 0 <= i < words@.len() ==> word_in_range(#[trigger] words@[i]@),
    ensures
        ocr_view(r@) == spec_cluster_words(words_view(words@)),
{
    let kept = keep_words(&words);
    let ordered = sort_reading_order(&kept);
    proof {
        lemma_sort_stable_all(words_view(kept@), reading_order(), usable_word());
        assert forall|i: int| 0 <= i < ordered@.len() implies usable_word()(#[trigger] ordered@[i]@) by {
            assert(words_view(ordered@)[i] == ordered@[i]@);
        }
        assert forall|i: int| 0 <= i < words_view(kept@).len() implies usable_word()(#[trigger] words_view(kept@)[i]) by {
            assert(words_view(kept@)[i] == kept@[i]@);
        }
    }
    let grouped = group_rows(&ordered);
    let rows = sort_rows_by_top(&grouped);
    proof {
        lemma_sort_stable_all(rows_view(grouped@), top_order(), usable_row());
    }
    let ghost srv = rows_view(rows@);
    let mut out: Vec<PositionedOcrLine> = Vec::new();
    let mut k: usize = 0;
    while k < rows.len()
        invariant
            srv == rows_view(rows@),
            k <= rows@.len(),
            forall|i: int| 0 <= i < srv.len() ==> usable_row()(#[trigger] srv[i]),
            ocr_view(out@) == row_lines(srv.take(k as int)),
        decreases rows.len() - k,
    {
        assert(srv.take(k + 1).drop_last() =~= srv.take(k as int));
        assert(usable_row()(srv[k as int]));
        let members = sort_left_to_right(&rows[k].2);
        let text = join_ocr_row_words(members.as_slice());
        let top = rows[k].0;
        let bottom = rows[k].1;
        assert(srv[k as int] == (top as int, bottom as int, words_view(rows@[k as int].2@)));
        if text.as_str().unicode_len() > 0 {
            let ghost before = out@;
            out.push(PositionedOcrLine { text, top, height: bottom - top });
            assert(ocr_view(out@) =~= ocr_view(before).push(row_line(srv[k as int])));
        }
        k = k + 1;
    }
    assert(srv.take(rows@.len() as int) =~= srv);
    out
}

// ---------------------------------------------------------------------------
// All lines of an OCR result

/// The rows of one OCR line with text `text`: none for a blank line; when
/// its words make a single row, that row keeps the line's own text.
pub open spec fn line_rows(text: Seq<char>, words: Seq<WordBox>) -> Seq<(Seq<char>, int, int)> {
    let normalized = spec_normalize_ocr_text(text);
    let rows = spec_cluster_words(words);
    if normalized.len() == 0 {
        Seq::empty()
    } else if rows.len() == 1 {
        seq![(normalized, rows[0].1, rows[0].2)]
    } else {
        rows
    }
}

pub open spec fn all_line_rows(lines: Seq<(Seq<char>, Seq<WordBox>)>) -> Seq<(Seq<char>, int, int)>
    decreases lines.len(),
{
    if lines.len() == 0 {
        Seq::empty()
    } else {
        all_line_rows(lines.drop_last()) + line_rows(lines.last().0, lines.last().1)
    }
}

/// Lines from top to bottom.
pub open spec fn line_top_order() -> spec_fn((Seq<char>, int, int), (Seq<char>, int, int)) -> bool {
    |a: (Seq<char>, int, int), b: (Seq<char>, int, int)| a.1 > b.1
}

/// The visual rows of every line of an OCR result, from top to bottom.
pub open spec fn spec_positioned_lines(lines: Seq<(Seq<char>, Seq<WordBox>)>) -> Seq<(Seq<char>, int, int)> {
    sort_stable(all_line_rows(lines), line_top_order())
}

pub open spec fn ocr_lines_view(v: Seq<(String, Vec<PositionedOcrWord>)>) -> Seq<(Seq<char>, Seq<WordBox>)> {
    v.map_values(|l: (String, Vec<PositionedOcrWord>)| (l.0@, words_view(l.1@)))
}

fn clone_ocr_line(l: &PositionedOcrLine) -> (r: PositionedOcrLine)
    ensures
        r@ == l@,
{
    PositionedOcrLine { text: l.text.clone(), top: l.top, height: l.height }
}

fn sort_lines_by_top(lines: &Vec<PositionedOcrLine>) -> (r: Vec<PositionedOcrLine>)
    ensures
        ocr_view(r@) == sort_stable(ocr_view(lines@), line_top_order()),
{
    let ghost lv = ocr_view(lines@);
    let mut sorted: Vec<PositionedOcrLine> = Vec::new();
    let mut k: usize = 0;
    while k < lines.len()
        invariant
            lv == ocr_view(lines@),
            k <= lines@.len(),
            ocr_view(sorted@) == sort_stable(lv.take(k as int), line_top_order()),
        decreases lines.len() - k,
    {
        assert(lv.take(k + 1).drop_last() =~= lv.take(k as int));
        let x = clone_ocr_line(&lines[k]);
        assert(lv[k as int] == x@);
        let mut j = sorted.len();
        while j > 0 && sorted[j - 1].top > x.top
            invariant
                j <= sorted@.len(),
                forall|i: int| j <= i < sorted@.len() ==> #[trigger] sorted@[i].top > x.top,
            decreases j,
        {
            j = j - 1;
        }
        proof {
            let sv = ocr_view(sorted@);
            assert forall|i: int| j <= i < sv.len() implies line_top_order()(#[trigger] sv[i], x@) by {
                assert(sv[i].1 == sorted@[i].top);
            }
            if j > 0 {
                assert(sv[j - 1].1 == sorted@[j - 1].top);
            }
            lemma_insert_stable(sv, x@, line_top_order(), j as int);
        }
        let ghost before = sorted@;
        sorted.insert(j, x);
        assert(ocr_view(sorted@) =~= ocr_view(before).insert(j as int, lv[k as int]));
        k = k + 1;
    }
    assert(lv.take(lines@.len() as int) =~= lv);
    sorted
}

/// The positioned rows of an OCR result given as each line's text and
/// words: blank lines are skipped, a line whose words form one row keeps
/// its own text, and all rows come out from top to bottom.
pub fn positioned_ocr_lines(lines: &Vec<(String, Vec<PositionedOcrWord>)>) -> (r: Vec<PositionedOcrLine>)
    requires
        forall|i: int, j: int| 0 <= i < lines@.len() && 0 <= j < lines@[i].1@.len()
            ==> word_in_range(#[trigger] lines@[i].1@[j]@),
    ensures
        ocr_view(r@) == spec_positioned_lines(ocr_lines_view(lines@)),
{
    let ghost lv = ocr_lines_view(lines@);
    let mut out: Vec<PositionedOcrLine> = Vec::new();
    let mut k: usize = 0;
    while k < lines.len()
        invariant
            lv == ocr_lines_view(lines@),
            k <= lines@.len(),
            forall|i: int, j: int| 0 <= i < lines@.len() && 0 <= j < lines@[i].1@.len()
                ==> word_in_range(#[trigger] lines@[i].1@[j]@),
            ocr_view(out@) == all_line_rows(lv.take(k as int)),
        decreases lines.len() - k,
    {
        assert(lv.take(k + 1).drop_last() =~= lv.take(k as int));
        let text = normalize_ocr_text(lines[k].0.as_str());
        let words = clone_words(&lines[k].1);
        assert(lv[k as int] == (lines@[k as int].0@, words_view(lines@[k as int].1@)));
        let ghost src = lines@[k as int].1@;
        assert(words_view(words@).len() == words@.len() && words_view(src).len() == src.len());
        assert forall|j: int| 0 <= j < words@.len() implies word_in_range(#[trigger] words@[j]@) by {
            assert(j < src.len());
            assert(words_view(words@)[j] == words@[j]@);
            assert(words_view(lines@[k as int].1@)[j] == lines@[k as int].1@[j]@);
            assert(word_in_range(lines@[k as int].1@[j]@));
        }
        let ghost before = out@;
        if text.as_str().unicode_len() > 0 {
            let mut rows = cluster_ocr_words_by_visual_row(words);
            if rows.len() == 1 {
                let row = rows.pop().unwrap();
                out.push(PositionedOcrLine { text, top: row.top, height: row.height });
                assert(ocr_view(out@) =~= ocr_view(before) + line_rows(lv[k as int].0, lv[k as int].1));
            } else {
                let ghost rv = ocr_view(rows@);
                let mut i: usize = 0;
                while i < rows.len()
                    invariant
                        i <= rows@.len(),
                        rv == ocr_view(rows@),
                        ocr_view(out@) == ocr_view(before) + rv.take(i as int),
                    decreases rows.len() - i,
                {
                    let line = clone_ocr_line(&rows[i]);
                    let ghost prev = out@;
                    out.push(line);
                    assert(ocr_view(out@) =~= ocr_view(prev).push(rv[i as int]));
                    assert(rv.take(i + 1) =~= rv.take(i as int).push(rv[i as int]));
                    assert(ocr_view(out@) =~= ocr_view(before) + rv.take(i + 1));
                    i = i + 1;
                }
                assert(rv.take(rows@.len() as int) =~= rv);
            }
        }
        assert(ocr_view(out@) =~= all_line_rows(lv.take(k + 1)));
        k = k + 1;
    }
    assert(lv.take(lines@.len() as int) =~= lv);
    sort_lines_by_top(&out)
}

} // verus!

verus! {

// ---------------------------------------------------------------------------
// Rows come out from top to bottom

/// `key` never decreases along `s`.
pub open spec fn ascending_by<T>(s: Seq<T>, key: spec_fn(T) -> int) -> bool {
    forall|i: int, j: int| 0 <= i < j < s.len() ==> key(#[trigger] s[i]) <= key(#[trigger] s[j])
}

proof fn lemma_insert_stable_ascending<T>(sorted: Seq<T>, x: T, after: spec_fn(T, T) -> bool, key: spec_fn(T) -> int)
    requires
        forall|a: T, b: T| #[trigger] after(a, b) <==> key(a) > key(b),
        ascending_by(sorted, key),
    ensures
        ascending_by(insert_stable(sorted, x, after), key),
    decreases sorted.len(),
{
    if sorted.len() == 0 {
        assert(insert_stable(sorted, x, after) =~= seq![x]);
    } else if !after(sorted.last(), x) {
        let r = sorted.push(x);
        assert forall|i: int, j: int| 0 <= i < j < r.len() implies key(#[trigger] r[i]) <= key(#[trigger] r[j]) by {
            if j == sorted.len() && i < sorted.len() - 1 {
                assert(key(sorted[i]) <= key(sorted[sorted.len() - 1]));
            }
        }
    } else {
        let d = sorted.drop_last();
        let last = sorted.last();
        assert forall|i: int, j: int| 0 <= i < j < d.len() implies key(#[trigger] d[i]) <= key(#[trigger] d[j]) by {
            assert(d[i] == sorted[i] && d[j] == sorted[j]);
        }
        lemma_insert_stable_ascending(d, x, after, key);
        let bound = |y: T| key(y) <= key(last);
        assert forall|i: int| 0 <= i < d.len() implies bound(#[trigger] d[i]) by {
            assert(d[i] == sorted[i]);
            assert(key(sorted[i]) <= key(sorted[sorted.len() - 1]));
        }
        lemma_insert_stable_all(d, x, after, bound);
        let inner = insert_stable(d, x, after);
        let r = inner.push(last);
        assert forall|i: int, j: int| 0 <= i < j < r.len() implies key(#[trigger] r[i]) <= key(#[trigger] r[j]) by {
            if j == inner.len() {
                assert(bound(inner[i]));
            } else {
                assert(r[i] == inner[i] && r[j] == inner[j]);
            }
        }
    }
}

/// A stable sort by a key leaves the key ascending.
proof fn lemma_sort_stable_ascending<T>(s: Seq<T>, after: spec_fn(T, T) -> bool, key: spec_fn(T) -> int)
    requires
        forall|a: T, b: T| #[trigger] after(a, b) <==> key(a) > key(b),
    ensures
        ascending_by(sort_stable(s, after), key),
    decreases s.len(),
{
    if s.len() > 0 {
        lemma_sort_stable_ascending(s.drop_last(), after, key);
        lemma_insert_stable_ascending(sort_stable(s.drop_last(), after), s.last(), after, key);
    }
}

/// The top of a line.
pub open spec fn line_top() -> spec_fn((Seq<char>, int, int)) -> int {
    |l: (Seq<char>, int, int)| l.1
}

proof fn lemma_row_lines_ascending(rows: Seq<WordRow>)
    requires
        ascending_by(rows, |r: WordRow| r.0),
    ensures
        ascending_by(row_lines(rows), line_top()),
        forall|k: int| 0 <= k < row_lines(rows).len() ==> rows.len() > 0
            && #[trigger] row_lines(rows)[k].1 <= rows.last().0,
    decreases rows.len(),
{
    if rows.len() > 0 {
        let d = rows.drop_last();
        assert forall|i: int, j: int| 0 <= i < j < d.len() implies (|r: WordRow| r.0)(#[trigger] d[i])
            <= (|r: WordRow| r.0)(#[trigger] d[j]) by {
            assert(d[i] == rows[i] && d[j] == rows[j]);
        }
        lemma_row_lines_ascending(d);
        let before = row_lines(d);
        assert forall|k: int| 0 <= k < before.len() implies #[trigger] before[k].1 <= rows.last().0 by {
            assert(d.len() > 0);
            assert(d.last() == rows[rows.len() - 2]);
            assert((|r: WordRow| r.0)(rows[rows.len() - 2]) <= (|r: WordRow| r.0)(rows[rows.len() - 1]));
        }
        if row_line(rows.last()).0.len() > 0 {
            let after = before.push(row_line(rows.last()));
            assert(row_lines(rows) == after);
            assert forall|i: int, j: int| 0 <= i < j < after.len() implies line_top()(#[trigger] after[i])
                <= line_top()(#[trigger] after[j]) by {
                if j < before.len() {
                    assert(after[i] == before[i] && after[j] == before[j]);
                } else {
                    assert(after[i] == before[i]);
                }
            }
        }
    }
}

/// The visual rows of a line come out from top to bottom.
pub proof fn lemma_clustered_rows_top_to_bottom(words: Seq<WordBox>)
    ensures
        ascending_by(spec_cluster_words(words), line_top()),
{
    let rows = cluster_rows(sort_stable(kept_words(words), reading_order()));
    lemma_sort_stable_ascending(rows, top_order(), |r: WordRow| r.0);
    lemma_row_lines_ascending(sort_stable(rows, top_order()));
}

/// All rows of an OCR result come out from top to bottom.
pub proof fn lemma_positioned_lines_top_to_bottom(lines: Seq<(Seq<char>, Seq<WordBox>)>)
    ensures
        ascending_by(spec_positioned_lines(lines), line_top()),
{
    lemma_sort_stable_ascending(all_line_rows(lines), line_top_order(), line_top());
}

} // verus!
