//! Fuzzy comparison of OCR chat lines and detection of the lines that were
//! appended since the last capture.
use vstd::prelude::*;
use crate::chars::{char_is_alphanumeric, char_lowercase, char_vec_len, chars_of, is_alphanumeric, to_lowercase};
use crate::chat::{clone_line, lines_view, ParsedChatLine};

verus! {

// ---------------------------------------------------------------------------
// Comparison text

/// What a chat field is compared by: its alphanumeric characters, lowercased.
pub open spec fn comparison_text(s: Seq<char>) -> Seq<char>
    decreases s.len(),
{
    if s.len() == 0 {
        Seq::empty()
    } else {
        let before = comparison_text(s.drop_last());
        if char_is_alphanumeric(s.last()) {
            before + char_lowercase(s.last())
        } else {
            before
        }
    }
}

fn comparison_chars(value: &str) -> (r: Vec<char>)
    ensures
        r@ == comparison_text(value@),
{
    let cs = chars_of(value);
    let n = cs.len();
    let mut out: Vec<char> = Vec::new();
    let mut i: usize = 0;
    while i < n
        invariant
            n == cs@.len(),
            cs@ == value@,
            i <= n,
            out@ == comparison_text(cs@.take(i as int)),
        decreases n - i,
    {
        assert(cs@.take(i + 1).drop_last() =~= cs@.take(i as int));
        let c = cs[i];
        if is_alphanumeric(c) {
            let lower = to_lowercase(c);
            let ghost base = out@;
            let mut k: usize = 0;
            while k < lower.len()
                invariant
                    k <= lower@.len(),
                    out@ == base + lower@.take(k as int),
                decreases lower.len() - k,
            {
                out.push(lower[k]);
                assert(base + lower@.take(k + 1) =~= (base + lower@.take(k as int)).push(
                    lower@[k as int],
                ));
                k = k + 1;
            }
            assert(lower@.take(lower@.len() as int) =~= lower@);
        }
        i = i + 1;
    }
    assert(cs@.take(n as int) =~= cs@);
    out
}

fn same_chars(a: &Vec<char>, b: &Vec<char>) -> (r: bool)
    ensures
        r == (a@ == b@),
{
    if a.len() != b.len() {
        return false;
    }
    let mut i: usize = 0;
    while i < a.len()
        invariant
            a@.len() == b@.len(),
            i <= a@.len(),
            forall|k: int| 0 <= k < i ==> a@[k] == b@[k],
        decreases a.len() - i,
    {
        if a[i] != b[i] {
            return false;
        }
        i = i + 1;
    }
    assert(a@ =~= b@);
    true
}

// ---------------------------------------------------------------------------
// Edit distance

pub open spec fn min3(a: int, b: int, c: int) -> int {
    if a <= b && a <= c {
        a
    } else if b <= c {
        b
    } else {
        c
    }
}

/// Levenshtein distance: the fewest single-character insertions, deletions
/// and substitutions that turn `a` into `b`.
pub open spec fn edit_distance(a: Seq<char>, b: Seq<char>) -> int
    decreases a.len() + b.len(),
{
    if a.len() == 0 {
        b.len() as int
    } else if b.len() == 0 {
        a.len() as int
    } else {
        let substitution: int = if a.last() == b.last() {
            0
        } else {
            1
        };
        min3(
            edit_distance(a.drop_last(), b) + 1,
            edit_distance(a, b.drop_last()) + 1,
            edit_distance(a.drop_last(), b.drop_last()) + substitution,
        )
    }
}

pub proof fn lemma_edit_distance_bounds(a: Seq<char>, b: Seq<char>)
    ensures
        0 <= edit_distance(a, b) <= a.len() + b.len(),
    decreases a.len() + b.len(),
{
    if a.len() > 0 && b.len() > 0 {
        lemma_edit_distance_bounds(a.drop_last(), b);
        lemma_edit_distance_bounds(a, b.drop_last());
        lemma_edit_distance_bounds(a.drop_last(), b.drop_last());
    }
}

/// The distance does not depend on which side is which.
pub proof fn lemma_edit_distance_symmetric(a: Seq<char>, b: Seq<char>)
    ensures
        edit_distance(a, b) == edit_distance(b, a),
    decreases a.len() + b.len(),
{
    if a.len() > 0 && b.len() > 0 {
        lemma_edit_distance_symmetric(a.drop_last(), b);
        lemma_edit_distance_symmetric(a, b.drop_last());
        lemma_edit_distance_symmetric(a.drop_last(), b.drop_last());
    }
}

fn levenshtein_distance(left: &Vec<char>, right: &Vec<char>) -> (d: usize)
    ensures
        d == edit_distance(left@, right@),
{
    let n = char_vec_len(left);
    let m = char_vec_len(right);
    let ghost a = left@;
    let ghost b = right@;
    let mut previous: Vec<usize> = Vec::new();
    let mut j: usize = 0;
    while j <= m
        invariant
            m == b.len(),
            m <= (isize::MAX as usize) / 4,
            j <= m + 1,
            previous@.len() == j,
            forall|k: int| 0 <= k < j ==> previous@[k] == edit_distance(a.take(0), b.take(k)),
        decreases m + 1 - j,
    {
        previous.push(j);
        j = j + 1;
    }
    let mut current: Vec<usize> = Vec::new();
    let mut j: usize = 0;
    while j <= m
        invariant
            m <= (isize::MAX as usize) / 4,
            j <= m + 1,
            current@.len() == j,
        decreases m + 1 - j,
    {
        current.push(0);
        j = j + 1;
    }
    let mut i: usize = 0;
    while i < n
        invariant
            n == a.len(),
            m == b.len(),
            a == left@,
            b == right@,
            n <= (isize::MAX as usize) / 4,
            m <= (isize::MAX as usize) / 4,
            i <= n,
            previous@.len() == m + 1,
            current@.len() == m + 1,
            forall|k: int| 0 <= k <= m ==> previous@[k] == edit_distance(a.take(i as int), b.take(k)),
        decreases n - i,
    {
        assert(a.take(i + 1).drop_last() =~= a.take(i as int));
        current.set(0, i + 1);
        let left_character = left[i];
        let mut j: usize = 0;
        while j < m
            invariant
                n == a.len(),
                m == b.len(),
                a == left@,
                b == right@,
                n <= (isize::MAX as usize) / 4,
                m <= (isize::MAX as usize) / 4,
                i < n,
                left_character == a[i as int],
                j <= m,
                previous@.len() == m + 1,
                current@.len() == m + 1,
                forall|k: int| 0 <= k <= m ==> previous@[k] == edit_distance(a.take(i as int), b.take(k)),
                forall|k: int| 0 <= k <= j ==> current@[k] == edit_distance(a.take(i + 1), b.take(k)),
            decreases m - j,
        {
            assert(b.take(j + 1).drop_last() =~= b.take(j as int));
            proof {
                lemma_edit_distance_bounds(a.take(i + 1), b.take(j as int));
                lemma_edit_distance_bounds(a.take(i as int), b.take(j + 1));
                lemma_edit_distance_bounds(a.take(i as int), b.take(j as int));
            }
            let substitution: usize = if left_character != right[j] {
                1
            } else {
                0
            };
            let insert = current[j] + 1;
            let delete = previous[j + 1] + 1;
            let replace = previous[j] + substitution;
            let mut best = insert;
            if delete < best {
                best = delete;
            }
            if replace < best {
                best = replace;
            }
            proof {
                let aa = a.take(i + 1);
                let bb = b.take(j + 1);
                assert(aa.last() == left_character);
                assert(bb.last() == right@[j as int]);
                assert(aa.drop_last() =~= a.take(i as int));
                assert(bb.drop_last() =~= b.take(j as int));
                assert(edit_distance(aa, bb) == best);
            }
            current.set(j + 1, best);
            j = j + 1;
        }
        let tmp = previous;
        previous = current;
        current = tmp;
        i = i + 1;
    }
    assert(a.take(n as int) =~= a);
    assert(b.take(m as int) =~= b);
    previous[m]
}

// ---------------------------------------------------------------------------
// Fuzzy text match

pub open spec fn abs_diff(a: int, b: int) -> int {
    if a >= b {
        a - b
    } else {
        b - a
    }
}

/// How many edits a compared text of length `maximum` may differ by.
pub open spec fn edit_allowance(maximum: int) -> int {
    if maximum / 10 < 1 {
        1
    } else if maximum / 10 > 2 {
        2
    } else {
        maximum / 10
    }
}

/// Two chat fields read the same up to OCR noise: equal comparison texts, or
/// long enough texts of close length within a small edit distance.
pub open spec fn spec_fuzzy_match(a: Seq<char>, b: Seq<char>) -> bool {
    let l = comparison_text(a);
    let r = comparison_text(b);
    if l == r {
        true
    } else if l.len() == 0 || r.len() == 0 {
        false
    } else {
        let maximum: int = if l.len() >= r.len() {
            l.len() as int
        } else {
            r.len() as int
        };
        if maximum < 8 || abs_diff(l.len() as int, r.len() as int) > 2 {
            false
        } else {
            edit_distance(l, r) <= edit_allowance(maximum)
        }
    }
}

fn fuzzy_text_match(left: &str, right: &str) -> (r: bool)
    ensures
        r == spec_fuzzy_match(left@, right@),
{
    let l = comparison_chars(left);
    let r = comparison_chars(right);
    if same_chars(&l, &r) {
        return true;
    }
    let ln = char_vec_len(&l);
    let rn = char_vec_len(&r);
    if ln == 0 || rn == 0 {
        return false;
    }
    let maximum = if ln >= rn {
        ln
    } else {
        rn
    };
    let difference = if ln >= rn {
        ln - rn
    } else {
        rn - ln
    };
    if maximum < 8 || difference > 2 {
        return false;
    }
    let tenth = maximum / 10;
    let allowance = if tenth < 1 {
        1
    } else if tenth > 2 {
        2
    } else {
        tenth
    };
    levenshtein_distance(&l, &r) <= allowance
}

/// Two chat lines are the same message: speakers and messages both match.
pub open spec fn spec_lines_match(l: (Seq<char>, Seq<char>), r: (Seq<char>, Seq<char>)) -> bool {
    spec_fuzzy_match(l.0, r.0) && spec_fuzzy_match(l.1, r.1)
}

fn chat_lines_match(left: &ParsedChatLine, right: &ParsedChatLine) -> (r: bool)
    ensures
        r == spec_lines_match(left@, right@),
{
    fuzzy_text_match(left.speaker.as_str(), right.speaker.as_str()) && fuzzy_text_match(
        left.message.as_str(),
        right.message.as_str(),
    )
}

// ---------------------------------------------------------------------------
// Overlap between the previous and the current capture

/// The last `len` lines of `prev` match `cur` from position `s` on.
pub open spec fn tail_matches(
    prev: Seq<(Seq<char>, Seq<char>)>,
    cur: Seq<(Seq<char>, Seq<char>)>,
    s: int,
    len: int,
) -> bool {
    forall|k: int| 0 <= k < len ==> #[trigger] spec_lines_match(prev[prev.len() - len + k], cur[s + k])
}

/// The longest `len' <= len` for which `tail_matches` holds, or 0.
pub open spec fn longest_overlap(
    prev: Seq<(Seq<char>, Seq<char>)>,
    cur: Seq<(Seq<char>, Seq<char>)>,
    s: int,
    len: int,
) -> int
    decreases len,
{
    if len <= 0 {
        0
    } else if tail_matches(prev, cur, s, len) {
        len
    } else {
        longest_overlap(prev, cur, s, len - 1)
    }
}

/// How many lines of `cur` from `s` on can repeat the end of `prev`.
pub open spec fn overlap_bound(prev: Seq<(Seq<char>, Seq<char>)>, cur: Seq<(Seq<char>, Seq<char>)>, s: int) -> int {
    if prev.len() <= cur.len() - s {
        prev.len() as int
    } else {
        cur.len() - s
    }
}

/// Length of the longest end of `prev` that reappears in `cur` at `s`.
pub open spec fn overlap_at(prev: Seq<(Seq<char>, Seq<char>)>, cur: Seq<(Seq<char>, Seq<char>)>, s: int) -> int {
    longest_overlap(prev, cur, s, overlap_bound(prev, cur, s))
}

/// `s` is where the longest overlap starts, the earliest such place.
pub open spec fn is_best_overlap(prev: Seq<(Seq<char>, Seq<char>)>, cur: Seq<(Seq<char>, Seq<char>)>, s: int) -> bool {
    &&& 0 <= s < cur.len()
    &&& overlap_at(prev, cur, s) > 0
    &&& forall|t: int| 0 <= t < cur.len() ==> #[trigger] overlap_at(prev, cur, t) <= overlap_at(prev, cur, s)
    &&& forall|t: int| 0 <= t < s ==> #[trigger] overlap_at(prev, cur, t) < overlap_at(prev, cur, s)
}

/// Index of the first line of `cur` that `prev` did not show: the end of
/// the longest (earliest) run of lines that repeats the end of `prev`, or 0
/// when nothing repeats.
pub open spec fn spec_new_line_start(prev: Seq<(Seq<char>, Seq<char>)>, cur: Seq<(Seq<char>, Seq<char>)>) -> int {
    if exists|s: int| is_best_overlap(prev, cur, s) {
        let s = choose|s: int| is_best_overlap(prev, cur, s);
        s + overlap_at(prev, cur, s)
    } else {
        0
    }
}

pub proof fn lemma_longest_overlap(prev: Seq<(Seq<char>, Seq<char>)>, cur: Seq<(Seq<char>, Seq<char>)>, s: int, len: int)
    ensures
        len <= 0 ==> longest_overlap(prev, cur, s, len) == 0,
        len > 0 ==> 0 <= longest_overlap(prev, cur, s, len) <= len,
        longest_overlap(prev, cur, s, len) > 0 ==> tail_matches(prev, cur, s, longest_overlap(prev, cur, s, len)),
    decreases len,
{
    if len > 0 && !tail_matches(prev, cur, s, len) {
        lemma_longest_overlap(prev, cur, s, len - 1);
    }
}

pub proof fn lemma_best_overlap_unique(prev: Seq<(Seq<char>, Seq<char>)>, cur: Seq<(Seq<char>, Seq<char>)>, s: int, t: int)
    requires
        is_best_overlap(prev, cur, s),
        is_best_overlap(prev, cur, t),
    ensures
        s == t,
{
    if s < t {
        assert(overlap_at(prev, cur, s) < overlap_at(prev, cur, t));
        assert(overlap_at(prev, cur, s) <= overlap_at(prev, cur, t));
        assert(overlap_at(prev, cur, t) <= overlap_at(prev, cur, s));
    } else if t < s {
        assert(overlap_at(prev, cur, t) < overlap_at(prev, cur, s));
        assert(overlap_at(prev, cur, s) <= overlap_at(prev, cur, t));
    }
}

/// The new-line start never runs past the current capture.
pub proof fn lemma_new_line_start_bounds(prev: Seq<(Seq<char>, Seq<char>)>, cur: Seq<(Seq<char>, Seq<char>)>)
    ensures
        0 <= spec_new_line_start(prev, cur) <= cur.len(),
{
    if exists|s: int| is_best_overlap(prev, cur, s) {
        let s = choose|s: int| is_best_overlap(prev, cur, s);
        lemma_longest_overlap(prev, cur, s, overlap_bound(prev, cur, s));
    }
}

fn tail_matches_at(previous: &[ParsedChatLine], current: &[ParsedChatLine], s: usize, len: usize) -> (r: bool)
    requires
        len <= previous@.len(),
        s + len <= current@.len(),
    ensures
        r == tail_matches(lines_view(previous@), lines_view(current@), s as int, len as int),
{
    let p = previous.len();
    let cn = current.len();
    let mut k: usize = 0;
    while k < len
        invariant
            p == previous@.len(),
            cn == current@.len(),
            len <= p,
            s + len <= current@.len(),
            k <= len,
            forall|j: int| 0 <= j < k ==> #[trigger] spec_lines_match(
                lines_view(previous@)[p - len + j],
                lines_view(current@)[s + j],
            ),
        decreases len - k,
    {
        if !chat_lines_match(&previous[p - len + k], &current[s + k]) {
            proof {
                let pv = lines_view(previous@);
                let cv = lines_view(current@);
                assert(pv.len() == p);
                assert(pv[pv.len() - len + k] == previous@[p - len + k]@);
                assert(!spec_lines_match(pv[pv.len() - len + k], cv[s + k]));
                assert(!tail_matches(pv, cv, s as int, len as int));
            }
            return false;
        }
        k = k + 1;
    }
    true
}

fn overlap_length(previous: &[ParsedChatLine], current: &[ParsedChatLine], s: usize) -> (r: usize)
    requires
        s < current@.len(),
    ensures
        r == overlap_at(lines_view(previous@), lines_view(current@), s as int),
{
    let ghost pv = lines_view(previous@);
    let ghost cv = lines_view(current@);
    let maximum = if previous.len() <= current.len() - s {
        previous.len()
    } else {
        current.len() - s
    };
    let mut length = maximum;
    while length > 0
        invariant
            length <= maximum,
            maximum == overlap_bound(pv, cv, s as int),
            maximum <= previous@.len(),
            s + maximum <= current@.len(),
            pv == lines_view(previous@),
            cv == lines_view(current@),
            overlap_at(pv, cv, s as int) == longest_overlap(pv, cv, s as int, length as int),
        decreases length,
    {
        if tail_matches_at(previous, current, s, length) {
            return length;
        }
        length = length - 1;
    }
    0
}

fn new_line_start(previous: &[ParsedChatLine], current: &[ParsedChatLine]) -> (r: usize)
    ensures
        r == spec_new_line_start(lines_view(previous@), lines_view(current@)),
{
    let ghost pv = lines_view(previous@);
    let ghost cv = lines_view(current@);
    let n = current.len();
    let mut best_end: usize = 0;
    let mut best_length: usize = 0;
    let ghost mut best_start: int = 0;
    let mut s: usize = 0;
    while s < n
        invariant
            n == current@.len(),
            cv.len() == n,
            pv == lines_view(previous@),
            cv == lines_view(current@),
            s <= n,
            best_length == 0 ==> best_end == 0 && forall|t: int| 0 <= t < s ==> #[trigger] overlap_at(pv, cv, t) <= 0,
            best_length > 0 ==> {
                &&& 0 <= best_start < s
                &&& best_length == overlap_at(pv, cv, best_start)
                &&& best_end == best_start + best_length
                &&& forall|t: int| 0 <= t < s ==> #[trigger] overlap_at(pv, cv, t) <= best_length
                &&& forall|t: int| 0 <= t < best_start ==> #[trigger] overlap_at(pv, cv, t) < best_length
            },
            best_end <= n,
        decreases n - s,
    {
        let length = overlap_length(previous, current, s);
        proof {
            lemma_longest_overlap(pv, cv, s as int, overlap_bound(pv, cv, s as int));
        }
        if length > best_length {
            best_length = length;
            best_end = s + length;
            proof {
                best_start = s as int;
            }
        }
        s = s + 1;
    }
    proof {
        if best_length > 0 {
            assert(is_best_overlap(pv, cv, best_start));
            let c = choose|t: int| is_best_overlap(pv, cv, t);
            lemma_best_overlap_unique(pv, cv, c, best_start);
        } else {
            assert forall|t: int| !is_best_overlap(pv, cv, t) by {
                if 0 <= t < n {
                    assert(overlap_at(pv, cv, t) <= 0);
                }
            }
        }
    }
    best_end
}

/// Repeating the end of `prev` at the start of `cur` puts the new lines
/// right after it.
pub proof fn lemma_prefix_repeat_starts_after(prev: Seq<(Seq<char>, Seq<char>)>, cur: Seq<(Seq<char>, Seq<char>)>)
    requires
        0 < prev.len() <= cur.len(),
        forall|k: int| 0 <= k < prev.len() ==> #[trigger] spec_lines_match(prev[k], cur[k]),
    ensures
        spec_new_line_start(prev, cur) == prev.len(),
{
    let p = prev.len() as int;
    assert(overlap_bound(prev, cur, 0) == p);
    assert(tail_matches(prev, cur, 0, p)) by {
        assert forall|k: int| 0 <= k < p implies #[trigger] spec_lines_match(prev[p - p + k], cur[0 + k]) by {
            assert(spec_lines_match(prev[k], cur[k]));
        }
    }
    assert(overlap_at(prev, cur, 0) == p);
    assert forall|t: int| 0 <= t < cur.len() implies #[trigger] overlap_at(prev, cur, t) <= overlap_at(prev, cur, 0) by {
        lemma_longest_overlap(prev, cur, t, overlap_bound(prev, cur, t));
    }
    assert(is_best_overlap(prev, cur, 0));
    let c = choose|t: int| is_best_overlap(prev, cur, t);
    lemma_best_overlap_unique(prev, cur, c, 0);
}

// ---------------------------------------------------------------------------
// Tracker

/// Remembers the chat lines last shown for a target generation so that a new
/// capture yields only the lines appended since.
#[derive(Debug)]
pub struct ChatLineTracker {
    generation: Option<u64>,
    visible_lines: Vec<ParsedChatLine>,
}

impl View for ChatLineTracker {
    type V = (Option<u64>, Seq<(Seq<char>, Seq<char>)>);

    closed spec fn view(&self) -> (Option<u64>, Seq<(Seq<char>, Seq<char>)>) {
        (self.generation, lines_view(self.visible_lines@))
    }
}

/// The lines of `current` that the tracker state `t` has not shown yet for
/// `generation`: all of them for another generation or an empty history,
/// else those after the repeated end of the history.
pub open spec fn spec_pending(
    t: (Option<u64>, Seq<(Seq<char>, Seq<char>)>),
    generation: u64,
    current: Seq<(Seq<char>, Seq<char>)>,
) -> Seq<(Seq<char>, Seq<char>)> {
    if t.0 != Some(generation) || t.1.len() == 0 {
        current
    } else {
        current.skip(spec_new_line_start(t.1, current))
    }
}

fn clone_lines(lines: &[ParsedChatLine], from: usize) -> (r: Vec<ParsedChatLine>)
    requires
        from <= lines@.len(),
    ensures
        lines_view(r@) == lines_view(lines@).skip(from as int),
{
    let mut out: Vec<ParsedChatLine> = Vec::new();
    let mut i = from;
    while i < lines.len()
        invariant
            from <= i <= lines@.len(),
            lines_view(out@) == lines_view(lines@).subrange(from as int, i as int),
        decreases lines.len() - i,
    {
        let ghost before = out@;
        out.push(clone_line(&lines[i]));
        assert(lines_view(out@) =~= lines_view(before).push(lines@[i as int]@));
        assert(lines_view(lines@).subrange(from as int, i + 1) =~= lines_view(lines@).subrange(
            from as int,
            i as int,
        ).push(lines@[i as int]@));
        i = i + 1;
    }
    assert(lines_view(lines@).subrange(from as int, lines@.len() as int) =~= lines_view(lines@).skip(
        from as int,
    ));
    out
}

impl ChatLineTracker {
    /// The lines of `current` that were not shown before for `generation`.
    pub fn pending_lines(&self, generation: u64, current: &[ParsedChatLine]) -> (r: Vec<ParsedChatLine>)
        ensures
            lines_view(r@) == spec_pending(self@, generation, lines_view(current@)),
    {
        let same_generation = match self.generation {
            Some(g) => g == generation,
            None => false,
        };
        if !same_generation || self.visible_lines.len() == 0 {
            let r = clone_lines(current, 0);
            assert(lines_view(current@).skip(0) =~= lines_view(current@));
            return r;
        }
        let start = new_line_start(self.visible_lines.as_slice(), current);
        proof {
            lemma_new_line_start_bounds(lines_view(self.visible_lines@), lines_view(current@));
        }
        clone_lines(current, start)
    }

    /// Records `current` as the lines shown for `generation`.
    pub fn commit(&mut self, generation: u64, current: &[ParsedChatLine])
        ensures
            final(self)@ == (Some(generation), lines_view(current@)),
    {
        self.generation = Some(generation);
        let lines = clone_lines(current, 0);
        assert(lines_view(current@).skip(0) =~= lines_view(current@));
        self.visible_lines = lines;
    }

    /// Starts translating a capture of `current` for `generation`: returns
    /// the lines that are new since the last commit. When nothing is new the
    /// capture is committed at once and nothing is left to translate;
    /// otherwise the tracker waits for `finish_capture`.
    pub fn begin_capture(&mut self, generation: u64, current: &[ParsedChatLine]) -> (r: Vec<ParsedChatLine>)
        ensures
            lines_view(r@) == spec_pending(old(self)@, generation, lines_view(current@)),
            r@.len() == 0 ==> final(self)@ == (Some(generation), lines_view(current@)),
            r@.len() > 0 ==> final(self)@ == old(self)@,
    {
        let pending = self.pending_lines(generation, current);
        if pending.len() == 0 {
            self.commit(generation, current);
        }
        pending
    }

    /// Ends a capture begun with `begin_capture`: `current` is committed
    /// only when its new lines were translated, so a failed translation
    /// offers the same lines again next time. The translation is handed back.
    pub fn finish_capture<T, E>(&mut self, generation: u64, current: &[ParsedChatLine], translated: Result<T, E>) -> (r: Result<T, E>)
        ensures
            r == translated,
            translated is Ok ==> final(self)@ == (Some(generation), lines_view(current@)),
            translated is Err ==> final(self)@ == old(self)@,
    {
        if translated.is_ok() {
            self.commit(generation, current);
        }
        translated
    }

    /// Forgets the generation and every line shown.
    pub fn reset(&mut self)
        ensures
            final(self)@ == (None::<u64>, Seq::<(Seq<char>, Seq<char>)>::empty()),
    {
        self.generation = None;
        self.visible_lines = Vec::new();
        assert(lines_view(self.visible_lines@) =~= Seq::<(Seq<char>, Seq<char>)>::empty());
    }
}

impl Default for ChatLineTracker {
    fn default() -> (r: Self)
        ensures
            r@ == (None::<u64>, Seq::<(Seq<char>, Seq<char>)>::empty()),
    {
        let r = ChatLineTracker { generation: None, visible_lines: Vec::new() };
        assert(lines_view(r.visible_lines@) =~= Seq::<(Seq<char>, Seq<char>)>::empty());
        r
    }
}

// ---------------------------------------------------------------------------
// Laws

/// Every chat field matches itself.
pub proof fn lemma_lines_match_reflexive(l: (Seq<char>, Seq<char>))
    ensures
        spec_lines_match(l, l),
{
}

/// Matching is symmetric: swapping the two captures gives the same verdict.
pub proof fn lemma_lines_match_symmetric(l: (Seq<char>, Seq<char>), r: (Seq<char>, Seq<char>))
    ensures
        spec_lines_match(l, r) == spec_lines_match(r, l),
{
    lemma_edit_distance_symmetric(comparison_text(l.0), comparison_text(r.0));
    lemma_edit_distance_symmetric(comparison_text(l.1), comparison_text(r.1));
}

/// After committing `shown` for a generation, a capture that shows the same
/// lines followed by `appended` yields exactly `appended`.
pub proof fn lemma_commit_then_append_yields_appended(
    generation: u64,
    shown: Seq<(Seq<char>, Seq<char>)>,
    appended: Seq<(Seq<char>, Seq<char>)>,
)
    ensures
        spec_pending((Some(generation), shown), generation, shown + appended) == appended,
{
    if shown.len() > 0 {
        let cur = shown + appended;
        assert forall|k: int| 0 <= k < shown.len() implies #[trigger] spec_lines_match(shown[k], cur[k]) by {
            assert(cur[k] == shown[k]);
        }
        lemma_prefix_repeat_starts_after(shown, cur);
        assert(cur.skip(shown.len() as int) =~= appended);
    } else {
        assert(shown + appended =~= appended);
    }
}

/// Re-reading the committed screen yields nothing new.
pub proof fn lemma_commit_then_same_yields_nothing(generation: u64, shown: Seq<(Seq<char>, Seq<char>)>)
    ensures
        spec_pending((Some(generation), shown), generation, shown).len() == 0,
{
    lemma_commit_then_append_yields_appended(generation, shown, Seq::empty());
    assert(shown + Seq::<(Seq<char>, Seq<char>)>::empty() =~= shown);
}

/// Lines committed for one generation never hide lines of another one.
pub proof fn lemma_other_generation_yields_everything(
    committed: u64,
    shown: Seq<(Seq<char>, Seq<char>)>,
    generation: u64,
    current: Seq<(Seq<char>, Seq<char>)>,
)
    requires
        committed != generation,
    ensures
        spec_pending((Some(committed), shown), generation, current) == current,
{
}


/// Two fields read the same only when their compared texts are equal, or
/// at least 8 long, of lengths within 2, and within 2 edits, and within one
/// edit per ten characters of the longer text except that one edit is always
/// allowed.
pub proof fn lemma_fuzzy_match_is_close(a: Seq<char>, b: Seq<char>)
    ensures
        spec_fuzzy_match(a, b) ==> {
            let l = comparison_text(a);
            let r = comparison_text(b);
            let longer = if l.len() >= r.len() { l.len() as int } else { r.len() as int };
            ||| l == r
            ||| {
                &&& longer >= 8
                &&& abs_diff(l.len() as int, r.len() as int) <= 2
                &&& edit_distance(l, r) <= 2
                &&& (edit_distance(l, r) <= 1 || edit_distance(l, r) * 10 <= longer)
            }
        },
{
}

proof fn lemma_edit_distance_same(a: Seq<char>)
    ensures
        edit_distance(a, a) == 0,
    decreases a.len(),
{
    if a.len() > 0 {
        lemma_edit_distance_same(a.drop_last());
        lemma_edit_distance_bounds(a.drop_last(), a);
        lemma_edit_distance_bounds(a, a.drop_last());
    }
}

proof fn lemma_no_overlap(prev: Seq<(Seq<char>, Seq<char>)>, cur: Seq<(Seq<char>, Seq<char>)>, s: int, len: int)
    requires
        prev.len() > 0,
        0 <= s,
        s + len <= cur.len(),
        forall|j: int| 0 <= j < cur.len() ==> !spec_lines_match(prev.last(), #[trigger] cur[j]),
    ensures
        longest_overlap(prev, cur, s, len) == 0,
    decreases len,
{
    if len > 0 {
        assert(!spec_lines_match(prev[prev.len() - len + (len - 1)], cur[s + (len - 1)]));
        assert(!tail_matches(prev, cur, s, len));
        lemma_no_overlap(prev, cur, s, len - 1);
    }
}

/// When no line of a capture reads like the last line committed for the
/// generation, every line of the capture is new.
pub proof fn lemma_unmatched_capture_is_all_new(
    generation: u64,
    shown: Seq<(Seq<char>, Seq<char>)>,
    current: Seq<(Seq<char>, Seq<char>)>,
)
    requires
        forall|j: int| 0 <= j < current.len() ==> shown.len() > 0 && !spec_lines_match(shown.last(), #[trigger] current[j]),
    ensures
        spec_pending((Some(generation), shown), generation, current) == current,
{
    if shown.len() > 0 {
        assert forall|s: int| !is_best_overlap(shown, current, s) by {
            if 0 <= s < current.len() {
                lemma_no_overlap(shown, current, s, overlap_bound(shown, current, s));
            }
        }
        assert(current.skip(0) =~= current);
    }
}

/// A message more than two edits away (in compared text) from the one
/// committed last is new: after committing `[a]`, the capture `[b]` yields
/// `[b]`.
pub proof fn lemma_different_message_is_new(generation: u64, a: (Seq<char>, Seq<char>), b: (Seq<char>, Seq<char>))
    requires
        edit_distance(comparison_text(a.1), comparison_text(b.1)) > 2,
    ensures
        spec_pending((Some(generation), seq![a]), generation, seq![b]) == seq![b],
{
    lemma_fuzzy_match_is_close(a.1, b.1);
    lemma_edit_distance_bounds(comparison_text(a.1), comparison_text(b.1));
    if comparison_text(a.1) == comparison_text(b.1) {
        lemma_edit_distance_same(comparison_text(a.1));
    }
    assert(!spec_lines_match(seq![a].last(), seq![b][0]));
    lemma_unmatched_capture_is_all_new(generation, seq![a], seq![b]);
}

} // verus!
