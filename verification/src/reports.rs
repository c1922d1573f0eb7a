//! Which reports are ingested, and in what order.
//!
//! A report is dated by its file name. The walk back through a directory takes
//! the newest report first; it passes over reports in another format until the
//! first in the current one, and ends at the next change of format.

use crate::number::{
    decimal_int, decimal_of_signed, lemma_padded, lemma_short_padded, padded, parse_i32, signed, ten_to, value,
};
use crate::text::{
    all_digits, chars_of, is_all_digits, is_digit, join, join_all, push_text, same, starts_with,
    string_of, strip_prefix, texts, to_upper, upper,
};
use vstd::prelude::*;

verus! {

/// The year that four digits from position `i` on give, from 1990 to 2100.
pub open spec fn year_at(stem: Seq<char>, i: int) -> Option<int> {
    let w = stem.subrange(i, i + 4);
    if all_digits(w) && 1990 <= value(w) <= 2100 {
        Some(value(w) as int)
    } else {
        None
    }
}

/// The first year at position `i` or behind it.
pub open spec fn year_from(stem: Seq<char>, i: int) -> Option<int>
    decreases stem.len() - i,
{
    if i < 0 || i + 4 > stem.len() {
        None
    } else if year_at(stem, i) is Some {
        year_at(stem, i)
    } else {
        year_from(stem, i + 1)
    }
}

/// The year in a file name such as `AFMER-2023`, without its extension.
pub fn year_from_path(stem: &str) -> (r: Option<i32>)
    ensures
        (match r {
            Some(y) => Some(y as int),
            None => None,
        }) == year_from(stem@, 0),
{
    let chars = chars_of(stem);
    let n: usize = chars.len();
    let mut i: usize = 0;
    while i < n && n - i >= 4
        invariant
            chars@ == stem@,
            n == chars@.len(),
            i <= n,
            year_from(stem@, 0) == year_from(stem@, i as int),
        decreases n - i,
    {
        let w = string_of(&chars, i, i + 4);
        if is_all_digits(w.as_str()) {
            proof {
                lemma_four_digits(w@);
            }
            if let Some(y) = parse_i32(w.as_str()) {
                if 1990 <= y && y <= 2100 {
                    return Some(y);
                }
            }
        }
        i += 1;
    }
    None
}

proof fn lemma_four_digits(w: Seq<char>)
    requires
        w.len() == 4,
        all_digits(w),
    ensures
        signed(w, i32::MAX as nat) == Some(value(w) as int),
{
    reveal_with_fuel(value, 5);
    assert(is_digit(w[0]) && is_digit(w[1]) && is_digit(w[2]) && is_digit(w[3]));
    assert(w.drop_last()[2] == w[2]);
    assert(w.drop_last().drop_last()[1] == w[1]);
    assert(w.drop_last().drop_last().drop_last()[0] == w[0]);
}

/// Whether a file of a directory is a report: a `.pdf` whose name begins with
/// `AFMER-` in any letter case.
pub open spec fn is_report(extension: Option<&str>, name: Seq<char>) -> bool {
    match extension {
        Some(e) => e@ == "pdf"@ && starts_with(upper(name), "AFMER-"@),
        None => false,
    }
}

/// The year of a report of a directory, none where the file is no report or its
/// name tells no year.
pub fn report_year(extension: Option<&str>, name: &str, stem: &str) -> (r: Option<i32>)
    ensures
        (match r {
            Some(y) => Some(y as int),
            None => None,
        }) == (if is_report(extension, name@) {
            year_from(stem@, 0)
        } else {
            None
        }),
{
    match extension {
        Some(e) => {
            let upper_name = to_upper(name);
            if same(e, "pdf") && strip_prefix(upper_name.as_str(), "AFMER-").is_some() {
                year_from_path(stem)
            } else {
                None
            }
        },
        None => None,
    }
}

/// Whether report `a` is taken before `b`: the newer first, of one year in the
/// order in which they were found.
pub open spec fn walks_before(years: Seq<i32>, a: int, b: int) -> bool {
    years[a] > years[b] || (years[a] == years[b] && a < b)
}

/// The year from which the walk goes back: the one that is asked for, else that
/// of the newest report.
pub open spec fn is_start(years: Seq<i32>, from: Option<i32>, start: i32) -> bool {
    match from {
        Some(y) => start == y,
        None => if years.len() == 0 {
            start == 0
        } else {
            years.contains(start) && forall|i: int|
                0 <= i < years.len() ==> #[trigger] years[i] <= start
        },
    }
}

/// Whether the order holds the reports up to the start among the first `n`, each
/// once, the newest first.
pub open spec fn is_walk(order: Seq<usize>, years: Seq<i32>, start: i32, n: int) -> bool {
    &&& forall|i: int|
        0 <= i < order.len() ==> (#[trigger] order[i]) < n && years[order[i] as int] <= start
    &&& forall|i: int, j: int|
        0 <= i < j < order.len() ==> walks_before(
            years,
            #[trigger] order[i] as int,
            #[trigger] order[j] as int,
        )
    &&& forall|k: int|
        0 <= k < n && #[trigger] years[k] <= start ==> exists|i: int|
            0 <= i < order.len() && #[trigger] order[i] == k
}

fn start_of(years: &Vec<i32>, from: Option<i32>) -> (r: i32)
    ensures
        is_start(years@, from, r),
{
    match from {
        Some(y) => y,
        None => {
            if years.len() == 0 {
                return 0;
            }
            let mut best: i32 = years[0];
            let mut i: usize = 1;
            while i < years.len()
                invariant
                    1 <= i <= years@.len(),
                    years@.contains(best),
                    forall|k: int| 0 <= k < i ==> #[trigger] years@[k] <= best,
                decreases years@.len() - i,
            {
                if years[i] > best {
                    best = years[i];
                }
                i += 1;
            }
            best
        },
    }
}

fn walk_order(years: &Vec<i32>, start: i32) -> (r: Vec<usize>)
    ensures
        is_walk(r@, years@, start, years@.len() as int),
{
    let mut order: Vec<usize> = Vec::new();
    let mut k: usize = 0;
    while k < years.len()
        invariant
            k <= years@.len(),
            is_walk(order@, years@, start, k as int),
        decreases years@.len() - k,
    {
        let ghost before = order@;
        if years[k] <= start {
            let mut at: usize = order.len();
            while at > 0 && years[order[at - 1]] < years[k]
                invariant
                    k < years@.len(),
                    at <= order@.len(),
                    before == order@,
                    is_walk(order@, years@, start, k as int),
                    forall|i: int|
                        at <= i < order@.len() ==> years@[#[trigger] before[i] as int] < years@[k as int],
                decreases at,
            {
                at -= 1;
            }
            order.insert(at, k);
            proof {
                lemma_walk_insert(before, years@, start, k, at as int);
            }
        }
        k += 1;
    }
    order
}

proof fn lemma_walk_insert(before: Seq<usize>, years: Seq<i32>, start: i32, k: usize, at: int)
    requires
        k < years.len(),
        is_walk(before, years, start, k as int),
        years[k as int] <= start,
        0 <= at <= before.len(),
        forall|i: int|
            at <= i < before.len() ==> years[#[trigger] before[i] as int] < years[k as int],
        at > 0 ==> years[before[at - 1] as int] >= years[k as int],
    ensures
        is_walk(before.insert(at, k), years, start, k + 1),
{
    let now = before.insert(at, k);
    assert forall|i: int| 0 <= i < now.len() implies (#[trigger] now[i]) < k + 1
        && years[now[i] as int] <= start by {
        if i < at {
            assert(now[i] == before[i]);
        } else if i > at {
            assert(now[i] == before[i - 1]);
        }
    }
    assert forall|i: int, j: int| 0 <= i < j < now.len() implies walks_before(
        years,
        #[trigger] now[i] as int,
        #[trigger] now[j] as int,
    ) by {
        if i == at {
            assert(now[j] == before[j - 1]);
        } else if j == at {
            assert(now[i] == before[i]);
            if i < at - 1 {
                assert(walks_before(years, before[i] as int, before[at - 1] as int));
            }
        } else {
            let ii = if i < at { i } else { i - 1 };
            let jj = if j < at { j } else { j - 1 };
            assert(now[i] == before[ii]);
            assert(now[j] == before[jj]);
        }
    }
    assert forall|c: int| 0 <= c < k + 1 && #[trigger] years[c] <= start implies exists|i: int|
        0 <= i < now.len() && #[trigger] now[i] == c by {
        if c == k {
            assert(now[at] == c);
        } else {
            let i = choose|i: int| 0 <= i < before.len() && #[trigger] before[i] == c;
            if i < at {
                assert(now[i] == before[i]);
            } else {
                assert(now[i + 1] == before[i]);
            }
        }
    }
}

/// A walk back through the reports of a directory.
pub struct Walk {
    years: Vec<i32>,
    start: i32,
    order: Vec<usize>,
    taken: usize,
    ingested: Vec<i32>,
    stopped: bool,
}

/// What a walk holds.
pub struct WalkText {
    pub years: Seq<i32>,
    pub start: i32,
    pub order: Seq<usize>,
    /// How many reports of the order were taken.
    pub taken: int,
    /// The years of the reports that were ingested, newest first.
    pub ingested: Seq<i32>,
    /// Whether the format changed.
    pub stopped: bool,
}

/// What became of a report.
#[derive(Clone, Copy, PartialEq, Eq, Debug)]
pub enum Step {
    /// The report was in the current format.
    Ingested,
    /// A newer report in another format was passed over.
    Skipped,
    /// The format changed: this report and the older ones are left.
    Stopped,
}

/// What becomes of a report.
pub open spec fn step_of(w: WalkText, matched: bool) -> Step {
    if matched {
        Step::Ingested
    } else if w.ingested.len() == 0 {
        Step::Skipped
    } else {
        Step::Stopped
    }
}

/// The walk after its next report.
pub open spec fn walked(w: WalkText, matched: bool) -> WalkText {
    WalkText {
        taken: w.taken + 1,
        ingested: if matched {
            w.ingested.push(w.years[w.order[w.taken] as int])
        } else {
            w.ingested
        },
        stopped: step_of(w, matched) is Stopped,
        ..w
    }
}

impl View for Walk {
    type V = WalkText;

    closed spec fn view(&self) -> WalkText {
        WalkText {
            years: self.years@,
            start: self.start,
            order: self.order@,
            taken: self.taken as int,
            ingested: self.ingested@,
            stopped: self.stopped,
        }
    }
}

/// Years from the newest to the oldest.
pub open spec fn is_descending(years: Seq<i32>) -> bool {
    forall|i: int, j: int| 0 <= i < j < years.len() ==> #[trigger] years[i] >= #[trigger] years[j]
}

/// What every walk keeps.
pub open spec fn is_sound(w: WalkText) -> bool {
    &&& is_walk(w.order, w.years, w.start, w.years.len() as int)
    &&& 0 <= w.taken <= w.order.len()
    &&& is_descending(w.ingested)
    &&& w.ingested.len() > 0 ==> w.taken > 0 && w.ingested.last() >= w.years[w.order[w.taken
        - 1] as int]
}

proof fn lemma_walked(w: WalkText, matched: bool)
    requires
        is_sound(w),
        w.taken < w.order.len(),
    ensures
        is_sound(walked(w, matched)),
{
    let next = walked(w, matched);
    let year = w.years[w.order[w.taken] as int];
    if w.taken > 0 {
        assert(walks_before(
            w.years,
            w.order[w.taken - 1] as int,
            w.order[w.taken] as int,
        ));
    }
    assert forall|i: int, j: int| 0 <= i < j < next.ingested.len() implies #[trigger] next.ingested[i]
        >= #[trigger] next.ingested[j] by {
        if j == w.ingested.len() {
            assert(w.ingested[i] >= w.ingested.last());
        }
    }
}

impl Walk {
    #[verifier::type_invariant]
    spec fn wf(&self) -> bool {
        is_sound(self@)
    }

    /// Begins a walk through reports of the given years, from a year that is
    /// asked for or else from the newest.
    pub fn begin(years: Vec<i32>, from: Option<i32>) -> (r: Walk)
        ensures
            r@.years == years@,
            is_start(years@, from, r@.start),
            is_walk(r@.order, years@, r@.start, years@.len() as int),
            r@.taken == 0,
            r@.ingested == Seq::<i32>::empty(),
            !r@.stopped,
    {
        let start: i32 = start_of(&years, from);
        let order = walk_order(&years, start);
        Walk { years, start, order, taken: 0, ingested: Vec::new(), stopped: false }
    }

    /// The year from which the walk goes back.
    pub fn start(&self) -> (r: i32)
        ensures
            r == self@.start,
    {
        self.start
    }

    /// The next report to try, none where the walk is over.
    pub fn next(&self) -> (r: Option<usize>)
        ensures
            r == (if self@.stopped || self@.taken == self@.order.len() {
                None
            } else {
                Some(self@.order[self@.taken])
            }),
            r matches Some(k) ==> k < self@.years.len() && self@.taken < self@.order.len(),
    {
        proof {
            use_type_invariant(self);
        }
        if self.stopped || self.taken >= self.order.len() {
            None
        } else {
            Some(self.order[self.taken])
        }
    }

    /// Goes on with whether the report was in the current format.
    pub fn take(self, matched: bool) -> (r: (Walk, Step))
        requires
            !self@.stopped,
            self@.taken < self@.order.len(),
        ensures
            r.0@ == walked(self@, matched),
            r.1 == step_of(self@, matched),
    {
        proof {
            use_type_invariant(&self);
            lemma_walked(self@, matched);
        }
        let ghost before = self@;
        let years = self.years;
        let order = self.order;
        let taken: usize = self.taken;
        let start: i32 = self.start;
        let mut ingested = self.ingested;
        let step = if matched {
            Step::Ingested
        } else if ingested.len() == 0 {
            Step::Skipped
        } else {
            Step::Stopped
        };
        if matched {
            ingested.push(years[order[taken]]);
        }
        let stopped = !matched && ingested.len() > 0;
        assert(taken < order.len());
        let w = Walk { years, start, order, taken: taken + 1, ingested, stopped };
        assert(w@ == walked(before, matched));
        (w, step)
    }

    /// The years of the reports that were ingested, oldest first.
    pub fn ingested(&self) -> (r: Vec<i32>)
        ensures
            r@ == self@.ingested.reverse(),
            forall|i: int, j: int| 0 <= i < j < r@.len() ==> #[trigger] r@[i] <= #[trigger] r@[j],
    {
        proof {
            use_type_invariant(self);
        }
        let mut out: Vec<i32> = Vec::new();
        let ghost all = self@.ingested.reverse();
        let mut i: usize = self.ingested.len();
        while i > 0
            invariant
                i <= self.ingested@.len(),
                all == self.ingested@.reverse(),
                out@ == all.take(self.ingested@.len() - i),
            decreases i,
        {
            i -= 1;
            out.push(self.ingested[i]);
            assert(out@ == all.take(self.ingested@.len() - i));
        }
        assert(all.take(all.len() as int) == all);
        assert forall|a: int, b: int| 0 <= a < b < out@.len() implies #[trigger] out@[a]
            <= #[trigger] out@[b] by {
            let n = self@.ingested.len() as int;
            assert(self@.ingested[n - 1 - b] >= self@.ingested[n - 1 - a]);
        }
        out
    }
}

pub open spec fn year_texts(years: Seq<i32>) -> Seq<Seq<char>> {
    Seq::new(years.len(), |i: int| decimal_int(years[i] as int))
}

/// Years with commas between them.
pub fn years_line(years: &Vec<i32>) -> (r: String)
    ensures
        r@ == join(year_texts(years@), ", "@),
{
    let ghost all = year_texts(years@);
    let mut parts: Vec<String> = Vec::new();
    let mut i: usize = 0;
    while i < years.len()
        invariant
            i <= years@.len(),
            all == year_texts(years@),
            texts(parts@) == all.take(i as int),
        decreases years@.len() - i,
    {
        push_text(&mut parts, decimal_of_signed(years[i] as i64));
        i += 1;
        assert(texts(parts@) == all.take(i as int));
    }
    assert(all.take(i as int) == all);
    join_all(&parts, ", ")
}

/// The walk after as many reports as there are results, as far as it goes.
pub open spec fn walked_all(w: WalkText, results: Seq<bool>) -> WalkText
    decreases results.len(),
{
    if results.len() == 0 {
        w
    } else {
        let before = walked_all(w, results.drop_last());
        if before.stopped {
            before
        } else {
            walked(before, results.last())
        }
    }
}

/// Whether a result is one of the first run of matches.
pub open spec fn in_first_run(results: Seq<bool>, i: int) -> bool {
    &&& 0 <= i < results.len()
    &&& results[i]
    &&& forall|a: int, b: int|
        0 <= a < b < i && #[trigger] results[a] ==> #[trigger] results[b]
}

/// The years of the reports of the first run of matches, newest first.
pub open spec fn first_run(w: WalkText, results: Seq<bool>) -> Seq<i32>
    decreases results.len(),
{
    if results.len() == 0 {
        Seq::empty()
    } else {
        let before = first_run(w, results.drop_last());
        if in_first_run(results, results.len() - 1) {
            before.push(w.years[w.order[results.len() - 1] as int])
        } else {
            before
        }
    }
}

/// A walk ingests exactly the first unbroken run of reports in the current
/// format: newer reports in another format are passed over, and the walk stops
/// at the first report behind the run.
pub proof fn law_walk_ingests_the_first_run(w: WalkText, results: Seq<bool>)
    requires
        w.taken == 0,
        w.ingested == Seq::<i32>::empty(),
        !w.stopped,
        results.len() <= w.order.len(),
    ensures
        walked_all(w, results).ingested == first_run(w, results),
        walked_all(w, results).stopped <==> exists|a: int, b: int|
            0 <= a < b < results.len() && #[trigger] results[a] && !#[trigger] results[b],
{
    lemma_walked_all(w, results);
}

proof fn lemma_walked_all(w: WalkText, results: Seq<bool>)
    requires
        w.taken == 0,
        w.ingested == Seq::<i32>::empty(),
        !w.stopped,
        results.len() <= w.order.len(),
    ensures
        ({
            let after = walked_all(w, results);
            &&& after.years == w.years
            &&& after.order == w.order
            &&& after.ingested == first_run(w, results)
            &&& !after.stopped ==> after.taken == results.len()
            &&& after.ingested.len() > 0 <==> exists|a: int|
                0 <= a < results.len() && #[trigger] results[a]
            &&& after.stopped <==> exists|a: int, b: int|
                0 <= a < b < results.len() && #[trigger] results[a] && !#[trigger] results[b]
        }),
    decreases results.len(),
{
    if results.len() > 0 {
        let front = results.drop_last();
        let n = results.len() - 1;
        lemma_walked_all(w, front);
        let before = walked_all(w, front);
        let after = walked_all(w, results);
        if before.ingested.len() > 0 {
            let a = choose|a: int| 0 <= a < front.len() && #[trigger] front[a];
            assert(results[a]);
        }
        if exists|a: int| 0 <= a < results.len() && #[trigger] results[a] {
            let a = choose|a: int| 0 <= a < results.len() && #[trigger] results[a];
            if a < n {
                assert(front[a]);
            }
        }
        if before.stopped {
            let (a, b) = choose|a: int, b: int|
                0 <= a < b < front.len() && #[trigger] front[a] && !#[trigger] front[b];
            assert(results[a] && !results[b]);
            assert(!in_first_run(results, n));
        } else {
            assert forall|a: int, b: int| 0 <= a < b < n && #[trigger] results[a] implies
                #[trigger] results[b] by {
                assert(front[a]);
                assert(front[b]);
            }
            if results[n] {
                assert(in_first_run(results, n));
                assert(after.ingested.last() == w.years[w.order[n] as int]);
            } else if before.ingested.len() > 0 {
                let a = choose|a: int| 0 <= a < front.len() && #[trigger] front[a];
                assert(results[a] && !results[n]);
            }
            if after.stopped {
                let a = choose|a: int| 0 <= a < front.len() && #[trigger] front[a];
                assert(results[a] && !results[n]);
            } else if exists|a: int, b: int|
                0 <= a < b < results.len() && #[trigger] results[a] && !#[trigger] results[b] {
                let (a, b) = choose|a: int, b: int|
                    0 <= a < b < results.len() && #[trigger] results[a] && !#[trigger] results[b];
                if b < n {
                    assert(front[a] && !front[b]);
                } else {
                    assert(front[a]);
                }
            }
        }
    }
}

proof fn lemma_no_year_in_front(stem: Seq<char>, i: int, k: int)
    requires
        0 <= i <= k <= stem.len(),
        forall|j: int| 0 <= j < k ==> !is_digit(#[trigger] stem[j]),
    ensures
        year_from(stem, i) == year_from(stem, k),
    decreases k - i,
{
    if i < k {
        lemma_no_year_in_front(stem, i + 1, k);
        if i + 4 <= stem.len() {
            let w = stem.subrange(i, i + 4);
            assert(w[0] == stem[i]);
            assert(!all_digits(w));
        }
    }
}

/// The year of a report is the one that its name tells behind letters and
/// hyphens, whatever follows.
pub proof fn law_report_name_tells_its_year(front: Seq<char>, year: nat, rest: Seq<char>)
    requires
        1990 <= year <= 2100,
        forall|j: int| 0 <= j < front.len() ==> !is_digit(#[trigger] front[j]),
    ensures
        year_from(front + padded(year, 4) + rest, 0) == Some(year as int),
{
    let digits = padded(year, 4);
    let stem = front + digits + rest;
    let k = front.len() as int;
    reveal_with_fuel(ten_to, 5);
    lemma_short_padded(year, 4);
    lemma_padded(year, 4);
    assert forall|j: int| 0 <= j < k implies !is_digit(#[trigger] stem[j]) by {
        assert(stem[j] == front[j]);
    }
    lemma_no_year_in_front(stem, 0, k);
    assert(stem.subrange(k, k + 4) == digits);
}

/// The year of a name is from 1990 to 2100 and stands in it as four digits, and no
/// such year stands in front of it.
pub proof fn law_year_is_the_first_in_range(stem: Seq<char>, from: int)
    requires
        0 <= from,
    ensures
        year_from(stem, from) matches Some(y) ==> 1990 <= y <= 2100 && exists|i: int|
            from <= i <= stem.len() - 4 && all_digits(#[trigger] stem.subrange(i, i + 4)) && value(
                stem.subrange(i, i + 4),
            ) == y && forall|j: int|
                from <= j < i ==> !(all_digits(#[trigger] stem.subrange(j, j + 4)) && 1990
                    <= value(stem.subrange(j, j + 4)) <= 2100),
        year_from(stem, from) is None ==> forall|j: int|
            from <= j <= stem.len() - 4 ==> !(all_digits(#[trigger] stem.subrange(j, j + 4))
                && 1990 <= value(stem.subrange(j, j + 4)) <= 2100),
    decreases stem.len() - from,
{
    if from + 4 <= stem.len() {
        let w = stem.subrange(from, from + 4);
        if year_at(stem, from) is None {
            law_year_is_the_first_in_range(stem, from + 1);
            if let Some(y) = year_from(stem, from + 1) {
                let i = choose|i: int|
                    from + 1 <= i <= stem.len() - 4 && all_digits(
                        #[trigger] stem.subrange(i, i + 4),
                    ) && value(stem.subrange(i, i + 4)) == y && forall|j: int|
                        from + 1 <= j < i ==> !(all_digits(#[trigger] stem.subrange(j, j + 4))
                            && 1990 <= value(stem.subrange(j, j + 4)) <= 2100);
                assert forall|j: int| from <= j < i implies !(all_digits(
                    #[trigger] stem.subrange(j, j + 4),
                ) && 1990 <= value(stem.subrange(j, j + 4)) <= 2100) by {
                    if j == from {
                        assert(stem.subrange(j, j + 4) == w);
                    }
                }
                assert(all_digits(stem.subrange(i, i + 4)));
            } else {
                assert forall|j: int| from <= j <= stem.len() - 4 implies !(all_digits(
                    #[trigger] stem.subrange(j, j + 4),
                ) && 1990 <= value(stem.subrange(j, j + 4)) <= 2100) by {
                    if j == from {
                        assert(stem.subrange(j, j + 4) == w);
                    }
                }
            }
        } else {
            assert(all_digits(stem.subrange(from, from + 4)));
        }
    }
}

/// A walk takes every report up to the year that it starts from, and none of a later
/// year; a newer report comes before an older one, and of one year the one that was
/// found first. It starts from the year that is asked for, else from the newest.
pub proof fn law_walk_goes_back_from_its_start(
    order: Seq<usize>,
    years: Seq<i32>,
    from: Option<i32>,
    start: i32,
    k: int,
    i: int,
    j: int,
)
    requires
        is_walk(order, years, start, years.len() as int),
        is_start(years, from, start),
        0 <= k < years.len(),
    ensures
        from matches Some(y) ==> start == y,
        from is None ==> years[k] <= start && exists|m: int|
            0 <= m < years.len() && #[trigger] years[m] == start,
        years[k] <= start <==> exists|m: int| 0 <= m < order.len() && #[trigger] order[m] == k,
        0 <= i < j < order.len() ==> {
            &&& years[order[i] as int] >= years[order[j] as int]
            &&& years[order[i] as int] == years[order[j] as int] ==> order[i] < order[j]
            &&& order[i] != order[j]
        },
{
    if 0 <= i < j < order.len() {
        assert(walks_before(years, order[i] as int, order[j] as int));
    }
    if exists|m: int| 0 <= m < order.len() && #[trigger] order[m] == k {
        let m = choose|m: int| 0 <= m < order.len() && #[trigger] order[m] == k;
        assert(years[order[m] as int] <= start);
    }
    assert(years[k] <= years[k]);
}

/// A report in the current format is ingested for its year. One in another format is
/// passed over where none was ingested yet, and else ends the walk.
pub proof fn law_reports_are_taken_one_by_one(w: WalkText, matched: bool)
    requires
        !w.stopped,
    ensures
        ({
            let after = walked(w, matched);
            &&& after.taken == w.taken + 1
            &&& after.years == w.years && after.order == w.order && after.start == w.start
            &&& matched ==> after.ingested == w.ingested.push(w.years[w.order[w.taken] as int])
                && !after.stopped && step_of(w, matched) is Ingested
            &&& !matched ==> after.ingested == w.ingested
            &&& !matched && w.ingested.len() == 0 ==> !after.stopped && step_of(
                w,
                matched,
            ) is Skipped
            &&& !matched && w.ingested.len() > 0 ==> after.stopped && step_of(w, matched) is Stopped
        }),
{
}

/// A file of a directory is a report exactly where it is a PDF whose name begins with
/// `AFMER-`, in any letter case.
pub proof fn law_reports_are_named(extension: Option<&str>, name: Seq<char>)
    ensures
        is_report(extension, name) <==> (extension matches Some(e) && e@ == "pdf"@ && name.len()
            >= 6 && upper(name).take(6) == "AFMER-"@),
{
    reveal_strlit("AFMER-");
    assert("AFMER-"@.len() == 6);
}

} // verus!
