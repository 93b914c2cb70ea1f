//! The built-in scoring templates: the totals that every scoring script can read from its
//! context before it ranks anything of its own.
use vstd::prelude::*;

use crate::error::ResponseError;
use crate::results::ResultStatus;
use crate::scoring::{
    entry_view, lemma_plans_unique, output_view, plan_view, planned, EntryView, ScriptEntry,
    ScriptOutput, SnapshotPlan, StoredSnapshot,
};

verus! {

/// The fields of an approved result that the templates read.
#[derive(Clone, Copy, Debug)]
pub struct ResultRow {
    pub id: i64,
    pub registration_id: i64,
    pub chart_id: i64,
    pub score: i64,
    pub accuracy_millionths: i64,
}

/// A chart and its weight in millionths.
#[derive(Clone, Copy, Debug)]
pub struct ChartWeight {
    pub id: i64,
    pub weight_millionths: i64,
}

/// A registration's membership of a team.
#[derive(Clone, Copy, Debug)]
pub struct TeamMember {
    pub team_id: i64,
    pub registration_id: i64,
}

/// A running total of one registration (or team): its score and the sum that breaks its ties.
#[derive(Clone, Copy, Debug)]
pub struct Total {
    pub id: i64,
    pub score: i64,
    pub tie: i64,
}

/// `x` clamped to the range of `i64`.
pub open spec fn clamp(x: int) -> i64 {
    if x > i64::MAX {
        i64::MAX
    } else if x < i64::MIN {
        i64::MIN
    } else {
        x as i64
    }
}

/// `a + b`, saturating at the bounds of `i64`.
pub fn sat_add(a: i64, b: i64) -> (r: i64)
    ensures
        r == clamp(a + b),
{
    let s: i128 = a as i128 + b as i128;
    if s > i64::MAX as i128 {
        i64::MAX
    } else if s < i64::MIN as i128 {
        i64::MIN
    } else {
        s as i64
    }
}

/// `a * b`, saturating at the bounds of `i64`.
pub fn sat_mul(a: i64, b: i64) -> (r: i64)
    ensures
        r == clamp(a * b),
{
    let x: i128 = a as i128;
    let y: i128 = b as i128;
    assert(-0x8000_0000_0000_0000 <= x <= 0x7fff_ffff_ffff_ffff);
    assert(-0x8000_0000_0000_0000 <= y <= 0x7fff_ffff_ffff_ffff);
    assert(-0x4000_0000_0000_0000_0000_0000_0000_0000 <= x * y
        <= 0x4000_0000_0000_0000_0000_0000_0000_0000) by (nonlinear_arith)
        requires
            -0x8000_0000_0000_0000 <= x <= 0x7fff_ffff_ffff_ffff,
            -0x8000_0000_0000_0000 <= y <= 0x7fff_ffff_ffff_ffff,
    ;
    let p: i128 = x * y;
    if p > i64::MAX as i128 {
        i64::MAX
    } else if p < i64::MIN as i128 {
        i64::MIN
    } else {
        p as i64
    }
}

/// Division that rounds toward zero, as Rust's `/` on integers does.
pub open spec fn trunc_div(x: int, d: int) -> int {
    if x >= 0 {
        x / d
    } else {
        -((-x) / d)
    }
}

/// Two results belong to the same registration and chart.
pub open spec fn same_key(a: ResultRow, b: ResultRow) -> bool {
    a.registration_id == b.registration_id && a.chart_id == b.chart_id
}

/// `a` beats `b`: a higher score, then a higher accuracy, then (when `by_id`) a lower id.
pub open spec fn beats(a: ResultRow, b: ResultRow, by_id: bool) -> bool {
    ||| a.score > b.score
    ||| a.score == b.score && a.accuracy_millionths > b.accuracy_millionths
    ||| a.score == b.score && a.accuracy_millionths == b.accuracy_millionths && by_id && a.id
        < b.id
}

/// The index of the first row of `s` with the key of `row`, or -1.
pub open spec fn find_key(s: Seq<ResultRow>, row: ResultRow) -> int
    decreases s.len(),
{
    if s.len() == 0 {
        -1
    } else if same_key(s[0], row) {
        0
    } else {
        let k = find_key(s.drop_first(), row);
        if k < 0 {
            -1
        } else {
            k + 1
        }
    }
}

proof fn lemma_find_key(s: Seq<ResultRow>, row: ResultRow)
    ensures
        -1 <= find_key(s, row) < s.len(),
        find_key(s, row) >= 0 ==> same_key(s[find_key(s, row)], row),
        forall|j: int| 0 <= j < s.len() && (find_key(s, row) < 0 || j < find_key(s, row)) ==> !same_key(#[trigger] s[j], row),
    decreases s.len(),
{
    if s.len() > 0 {
        lemma_find_key(s.drop_first(), row);
        assert forall|j: int| 0 <= j < s.len() && (find_key(s, row) < 0 || j < find_key(s, row)) implies !same_key(#[trigger] s[j], row) by {
            if j > 0 {
                assert(s[j] == s.drop_first()[j - 1]);
            }
        }
    }
}

/// The running best rows after one more result: a row with a new key is appended; a row that
/// beats the kept row of its key takes its place.
pub open spec fn keep_best(best: Seq<ResultRow>, row: ResultRow, by_id: bool) -> Seq<ResultRow> {
    let k = find_key(best, row);
    if k < 0 {
        best.push(row)
    } else if beats(row, best[k], by_id) {
        best.update(k, row)
    } else {
        best
    }
}

/// The best row of each registration and chart, in the order in which the keys first occur.
pub open spec fn best_rows(rows: Seq<ResultRow>, by_id: bool) -> Seq<ResultRow>
    decreases rows.len(),
{
    if rows.len() == 0 {
        seq![]
    } else {
        keep_best(best_rows(rows.drop_last(), by_id), rows.last(), by_id)
    }
}

fn find_row(best: &Vec<ResultRow>, row: &ResultRow) -> (k: Option<usize>)
    ensures
        match k {
            Some(i) => i < best@.len() && i == find_key(best@, *row),
            None => find_key(best@, *row) == -1,
        },
{
    proof {
        lemma_find_key(best@, *row);
    }
    let mut i: usize = 0;
    while i < best.len()
        invariant
            i <= best.len(),
            forall|j: int| 0 <= j < i ==> !same_key(#[trigger] best@[j], *row),
            -1 <= find_key(best@, *row) < best@.len(),
            find_key(best@, *row) >= 0 ==> same_key(best@[find_key(best@, *row)], *row),
            forall|j: int| 0 <= j < best@.len() && (find_key(best@, *row) < 0 || j < find_key(best@, *row)) ==> !same_key(#[trigger] best@[j], *row),
        decreases best.len() - i,
    {
        if best[i].registration_id == row.registration_id && best[i].chart_id == row.chart_id {
            return Some(i);
        }
        i = i + 1;
    }
    None
}

fn row_beats(a: &ResultRow, b: &ResultRow, by_id: bool) -> (r: bool)
    ensures
        r == beats(*a, *b, by_id),
{
    a.score > b.score || (a.score == b.score && a.accuracy_millionths > b.accuracy_millionths) || (
    a.score == b.score && a.accuracy_millionths == b.accuracy_millionths && by_id && a.id < b.id)
}

/// The best row of each registration and chart.
pub fn collect_best(rows: &[ResultRow], by_id: bool) -> (best: Vec<ResultRow>)
    ensures
        best@ == best_rows(rows@, by_id),
{
    let mut best: Vec<ResultRow> = Vec::new();
    let mut i: usize = 0;
    while i < rows.len()
        invariant
            i <= rows.len(),
            best@ == best_rows(rows@.take(i as int), by_id),
        decreases rows.len() - i,
    {
        let row = rows[i];
        assert(rows@.take(i + 1).drop_last() =~= rows@.take(i as int));
        assert(rows@.take(i + 1).last() == row);
        match find_row(&best, &row) {
            Some(k) => {
                if row_beats(&row, &best[k], by_id) {
                    best.set(k, row);
                }
            },
            None => {
                best.push(row);
            },
        }
        i = i + 1;
    }
    assert(rows@.take(rows.len() as int) =~= rows@);
    best
}

/// The index of the first total with id `id`, or -1.
pub open spec fn find_total(s: Seq<Total>, id: i64) -> int
    decreases s.len(),
{
    if s.len() == 0 {
        -1
    } else if s[0].id == id {
        0
    } else {
        let k = find_total(s.drop_first(), id);
        if k < 0 {
            -1
        } else {
            k + 1
        }
    }
}

proof fn lemma_find_total(s: Seq<Total>, id: i64)
    ensures
        -1 <= find_total(s, id) < s.len(),
        find_total(s, id) >= 0 ==> s[find_total(s, id)].id == id,
        forall|j: int| 0 <= j < s.len() && (find_total(s, id) < 0 || j < find_total(s, id)) ==> (#[trigger] s[j]).id != id,
    decreases s.len(),
{
    if s.len() > 0 {
        lemma_find_total(s.drop_first(), id);
        assert forall|j: int| 0 <= j < s.len() && (find_total(s, id) < 0 || j < find_total(s, id)) implies (#[trigger] s[j]).id != id by {
            if j > 0 {
                assert(s[j] == s.drop_first()[j - 1]);
            }
        }
    }
}

/// The totals after adding `score` and `tie` to those of `id` with saturating additions; an
/// id that has no total yet is appended, starting from zero.
pub open spec fn add_total(totals: Seq<Total>, id: i64, score: i64, tie: i64) -> Seq<Total> {
    let k = find_total(totals, id);
    if k < 0 {
        totals.push(Total { id, score, tie })
    } else {
        totals.update(
            k,
            Total {
                id,
                score: clamp(totals[k].score + score),
                tie: clamp(totals[k].tie + tie),
            },
        )
    }
}

fn find_total_index(totals: &Vec<Total>, id: i64) -> (k: Option<usize>)
    ensures
        match k {
            Some(i) => i < totals@.len() && i == find_total(totals@, id),
            None => find_total(totals@, id) == -1,
        },
{
    proof {
        lemma_find_total(totals@, id);
    }
    let mut i: usize = 0;
    while i < totals.len()
        invariant
            i <= totals.len(),
            forall|j: int| 0 <= j < i ==> (#[trigger] totals@[j]).id != id,
            -1 <= find_total(totals@, id) < totals@.len(),
            find_total(totals@, id) >= 0 ==> totals@[find_total(totals@, id)].id == id,
            forall|j: int| 0 <= j < totals@.len() && (find_total(totals@, id) < 0 || j < find_total(totals@, id)) ==> (#[trigger] totals@[j]).id != id,
        decreases totals.len() - i,
    {
        if totals[i].id == id {
            return Some(i);
        }
        i = i + 1;
    }
    None
}

fn add_to_totals(totals: &mut Vec<Total>, id: i64, score: i64, tie: i64)
    ensures
        final(totals)@ == add_total(old(totals)@, id, score, tie),
{
    match find_total_index(totals, id) {
        Some(k) => {
            let t = totals[k];
            let s = sat_add(t.score, score);
            let a = sat_add(t.tie, tie);
            totals.set(k, Total { id, score: s, tie: a });
        },
        None => {
            totals.push(Total { id, score, tie });
        },
    }
}

/// The weight of chart `id`: that of the last chart listed with the id, or one million
/// millionths when none is.
pub open spec fn weight_of(charts: Seq<ChartWeight>, id: i64) -> i64
    decreases charts.len(),
{
    if charts.len() == 0 {
        1_000_000
    } else if charts.last().id == id {
        charts.last().weight_millionths
    } else {
        weight_of(charts.drop_last(), id)
    }
}

fn chart_weight(charts: &[ChartWeight], id: i64) -> (w: i64)
    ensures
        w == weight_of(charts@, id),
{
    let mut i: usize = charts.len();
    assert(charts@.take(i as int) =~= charts@);
    while i > 0
        invariant
            i <= charts.len(),
            weight_of(charts@, id) == weight_of(charts@.take(i as int), id),
        decreases i,
    {
        assert(charts@.take(i as int).last() == charts@[i - 1]);
        assert(charts@.take(i as int).drop_last() =~= charts@.take(i - 1));
        if charts[i - 1].id == id {
            return charts[i - 1].weight_millionths;
        }
        i = i - 1;
    }
    assert(charts@.take(0) =~= Seq::<ChartWeight>::empty());
    1_000_000
}

/// What a best row adds to its registration's score: the score itself or, weighted, the
/// score times the chart's weight (saturating) divided by one million, rounded toward zero.
pub open spec fn contribution(row: ResultRow, charts: Seq<ChartWeight>, weighted: bool) -> i64 {
    if weighted {
        trunc_div(clamp(row.score * weight_of(charts, row.chart_id)) as int, 1_000_000) as i64
    } else {
        row.score
    }
}

/// The totals of the rows `best`, in the order in which the registrations first occur.
pub open spec fn sum_best(best: Seq<ResultRow>, charts: Seq<ChartWeight>, weighted: bool) -> Seq<
    Total,
>
    decreases best.len(),
{
    if best.len() == 0 {
        seq![]
    } else {
        let row = best.last();
        add_total(
            sum_best(best.drop_last(), charts, weighted),
            row.registration_id,
            contribution(row, charts, weighted),
            row.accuracy_millionths,
        )
    }
}

/// Each registration's total over its best row of each chart (the best by score, then
/// accuracy, then the lower id).
pub open spec fn aggregate_best(rows: Seq<ResultRow>, charts: Seq<ChartWeight>, weighted: bool) -> Seq<Total> {
    sum_best(best_rows(rows, true), charts, weighted)
}

/// Each registration's total over all its rows.
pub open spec fn all_totals(rows: Seq<ResultRow>) -> Seq<Total>
    decreases rows.len(),
{
    if rows.len() == 0 {
        seq![]
    } else {
        add_total(
            all_totals(rows.drop_last()),
            rows.last().registration_id,
            rows.last().score,
            rows.last().accuracy_millionths,
        )
    }
}

fn sum_rows(best: &Vec<ResultRow>, charts: &[ChartWeight], weighted: bool) -> (totals: Vec<Total>)
    ensures
        totals@ == sum_best(best@, charts@, weighted),
{
    let mut totals: Vec<Total> = Vec::new();
    let mut i: usize = 0;
    while i < best.len()
        invariant
            i <= best.len(),
            totals@ == sum_best(best@.take(i as int), charts@, weighted),
        decreases best.len() - i,
    {
        let row = best[i];
        assert(best@.take(i + 1).drop_last() =~= best@.take(i as int));
        assert(best@.take(i + 1).last() == row);
        let score = if weighted {
            let w = chart_weight(charts, row.chart_id);
            sat_mul(row.score, w) / 1_000_000
        } else {
            row.score
        };
        add_to_totals(&mut totals, row.registration_id, score, row.accuracy_millionths);
        i = i + 1;
    }
    assert(best@.take(best.len() as int) =~= best@);
    totals
}

/// Each registration's total over its best row of each chart, weighted or not.
pub fn aggregate(rows: &[ResultRow], charts: &[ChartWeight], weighted: bool) -> (totals: Vec<Total>)
    ensures
        totals@ == aggregate_best(rows@, charts@, weighted),
{
    let best = collect_best(rows, true);
    sum_rows(&best, charts, weighted)
}

/// Each registration's total over all its rows.
pub fn total_all(rows: &[ResultRow]) -> (totals: Vec<Total>)
    ensures
        totals@ == all_totals(rows@),
{
    let mut totals: Vec<Total> = Vec::new();
    let mut i: usize = 0;
    while i < rows.len()
        invariant
            i <= rows.len(),
            totals@ == all_totals(rows@.take(i as int)),
        decreases rows.len() - i,
    {
        let row = rows[i];
        assert(rows@.take(i + 1).drop_last() =~= rows@.take(i as int));
        assert(rows@.take(i + 1).last() == row);
        add_to_totals(&mut totals, row.registration_id, row.score, row.accuracy_millionths);
        i = i + 1;
    }
    assert(rows@.take(rows.len() as int) =~= rows@);
    totals
}

/// How many of the rows `s` on the chart of `p` beat it on score, then accuracy.
pub open spec fn better_on_chart(s: Seq<ResultRow>, p: ResultRow) -> nat
    decreases s.len(),
{
    if s.len() == 0 {
        0
    } else {
        better_on_chart(s.drop_last(), p) + if s.last().chart_id == p.chart_id && beats(
            s.last(),
            p,
            false,
        ) {
            1nat
        } else {
            0nat
        }
    }
}

/// The points of a chart rank: 1000 for the first, 50 fewer for each rank below, never fewer
/// than none. `beaten_by` is the number of rows that beat the row, so its rank is one more.
pub open spec fn rank_points(beaten_by: nat) -> int {
    if beaten_by < 20 {
        1000 - 50 * beaten_by
    } else {
        0
    }
}

/// The point totals after adding `points` and `score` to those of `id` with plain additions,
/// or `None` once a sum leaves the range of `i64`.
pub open spec fn add_points(totals: Option<Seq<Total>>, id: i64, points: int, score: i64) -> Option<
    Seq<Total>,
> {
    match totals {
        None => None,
        Some(t) => {
            let k = find_total(t, id);
            if k < 0 {
                Some(t.push(Total { id, score: points as i64, tie: score }))
            } else {
                let a = t[k].score + points;
                let b = t[k].tie + score;
                if i64::MIN <= a <= i64::MAX && i64::MIN <= b <= i64::MAX {
                    Some(t.update(k, Total { id, score: a as i64, tie: b as i64 }))
                } else {
                    None
                }
            }
        },
    }
}

/// The point totals of the rows `s`, each ranked among all rows `all` of its chart.
pub open spec fn point_fold(s: Seq<ResultRow>, all: Seq<ResultRow>) -> Option<Seq<Total>>
    decreases s.len(),
{
    if s.len() == 0 {
        Some(seq![])
    } else {
        add_points(
            point_fold(s.drop_last(), all),
            s.last().registration_id,
            rank_points(better_on_chart(all, s.last())),
            s.last().score,
        )
    }
}

/// Each registration's rank points: its best row of each chart (by score, then accuracy) earns
/// the points of its rank on that chart, where rows that tie share a rank; the tie-breaking sum
/// is the sum of those rows' scores. `None` when a sum does not fit in `i64`.
pub open spec fn rank_point_totals(rows: Seq<ResultRow>) -> Option<Seq<Total>> {
    point_fold(best_rows(rows, false), best_rows(rows, false))
}

proof fn lemma_point_fold_prefix(s: Seq<ResultRow>, all: Seq<ResultRow>, k: int)
    requires
        0 <= k <= s.len(),
        point_fold(s, all) is Some,
    ensures
        point_fold(s.take(k), all) is Some,
    decreases s.len(),
{
    if k < s.len() {
        assert(s.drop_last().take(k) =~= s.take(k));
        lemma_point_fold_prefix(s.drop_last(), all, k);
    } else {
        assert(s.take(k) =~= s);
    }
}

fn count_better(all: &Vec<ResultRow>, p: &ResultRow) -> (c: usize)
    ensures
        c == better_on_chart(all@, *p),
{
    let mut c: usize = 0;
    let mut i: usize = 0;
    while i < all.len()
        invariant
            i <= all.len(),
            c <= i,
            c == better_on_chart(all@.take(i as int), *p),
        decreases all.len() - i,
    {
        assert(all@.take(i + 1).drop_last() =~= all@.take(i as int));
        assert(all@.take(i + 1).last() == all@[i as int]);
        if all[i].chart_id == p.chart_id && row_beats(&all[i], p, false) {
            c = c + 1;
        }
        i = i + 1;
    }
    assert(all@.take(all.len() as int) =~= all@);
    c
}

fn points_of(beaten_by: usize) -> (p: i64)
    ensures
        p == rank_points(beaten_by as nat),
{
    if beaten_by < 20 {
        1000 - 50 * (beaten_by as i64)
    } else {
        0
    }
}

/// Each registration's rank points and the sum of the scores that earned them, or `None` when a
/// sum does not fit in `i64`.
pub fn total_points_checked(rows: &[ResultRow]) -> (totals: Option<Vec<Total>>)
    ensures
        match totals {
            Some(v) => Some(v@) == rank_point_totals(rows@),
            None => rank_point_totals(rows@) is None,
        },
{
    let best = collect_best(rows, false);
    let mut totals: Vec<Total> = Vec::new();
    let mut i: usize = 0;
    while i < best.len()
        invariant
            i <= best.len(),
            best@ == best_rows(rows@, false),
            Some(totals@) == point_fold(best@.take(i as int), best@),
        decreases best.len() - i,
    {
        let row = best[i];
        assert(best@.take(i + 1).drop_last() =~= best@.take(i as int));
        assert(best@.take(i + 1).last() == row);
        proof {
            lemma_find_total(totals@, row.registration_id);
        }
        let points = points_of(count_better(&best, &row));
        match find_total_index(&totals, row.registration_id) {
            Some(k) => {
                let t = totals[k];
                let sum_score = t.score.checked_add(points);
                let sum_tie = t.tie.checked_add(row.score);
                if sum_score.is_none() || sum_tie.is_none() {
                    proof {
                        assert(totals@[k as int] == t);
                        assert(point_fold(best@.take(i + 1), best@) == add_points(
                            Some(totals@),
                            row.registration_id,
                            rank_points(better_on_chart(best@, row)),
                            row.score,
                        ));
                        assert(point_fold(best@.take(i + 1), best@) is None);
                        if point_fold(best@, best@) is Some {
                            lemma_point_fold_prefix(best@, best@, i + 1);
                        }
                    }
                    return None;
                }
                let score = sum_score.unwrap();
                let tie = sum_tie.unwrap();
                totals.set(k, Total { id: row.registration_id, score, tie });
            },
            None => {
                totals.push(Total { id: row.registration_id, score: points, tie: row.score });
            },
        }
        i = i + 1;
    }
    assert(best@.take(best.len() as int) =~= best@);
    Some(totals)
}

/// Each registration's rank points and the sum of the scores that earned them.
pub fn total_points(rows: &[ResultRow]) -> (totals: Vec<Total>)
    requires
        rank_point_totals(rows@) is Some,
    ensures
        Some(totals@) == rank_point_totals(rows@),
{
    total_points_checked(rows).unwrap()
}

/// A script entry made of a total: its id, its score and, as the one tie-breaker, its
/// tie-breaking sum, with no breakdown.
pub open spec fn entry_is_total(e: ScriptEntry, t: Total) -> bool {
    &&& e.id == t.id
    &&& e.score == t.score
    &&& e.tie_breakers@ == seq![t.tie]
    &&& e.breakdown is None
}

/// The entries `es` are the totals `ts`, in their order.
pub open spec fn entries_are(es: Seq<ScriptEntry>, ts: Seq<Total>) -> bool {
    es.len() == ts.len() && forall|i: int| 0 <= i < ts.len() ==> entry_is_total(#[trigger] es[i], ts[i])
}

/// The totals as script entries.
pub fn entries_from_totals(totals: &Vec<Total>) -> (es: Vec<ScriptEntry>)
    ensures
        entries_are(es@, totals@),
{
    let mut es: Vec<ScriptEntry> = Vec::new();
    let mut i: usize = 0;
    while i < totals.len()
        invariant
            i <= totals.len(),
            entries_are(es@, totals@.take(i as int)),
        decreases totals.len() - i,
    {
        let t = totals[i];
        let tie_breakers: Vec<i64> = vec![t.tie];
        assert(tie_breakers@ =~= seq![t.tie]);
        es.push(ScriptEntry { id: t.id, score: t.score, tie_breakers, breakdown: None });
        i = i + 1;
    }
    assert(totals@.take(totals.len() as int) =~= totals@);
    es
}

/// The team of registration `reg`: that of the last membership listed for it.
pub open spec fn team_of(members: Seq<TeamMember>, reg: i64) -> Option<i64>
    decreases members.len(),
{
    if members.len() == 0 {
        None
    } else if members.last().registration_id == reg {
        Some(members.last().team_id)
    } else {
        team_of(members.drop_last(), reg)
    }
}

fn find_team(members: &[TeamMember], reg: i64) -> (t: Option<i64>)
    ensures
        t == team_of(members@, reg),
{
    let mut i: usize = members.len();
    assert(members@.take(i as int) =~= members@);
    while i > 0
        invariant
            i <= members.len(),
            team_of(members@, reg) == team_of(members@.take(i as int), reg),
        decreases i,
    {
        assert(members@.take(i as int).last() == members@[i - 1]);
        assert(members@.take(i as int).drop_last() =~= members@.take(i - 1));
        if members[i - 1].registration_id == reg {
            return Some(members[i - 1].team_id);
        }
        i = i - 1;
    }
    assert(members@.take(0) =~= Seq::<TeamMember>::empty());
    None
}

/// What a team total reads of a member's entry: its id, its score and its first tie-breaker.
#[derive(Clone, Copy, Debug)]
pub struct Pick {
    pub id: i64,
    pub score: i64,
    pub first_tie: Option<i64>,
}

pub open spec fn pick_of(e: ScriptEntry) -> Pick {
    Pick {
        id: e.id,
        score: e.score,
        first_tie: if e.tie_breakers@.len() > 0 {
            Some(e.tie_breakers@[0])
        } else {
            None
        },
    }
}

/// The teams of the picks `ps`, in the order in which they first occur; picks of registrations
/// without a team are passed over.
pub open spec fn team_order(ps: Seq<Pick>, members: Seq<TeamMember>) -> Seq<i64>
    decreases ps.len(),
{
    if ps.len() == 0 {
        seq![]
    } else {
        let order = team_order(ps.drop_last(), members);
        match team_of(members, ps.last().id) {
            Some(t) => if order.contains(t) {
                order
            } else {
                order.push(t)
            },
            None => order,
        }
    }
}

/// The picks of the members of `team`, in their order in `ps`.
pub open spec fn members_of(ps: Seq<Pick>, members: Seq<TeamMember>, team: i64) -> Seq<Pick>
    decreases ps.len(),
{
    if ps.len() == 0 {
        seq![]
    } else if team_of(members, ps.last().id) == Some(team) {
        members_of(ps.drop_last(), members, team).push(ps.last())
    } else {
        members_of(ps.drop_last(), members, team)
    }
}

/// `a` is counted before `b`: a higher score, then a lower id.
pub open spec fn pick_before(a: Pick, b: Pick) -> bool {
    a.score > b.score || (a.score == b.score && a.id < b.id)
}

/// `x` inserted into `s` before the first pick that it is counted before.
pub open spec fn insert_pick(s: Seq<Pick>, x: Pick) -> Seq<Pick>
    decreases s.len(),
{
    if s.len() == 0 {
        seq![x]
    } else if pick_before(x, s[0]) {
        seq![x] + s
    } else {
        seq![s[0]] + insert_pick(s.drop_first(), x)
    }
}

/// The picks in counting order, highest score first, then lowest id; picks that tie on both
/// keep their order.
pub open spec fn sort_picks(s: Seq<Pick>) -> Seq<Pick>
    decreases s.len(),
{
    if s.len() == 0 {
        seq![]
    } else {
        insert_pick(sort_picks(s.drop_last()), s.last())
    }
}

/// The scores of `s` added from the first with saturating additions.
pub open spec fn score_sum(s: Seq<Pick>) -> i64
    decreases s.len(),
{
    if s.len() == 0 {
        0
    } else {
        clamp(score_sum(s.drop_last()) + s.last().score)
    }
}

/// The first tie-breakers of `s` added with plain additions (picks without one add nothing), or
/// `None` once the sum leaves the range of `i64`.
pub open spec fn tie_sum(s: Seq<Pick>) -> Option<i64>
    decreases s.len(),
{
    if s.len() == 0 {
        Some(0)
    } else {
        match tie_sum(s.drop_last()) {
            None => None,
            Some(t) => match s.last().first_tie {
                None => Some(t),
                Some(x) => if i64::MIN <= t + x <= i64::MAX {
                    Some((t + x) as i64)
                } else {
                    None
                },
            },
        }
    }
}

/// The members that count for a team: all of them, or its `limit` best.
pub open spec fn counted(picks: Seq<Pick>, limit: Option<usize>) -> Seq<Pick> {
    match limit {
        Some(n) => if n < picks.len() {
            picks.take(n as int)
        } else {
            picks
        },
        None => picks,
    }
}

/// The total of `team`: the saturating sum of its counted members' scores, and as the
/// tie-breaking sum that of their first tie-breakers; `None` when that sum does not fit.
pub open spec fn team_total(
    ps: Seq<Pick>,
    members: Seq<TeamMember>,
    limit: Option<usize>,
    team: i64,
) -> Option<Total> {
    let chosen = counted(sort_picks(members_of(ps, members, team)), limit);
    match tie_sum(chosen) {
        Some(t) => Some(Total { id: team, score: score_sum(chosen), tie: t }),
        None => None,
    }
}

/// The totals of the teams `teams`, in order; `None` when one of them does not fit.
pub open spec fn totals_of_teams(
    teams: Seq<i64>,
    ps: Seq<Pick>,
    members: Seq<TeamMember>,
    limit: Option<usize>,
) -> Option<Seq<Total>>
    decreases teams.len(),
{
    if teams.len() == 0 {
        Some(seq![])
    } else {
        match totals_of_teams(teams.drop_last(), ps, members, limit) {
            Some(ts) => match team_total(ps, members, limit, teams.last()) {
                Some(t) => Some(ts.push(t)),
                None => None,
            },
            None => None,
        }
    }
}

/// The team totals of the individual picks `ps`: one for each team that has a pick, in the
/// order in which the teams first occur.
pub open spec fn team_totals(ps: Seq<Pick>, members: Seq<TeamMember>, limit: Option<usize>) -> Option<
    Seq<Total>,
> {
    totals_of_teams(team_order(ps, members), ps, members, limit)
}

fn vec_has(v: &Vec<i64>, x: i64) -> (b: bool)
    ensures
        b == v@.contains(x),
{
    let mut i: usize = 0;
    while i < v.len()
        invariant
            i <= v.len(),
            forall|j: int| 0 <= j < i ==> v@[j] != x,
        decreases v.len() - i,
    {
        if v[i] == x {
            assert(v@[i as int] == x);
            return true;
        }
        i = i + 1;
    }
    false
}

fn teams_in_order(ps: &Vec<Pick>, members: &[TeamMember]) -> (order: Vec<i64>)
    ensures
        order@ == team_order(ps@, members@),
{
    let mut order: Vec<i64> = Vec::new();
    let mut i: usize = 0;
    while i < ps.len()
        invariant
            i <= ps.len(),
            order@ == team_order(ps@.take(i as int), members@),
        decreases ps.len() - i,
    {
        assert(ps@.take(i + 1).drop_last() =~= ps@.take(i as int));
        assert(ps@.take(i + 1).last() == ps@[i as int]);
        match find_team(members, ps[i].id) {
            Some(t) => {
                if !vec_has(&order, t) {
                    order.push(t);
                }
            },
            None => {},
        }
        i = i + 1;
    }
    assert(ps@.take(ps.len() as int) =~= ps@);
    order
}

fn make_pick(e: &ScriptEntry) -> (p: Pick)
    ensures
        p == pick_of(*e),
{
    let first_tie = if e.tie_breakers.len() > 0 {
        Some(e.tie_breakers[0])
    } else {
        None
    };
    Pick { id: e.id, score: e.score, first_tie }
}

fn picks_of(es: &Vec<ScriptEntry>) -> (ps: Vec<Pick>)
    ensures
        ps@ == es@.map_values(|e: ScriptEntry| pick_of(e)),
{
    let mut ps: Vec<Pick> = Vec::new();
    let mut i: usize = 0;
    while i < es.len()
        invariant
            i <= es.len(),
            ps@ == es@.take(i as int).map_values(|e: ScriptEntry| pick_of(e)),
        decreases es.len() - i,
    {
        ps.push(make_pick(&es[i]));
        assert(es@.take(i + 1).map_values(|e: ScriptEntry| pick_of(e)) =~= es@.take(i as int).map_values(|e: ScriptEntry| pick_of(e)).push(pick_of(es@[i as int])));
        i = i + 1;
    }
    assert(es@.take(es.len() as int) =~= es@);
    ps
}

fn picks_of_team(ps: &Vec<Pick>, members: &[TeamMember], team: i64) -> (picks: Vec<Pick>)
    ensures
        picks@ == members_of(ps@, members@, team),
{
    let mut picks: Vec<Pick> = Vec::new();
    let mut i: usize = 0;
    while i < ps.len()
        invariant
            i <= ps.len(),
            picks@ == members_of(ps@.take(i as int), members@, team),
        decreases ps.len() - i,
    {
        assert(ps@.take(i + 1).drop_last() =~= ps@.take(i as int));
        assert(ps@.take(i + 1).last() == ps@[i as int]);
        if find_team(members, ps[i].id) == Some(team) {
            picks.push(ps[i]);
        }
        i = i + 1;
    }
    assert(ps@.take(ps.len() as int) =~= ps@);
    picks
}

proof fn lemma_insert_pick(s: Seq<Pick>, x: Pick, p: int)
    requires
        0 <= p <= s.len(),
        forall|j: int| 0 <= j < p ==> !pick_before(x, #[trigger] s[j]),
        p < s.len() ==> pick_before(x, s[p]),
    ensures
        insert_pick(s, x) == s.insert(p, x),
    decreases s.len(),
{
    if s.len() == 0 {
        assert(s.insert(p, x) =~= seq![x]);
    } else if p == 0 {
        assert(s.insert(p, x) =~= seq![x] + s);
    } else {
        let t = s.drop_first();
        assert forall|j: int| 0 <= j < p - 1 implies !pick_before(x, #[trigger] t[j]) by {
            assert(t[j] == s[j + 1]);
        }
        if p - 1 < t.len() {
            assert(t[p - 1] == s[p]);
        }
        lemma_insert_pick(t, x, p - 1);
        assert(seq![s[0]] + t.insert(p - 1, x) =~= s.insert(p, x));
    }
}

fn pick_precedes(a: &Pick, b: &Pick) -> (r: bool)
    ensures
        r == pick_before(*a, *b),
{
    a.score > b.score || (a.score == b.score && a.id < b.id)
}

fn sort_team(picks: &Vec<Pick>) -> (out: Vec<Pick>)
    ensures
        out@ == sort_picks(picks@),
{
    let mut out: Vec<Pick> = Vec::new();
    let mut i: usize = 0;
    while i < picks.len()
        invariant
            i <= picks.len(),
            out@ == sort_picks(picks@.take(i as int)),
        decreases picks.len() - i,
    {
        let x = picks[i];
        assert(picks@.take(i + 1).drop_last() =~= picks@.take(i as int));
        assert(picks@.take(i + 1).last() == x);
        let mut p: usize = 0;
        while p < out.len() && !pick_precedes(&x, &out[p])
            invariant
                p <= out.len(),
                forall|j: int| 0 <= j < p ==> !pick_before(x, #[trigger] out@[j]),
            decreases out.len() - p,
        {
            p = p + 1;
        }
        proof {
            lemma_insert_pick(out@, x, p as int);
        }
        out.insert(p, x);
        i = i + 1;
    }
    assert(picks@.take(picks.len() as int) =~= picks@);
    out
}

proof fn lemma_tie_sum_prefix(s: Seq<Pick>, k: int)
    requires
        0 <= k <= s.len(),
        tie_sum(s) is Some,
    ensures
        tie_sum(s.take(k)) is Some,
    decreases s.len(),
{
    if k < s.len() {
        assert(s.drop_last().take(k) =~= s.take(k));
        lemma_tie_sum_prefix(s.drop_last(), k);
    } else {
        assert(s.take(k) =~= s);
    }
}

fn total_of_team(team: i64, picks: &Vec<Pick>) -> (t: Option<Total>)
    ensures
        match t {
            Some(x) => tie_sum(picks@) == Some(x.tie) && x == (Total {
                id: team,
                score: score_sum(picks@),
                tie: x.tie,
            }),
            None => tie_sum(picks@) is None,
        },
{
    let mut score: i64 = 0;
    let mut tie: i64 = 0;
    let mut i: usize = 0;
    while i < picks.len()
        invariant
            i <= picks.len(),
            score == score_sum(picks@.take(i as int)),
            tie_sum(picks@.take(i as int)) == Some(tie),
        decreases picks.len() - i,
    {
        let x = picks[i];
        assert(picks@.take(i + 1).drop_last() =~= picks@.take(i as int));
        assert(picks@.take(i + 1).last() == x);
        score = sat_add(score, x.score);
        match x.first_tie {
            Some(v) => match tie.checked_add(v) {
                Some(sum) => {
                    tie = sum;
                },
                None => {
                    proof {
                        assert(tie_sum(picks@.take(i + 1)) is None);
                        if tie_sum(picks@) is Some {
                            lemma_tie_sum_prefix(picks@, i + 1);
                        }
                    }
                    return None;
                },
            },
            None => {},
        }
        i = i + 1;
    }
    assert(picks@.take(picks.len() as int) =~= picks@);
    Some(Total { id: team, score, tie })
}

proof fn lemma_team_prefix(
    teams: Seq<i64>,
    ps: Seq<Pick>,
    members: Seq<TeamMember>,
    limit: Option<usize>,
    k: int,
)
    requires
        0 <= k <= teams.len(),
        totals_of_teams(teams, ps, members, limit) is Some,
    ensures
        totals_of_teams(teams.take(k), ps, members, limit) is Some,
        k > 0 ==> team_total(ps, members, limit, teams[k - 1]) is Some,
    decreases teams.len(),
{
    if k < teams.len() {
        assert(teams.drop_last().take(k) =~= teams.take(k));
        lemma_team_prefix(teams.drop_last(), ps, members, limit, k);
        if k > 0 {
            assert(teams.drop_last()[k - 1] == teams[k - 1]);
        }
    } else {
        assert(teams.take(k) =~= teams);
    }
}

/// The picks that the team totals read of individual entries.
pub open spec fn entry_picks(es: Seq<ScriptEntry>) -> Seq<Pick> {
    es.map_values(|e: ScriptEntry| pick_of(e))
}

/// The team entries of the individual entries `es`, or `None` when a team's tie-breaking sum
/// does not fit in `i64`: see [`team_entries`].
pub fn team_entries_checked(es: &Vec<ScriptEntry>, members: &[TeamMember], limit: Option<usize>) -> (out:
    Option<Vec<ScriptEntry>>)
    ensures
        match out {
            Some(v) => team_totals(entry_picks(es@), members@, limit) is Some && entries_are(
                v@,
                team_totals(entry_picks(es@), members@, limit)->0,
            ),
            None => team_totals(entry_picks(es@), members@, limit) is None,
        },
{
    let ps = picks_of(es);
    let order = teams_in_order(&ps, members);
    let mut totals: Vec<Total> = Vec::new();
    let mut i: usize = 0;
    while i < order.len()
        invariant
            i <= order.len(),
            ps@ == entry_picks(es@),
            order@ == team_order(ps@, members@),
            Some(totals@) == totals_of_teams(order@.take(i as int), ps@, members@, limit),
        decreases order.len() - i,
    {
        let team = order[i];
        assert(order@.take(i + 1).drop_last() =~= order@.take(i as int));
        assert(order@.take(i + 1).last() == team);
        let picks = picks_of_team(&ps, members, team);
        let mut sorted = sort_team(&picks);
        match limit {
            Some(n) => {
                if n < sorted.len() {
                    sorted.truncate(n);
                    assert(sorted@ =~= sort_picks(picks@).take(n as int));
                }
            },
            None => {},
        }
        match total_of_team(team, &sorted) {
            Some(t) => {
                totals.push(t);
            },
            None => {
                proof {
                    assert(team_total(ps@, members@, limit, team) is None);
                    assert(totals_of_teams(order@.take(i + 1), ps@, members@, limit) is None);
                    if totals_of_teams(order@, ps@, members@, limit) is Some {
                        lemma_team_prefix(order@, ps@, members@, limit, i + 1);
                    }
                }
                return None;
            },
        }
        i = i + 1;
    }
    assert(order@.take(order.len() as int) =~= order@);
    Some(entries_from_totals(&totals))
}

/// The team entries of the individual entries `es`: for each team that has an entry, in the
/// order in which the teams first occur, the saturating sum of the scores of its members (all,
/// or its `limit` best by score, then id) and, as its one tie-breaker, the sum of their first
/// tie-breakers.
pub fn team_entries(es: &Vec<ScriptEntry>, members: &[TeamMember], limit: Option<usize>) -> (out:
    Vec<ScriptEntry>)
    requires
        team_totals(entry_picks(es@), members@, limit) is Some,
    ensures
        entries_are(out@, team_totals(entry_picks(es@), members@, limit)->0),
{
    team_entries_checked(es, members, limit).unwrap()
}

/// The picks that the team totals read of individual totals.
pub open spec fn total_picks(ts: Seq<Total>) -> Seq<Pick> {
    ts.map_values(|t: Total| Pick { id: t.id, score: t.score, first_tie: Some(t.tie) })
}

proof fn lemma_entry_picks(es: Seq<ScriptEntry>, ts: Seq<Total>)
    requires
        entries_are(es, ts),
    ensures
        entry_picks(es) == total_picks(ts),
{
    assert forall|i: int| 0 <= i < ts.len() implies entry_picks(es)[i] == total_picks(ts)[i] by {
        assert(entry_is_total(es[i], ts[i]));
        assert(es[i].tie_breakers@.len() == 1);
    }
    assert(entry_picks(es) =~= total_picks(ts));
}

/// The outputs of the four built-in templates.
pub struct BuiltinOutputs {
    pub best_per_chart: ScriptOutput,
    pub all_results: ScriptOutput,
    pub rank_points: ScriptOutput,
    pub weighted_top_n: ScriptOutput,
}

/// `o` is the output of a template whose individual totals are `ind`: those entries, and the
/// team entries made of them (each team counting all its members, or its `limit` best).
pub open spec fn template_output(
    o: ScriptOutput,
    ind: Seq<Total>,
    members: Seq<TeamMember>,
    limit: Option<usize>,
) -> bool {
    &&& entries_are(o.individual@, ind)
    &&& team_totals(total_picks(ind), members, limit) is Some
    &&& entries_are(o.team@, team_totals(total_picks(ind), members, limit)->0)
}

/// The sums that the templates make with plain additions all fit in `i64`: the rank points and
/// the tie-breaking sums of the teams.
pub open spec fn builtins_fit(
    rows: Seq<ResultRow>,
    charts: Seq<ChartWeight>,
    members: Seq<TeamMember>,
    top_n: usize,
) -> bool {
    &&& rank_point_totals(rows) is Some
    &&& team_totals(total_picks(aggregate_best(rows, charts, false)), members, None) is Some
    &&& team_totals(total_picks(all_totals(rows)), members, None) is Some
    &&& team_totals(total_picks(rank_point_totals(rows)->0), members, None) is Some
    &&& team_totals(total_picks(aggregate_best(rows, charts, true)), members, Some(top_n)) is Some
}

fn template(ind: &Vec<Total>, members: &[TeamMember], limit: Option<usize>) -> (o: ScriptOutput)
    requires
        team_totals(total_picks(ind@), members@, limit) is Some,
    ensures
        template_output(o, ind@, members@, limit),
{
    let individual = entries_from_totals(ind);
    proof {
        lemma_entry_picks(individual@, ind@);
    }
    let team = team_entries(&individual, members, limit);
    ScriptOutput { individual, team }
}

/// The four built-in templates over the approved results `results`: the best result of each
/// registration on each chart (the best by score, then accuracy, then the lower id), summed;
/// all results summed; per-chart rank points; and the best results weighted by their charts,
/// where a team counts only its `top_n` best members. Each sums the accuracies alongside (the
/// rank points sum the scores), which become the one tie-breaker of every entry.
pub fn builtins(results: &[ResultRow], charts: &[ChartWeight], members: &[TeamMember], top_n: usize) -> (out:
    BuiltinOutputs)
    requires
        builtins_fit(results@, charts@, members@, top_n),
    ensures
        template_output(out.best_per_chart, aggregate_best(results@, charts@, false), members@, None),
        template_output(out.all_results, all_totals(results@), members@, None),
        template_output(out.rank_points, rank_point_totals(results@)->0, members@, None),
        template_output(
            out.weighted_top_n,
            aggregate_best(results@, charts@, true),
            members@,
            Some(top_n),
        ),
{
    let best = aggregate(results, charts, false);
    let all = total_all(results);
    let points = total_points(results);
    let weighted = aggregate(results, charts, true);
    BuiltinOutputs {
        best_per_chart: template(&best, members, None),
        all_results: template(&all, members, None),
        rank_points: template(&points, members, None),
        weighted_top_n: template(&weighted, members, Some(top_n)),
    }
}

fn template_checked(ind: &Vec<Total>, members: &[TeamMember], limit: Option<usize>) -> (o: Option<
    ScriptOutput,
>)
    ensures
        match o {
            Some(x) => template_output(x, ind@, members@, limit),
            None => team_totals(total_picks(ind@), members@, limit) is None,
        },
{
    let individual = entries_from_totals(ind);
    proof {
        lemma_entry_picks(individual@, ind@);
    }
    match team_entries_checked(&individual, members, limit) {
        Some(team) => Some(ScriptOutput { individual, team }),
        None => None,
    }
}

/// The four built-in templates as [`builtins`] computes them, or `None` exactly when one of
/// their plain sums does not fit in `i64` (so that [`builtins`] may not be called).
pub fn builtins_checked(results: &[ResultRow], charts: &[ChartWeight], members: &[TeamMember], top_n: usize) -> (out:
    Option<BuiltinOutputs>)
    ensures
        out is Some <==> builtins_fit(results@, charts@, members@, top_n),
        out matches Some(o) ==> {
            &&& template_output(o.best_per_chart, aggregate_best(results@, charts@, false), members@, None)
            &&& template_output(o.all_results, all_totals(results@), members@, None)
            &&& template_output(o.rank_points, rank_point_totals(results@)->0, members@, None)
            &&& template_output(o.weighted_top_n, aggregate_best(results@, charts@, true), members@, Some(top_n))
        },
{
    let points = match total_points_checked(results) {
        Some(p) => p,
        None => {
            return None;
        },
    };
    let best = aggregate(results, charts, false);
    let all = total_all(results);
    let weighted = aggregate(results, charts, true);
    let best_per_chart = match template_checked(&best, members, None) {
        Some(o) => o,
        None => {
            return None;
        },
    };
    let all_results = match template_checked(&all, members, None) {
        Some(o) => o,
        None => {
            return None;
        },
    };
    let rank_points = match template_checked(&points, members, None) {
        Some(o) => o,
        None => {
            return None;
        },
    };
    let weighted_top_n = match template_checked(&weighted, members, Some(top_n)) {
        Some(o) => o,
        None => {
            return None;
        },
    };
    Some(BuiltinOutputs { best_per_chart, all_results, rank_points, weighted_top_n })
}

/// A stored result: the fields the templates read, and its review status.
#[derive(Clone, Copy, Debug)]
pub struct StoredResult {
    pub row: ResultRow,
    pub status: ResultStatus,
}

/// The rows of the approved results among `rs`, in order.
pub open spec fn approved_rows(rs: Seq<StoredResult>) -> Seq<ResultRow>
    decreases rs.len(),
{
    if rs.len() == 0 {
        seq![]
    } else if rs.last().status == ResultStatus::Approved {
        approved_rows(rs.drop_last()).push(rs.last().row)
    } else {
        approved_rows(rs.drop_last())
    }
}

fn collect_approved(rs: &[StoredResult]) -> (rows: Vec<ResultRow>)
    ensures
        rows@ == approved_rows(rs@),
{
    let mut rows: Vec<ResultRow> = Vec::new();
    let mut i: usize = 0;
    while i < rs.len()
        invariant
            i <= rs.len(),
            rows@ == approved_rows(rs@.take(i as int)),
        decreases rs.len() - i,
    {
        assert(rs@.take(i + 1).drop_last() =~= rs@.take(i as int));
        assert(rs@.take(i + 1).last() == rs@[i as int]);
        if rs[i].status == ResultStatus::Approved {
            rows.push(rs[i].row);
        }
        i = i + 1;
    }
    assert(rs@.take(rs.len() as int) =~= rs@);
    rows
}

/// The built-in templates of a tournament's stored results: only approved results count;
/// `None` exactly when a plain sum of the templates does not fit in `i64`.
pub fn leaderboard_templates(
    results: &[StoredResult],
    charts: &[ChartWeight],
    members: &[TeamMember],
    top_n: usize,
) -> (out: Option<BuiltinOutputs>)
    ensures
        out is Some <==> builtins_fit(approved_rows(results@), charts@, members@, top_n),
        out matches Some(o) ==> {
            let rows = approved_rows(results@);
            &&& template_output(o.best_per_chart, aggregate_best(rows, charts@, false), members@, None)
            &&& template_output(o.all_results, all_totals(rows), members@, None)
            &&& template_output(o.rank_points, rank_point_totals(rows)->0, members@, None)
            &&& template_output(o.weighted_top_n, aggregate_best(rows, charts@, true), members@, Some(top_n))
        },
{
    let rows = collect_approved(results);
    builtins_checked(rows.as_slice(), charts, members, top_n)
}

/// Results that are not approved never count: removing one, or changing its status to another
/// status that is not approved, leaves the rows that the templates read unchanged.
pub proof fn lemma_unapproved_results_ignored(rs: Seq<StoredResult>, i: int, status: ResultStatus)
    requires
        0 <= i < rs.len(),
        rs[i].status != ResultStatus::Approved,
        status != ResultStatus::Approved,
    ensures
        approved_rows(rs.remove(i)) == approved_rows(rs),
        approved_rows(rs.update(i, StoredResult { row: rs[i].row, status })) == approved_rows(rs),
    decreases rs.len(),
{
    let n = rs.len() - 1;
    if i == n {
        assert(rs.remove(i) =~= rs.drop_last());
        assert(rs.update(i, StoredResult { row: rs[i].row, status }).drop_last() =~= rs.drop_last());
    } else {
        lemma_unapproved_results_ignored(rs.drop_last(), i, status);
        assert(rs.remove(i).drop_last() =~= rs.drop_last().remove(i));
        assert(rs.remove(i).last() == rs.last());
        let u = rs.update(i, StoredResult { row: rs[i].row, status });
        assert(u.drop_last() =~= rs.drop_last().update(i, StoredResult { row: rs[i].row, status }));
        assert(u.last() == rs.last());
    }
}

/// The plain values of the entry made of total `t`.
pub open spec fn total_view(t: Total) -> EntryView {
    (t.id, t.score, seq![t.tie], None)
}

/// The plain values of the output of a template whose individual totals are `ind`.
pub open spec fn template_view(ind: Seq<Total>, members: Seq<TeamMember>, limit: Option<usize>) -> (
    Seq<EntryView>,
    Seq<EntryView>,
) {
    (
        ind.map_values(|t: Total| total_view(t)),
        (team_totals(total_picks(ind), members, limit)->0).map_values(|t: Total| total_view(t)),
    )
}

proof fn lemma_entries_view(es: Seq<ScriptEntry>, ts: Seq<Total>)
    requires
        entries_are(es, ts),
    ensures
        es.map_values(|e: ScriptEntry| entry_view(e)) == ts.map_values(|t: Total| total_view(t)),
{
    let ev = es.map_values(|e: ScriptEntry| entry_view(e));
    let tv = ts.map_values(|t: Total| total_view(t));
    assert forall|i: int| 0 <= i < ts.len() implies #[trigger] ev[i] == tv[i] by {
        assert(entry_is_total(es[i], ts[i]));
    }
    assert(ev =~= tv);
}

proof fn lemma_template_view(o: ScriptOutput, ind: Seq<Total>, members: Seq<TeamMember>, limit: Option<usize>)
    requires
        template_output(o, ind, members, limit),
    ensures
        output_view(o) == template_view(ind, members, limit),
{
    lemma_entries_view(o.individual@, ind);
    lemma_entries_view(o.team@, team_totals(total_picks(ind), members, limit)->0);
}

/// What a scoring script is given that depends on the stored results: the approved results, and
/// the outputs of the built-in templates over them. (The tournament, its charts, registrations,
/// teams and members are handed over as they are stored.)
pub struct ScriptContext {
    pub results: Vec<ResultRow>,
    pub templates: BuiltinOutputs,
}

/// A script context as plain values: the results, and the outputs of the four templates in
/// the order best per chart, all results, rank points, weighted top n.
pub type ContextView = (Seq<ResultRow>, Seq<(Seq<EntryView>, Seq<EntryView>)>);

/// The plain values of context `c`.
pub open spec fn context_view(c: ScriptContext) -> ContextView {
    (
        c.results@,
        seq![
            output_view(c.templates.best_per_chart),
            output_view(c.templates.all_results),
            output_view(c.templates.rank_points),
            output_view(c.templates.weighted_top_n),
        ],
    )
}

/// The context of a scoring script over the approved results `rows`, or `None` when a plain sum
/// of the templates does not fit in `i64`.
pub open spec fn spec_context(
    rows: Seq<ResultRow>,
    charts: Seq<ChartWeight>,
    members: Seq<TeamMember>,
    top_n: usize,
) -> Option<ContextView> {
    if builtins_fit(rows, charts, members, top_n) {
        Some(
            (
                rows,
                seq![
                    template_view(aggregate_best(rows, charts, false), members, None),
                    template_view(all_totals(rows), members, None),
                    template_view(rank_point_totals(rows)->0, members, None),
                    template_view(aggregate_best(rows, charts, true), members, Some(top_n)),
                ],
            ),
        )
    } else {
        None
    }
}

/// The context that a scoring script is given about a tournament's stored results: only the
/// approved ones, and the built-in templates over them.
pub fn script_context(
    results: &[StoredResult],
    charts: &[ChartWeight],
    members: &[TeamMember],
    top_n: usize,
) -> (out: Option<ScriptContext>)
    ensures
        match out {
            Some(c) => spec_context(approved_rows(results@), charts@, members@, top_n) == Some(context_view(c)),
            None => spec_context(approved_rows(results@), charts@, members@, top_n) is None,
        },
{
    let rows = collect_approved(results);
    match builtins_checked(rows.as_slice(), charts, members, top_n) {
        Some(templates) => {
            let ghost r = rows@;
            proof {
                lemma_template_view(templates.best_per_chart, aggregate_best(r, charts@, false), members@, None);
                lemma_template_view(templates.all_results, all_totals(r), members@, None);
                lemma_template_view(templates.rank_points, rank_point_totals(r)->0, members@, None);
                lemma_template_view(
                    templates.weighted_top_n,
                    aggregate_best(r, charts@, true),
                    members@,
                    Some(top_n),
                );
            }
            let c = ScriptContext { results: rows, templates };
            proof {
                let (_, want) = spec_context(r, charts@, members@, top_n)->0;
                assert(context_view(c).1 =~= want);
            }
            Some(c)
        },
        None => None,
    }
}

/// Pending, rejected and voided results never change a leaderboard. Take two stores of a
/// tournament that hold the same approved results (they differ only in results that are not
/// approved: added, removed or of another status) and the same everything else, and a
/// deterministic active script: a function `script` of the context that it is given. Then the
/// two stores give the same script context, and a recomputation stores the same two snapshots
/// from either.
pub proof fn lemma_unapproved_results_never_change_leaderboards(
    store_a: Seq<StoredResult>,
    store_b: Seq<StoredResult>,
    charts: Seq<ChartWeight>,
    members: Seq<TeamMember>,
    top_n: usize,
    script: spec_fn(ContextView) -> Result<ScriptOutput, ResponseError>,
    previous: Seq<StoredSnapshot>,
    script_version_id: i64,
    registration_names: Map<i64, String>,
    team_names: Map<i64, String>,
    public: bool,
    plans_a: (SnapshotPlan, SnapshotPlan),
    plans_b: (SnapshotPlan, SnapshotPlan),
)
    requires
        approved_rows(store_a) == approved_rows(store_b),
        spec_context(approved_rows(store_a), charts, members, top_n) matches Some(c) && planned(
            plans_a,
            script(c),
            previous,
            script_version_id,
            registration_names,
            team_names,
            public,
        ),
        spec_context(approved_rows(store_b), charts, members, top_n) matches Some(c) && planned(
            plans_b,
            script(c),
            previous,
            script_version_id,
            registration_names,
            team_names,
            public,
        ),
    ensures
        spec_context(approved_rows(store_a), charts, members, top_n) == spec_context(
            approved_rows(store_b),
            charts,
            members,
            top_n,
        ),
        plan_view(plans_a.0) == plan_view(plans_b.0),
        plan_view(plans_a.1) == plan_view(plans_b.1),
{
    let c = spec_context(approved_rows(store_a), charts, members, top_n)->0;
    lemma_plans_unique(
        plans_a,
        plans_b,
        script(c),
        previous,
        script_version_id,
        registration_names,
        team_names,
        public,
    );
}

/// The number of members that count for a team in the weighted template: the tournament's
/// largest team size, at least one.
pub fn team_limit(team_size_max: i32) -> (n: usize)
    ensures
        n == if team_size_max < 1 {
            1
        } else {
            team_size_max as int
        },
{
    if team_size_max < 1 {
        1
    } else {
        team_size_max as usize
    }
}

proof fn lemma_find_key_is(s: Seq<ResultRow>, r: ResultRow, i: int)
    requires
        0 <= i < s.len(),
        same_key(s[i], r),
        forall|j: int| 0 <= j < i ==> !same_key(#[trigger] s[j], r),
    ensures
        find_key(s, r) == i,
{
    lemma_find_key(s, r);
}

/// Rows whose keys are pairwise different.
pub open spec fn keys_distinct(s: Seq<ResultRow>) -> bool {
    forall|a: int, b: int| 0 <= a < b < s.len() ==> !same_key(#[trigger] s[a], #[trigger] s[b])
}

proof fn lemma_find_key_distinct(s: Seq<ResultRow>, r: ResultRow, i: int)
    requires
        keys_distinct(s),
        0 <= i < s.len(),
        same_key(s[i], r),
    ensures
        find_key(s, r) == i,
{
    assert forall|j: int| 0 <= j < i implies !same_key(#[trigger] s[j], r) by {
        assert(!same_key(s[j], s[i]));
    }
    lemma_find_key_is(s, r, i);
}

proof fn lemma_beats_transitive(a: ResultRow, b: ResultRow, c: ResultRow, by_id: bool)
    requires
        beats(a, b, by_id),
        beats(b, c, by_id),
    ensures
        beats(a, c, by_id),
{
}

/// The best rows are results, one for each registration and chart that has a result, and no
/// result beats the kept row of its registration and chart.
pub proof fn lemma_best_rows(rows: Seq<ResultRow>, by_id: bool)
    ensures
        keys_distinct(best_rows(rows, by_id)),
        forall|i: int| 0 <= i < best_rows(rows, by_id).len() ==> rows.contains(#[trigger] best_rows(rows, by_id)[i]),
        forall|j: int| 0 <= j < rows.len() ==> find_key(best_rows(rows, by_id), #[trigger] rows[j]) >= 0,
        forall|j: int| 0 <= j < rows.len() ==> !beats(
            #[trigger] rows[j],
            best_rows(rows, by_id)[find_key(best_rows(rows, by_id), rows[j])],
            by_id,
        ),
    decreases rows.len(),
{
    if rows.len() > 0 {
        let prev = rows.drop_last();
        let b = best_rows(prev, by_id);
        let row = rows.last();
        let n = rows.len() - 1;
        lemma_best_rows(prev, by_id);
        lemma_find_key(b, row);
        let k = find_key(b, row);
        let nb = best_rows(rows, by_id);
        assert(nb == keep_best(b, row, by_id));
        assert forall|j: int| 0 <= j < n implies rows[j] == #[trigger] prev[j] by {}
        if k < 0 {
            assert(nb == b.push(row));
            assert forall|x: int, y: int| 0 <= x < y < nb.len() implies !same_key(#[trigger] nb[x], #[trigger] nb[y]) by {
                if y == b.len() {
                    assert(!same_key(b[x], row));
                } else {
                    assert(nb[x] == b[x] && nb[y] == b[y]);
                }
            }
            assert forall|i: int| 0 <= i < nb.len() implies rows.contains(#[trigger] nb[i]) by {
                if i == b.len() {
                    assert(rows[n] == nb[i]);
                } else {
                    assert(prev.contains(b[i]));
                    let w = choose|w: int| 0 <= w < prev.len() && prev[w] == b[i];
                    assert(rows[w] == nb[i]);
                }
            }
            assert forall|j: int| 0 <= j < rows.len() implies find_key(nb, #[trigger] rows[j]) >= 0 && !beats(
                rows[j],
                nb[find_key(nb, rows[j])],
                by_id,
            ) by {
                if j == n {
                    lemma_find_key_distinct(nb, row, b.len() as int);
                } else {
                    let r = rows[j];
                    assert(r == prev[j]);
                    let kj = find_key(b, r);
                    lemma_find_key(b, r);
                    assert(nb[kj] == b[kj]);
                    lemma_find_key_distinct(nb, r, kj);
                }
            }
        } else if beats(row, b[k], by_id) {
            assert(nb == b.update(k, row));
            assert forall|x: int, y: int| 0 <= x < y < nb.len() implies !same_key(#[trigger] nb[x], #[trigger] nb[y]) by {
                if x == k {
                    assert(!same_key(b[k], b[y]));
                } else if y == k {
                    assert(!same_key(b[x], b[k]));
                } else {
                    assert(nb[x] == b[x] && nb[y] == b[y]);
                }
            }
            assert forall|i: int| 0 <= i < nb.len() implies rows.contains(#[trigger] nb[i]) by {
                if i == k {
                    assert(rows[n] == nb[i]);
                } else {
                    assert(prev.contains(b[i]));
                    let w = choose|w: int| 0 <= w < prev.len() && prev[w] == b[i];
                    assert(rows[w] == nb[i]);
                }
            }
            assert forall|j: int| 0 <= j < rows.len() implies find_key(nb, #[trigger] rows[j]) >= 0 && !beats(
                rows[j],
                nb[find_key(nb, rows[j])],
                by_id,
            ) by {
                if j == n {
                    lemma_find_key_distinct(nb, row, k);
                } else {
                    let r = rows[j];
                    assert(r == prev[j]);
                    let kj = find_key(b, r);
                    lemma_find_key(b, r);
                    if kj == k {
                        lemma_find_key_distinct(nb, r, k);
                        if beats(r, row, by_id) {
                            lemma_beats_transitive(r, row, b[k], by_id);
                        }
                    } else {
                        assert(nb[kj] == b[kj]);
                        lemma_find_key_distinct(nb, r, kj);
                    }
                }
            }
        } else {
            assert(nb == b);
            assert forall|i: int| 0 <= i < nb.len() implies rows.contains(#[trigger] nb[i]) by {
                assert(prev.contains(b[i]));
                let w = choose|w: int| 0 <= w < prev.len() && prev[w] == b[i];
                assert(rows[w] == nb[i]);
            }
            assert forall|j: int| 0 <= j < rows.len() implies find_key(nb, #[trigger] rows[j]) >= 0 && !beats(
                rows[j],
                nb[find_key(nb, rows[j])],
                by_id,
            ) by {
                if j == n {
                    lemma_find_key_distinct(nb, row, k);
                } else {
                    assert(rows[j] == prev[j]);
                }
            }
        }
    }
}

/// No two totals have the same id.
pub open spec fn ids_distinct(ts: Seq<Total>) -> bool {
    forall|a: int, b: int| 0 <= a < b < ts.len() ==> (#[trigger] ts[a]).id != (#[trigger] ts[b]).id
}

/// Some total has the id `id`.
pub open spec fn has_total(ts: Seq<Total>, id: i64) -> bool {
    exists|i: int| 0 <= i < ts.len() && (#[trigger] ts[i]).id == id
}

/// Some row belongs to registration `id`.
pub open spec fn has_registration(rows: Seq<ResultRow>, id: i64) -> bool {
    exists|j: int| 0 <= j < rows.len() && (#[trigger] rows[j]).registration_id == id
}

proof fn lemma_add_total(ts: Seq<Total>, id: i64, score: i64, tie: i64)
    requires
        ids_distinct(ts),
    ensures
        ids_distinct(add_total(ts, id, score, tie)),
        forall|x: i64| has_total(add_total(ts, id, score, tie), x) <==> (x == id || has_total(ts, x)),
{
    lemma_find_total(ts, id);
    let k = find_total(ts, id);
    let n = add_total(ts, id, score, tie);
    if k < 0 {
        assert(n == ts.push(Total { id, score, tie }));
        assert forall|x: i64| has_total(n, x) <==> (x == id || has_total(ts, x)) by {
            if has_total(n, x) {
                let i = choose|i: int| 0 <= i < n.len() && (#[trigger] n[i]).id == x;
                if i < ts.len() {
                    assert(ts[i] == n[i]);
                }
            }
            if x == id {
                assert(n[ts.len() as int].id == x);
            }
            if has_total(ts, x) {
                let i = choose|i: int| 0 <= i < ts.len() && (#[trigger] ts[i]).id == x;
                assert(n[i] == ts[i]);
            }
        }
        assert forall|a: int, b: int| 0 <= a < b < n.len() implies (#[trigger] n[a]).id != (#[trigger] n[b]).id by {
            if b < ts.len() {
                assert(n[a] == ts[a] && n[b] == ts[b]);
            } else {
                assert(n[a] == ts[a]);
            }
        }
    } else {
        assert forall|x: i64| has_total(n, x) <==> (x == id || has_total(ts, x)) by {
            if has_total(n, x) {
                let i = choose|i: int| 0 <= i < n.len() && (#[trigger] n[i]).id == x;
                if i != k {
                    assert(ts[i] == n[i]);
                }
            }
            if x == id {
                assert(n[k].id == x);
            }
            if has_total(ts, x) {
                let i = choose|i: int| 0 <= i < ts.len() && (#[trigger] ts[i]).id == x;
                if i != k {
                    assert(n[i] == ts[i]);
                } else {
                    assert(n[k].id == x);
                }
            }
        }
        assert forall|a: int, b: int| 0 <= a < b < n.len() implies (#[trigger] n[a]).id != (#[trigger] n[b]).id by {
            assert(ts[a].id == n[a].id && ts[b].id == n[b].id);
        }
    }
}

/// Every registration with a result has exactly one total of all its results, and no other
/// total is listed.
pub proof fn lemma_all_totals_cover(rows: Seq<ResultRow>)
    ensures
        ids_distinct(all_totals(rows)),
        forall|x: i64| has_total(all_totals(rows), x) <==> has_registration(rows, x),
    decreases rows.len(),
{
    if rows.len() > 0 {
        let prev = rows.drop_last();
        lemma_all_totals_cover(prev);
        let last = rows.last();
        lemma_add_total(all_totals(prev), last.registration_id, last.score, last.accuracy_millionths);
        assert(all_totals(rows) == add_total(all_totals(prev), last.registration_id, last.score, last.accuracy_millionths));
        assert forall|x: i64| has_registration(rows, x) <==> (x == last.registration_id || has_registration(prev, x)) by {
            if has_registration(rows, x) {
                let j = choose|j: int| 0 <= j < rows.len() && (#[trigger] rows[j]).registration_id == x;
                if j < prev.len() {
                    assert(prev[j] == rows[j]);
                }
            }
            if has_registration(prev, x) {
                let j = choose|j: int| 0 <= j < prev.len() && (#[trigger] prev[j]).registration_id == x;
                assert(rows[j] == prev[j]);
            }
            if x == last.registration_id {
                assert(rows[rows.len() - 1].registration_id == x);
            }
        }
        assert forall|x: i64| has_total(all_totals(rows), x) <==> has_registration(rows, x) by {
            assert(has_total(all_totals(prev), x) <==> has_registration(prev, x));
        }
    }
}

proof fn lemma_sum_best_cover(best: Seq<ResultRow>, charts: Seq<ChartWeight>, weighted: bool)
    ensures
        ids_distinct(sum_best(best, charts, weighted)),
        forall|x: i64| has_total(sum_best(best, charts, weighted), x) <==> has_registration(best, x),
    decreases best.len(),
{
    if best.len() > 0 {
        let prev = best.drop_last();
        lemma_sum_best_cover(prev, charts, weighted);
        let last = best.last();
        lemma_add_total(
            sum_best(prev, charts, weighted),
            last.registration_id,
            contribution(last, charts, weighted),
            last.accuracy_millionths,
        );
        assert(sum_best(best, charts, weighted) == add_total(
            sum_best(prev, charts, weighted),
            last.registration_id,
            contribution(last, charts, weighted),
            last.accuracy_millionths,
        ));
        assert forall|x: i64| has_registration(best, x) <==> (x == last.registration_id || has_registration(prev, x)) by {
            if has_registration(best, x) {
                let j = choose|j: int| 0 <= j < best.len() && (#[trigger] best[j]).registration_id == x;
                if j < prev.len() {
                    assert(prev[j] == best[j]);
                }
            }
            if has_registration(prev, x) {
                let j = choose|j: int| 0 <= j < prev.len() && (#[trigger] prev[j]).registration_id == x;
                assert(best[j] == prev[j]);
            }
            if x == last.registration_id {
                assert(best[best.len() - 1].registration_id == x);
            }
        }
        assert forall|x: i64| has_total(sum_best(best, charts, weighted), x) <==> has_registration(best, x) by {
            assert(has_total(sum_best(prev, charts, weighted), x) <==> has_registration(prev, x));
        }
    }
}

proof fn lemma_best_registrations(rows: Seq<ResultRow>, by_id: bool)
    ensures
        forall|x: i64| has_registration(best_rows(rows, by_id), x) <==> has_registration(rows, x),
{
    lemma_best_rows(rows, by_id);
    let b = best_rows(rows, by_id);
    assert forall|x: i64| has_registration(b, x) <==> has_registration(rows, x) by {
        if has_registration(b, x) {
            let i = choose|i: int| 0 <= i < b.len() && (#[trigger] b[i]).registration_id == x;
            assert(rows.contains(b[i]));
            let j = choose|j: int| 0 <= j < rows.len() && rows[j] == b[i];
            assert(rows[j].registration_id == x);
        }
        if has_registration(rows, x) {
            let j = choose|j: int| 0 <= j < rows.len() && (#[trigger] rows[j]).registration_id == x;
            let k = find_key(b, rows[j]);
            lemma_find_key(b, rows[j]);
            assert(b[k].registration_id == x);
        }
    }
}

/// Every registration with a result has exactly one best-per-chart total (weighted or not), and
/// no other total is listed.
pub proof fn lemma_aggregate_cover(rows: Seq<ResultRow>, charts: Seq<ChartWeight>, weighted: bool)
    ensures
        ids_distinct(aggregate_best(rows, charts, weighted)),
        forall|x: i64| has_total(aggregate_best(rows, charts, weighted), x) <==> has_registration(rows, x),
{
    lemma_sum_best_cover(best_rows(rows, true), charts, weighted);
    lemma_best_registrations(rows, true);
}

/// On a chart, a result earns at least the points of every result on that chart that does not
/// beat it: results that tie earn the same, and better results earn no fewer.
pub proof fn lemma_points_order(all: Seq<ResultRow>, p: ResultRow, q: ResultRow)
    requires
        p.chart_id == q.chart_id,
        !beats(q, p, false),
    ensures
        better_on_chart(all, p) <= better_on_chart(all, q),
        rank_points(better_on_chart(all, p)) >= rank_points(better_on_chart(all, q)),
    decreases all.len(),
{
    if all.len() > 0 {
        lemma_points_order(all.drop_last(), p, q);
    }
}

/// A best row beaten by `k` rows on its chart (so ranked `k + 1`) earns max(0, 1000 - 50k)
/// points: 50 fewer for each row above it, and a positive number for every rank up to 20.
pub proof fn lemma_rank_points_formula(k: nat)
    ensures
        rank_points(k) == if 1000 - 50 * k > 0 {
            1000 - 50 * k
        } else {
            0
        },
        k < 20 ==> rank_points(k) > 0,
        rank_points(k) >= 0,
        rank_points(k + 1) == if rank_points(k) >= 50 { rank_points(k) - 50 } else { 0 },
{
}

/// A result that no result on its chart beats earns the full 1000 points.
pub proof fn lemma_unbeaten_earns_full(all: Seq<ResultRow>, p: ResultRow)
    requires
        forall|j: int| 0 <= j < all.len() && (#[trigger] all[j]).chart_id == p.chart_id ==> !beats(all[j], p, false),
    ensures
        better_on_chart(all, p) == 0,
        rank_points(better_on_chart(all, p)) == 1000,
    decreases all.len(),
{
    if all.len() > 0 {
        let prev = all.drop_last();
        assert forall|j: int| 0 <= j < prev.len() && (#[trigger] prev[j]).chart_id == p.chart_id implies !beats(prev[j], p, false) by {
            assert(prev[j] == all[j]);
        }
        lemma_unbeaten_earns_full(prev, p);
        assert(all.last() == all[all.len() - 1]);
    }
}

/// `s` is in counting order: no pick is counted before one that precedes it.
pub open spec fn in_counting_order(s: Seq<Pick>) -> bool {
    forall|i: int, j: int| 0 <= i < j < s.len() ==> !pick_before(#[trigger] s[j], #[trigger] s[i])
}

proof fn lemma_insert_pick_sorted(s: Seq<Pick>, x: Pick)
    requires
        in_counting_order(s),
    ensures
        in_counting_order(insert_pick(s, x)),
        insert_pick(s, x).to_multiset() == s.to_multiset().insert(x),
        insert_pick(s, x).len() == s.len() + 1,
    decreases s.len(),
{
    broadcast use vstd::seq_lib::group_to_multiset_ensures;

    if s.len() == 0 {
        assert(insert_pick(s, x) =~= seq![x]);
        assert(seq![x] =~= Seq::<Pick>::empty().push(x));
    } else if pick_before(x, s[0]) {
        let r = seq![x] + s;
        assert(insert_pick(s, x) == r);
        assert forall|i: int, j: int| 0 <= i < j < r.len() implies !pick_before(#[trigger] r[j], #[trigger] r[i]) by {
            if i == 0 {
                assert(r[j] == s[j - 1]);
                if j - 1 > 0 {
                    assert(!pick_before(s[j - 1], s[0]));
                }
            } else {
                assert(r[i] == s[i - 1] && r[j] == s[j - 1]);
            }
        }
        assert(r =~= seq![x].add(s));
        vstd::seq_lib::lemma_multiset_commutative(seq![x], s);
        assert(seq![x] =~= Seq::<Pick>::empty().push(x));
    } else {
        let t = s.drop_first();
        assert forall|i: int, j: int| 0 <= i < j < t.len() implies !pick_before(#[trigger] t[j], #[trigger] t[i]) by {
            assert(t[i] == s[i + 1] && t[j] == s[j + 1]);
        }
        lemma_insert_pick_sorted(t, x);
        let u = insert_pick(t, x);
        let r = seq![s[0]] + u;
        assert(insert_pick(s, x) == r);
        assert forall|i: int, j: int| 0 <= i < j < r.len() implies !pick_before(#[trigger] r[j], #[trigger] r[i]) by {
            if i == 0 {
                assert(r[j] == u[j - 1]);
                assert(u.to_multiset().count(u[j - 1]) > 0);
                assert(t.to_multiset().insert(x).count(u[j - 1]) > 0);
                if u[j - 1] != x {
                    assert(t.to_multiset().count(u[j - 1]) > 0);
                    assert(t.contains(u[j - 1]));
                    let w = choose|w: int| 0 <= w < t.len() && t[w] == u[j - 1];
                    assert(t[w] == s[w + 1]);
                }
            } else {
                assert(r[i] == u[i - 1] && r[j] == u[j - 1]);
            }
        }
        vstd::seq_lib::lemma_multiset_commutative(seq![s[0]], u);
        vstd::seq_lib::lemma_multiset_commutative(seq![s[0]], t);
        assert(s =~= seq![s[0]] + t);
    }
}

/// A team's members are counted in order, best first, and none is lost or added: the picks in
/// counting order are a reordering of the picks.
pub proof fn lemma_sort_picks(s: Seq<Pick>)
    ensures
        in_counting_order(sort_picks(s)),
        sort_picks(s).to_multiset() == s.to_multiset(),
        sort_picks(s).len() == s.len(),
    decreases s.len(),
{
    broadcast use vstd::seq_lib::group_to_multiset_ensures;

    if s.len() > 0 {
        lemma_sort_picks(s.drop_last());
        lemma_insert_pick_sorted(sort_picks(s.drop_last()), s.last());
        assert(s =~= s.drop_last().push(s.last()));
    }
}

proof fn lemma_totals_follow_teams(
    teams: Seq<i64>,
    ps: Seq<Pick>,
    members: Seq<TeamMember>,
    limit: Option<usize>,
)
    requires
        totals_of_teams(teams, ps, members, limit) is Some,
    ensures
        totals_of_teams(teams, ps, members, limit)->0.len() == teams.len(),
        forall|i: int| 0 <= i < teams.len() ==> (#[trigger] totals_of_teams(teams, ps, members, limit)->0[i]).id == teams[i],
    decreases teams.len(),
{
    if teams.len() > 0 {
        lemma_team_prefix(teams, ps, members, limit, teams.len() - 1);
        assert(teams.take(teams.len() - 1) =~= teams.drop_last());
        lemma_totals_follow_teams(teams.drop_last(), ps, members, limit);
        let prev = totals_of_teams(teams.drop_last(), ps, members, limit)->0;
        assert forall|i: int| 0 <= i < teams.len() implies (#[trigger] totals_of_teams(teams, ps, members, limit)->0[i]).id == teams[i] by {
            if i < teams.len() - 1 {
                assert(totals_of_teams(teams, ps, members, limit)->0[i] == prev[i]);
            }
        }
    }
}

proof fn lemma_team_order(ps: Seq<Pick>, members: Seq<TeamMember>)
    ensures
        team_order(ps, members).no_duplicates(),
        forall|t: i64| team_order(ps, members).contains(t) <==> exists|j: int| 0 <= j < ps.len() && team_of(members, (#[trigger] ps[j]).id) == Some(t),
    decreases ps.len(),
{
    if ps.len() > 0 {
        let prev = ps.drop_last();
        lemma_team_order(prev, members);
        let o = team_order(prev, members);
        assert forall|t: i64| team_order(ps, members).contains(t) <==> exists|j: int| 0 <= j < ps.len() && team_of(members, (#[trigger] ps[j]).id) == Some(t) by {
            if team_order(ps, members).contains(t) {
                if o.contains(t) {
                    let j = choose|j: int| 0 <= j < prev.len() && team_of(members, (#[trigger] prev[j]).id) == Some(t);
                    assert(ps[j] == prev[j]);
                } else {
                    let k = choose|k: int| 0 <= k < team_order(ps, members).len() && team_order(ps, members)[k] == t;
                    assert(team_of(members, ps[ps.len() - 1].id) == Some(t));
                }
            }
            if exists|j: int| 0 <= j < ps.len() && team_of(members, (#[trigger] ps[j]).id) == Some(t) {
                let j = choose|j: int| 0 <= j < ps.len() && team_of(members, (#[trigger] ps[j]).id) == Some(t);
                if j < ps.len() - 1 {
                    assert(prev[j] == ps[j]);
                    assert(o.contains(t));
                    let k = choose|k: int| 0 <= k < o.len() && o[k] == t;
                    assert(team_order(ps, members)[k] == t);
                } else {
                    if !o.contains(t) {
                        assert(team_order(ps, members) == o.push(t));
                        assert(team_order(ps, members)[o.len() as int] == t);
                    } else {
                        let k = choose|k: int| 0 <= k < o.len() && o[k] == t;
                        assert(team_order(ps, members)[k] == t);
                    }
                }
            }
        }
    }
}

/// Every team with a member among the individual entries has exactly one team total, and no
/// other team has one.
pub proof fn lemma_team_totals_cover(ps: Seq<Pick>, members: Seq<TeamMember>, limit: Option<usize>)
    requires
        team_totals(ps, members, limit) is Some,
    ensures
        ids_distinct(team_totals(ps, members, limit)->0),
        forall|t: i64| has_total(team_totals(ps, members, limit)->0, t) <==> exists|j: int| 0 <= j < ps.len() && team_of(members, (#[trigger] ps[j]).id) == Some(t),
{
    let order = team_order(ps, members);
    lemma_team_order(ps, members);
    lemma_totals_follow_teams(order, ps, members, limit);
    let ts = team_totals(ps, members, limit)->0;
    assert forall|a: int, b: int| 0 <= a < b < ts.len() implies (#[trigger] ts[a]).id != (#[trigger] ts[b]).id by {
        assert(ts[a].id == order[a] && ts[b].id == order[b]);
    }
    assert forall|t: i64| has_total(ts, t) <==> order.contains(t) by {
        if has_total(ts, t) {
            let i = choose|i: int| 0 <= i < ts.len() && (#[trigger] ts[i]).id == t;
            assert(order[i] == t);
        }
        if order.contains(t) {
            let k = choose|k: int| 0 <= k < order.len() && order[k] == t;
            assert(ts[k].id == t);
        }
    }
}

proof fn lemma_add_points(ts: Seq<Total>, id: i64, points: int, score: i64)
    requires
        ids_distinct(ts),
        add_points(Some(ts), id, points, score) is Some,
    ensures
        ids_distinct(add_points(Some(ts), id, points, score)->0),
        forall|x: i64| has_total(add_points(Some(ts), id, points, score)->0, x) <==> (x == id || has_total(ts, x)),
{
    lemma_find_total(ts, id);
    let k = find_total(ts, id);
    let n = add_points(Some(ts), id, points, score)->0;
    assert(n.len() == ts.len() || n.len() == ts.len() + 1);
    assert forall|i: int| 0 <= i < ts.len() implies (#[trigger] n[i]).id == ts[i].id by {
        if i == k {
            assert(n[i].id == id);
        }
    }
    if k < 0 {
        assert(n[ts.len() as int].id == id);
    }
    assert forall|x: i64| has_total(n, x) <==> (x == id || has_total(ts, x)) by {
        if has_total(n, x) {
            let i = choose|i: int| 0 <= i < n.len() && (#[trigger] n[i]).id == x;
            if i < ts.len() {
                assert(ts[i].id == x);
            }
        }
        if x == id {
            if k < 0 {
                assert(n[ts.len() as int].id == x);
            } else {
                assert(n[k].id == x);
            }
        }
        if has_total(ts, x) {
            let i = choose|i: int| 0 <= i < ts.len() && (#[trigger] ts[i]).id == x;
            assert(n[i].id == x);
        }
    }
    assert forall|a: int, b: int| 0 <= a < b < n.len() implies (#[trigger] n[a]).id != (#[trigger] n[b]).id by {
        if b < ts.len() {
            assert(n[a].id == ts[a].id && n[b].id == ts[b].id);
        } else {
            assert(n[a].id == ts[a].id);
        }
    }
}

proof fn lemma_point_fold_cover(s: Seq<ResultRow>, all: Seq<ResultRow>)
    requires
        point_fold(s, all) is Some,
    ensures
        ids_distinct(point_fold(s, all)->0),
        forall|x: i64| has_total(point_fold(s, all)->0, x) <==> has_registration(s, x),
    decreases s.len(),
{
    if s.len() > 0 {
        let prev = s.drop_last();
        let last = s.last();
        let p = point_fold(prev, all);
        if p is None {
            assert(point_fold(s, all) is None);
        }
        lemma_point_fold_cover(prev, all);
        lemma_add_points(p->0, last.registration_id, rank_points(better_on_chart(all, last)), last.score);
        assert forall|x: i64| has_registration(s, x) <==> (x == last.registration_id || has_registration(prev, x)) by {
            if has_registration(s, x) {
                let j = choose|j: int| 0 <= j < s.len() && (#[trigger] s[j]).registration_id == x;
                if j < prev.len() {
                    assert(prev[j] == s[j]);
                }
            }
            if has_registration(prev, x) {
                let j = choose|j: int| 0 <= j < prev.len() && (#[trigger] prev[j]).registration_id == x;
                assert(s[j] == prev[j]);
            }
            if x == last.registration_id {
                assert(s[s.len() - 1].registration_id == x);
            }
        }
        assert forall|x: i64| has_total(point_fold(s, all)->0, x) <==> has_registration(s, x) by {
            assert(has_total(p->0, x) <==> has_registration(prev, x));
        }
    }
}

/// Every registration with a result has exactly one rank-point total, and no other total is
/// listed.
pub proof fn lemma_point_totals_cover(rows: Seq<ResultRow>)
    requires
        rank_point_totals(rows) is Some,
    ensures
        ids_distinct(rank_point_totals(rows)->0),
        forall|x: i64| has_total(rank_point_totals(rows)->0, x) <==> has_registration(rows, x),
{
    lemma_point_fold_cover(best_rows(rows, false), best_rows(rows, false));
    lemma_best_registrations(rows, false);
}

} // verus!
