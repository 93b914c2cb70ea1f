//! Scoring scripts and leaderboards: the built-in templates, the fingerprint of a script, the
//! checks on what a script returns, and the competition ranking of its entries.
use std::collections::hash_map::DefaultHasher;
use std::collections::{HashMap, HashSet};
use std::hash::Hasher;
use vstd::prelude::*;
use vstd::std_specs::hash::DefaultHasherAdditionalSpecFns;
use vstd::string::StringExecFns;
use vstd::string::StringSliceAdditionalSpecFns;

use crate::error::{bad_request, outcome, ErrorKind, ResponseError};
use crate::lifecycle::Lifecycle;
use crate::model::{LeaderboardKind, LeaderboardVisibility};
use crate::text::{decimal, hex16, hex16_string, owned, push_decimal, str_eq, trim, trimmed};

verus! {

broadcast use {vstd::std_specs::hash::group_hash_axioms, vstd::string::group_string_axioms};

/// A built-in scoring template.
pub struct Template {
    pub key: &'static str,
    pub name: &'static str,
    pub source: &'static str,
}

pub const BEST_PER_CHART: &'static str = "pub fn rank(context) { context.templates.best_per_chart }";

pub const ALL_RESULTS: &'static str = "pub fn rank(context) { context.templates.all_results }";

pub const RANK_POINTS: &'static str = "pub fn rank(context) { context.templates.rank_points }";

pub const WEIGHTED_TOP_N: &'static str = "pub fn rank(context) { context.templates.weighted_top_n }";

/// The built-in templates, as (key, name, source).
pub open spec fn spec_templates() -> Seq<(Seq<char>, Seq<char>, Seq<char>)> {
    seq![
        ("best_per_chart"@, "Best score per chart"@, BEST_PER_CHART@),
        ("all_results"@, "All approved results"@, ALL_RESULTS@),
        ("rank_points"@, "Per-chart rank points"@, RANK_POINTS@),
        ("weighted_top_n"@, "Chart weights and Top-N members"@, WEIGHTED_TOP_N@),
    ]
}

/// The four built-in templates.
pub fn builtin_templates() -> (t: [Template; 4])
    ensures
        forall|i: int|
            0 <= i < 4 ==> (#[trigger] t@[i]).key@ == spec_templates()[i].0 && t@[i].name@
                == spec_templates()[i].1 && t@[i].source@ == spec_templates()[i].2,
{
    [
        Template { key: "best_per_chart", name: "Best score per chart", source: BEST_PER_CHART },
        Template { key: "all_results", name: "All approved results", source: ALL_RESULTS },
        Template { key: "rank_points", name: "Per-chart rank points", source: RANK_POINTS },
        Template {
            key: "weighted_top_n",
            name: "Chart weights and Top-N members",
            source: WEIGHTED_TOP_N,
        },
    ]
}

/// The source of the built-in template with key `key`, if any.
pub open spec fn spec_template_source(key: Seq<char>) -> Option<Seq<char>> {
    if key == spec_templates()[0].0 {
        Some(spec_templates()[0].2)
    } else if key == spec_templates()[1].0 {
        Some(spec_templates()[1].2)
    } else if key == spec_templates()[2].0 {
        Some(spec_templates()[2].2)
    } else if key == spec_templates()[3].0 {
        Some(spec_templates()[3].2)
    } else {
        None
    }
}

/// The source of the built-in template with key `key`.
pub fn template_source(key: &str) -> (r: Option<&'static str>)
    ensures
        match spec_template_source(key@) {
            Some(s) => r is Some && r->0@ == s,
            None => r is None,
        },
{
    let templates = builtin_templates();
    let mut i: usize = 0;
    while i < 4
        invariant
            i <= 4,
            forall|k: int|
                0 <= k < 4 ==> (#[trigger] templates@[k]).key@ == spec_templates()[k].0
                    && templates@[k].source@ == spec_templates()[k].2,
            forall|k: int| 0 <= k < i ==> key@ != #[trigger] spec_templates()[k].0,
        decreases 4 - i,
    {
        if str_eq(templates[i].key, key) {
            let ghost k = i as int;
            assert(key@ == spec_templates()[k].0);
            return Some(templates[i].source);
        }
        i = i + 1;
    }
    None
}

/// The fingerprint of a script: the 64-bit `DefaultHasher` digest of the text (its bytes, then
/// the byte 0xff that ends a hashed `str`), as sixteen lower-case hexadecimal digits.
pub open spec fn spec_source_hash(source: Seq<u8>) -> Seq<char> {
    hex16(DefaultHasher::spec_finish(seq![source, seq![0xffu8]]))
}

/// The fingerprint of a script.
pub fn source_hash(source: &str) -> (h: String)
    ensures
        h@ == spec_source_hash(source.spec_bytes()),
{
    let mut hash = DefaultHasher::new();
    hash.write(source.as_bytes());
    let end: [u8; 1] = [0xff];
    hash.write(&end);
    assert(end@ =~= seq![0xffu8]);
    assert(hash@ =~= seq![source.spec_bytes(), seq![0xffu8]]);
    hex16_string(hash.finish())
}

/// One entry that a scoring script returns: a registration or team id, its score, the numbers
/// that break ties (compared in order) and an optional breakdown document.
#[derive(Clone, Debug)]
pub struct ScriptEntry {
    pub id: i64,
    pub score: i64,
    pub tie_breakers: Vec<i64>,
    pub breakdown: Option<serde_json::Value>,
}

/// A script entry as plain values: id, score, tie-breakers and breakdown.
pub type EntryView = (i64, i64, Seq<i64>, Option<serde_json::Value>);

/// The plain values of entry `e`.
pub open spec fn entry_view(e: ScriptEntry) -> EntryView {
    (e.id, e.score, e.tie_breakers@, e.breakdown)
}

/// What a scoring script returns.
#[derive(Clone, Debug, Default)]
pub struct ScriptOutput {
    pub individual: Vec<ScriptEntry>,
    pub team: Vec<ScriptEntry>,
}

/// The plain values of a script output: its individual entries and its team entries.
pub open spec fn output_view(o: ScriptOutput) -> (Seq<EntryView>, Seq<EntryView>) {
    (o.individual@.map_values(|e: ScriptEntry| entry_view(e)), o.team@.map_values(|e: ScriptEntry| entry_view(e)))
}

/// One row of a leaderboard.
#[derive(Clone, Debug)]
pub struct RankedEntry {
    pub id: i64,
    pub name: String,
    pub rank: usize,
    pub score: i64,
    pub tie_breakers: Vec<i64>,
    pub breakdown: Option<serde_json::Value>,
}

/// The first fault of row `i` of a script's list: an id that is not known, an id that an earlier
/// row already has, or more than 16 tie-breakers.
pub open spec fn row_fault(rows: Seq<ScriptEntry>, i: int, known: Set<i64>, label: Seq<char>) -> Option<
    (ErrorKind, Seq<char>),
> {
    if !known.contains(rows[i].id) {
        Some(
            (
                ErrorKind::BadRequest,
                "script returned unknown "@ + label + " id "@ + decimal(rows[i].id as int),
            ),
        )
    } else if exists|j: int| 0 <= j < i && #[trigger] rows[j].id == rows[i].id {
        Some(
            (
                ErrorKind::BadRequest,
                "script returned duplicate "@ + label + " id "@ + decimal(rows[i].id as int),
            ),
        )
    } else if rows[i].tie_breakers@.len() > 16 {
        Some((ErrorKind::BadRequest, "too many tie breakers"@))
    } else {
        None
    }
}

/// The first fault among the rows `rows[i..]`.
pub open spec fn list_fault(rows: Seq<ScriptEntry>, i: int, known: Set<i64>, label: Seq<char>) -> Option<
    (ErrorKind, Seq<char>),
>
    decreases rows.len() - i,
{
    if i < 0 || i >= rows.len() {
        None
    } else {
        match row_fault(rows, i, known, label) {
            Some(f) => Some(f),
            None => list_fault(rows, i + 1, known, label),
        }
    }
}

/// The first fault of a script's output: its individual list, then its team list.
pub open spec fn output_fault(o: &ScriptOutput, registrations: Set<i64>, teams: Set<i64>) -> Option<
    (ErrorKind, Seq<char>),
> {
    match list_fault(o.individual@, 0, registrations, "individual"@) {
        Some(f) => Some(f),
        None => list_fault(o.team@, 0, teams, "team"@),
    }
}

/// The error text for row `row` with reason `what` in the list `label`.
fn id_message(what: &str, label: &str, id: i64) -> (s: String)
    ensures
        s@ == "script returned "@ + what@ + " "@ + label@ + " id "@ + decimal(id as int),
{
    let mut s = owned("script returned ");
    s.append(what);
    s.append(" ");
    s.append(label);
    s.append(" id ");
    push_decimal(&mut s, id);
    s
}

/// Checks one list of a script's output against the known ids.
fn validate_list(rows: &Vec<ScriptEntry>, known: &HashSet<i64>, label: &str) -> (r: Result<
    (),
    ResponseError,
>)
    ensures
        outcome(r, list_fault(rows@, 0, known@, label@)),
{
    let mut seen: HashSet<i64> = HashSet::new();
    let mut i: usize = 0;
    while i < rows.len()
        invariant
            i <= rows.len(),
            seen@ == Set::new(|x: i64| exists|j: int| 0 <= j < i && #[trigger] rows@[j].id == x),
            list_fault(rows@, 0, known@, label@) == list_fault(rows@, i as int, known@, label@),
        decreases rows.len() - i,
    {
        let row = &rows[i];
        let ghost fault = row_fault(rows@, i as int, known@, label@);
        if !known.contains(&row.id) {
            let msg = id_message("unknown", label, row.id);
            proof {
                assert("script returned "@ + "unknown"@ + " "@ + label@ + " id "@ + decimal(
                    row.id as int,
                ) =~= "script returned unknown "@ + label@ + " id "@ + decimal(row.id as int))
                    by {
                    reveal_strlit("script returned ");
                    reveal_strlit("unknown");
                    reveal_strlit(" ");
                    reveal_strlit("script returned unknown ");
                }
            }
            return Err(ResponseError::BadRequest(msg));
        }
        let fresh = seen.insert(row.id);
        if !fresh {
            let msg = id_message("duplicate", label, row.id);
            proof {
                let x = row.id;
                assert(exists|j: int| 0 <= j < i && #[trigger] rows@[j].id == x);
                assert("script returned "@ + "duplicate"@ + " "@ + label@ + " id "@ + decimal(
                    row.id as int,
                ) =~= "script returned duplicate "@ + label@ + " id "@ + decimal(row.id as int))
                    by {
                    reveal_strlit("script returned ");
                    reveal_strlit("duplicate");
                    reveal_strlit(" ");
                    reveal_strlit("script returned duplicate ");
                }
            }
            return Err(ResponseError::BadRequest(msg));
        }
        proof {
            assert(!(exists|j: int| 0 <= j < i && #[trigger] rows@[j].id == rows@[i as int].id));
        }
        if row.tie_breakers.len() > 16 {
            return Err(bad_request("too many tie breakers"));
        }
        proof {
            assert(seen@ =~= Set::new(
                |x: i64| exists|j: int| 0 <= j < i + 1 && #[trigger] rows@[j].id == x,
            )) by {
                assert forall|x: i64| #[trigger]
                    seen@.contains(x) implies exists|j: int|
                    0 <= j < i + 1 && #[trigger] rows@[j].id == x by {
                    if x == rows@[i as int].id {
                        assert(rows@[i as int].id == x);
                    }
                }
            }
        }
        i = i + 1;
    }
    Ok(())
}

/// Checks what a scoring script returned: each individual id is a registration of the
/// tournament and each team id a team of it, no id appears twice in a list, and no entry has
/// more than 16 tie-breakers. The first fault, individual list first, is reported.
pub fn validate_output(
    output: &ScriptOutput,
    registration_ids: &HashSet<i64>,
    team_ids: &HashSet<i64>,
) -> (r: Result<(), ResponseError>)
    ensures
        outcome(r, output_fault(output, registration_ids@, team_ids@)),
{
    validate_list(&output.individual, registration_ids, "individual")?;
    validate_list(&output.team, team_ids, "team")?;
    Ok(())
}

/// Lexicographic comparison of tie-breaker lists: -1, 0 or 1 as `a` is smaller than, equal to or
/// greater than `b` (a proper prefix is smaller).
pub open spec fn lex_compare(a: Seq<i64>, b: Seq<i64>) -> int
    decreases a.len(),
{
    if a.len() == 0 {
        if b.len() == 0 {
            0
        } else {
            -1
        }
    } else if b.len() == 0 {
        1
    } else if a[0] < b[0] {
        -1
    } else if a[0] > b[0] {
        1
    } else {
        lex_compare(a.drop_first(), b.drop_first())
    }
}

proof fn lemma_lex_antisymmetric(a: Seq<i64>, b: Seq<i64>)
    ensures
        lex_compare(a, b) == -lex_compare(b, a),
        lex_compare(a, b) == 0 <==> a == b,
        -1 <= lex_compare(a, b) <= 1,
    decreases a.len(),
{
    if a.len() > 0 && b.len() > 0 && a[0] == b[0] {
        lemma_lex_antisymmetric(a.drop_first(), b.drop_first());
        if a.drop_first() == b.drop_first() {
            assert(a =~= seq![a[0]] + a.drop_first());
            assert(b =~= seq![b[0]] + b.drop_first());
        }
    }
    if a.len() == 0 && b.len() == 0 {
        assert(a =~= b);
    }
}

proof fn lemma_lex_transitive(a: Seq<i64>, b: Seq<i64>, c: Seq<i64>)
    ensures
        lex_compare(a, b) <= 0 && lex_compare(b, c) <= 0 ==> lex_compare(a, c) <= 0,
        lex_compare(a, b) < 0 && lex_compare(b, c) <= 0 ==> lex_compare(a, c) < 0,
        lex_compare(a, b) <= 0 && lex_compare(b, c) < 0 ==> lex_compare(a, c) < 0,
    decreases a.len(),
{
    lemma_lex_antisymmetric(a, b);
    lemma_lex_antisymmetric(b, c);
    lemma_lex_antisymmetric(a, c);
    if a.len() > 0 && b.len() > 0 && c.len() > 0 {
        lemma_lex_transitive(a.drop_first(), b.drop_first(), c.drop_first());
    }
}

/// The leaderboard order: -1 when `a` is listed before `b` (higher score, then greater
/// tie-breakers, then lower id), 1 when after, 0 when neither.
pub open spec fn entry_order(a: ScriptEntry, b: ScriptEntry) -> int {
    if a.score > b.score {
        -1
    } else if a.score < b.score {
        1
    } else if lex_compare(a.tie_breakers@, b.tie_breakers@) > 0 {
        -1
    } else if lex_compare(a.tie_breakers@, b.tie_breakers@) < 0 {
        1
    } else if a.id < b.id {
        -1
    } else if a.id > b.id {
        1
    } else {
        0
    }
}

proof fn lemma_order_antisymmetric(a: ScriptEntry, b: ScriptEntry)
    ensures
        entry_order(a, b) == -entry_order(b, a),
{
    lemma_lex_antisymmetric(a.tie_breakers@, b.tie_breakers@);
}

proof fn lemma_order_transitive(a: ScriptEntry, b: ScriptEntry, c: ScriptEntry)
    ensures
        entry_order(a, b) <= 0 && entry_order(b, c) <= 0 ==> entry_order(a, c) <= 0,
        entry_order(a, b) < 0 && entry_order(b, c) <= 0 ==> entry_order(a, c) < 0,
        entry_order(a, b) <= 0 && entry_order(b, c) < 0 ==> entry_order(a, c) < 0,
{
    lemma_lex_antisymmetric(a.tie_breakers@, b.tie_breakers@);
    lemma_lex_antisymmetric(b.tie_breakers@, c.tie_breakers@);
    lemma_lex_antisymmetric(a.tie_breakers@, c.tie_breakers@);
    lemma_lex_transitive(a.tie_breakers@, b.tie_breakers@, c.tie_breakers@);
    lemma_lex_transitive(c.tie_breakers@, b.tie_breakers@, a.tie_breakers@);
}

/// `s` is in leaderboard order: no entry is listed after one that it comes before.
pub open spec fn in_board_order(s: Seq<ScriptEntry>) -> bool {
    forall|i: int, j: int| 0 <= i < j < s.len() ==> entry_order(s[i], s[j]) <= 0
}

/// `s` with `x` inserted before the first entry that `x` comes before in leaderboard order, so
/// after every entry that it ties with.
pub open spec fn insert_entry(s: Seq<ScriptEntry>, x: ScriptEntry) -> Seq<ScriptEntry>
    decreases s.len(),
{
    if s.len() == 0 {
        seq![x]
    } else if entry_order(x, s[0]) < 0 {
        seq![x] + s
    } else {
        seq![s[0]] + insert_entry(s.drop_first(), x)
    }
}

/// The entries in leaderboard order, each inserted in turn, so that entries that tie on score,
/// tie-breakers and id keep their given order.
pub open spec fn sorted_entries(s: Seq<ScriptEntry>) -> Seq<ScriptEntry>
    decreases s.len(),
{
    if s.len() == 0 {
        seq![]
    } else {
        insert_entry(sorted_entries(s.drop_last()), s.last())
    }
}

proof fn lemma_insert_at(s: Seq<ScriptEntry>, x: ScriptEntry, p: int)
    requires
        0 <= p <= s.len(),
        forall|q: int| 0 <= q < p ==> entry_order(x, #[trigger] s[q]) >= 0,
        p < s.len() ==> entry_order(x, s[p]) < 0,
    ensures
        insert_entry(s, x) == s.insert(p, x),
    decreases p,
{
    if p == 0 {
        if s.len() == 0 {
            assert(s.insert(0, x) =~= seq![x]);
        } else {
            assert(s.insert(0, x) =~= seq![x] + s);
        }
    } else {
        let t = s.drop_first();
        assert(entry_order(x, s[0]) >= 0);
        assert forall|q: int| 0 <= q < p - 1 implies entry_order(x, #[trigger] t[q]) >= 0 by {
            assert(t[q] == s[q + 1]);
        }
        if p - 1 < t.len() {
            assert(t[p - 1] == s[p]);
        }
        lemma_insert_at(t, x, p - 1);
        assert(s.insert(p, x) =~= seq![s[0]] + t.insert(p - 1, x));
    }
}

/// Lexicographic comparison of two tie-breaker lists.
fn compare_lists(a: &Vec<i64>, b: &Vec<i64>) -> (r: i8)
    ensures
        r as int == lex_compare(a@, b@),
{
    let mut i: usize = 0;
    assert(a@.skip(0) =~= a@);
    assert(b@.skip(0) =~= b@);
    while i < a.len() && i < b.len()
        invariant
            i <= a.len(),
            i <= b.len(),
            lex_compare(a@, b@) == lex_compare(a@.skip(i as int), b@.skip(i as int)),
        decreases a.len() - i,
    {
        if a[i] < b[i] {
            assert(a@.skip(i as int)[0] == a@[i as int]);
            assert(b@.skip(i as int)[0] == b@[i as int]);
            return -1;
        }
        if a[i] > b[i] {
            assert(a@.skip(i as int)[0] == a@[i as int]);
            assert(b@.skip(i as int)[0] == b@[i as int]);
            return 1;
        }
        assert(a@.skip(i as int).drop_first() =~= a@.skip(i + 1));
        assert(b@.skip(i as int).drop_first() =~= b@.skip(i + 1));
        i = i + 1;
    }
    if a.len() == i && b.len() == i {
        0
    } else if a.len() == i {
        -1
    } else {
        1
    }
}

/// The leaderboard order of two entries.
fn order_entries(a: &ScriptEntry, b: &ScriptEntry) -> (r: i8)
    ensures
        r as int == entry_order(*a, *b),
{
    if a.score > b.score {
        return -1;
    }
    if a.score < b.score {
        return 1;
    }
    let t = compare_lists(&a.tie_breakers, &b.tie_breakers);
    if t > 0 {
        return -1;
    }
    if t < 0 {
        return 1;
    }
    if a.id < b.id {
        -1
    } else if a.id > b.id {
        1
    } else {
        0
    }
}

/// The entries in leaderboard order: highest score first, then greatest tie-breakers, then
/// lowest id; entries that tie on all three keep their order (a stable insertion sort).
pub fn sort_entries(entries: Vec<ScriptEntry>) -> (out: Vec<ScriptEntry>)
    ensures
        out@ == sorted_entries(entries@),
        out@.to_multiset() == entries@.to_multiset(),
        in_board_order(out@),
{
    broadcast use vstd::seq_lib::group_to_multiset_ensures;

    let ghost all = entries@;
    let mut out: Vec<ScriptEntry> = Vec::new();
    for x in it: entries
        invariant
            it.seq() == all,
            out@ == sorted_entries(all.take(it.index() as int)),
            out@.to_multiset() == all.take(it.index() as int).to_multiset(),
            in_board_order(out@),
    {
        let ghost i = it.index();
        assert(x == all[i]);
        let mut p = out.len();
        while p > 0 && order_entries(&x, &out[p - 1]) < 0
            invariant
                p <= out.len(),
                in_board_order(out@),
                forall|q: int| p <= q < out.len() ==> entry_order(x, #[trigger] out@[q]) < 0,
            decreases p,
        {
            p = p - 1;
        }
        let ghost before = out@;
        proof {
            assert forall|q: int| 0 <= q < p implies entry_order(x, #[trigger] before[q]) >= 0 by {
                if q < p - 1 {
                    lemma_order_transitive(x, before[q], before[p - 1]);
                }
            }
            lemma_insert_at(before, x, p as int);
            assert(all.take(i + 1).drop_last() =~= all.take(i as int));
            assert(all.take(i + 1).last() == x);
            assert forall|q: int| 0 <= q < p implies entry_order(#[trigger] before[q], x) <= 0 by {
                lemma_order_antisymmetric(before[p - 1], x);
                if q < p - 1 {
                    lemma_order_transitive(before[q], before[p - 1], x);
                }
            }
        }
        out.insert(p, x);
        proof {
            assert forall|a: int, b: int| 0 <= a < b < out@.len() implies entry_order(
                #[trigger] out@[a],
                #[trigger] out@[b],
            ) <= 0 by {
                if b < p {
                    assert(out@[a] == before[a] && out@[b] == before[b]);
                } else if b == p {
                    assert(out@[a] == before[a]);
                } else if a == p {
                    assert(out@[b] == before[b - 1]);
                } else if a < p {
                    assert(out@[a] == before[a] && out@[b] == before[b - 1]);
                    lemma_order_transitive(before[a], x, before[b - 1]);
                } else {
                    assert(out@[a] == before[a - 1] && out@[b] == before[b - 1]);
                }
            }
            assert(out@.remove(p as int) =~= before);
            assert(out@[p as int] == x);
            assert(all.take(i + 1) =~= all.take(i).push(x));
            out@.to_multiset_ensures();
            all.take(i).to_multiset_ensures();
            assert(out@.contains(x));
            assert(out@.to_multiset().count(x) > 0);
            assert(out@.to_multiset() =~= before.to_multiset().insert(x));
            assert(all.take(i).push(x).to_multiset() =~= all.take(i).to_multiset().insert(x));
        }
    }
    assert(all.take(all.len() as int) =~= all);
    out
}

/// Two entries share a ranking signature: the same score and the same tie-breakers.
pub open spec fn same_signature(a: ScriptEntry, b: ScriptEntry) -> bool {
    a.score == b.score && a.tie_breakers@ == b.tie_breakers@
}

/// The competition rank of entry `i` of the ordered list `s`: entries with the signature of the
/// one before them share its rank; any other entry is ranked by its position.
pub open spec fn rank_at(s: Seq<ScriptEntry>, i: int) -> int
    decreases i,
{
    if i <= 0 {
        1
    } else if same_signature(s[i], s[i - 1]) {
        rank_at(s, i - 1)
    } else {
        i + 1
    }
}

/// The name shown for id `id`: its name when one is known, else "#" and the id.
pub open spec fn display_name(names: Map<i64, String>, id: i64) -> Seq<char> {
    if names.contains_key(id) {
        names[id]@
    } else {
        "#"@ + decimal(id as int)
    }
}

/// The entry that a leaderboard row was ranked from.
pub open spec fn entry_of(r: RankedEntry) -> ScriptEntry {
    ScriptEntry { id: r.id, score: r.score, tie_breakers: r.tie_breakers, breakdown: r.breakdown }
}

/// `ranked` is the leaderboard of `entries`: the same entries in leaderboard order (sorted as
/// [`sorted_entries`] sorts them), each named from `names` and given its competition rank.
pub open spec fn is_leaderboard(ranked: Seq<RankedEntry>, entries: Seq<ScriptEntry>, names: Map<i64, String>) -> bool {
    &&& ranked.map_values(|r: RankedEntry| entry_of(r)) == sorted_entries(entries)
    &&& ranked.map_values(|r: RankedEntry| entry_of(r)).to_multiset() == entries.to_multiset()
    &&& in_board_order(ranked.map_values(|r: RankedEntry| entry_of(r)))
    &&& forall|i: int|
        0 <= i < ranked.len() ==> (#[trigger] ranked[i]).rank == rank_at(
            ranked.map_values(|r: RankedEntry| entry_of(r)),
            i,
        )
    &&& forall|i: int| 0 <= i < ranked.len() ==> (#[trigger] ranked[i]).name@ == display_name(names, ranked[i].id)
}

/// The leaderboard of `entries`: sorted as [`sort_entries`] sorts, each named from `names` and
/// given its competition rank.
pub fn rank_entries(entries: Vec<ScriptEntry>, names: &HashMap<i64, String>) -> (ranked: Vec<
    RankedEntry,
>)
    ensures
        is_leaderboard(ranked@, entries@, names@),
{
    let sorted = sort_entries(entries);
    let ghost s = sorted@;
    let n = sorted.len();
    let mut ranked: Vec<RankedEntry> = Vec::new();
    let mut prev_score: i64 = 0;
    let mut prev_breakers: Vec<i64> = Vec::new();
    let mut rank: usize = 0;
    for entry in it: sorted
        invariant
            it.seq() == s,
            n == s.len(),
            ranked@.len() == it.index(),
            forall|k: int|
                0 <= k < it.index() ==> entry_of(#[trigger] ranked@[k]) == s[k],
            forall|k: int| 0 <= k < it.index() ==> (#[trigger] ranked@[k]).rank == rank_at(s, k),
            forall|k: int|
                0 <= k < it.index() ==> (#[trigger] ranked@[k]).name@ == display_name(
                    names@,
                    ranked@[k].id,
                ),
            it.index() > 0 ==> prev_score == s[it.index() - 1].score && prev_breakers@
                == s[it.index() - 1].tie_breakers@ && rank == rank_at(s, it.index() - 1),
            it.index() > 0 ==> 1 <= rank <= it.index(),
    {
        let ghost i = it.index();
        assert(entry == s[i]);
        let same = ranked.len() > 0 && prev_score == entry.score && compare_lists(
            &prev_breakers,
            &entry.tie_breakers,
        ) == 0;
        proof {
            lemma_lex_antisymmetric(prev_breakers@, entry.tie_breakers@);
        }
        if !same {
            rank = ranked.len() + 1;
        }
        prev_score = entry.score;
        prev_breakers = entry.tie_breakers.clone();
        let name = match names.get(&entry.id) {
            Some(known) => known.clone(),
            None => {
                let mut text = owned("#");
                push_decimal(&mut text, entry.id);
                text
            },
        };
        ranked.push(
            RankedEntry {
                id: entry.id,
                name,
                rank,
                score: entry.score,
                tie_breakers: entry.tie_breakers,
                breakdown: entry.breakdown,
            },
        );
    }
    proof {
        assert(ranked@.map_values(|r: RankedEntry| entry_of(r)) =~= s);
    }
    ranked
}

/// A row of a leaderboard as plain values.
pub type BoardRow = (i64, Seq<char>, usize, i64, Seq<i64>, Option<serde_json::Value>);

/// The rows of a leaderboard as plain values: id, name, rank, score, tie-breakers, breakdown.
pub open spec fn board_rows(ranked: Seq<RankedEntry>) -> Seq<BoardRow> {
    ranked.map_values(|r: RankedEntry| (r.id, r.name@, r.rank, r.score, r.tie_breakers@, r.breakdown))
}

/// A leaderboard is determined by its entries and the names: two leaderboards of the same
/// entries, named from the same names, hold the same rows.
pub proof fn lemma_leaderboard_unique(
    a: Seq<RankedEntry>,
    b: Seq<RankedEntry>,
    entries: Seq<ScriptEntry>,
    names: Map<i64, String>,
)
    requires
        is_leaderboard(a, entries, names),
        is_leaderboard(b, entries, names),
    ensures
        board_rows(a) == board_rows(b),
{
    let ea = a.map_values(|r: RankedEntry| entry_of(r));
    let eb = b.map_values(|r: RankedEntry| entry_of(r));
    assert(ea == eb);
    assert(a.len() == ea.len() && b.len() == eb.len());
    assert forall|i: int| 0 <= i < a.len() implies #[trigger] board_rows(a)[i] == board_rows(b)[i] by {
        assert(ea[i] == entry_of(a[i]));
        assert(eb[i] == entry_of(b[i]));
        assert(a[i].rank == rank_at(ea, i));
        assert(b[i].rank == rank_at(eb, i));
        assert(a[i].name@ == display_name(names, a[i].id));
        assert(b[i].name@ == display_name(names, b[i].id));
    }
    assert(board_rows(a) =~= board_rows(b));
}

/// Entry `a` ranks strictly above entry `b`: a higher score, or the same score and greater
/// tie-breakers.
pub open spec fn better_signature(a: ScriptEntry, b: ScriptEntry) -> bool {
    a.score > b.score || (a.score == b.score && lex_compare(a.tie_breakers@, b.tie_breakers@) > 0)
}

proof fn lemma_order_bounds_signature(a: ScriptEntry, b: ScriptEntry)
    requires
        entry_order(a, b) <= 0,
    ensures
        !better_signature(b, a),
{
    lemma_lex_antisymmetric(a.tie_breakers@, b.tie_breakers@);
}

proof fn lemma_better_transitive(a: ScriptEntry, b: ScriptEntry, c: ScriptEntry)
    requires
        !better_signature(b, a),
        better_signature(b, c) || (!better_signature(c, b) && !same_signature(b, c)),
    ensures
        better_signature(a, c),
{
    lemma_lex_antisymmetric(a.tie_breakers@, b.tie_breakers@);
    lemma_lex_antisymmetric(b.tie_breakers@, c.tie_breakers@);
    lemma_lex_antisymmetric(a.tie_breakers@, c.tie_breakers@);
    lemma_lex_transitive(c.tie_breakers@, b.tie_breakers@, a.tie_breakers@);
}

/// Competition ranking ("1224"): in a leaderboard in order, the entries that rank strictly above
/// entry `i` are exactly the first `rank - 1` ones, so the rank of an entry is one more than the
/// number of entries that beat it; entries with the same score and tie-breakers share a rank.
pub proof fn lemma_competition_ranking(s: Seq<ScriptEntry>, i: int)
    requires
        in_board_order(s),
        0 <= i < s.len(),
    ensures
        forall|j: int| 0 <= j < s.len() ==> (better_signature(#[trigger] s[j], s[i]) <==> j < rank_at(s, i) - 1),
        1 <= rank_at(s, i) <= i + 1,
    decreases i,
{
    if i == 0 {
        assert forall|j: int| 0 <= j < s.len() implies !better_signature(#[trigger] s[j], s[i]) by {
            if j > 0 {
                lemma_order_bounds_signature(s[0], s[j]);
            } else {
                lemma_lex_antisymmetric(s[0].tie_breakers@, s[0].tie_breakers@);
            }
        }
    } else if same_signature(s[i], s[i - 1]) {
        lemma_competition_ranking(s, i - 1);
    } else {
        assert forall|j: int| 0 <= j < s.len() implies (better_signature(#[trigger] s[j], s[i]) <==> j < i) by {
            if j < i {
                if j < i - 1 {
                    lemma_order_bounds_signature(s[j], s[i - 1]);
                } else {
                    lemma_lex_antisymmetric(s[j].tie_breakers@, s[j].tie_breakers@);
                }
                lemma_order_bounds_signature(s[i - 1], s[i]);
                lemma_better_transitive(s[j], s[i - 1], s[i]);
            } else if j > i {
                lemma_order_bounds_signature(s[i], s[j]);
            } else {
                lemma_lex_antisymmetric(s[i].tie_breakers@, s[i].tie_breakers@);
            }
        }
    }
}

/// Entries with the same score and tie-breakers get the same rank.
pub proof fn lemma_ties_share_rank(s: Seq<ScriptEntry>, i: int, j: int)
    requires
        in_board_order(s),
        0 <= i < s.len(),
        0 <= j < s.len(),
        same_signature(s[i], s[j]),
    ensures
        rank_at(s, i) == rank_at(s, j),
{
    lemma_competition_ranking(s, i);
    lemma_competition_ranking(s, j);
    assert forall|k: int| 0 <= k < s.len() implies (better_signature(#[trigger] s[k], s[i])
        <==> better_signature(s[k], s[j])) by {}
    if rank_at(s, i) < rank_at(s, j) {
        let k = rank_at(s, i) - 1;
        assert(better_signature(s[k], s[j]));
    } else if rank_at(s, j) < rank_at(s, i) {
        let k = rank_at(s, j) - 1;
        assert(better_signature(s[k], s[i]));
    }
}

/// Whether a freshly computed leaderboard is public: always when live, never when frozen, and
/// once the tournament has finished when shown after the end.
pub fn should_publish(visibility: LeaderboardVisibility, lifecycle: Lifecycle) -> (b: bool)
    ensures
        b == match visibility {
            LeaderboardVisibility::Live => true,
            LeaderboardVisibility::Frozen => false,
            LeaderboardVisibility::AfterEnd => lifecycle == Lifecycle::Finished || lifecycle
                == Lifecycle::Archived,
        },
{
    match visibility {
        LeaderboardVisibility::Live => true,
        LeaderboardVisibility::Frozen => false,
        LeaderboardVisibility::AfterEnd => lifecycle == Lifecycle::Finished || lifecycle
            == Lifecycle::Archived,
    }
}

/// The leaderboard kind named in a request path.
pub fn leaderboard_kind(kind: &str) -> (r: Result<LeaderboardKind, ResponseError>)
    ensures
        kind@ == "individual"@ ==> r == Ok::<LeaderboardKind, ResponseError>(
            LeaderboardKind::Individual,
        ),
        kind@ == "team"@ ==> r == Ok::<LeaderboardKind, ResponseError>(LeaderboardKind::Team),
        kind@ != "individual"@ && kind@ != "team"@ ==> r is Err && r->Err_0.is(
            ErrorKind::BadRequest,
            "leaderboard kind must be individual or team"@,
        ),
{
    proof {
        reveal_strlit("individual");
        reveal_strlit("team");
        assert("individual"@ != "team"@) by {
            assert("individual"@.len() != "team"@.len());
        }
    }
    if str_eq(kind, "individual") {
        Ok(LeaderboardKind::Individual)
    } else if str_eq(kind, "team") {
        Ok(LeaderboardKind::Team)
    } else {
        Err(bad_request("leaderboard kind must be individual or team"))
    }
}

/// Whether a leaderboard read is limited to public snapshots: unless staff ask for the live
/// board, only a live leaderboard shows snapshots that are not public.
pub fn public_snapshots_only(
    staff_live_requested: Option<bool>,
    is_staff: bool,
    visibility: LeaderboardVisibility,
) -> (b: bool)
    ensures
        b == (!(staff_live_requested == Some(true) && is_staff) && visibility
            != LeaderboardVisibility::Live),
{
    let staff_live = match staff_live_requested {
        Some(v) => v,
        None => false,
    } && is_staff;
    !staff_live && visibility != LeaderboardVisibility::Live
}

/// A script longer than 64 KiB (in bytes) is refused.
pub fn check_script_size(source: &str) -> (r: Result<(), ResponseError>)
    ensures
        outcome(
            r,
            if source.len() > 64 * 1024 {
                Some((ErrorKind::BadRequest, "script exceeds 64 KiB"@))
            } else {
                None
            },
        ),
{
    if source.len() > 64 * 1024 {
        return Err(bad_request("script exceeds 64 KiB"));
    }
    Ok(())
}

/// The source of a new script version: the given text, or else the built-in template with the
/// given key.
pub fn script_source(source: Option<String>, template_key: &str) -> (r: Result<String, ResponseError>)
    ensures
        match source {
            Some(s) => r is Ok && r->Ok_0 == s,
            None => match spec_template_source(template_key@) {
                Some(t) => r is Ok && r->Ok_0@ == t,
                None => r is Err && r->Err_0.is(ErrorKind::BadRequest, "unknown scoring template"@),
            },
        },
{
    match source {
        Some(s) => Ok(s),
        None => match template_source(template_key) {
            Some(t) => Ok(owned(t)),
            None => Err(bad_request("unknown scoring template")),
        },
    }
}

/// The number of the next script version: one after the latest, or 1 for the first.
pub fn next_script_version(latest: Option<i32>) -> (v: i32)
    requires
        latest matches Some(x) ==> x < i32::MAX,
    ensures
        v == match latest {
            Some(x) => x + 1,
            None => 1,
        },
{
    match latest {
        Some(x) => x + 1,
        None => 1,
    }
}

/// The error of a scoring process that exited with a failure: what it wrote to its error
/// stream, trimmed.
pub fn process_failed(stderr: &str) -> (e: ResponseError)
    ensures
        e.is(ErrorKind::BadRequest, "scoring process failed: "@ + trimmed(stderr@)),
{
    ResponseError::BadRequest(owned("scoring process failed: ").concat(trim(stderr)))
}

/// The error of a scoring process that ran past its five seconds.
pub fn script_timed_out() -> (e: ResponseError)
    ensures
        e.is(ErrorKind::BadRequest, "scoring script exceeded 5 seconds"@),
{
    bad_request("scoring script exceeded 5 seconds")
}

/// The error of a scoring process that could not be run, with the reason.
pub fn process_unavailable(reason: &str) -> (e: ResponseError)
    ensures
        e.is(ErrorKind::InternalServerError, "failed to run scoring process: "@ + reason@),
{
    ResponseError::InternalServerError(owned("failed to run scoring process: ").concat(reason))
}

/// The error of a scoring process whose output is not a script output, with the reason.
pub fn invalid_output(reason: &str) -> (e: ResponseError)
    ensures
        e.is(ErrorKind::BadRequest, "invalid scoring output: "@ + reason@),
{
    ResponseError::BadRequest(owned("invalid scoring output: ").concat(reason))
}

/// How a leaderboard snapshot is stored: its kind, the script version that computed it, whether
/// it is stale (the script failed, so the entries are the last public ones), the failure's
/// description, and whether it is public.
pub struct SnapshotMeta {
    pub kind: LeaderboardKind,
    pub script_version_id: i64,
    pub stale: bool,
    pub error: Option<String>,
    pub public_snapshot: bool,
}

/// How the snapshot of `kind` is stored after a run of the active script `script_version_id`
/// that succeeded (`failure` is `None`) or failed.
pub fn snapshot_meta(
    kind: LeaderboardKind,
    script_version_id: i64,
    failure: Option<&ResponseError>,
    public: bool,
) -> (m: SnapshotMeta)
    ensures
        m.kind == kind,
        m.script_version_id == script_version_id,
        m.public_snapshot == public,
        m.stale == failure is Some,
        match failure {
            Some(e) => m.error matches Some(t) && t@ == e.spec_describe(),
            None => m.error is None,
        },
{
    match failure {
        Some(e) => SnapshotMeta {
            kind,
            script_version_id,
            stale: true,
            error: Some(e.describe()),
            public_snapshot: public,
        },
        None => SnapshotMeta { kind, script_version_id, stale: false, error: None, public_snapshot: public },
    }
}

/// A leaderboard snapshot already stored: its kind, whether it is stale and public, when it
/// was computed and its entries.
pub struct StoredSnapshot {
    pub kind: LeaderboardKind,
    pub stale: bool,
    pub public_snapshot: bool,
    pub computed_at: i64,
    pub entries: serde_json::Value,
}

/// A snapshot that can be carried over after a failure: of `kind`, not stale, and public.
pub open spec fn carries(s: StoredSnapshot, kind: LeaderboardKind) -> bool {
    s.kind == kind && !s.stale && s.public_snapshot
}

/// The position in `rows` of the last public snapshot of `kind`: the one computed latest among
/// those that can be carried over (the first of them when several were computed at the same
/// instant), or `None` when there is none.
pub open spec fn last_public(rows: Seq<StoredSnapshot>, kind: LeaderboardKind) -> Option<int>
    decreases rows.len(),
{
    if rows.len() == 0 {
        None
    } else {
        let prev = last_public(rows.drop_last(), kind);
        let r = rows.last();
        if carries(r, kind) && (prev is None || rows[prev->0].computed_at < r.computed_at) {
            Some(rows.len() - 1)
        } else {
            prev
        }
    }
}

proof fn lemma_last_public(rows: Seq<StoredSnapshot>, kind: LeaderboardKind)
    ensures
        last_public(rows, kind) matches Some(i) ==> 0 <= i < rows.len() && carries(rows[i], kind)
            && forall|j: int| 0 <= j < rows.len() && carries(#[trigger] rows[j], kind) ==> rows[j].computed_at <= rows[i].computed_at,
        last_public(rows, kind) is None ==> forall|j: int| 0 <= j < rows.len() ==> !carries(#[trigger] rows[j], kind),
    decreases rows.len(),
{
    if rows.len() > 0 {
        let prev = rows.drop_last();
        let n = rows.len() - 1;
        lemma_last_public(prev, kind);
        let p = last_public(prev, kind);
        let r = rows.last();
        assert(r == rows[n]);
        if carries(r, kind) && (p is None || rows[p->0].computed_at < r.computed_at) {
            assert(last_public(rows, kind) == Some(n));
            assert forall|j: int| 0 <= j < rows.len() && carries(#[trigger] rows[j], kind) implies rows[j].computed_at <= rows[n].computed_at by {
                if j < n {
                    assert(prev[j] == rows[j]);
                    assert(prev[p->0] == rows[p->0]);
                }
            }
        } else {
            assert(last_public(rows, kind) == p);
            match p {
                Some(i) => {
                    assert(prev[i] == rows[i]);
                    assert forall|j: int| 0 <= j < rows.len() && carries(#[trigger] rows[j], kind) implies rows[j].computed_at <= rows[i].computed_at by {
                        if j < n {
                            assert(prev[j] == rows[j]);
                        }
                    }
                },
                None => {
                    assert forall|j: int| 0 <= j < rows.len() implies !carries(#[trigger] rows[j], kind) by {
                        if j < n {
                            assert(prev[j] == rows[j]);
                        }
                    }
                },
            }
        }
    }
}

fn find_last_public(rows: &Vec<StoredSnapshot>, kind: LeaderboardKind) -> (r: Option<usize>)
    ensures
        match r {
            Some(i) => last_public(rows@, kind) == Some(i as int) && i < rows@.len(),
            None => last_public(rows@, kind) is None,
        },
{
    let mut found: Option<usize> = None;
    let mut i: usize = 0;
    while i < rows.len()
        invariant
            i <= rows.len(),
            match found {
                Some(k) => last_public(rows@.take(i as int), kind) == Some(k as int) && k < i,
                None => last_public(rows@.take(i as int), kind) is None,
            },
        decreases rows.len() - i,
    {
        let r = &rows[i];
        assert(rows@.take(i + 1).drop_last() =~= rows@.take(i as int));
        assert(rows@.take(i + 1).last() == rows@[i as int]);
        let carried = r.kind == kind && !r.stale && r.public_snapshot;
        let later = match found {
            Some(k) => {
                assert(rows@.take(i + 1)[k as int] == rows@[k as int]);
                rows[k].computed_at < r.computed_at
            },
            None => true,
        };
        if carried && later {
            found = Some(i);
        }
        i = i + 1;
    }
    assert(rows@.take(rows.len() as int) =~= rows@);
    found
}

/// What a recomputation stores as the entries of one leaderboard: a fresh ranking, or after a
/// failure the entries of the last public snapshot of its kind (`None` when there is none, in
/// which case the snapshot holds an empty list).
pub enum SnapshotEntries {
    Ranked(Vec<RankedEntry>),
    Carried(Option<serde_json::Value>),
}

/// One snapshot that a recomputation stores.
pub struct SnapshotPlan {
    pub meta: SnapshotMeta,
    pub entries: SnapshotEntries,
}

/// The entries carried over for `kind` from the stored snapshots `rows`.
pub open spec fn carried_entries(rows: Seq<StoredSnapshot>, kind: LeaderboardKind) -> Option<serde_json::Value> {
    match last_public(rows, kind) {
        Some(i) => Some(rows[i].entries),
        None => None,
    }
}

fn carried(rows: &Vec<StoredSnapshot>, kind: LeaderboardKind) -> (e: Option<serde_json::Value>)
    ensures
        e == carried_entries(rows@, kind),
{
    match find_last_public(rows, kind) {
        Some(i) => Some(rows[i].entries.clone()),
        None => None,
    }
}

/// `plans` are the two snapshots that a recomputation with the active script
/// `script_version_id` stores after the script's `run`, individual first: on success both
/// leaderboards ranked afresh; on failure both stale, carrying over the entries of the last
/// public snapshot of their kind among the stored snapshots `previous`, and recording the
/// failure.
pub open spec fn planned(
    plans: (SnapshotPlan, SnapshotPlan),
    run: Result<ScriptOutput, ResponseError>,
    previous: Seq<StoredSnapshot>,
    script_version_id: i64,
    registration_names: Map<i64, String>,
    team_names: Map<i64, String>,
    public: bool,
) -> bool {
    &&& plans.0.meta.kind == LeaderboardKind::Individual
    &&& plans.1.meta.kind == LeaderboardKind::Team
    &&& plans.0.meta.public_snapshot == public && plans.1.meta.public_snapshot == public
    &&& plans.0.meta.script_version_id == script_version_id
    &&& plans.1.meta.script_version_id == script_version_id
    &&& match run {
        Ok(o) => {
            &&& !plans.0.meta.stale && plans.0.meta.error is None
            &&& !plans.1.meta.stale && plans.1.meta.error is None
            &&& plans.0.entries matches SnapshotEntries::Ranked(v) && is_leaderboard(
                v@,
                o.individual@,
                registration_names,
            )
            &&& plans.1.entries matches SnapshotEntries::Ranked(v) && is_leaderboard(v@, o.team@, team_names)
        },
        Err(e) => {
            &&& plans.0.meta.stale && plans.1.meta.stale
            &&& plans.0.meta.error matches Some(t) && t@ == e.spec_describe()
            &&& plans.1.meta.error matches Some(t) && t@ == e.spec_describe()
            &&& plans.0.entries matches SnapshotEntries::Carried(c) && c == carried_entries(
                previous,
                LeaderboardKind::Individual,
            )
            &&& plans.1.entries matches SnapshotEntries::Carried(c) && c == carried_entries(
                previous,
                LeaderboardKind::Team,
            )
        },
    }
}

/// The two snapshots that a recomputation with the active script `script_version_id` stores
/// after the script's `run`, as [`planned`] says.
pub fn plan_snapshots(
    run: Result<ScriptOutput, ResponseError>,
    previous: &Vec<StoredSnapshot>,
    script_version_id: i64,
    registration_names: &HashMap<i64, String>,
    team_names: &HashMap<i64, String>,
    public: bool,
) -> (plans: (SnapshotPlan, SnapshotPlan))
    ensures
        planned(plans, run, previous@, script_version_id, registration_names@, team_names@, public),
{
    match run {
        Ok(output) => {
            let individual = rank_entries(output.individual, registration_names);
            let team = rank_entries(output.team, team_names);
            (
                SnapshotPlan {
                    meta: snapshot_meta(LeaderboardKind::Individual, script_version_id, None, public),
                    entries: SnapshotEntries::Ranked(individual),
                },
                SnapshotPlan {
                    meta: snapshot_meta(LeaderboardKind::Team, script_version_id, None, public),
                    entries: SnapshotEntries::Ranked(team),
                },
            )
        },
        Err(e) => (
            SnapshotPlan {
                meta: snapshot_meta(LeaderboardKind::Individual, script_version_id, Some(&e), public),
                entries: SnapshotEntries::Carried(carried(previous, LeaderboardKind::Individual)),
            },
            SnapshotPlan {
                meta: snapshot_meta(LeaderboardKind::Team, script_version_id, Some(&e), public),
                entries: SnapshotEntries::Carried(carried(previous, LeaderboardKind::Team)),
            },
        ),
    }
}

/// A stored snapshot as plain values: how it is stored (kind, script version, stale, the
/// failure's description, public), and its entries (the rows of a fresh leaderboard, or what
/// was carried over).
pub open spec fn plan_view(p: SnapshotPlan) -> (
    (LeaderboardKind, i64, bool, Option<Seq<char>>, bool),
    Option<Seq<BoardRow>>,
    Option<Option<serde_json::Value>>,
) {
    let m = p.meta;
    let error = match m.error {
        Some(t) => Some(t@),
        None => None,
    };
    (
        (m.kind, m.script_version_id, m.stale, error, m.public_snapshot),
        match p.entries {
            SnapshotEntries::Ranked(v) => Some(board_rows(v@)),
            SnapshotEntries::Carried(_) => None,
        },
        match p.entries {
            SnapshotEntries::Ranked(_) => None,
            SnapshotEntries::Carried(c) => Some(c),
        },
    )
}

/// A recomputation is determined by the script's run, the stored snapshots, the active script,
/// the names and the visibility: any two sets of snapshots planned from the same of these are
/// the same.
pub proof fn lemma_plans_unique(
    a: (SnapshotPlan, SnapshotPlan),
    b: (SnapshotPlan, SnapshotPlan),
    run: Result<ScriptOutput, ResponseError>,
    previous: Seq<StoredSnapshot>,
    script_version_id: i64,
    registration_names: Map<i64, String>,
    team_names: Map<i64, String>,
    public: bool,
)
    requires
        planned(a, run, previous, script_version_id, registration_names, team_names, public),
        planned(b, run, previous, script_version_id, registration_names, team_names, public),
    ensures
        plan_view(a.0) == plan_view(b.0),
        plan_view(a.1) == plan_view(b.1),
{
    if let Ok(o) = run {
        if let (SnapshotEntries::Ranked(va), SnapshotEntries::Ranked(vb)) = (a.0.entries, b.0.entries) {
            lemma_leaderboard_unique(va@, vb@, o.individual@, registration_names);
        }
        if let (SnapshotEntries::Ranked(va), SnapshotEntries::Ranked(vb)) = (a.1.entries, b.1.entries) {
            lemma_leaderboard_unique(va@, vb@, o.team@, team_names);
        }
    }
}

/// After a failure, the entries carried over for a kind are those of a stored public, fresh
/// snapshot of that kind computed no earlier than any other such snapshot; with no such
/// snapshot, nothing is carried.
pub proof fn lemma_failure_keeps_last_public(rows: Seq<StoredSnapshot>, kind: LeaderboardKind)
    ensures
        carried_entries(rows, kind) matches Some(e) ==> exists|i: int|
            0 <= i < rows.len() && carries(#[trigger] rows[i], kind) && rows[i].entries == e && forall|j: int|
                0 <= j < rows.len() && carries(#[trigger] rows[j], kind) ==> rows[j].computed_at <= rows[i].computed_at,
        carried_entries(rows, kind) is None ==> forall|j: int| 0 <= j < rows.len() ==> !carries(#[trigger] rows[j], kind),
{
    lemma_last_public(rows, kind);
}

} // verus!
