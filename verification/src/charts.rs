//! The shared chart library: where an uploaded chart comes from, which links may point at
//! it, and which charts the public listing shows.
use vstd::prelude::*;
use vstd::string::StringExecFns;

use crate::access::{authenticated, chart_modifier_error, require_chart_modifier, Token};
use crate::error::{bad_request, not_found, outcome, ErrorKind, ResponseError};
use crate::lifecycle::Lifecycle;
use crate::model::ChartVisibility;
use crate::text::{blank, chars_of, decimal, is_blank, push_char, push_decimal, trim, trimmed};

verus! {

/// `c` in lower case when it is an ASCII capital letter.
pub open spec fn ascii_lower(c: char) -> char {
    if 'A' <= c <= 'Z' {
        ((c as u32) + 32) as char
    } else {
        c
    }
}

/// `s` with its ASCII capitals in lower case (`str::to_ascii_lowercase`).
pub open spec fn ascii_lowercase(s: Seq<char>) -> Seq<char> {
    s.map_values(|c: char| ascii_lower(c))
}

/// `s` with its ASCII capitals in lower case.
pub fn to_ascii_lowercase(s: &str) -> (out: String)
    ensures
        out@ == ascii_lowercase(s@),
{
    let v = chars_of(s);
    let mut out = String::new();
    let mut i: usize = 0;
    while i < v.len()
        invariant
            i <= v.len(),
            v@ == s@,
            out@ == ascii_lowercase(s@.take(i as int)),
        decreases v.len() - i,
    {
        let c = v[i];
        let lower = if 'A' <= c && c <= 'Z' {
            let u: u8 = (c as u8) + 32;
            u as char
        } else {
            c
        };
        assert(lower == ascii_lower(c));
        push_char(&mut out, lower);
        assert(ascii_lowercase(s@.take(i + 1)) =~= ascii_lowercase(s@.take(i as int)).push(lower));
        i = i + 1;
    }
    assert(s@.take(v.len() as int) =~= s@);
    out
}

/// Where the chart source of a new library entry is looked up.
pub enum SourceChoice {
    /// The source of this type (trimmed, in lower case).
    ByType(String),
    /// The source with this id.
    ById(i64),
    /// The personal source.
    Personal,
}

/// How the source of a new library entry is chosen: by its type when one is given (a blank
/// type is refused), else by id when one is given, else the personal source.
pub fn source_choice(source_type: Option<&str>, source_id: Option<i64>) -> (r: Result<
    SourceChoice,
    ResponseError,
>)
    ensures
        match source_type {
            Some(t) => if trimmed(t@).len() == 0 {
                r is Err && r->Err_0.is(ErrorKind::BadRequest, "chart source is invalid"@)
            } else {
                r matches Ok(SourceChoice::ByType(k)) && k@ == ascii_lowercase(trimmed(t@))
            },
            None => match source_id {
                Some(id) => r matches Ok(SourceChoice::ById(x)) && x == id,
                None => r matches Ok(SourceChoice::Personal),
            },
        },
{
    match source_type {
        Some(t) => {
            let kind = to_ascii_lowercase(trim(t));
            if kind.as_str().unicode_len() == 0 {
                return Err(bad_request("chart source is invalid"));
            }
            proof {
                assert(kind@.len() == trimmed(t@).len());
            }
            Ok(SourceChoice::ByType(kind))
        },
        None => match source_id {
            Some(id) => Ok(SourceChoice::ById(id)),
            None => Ok(SourceChoice::Personal),
        },
    }
}

/// The request that links a chart to a tournament (or changes a link), without the level
/// constant, which the library does not read. A link names a library entry, or carries the
/// chart's fields itself.
pub struct LinkInput {
    pub chart_library_id: Option<i64>,
    pub round_id: i64,
    pub tag_id: i64,
    pub order_index: i32,
    pub weight_millionths: Option<i64>,
    pub description: Option<String>,
    pub title: Option<String>,
    pub artist: Option<String>,
    pub charter: Option<String>,
    pub difficulty: Option<String>,
    pub cover: Option<String>,
    pub metadata: Option<serde_json::Value>,
    pub visibility: Option<ChartVisibility>,
}

/// Why a link target is refused, if it is: a visibility is required; the round and the tag
/// must belong to the tournament (and the tag to the round); a library entry that is named
/// must exist, and without one the link needs a title of its own. `round_tournament` is the
/// tournament of the round, `tag` the tournament and round of the tag (`None` when missing).
pub open spec fn link_target_error(
    tournament_id: i64,
    target: LinkInput,
    round_tournament: Option<i64>,
    tag: Option<(i64, i64)>,
    library_entry_found: bool,
) -> Option<(ErrorKind, Seq<char>)> {
    if target.visibility is None {
        Some((ErrorKind::BadRequest, "chart visibility is required"@))
    } else if round_tournament != Some(tournament_id) || tag != Some((tournament_id, target.round_id)) {
        Some((ErrorKind::BadRequest, "round or chart tag does not belong to tournament"@))
    } else if target.chart_library_id is Some && !library_entry_found {
        Some((ErrorKind::NotFound, "chart library entry not found"@))
    } else if target.chart_library_id is None && (match target.title {
        Some(t) => is_blank(t@),
        None => true,
    }) {
        Some((ErrorKind::BadRequest, "chart library entry or chart title is required"@))
    } else {
        None
    }
}

/// Checks a link target.
pub fn ensure_link_target(
    tournament_id: i64,
    target: &LinkInput,
    round_tournament: Option<i64>,
    tag: Option<(i64, i64)>,
    library_entry_found: bool,
) -> (r: Result<(), ResponseError>)
    ensures
        outcome(r, link_target_error(tournament_id, *target, round_tournament, tag, library_entry_found)),
{
    if target.visibility.is_none() {
        return Err(bad_request("chart visibility is required"));
    }
    let round_ok = round_tournament == Some(tournament_id);
    let tag_ok = match tag {
        Some((t, rd)) => t == tournament_id && rd == target.round_id,
        None => false,
    };
    if !round_ok || !tag_ok {
        return Err(bad_request("round or chart tag does not belong to tournament"));
    }
    match target.chart_library_id {
        Some(_) => {
            if !library_entry_found {
                return Err(not_found("chart library entry not found"));
            }
        },
        None => {
            let untitled = match &target.title {
                Some(t) => blank(t.as_str()),
                None => true,
            };
            if untitled {
                return Err(bad_request("chart library entry or chart title is required"));
            }
        },
    }
    Ok(())
}

/// A new link without a library entry, and not private, first files its chart in the library
/// under the personal source.
pub fn files_personal_chart(chart_library_id: Option<i64>, visibility: Option<ChartVisibility>) -> (b:
    bool)
    ensures
        b == (chart_library_id is None && (visibility matches Some(v) && v
            != ChartVisibility::Private)),
{
    chart_library_id.is_none() && match visibility {
        Some(ChartVisibility::Private) => false,
        Some(_) => true,
        None => false,
    }
}

/// The weight of a chart: the one given, else one million millionths.
pub fn chart_weight_or_default(weight_millionths: Option<i64>) -> (w: i64)
    ensures
        w == match weight_millionths {
            Some(v) => v,
            None => 1_000_000,
        },
{
    match weight_millionths {
        Some(v) => v,
        None => 1_000_000,
    }
}

/// A link shows its chart publicly when it is public, or when it opens after the archive and
/// its tournament is archived.
pub open spec fn link_shows(visibility: ChartVisibility, lifecycle: Lifecycle) -> bool {
    visibility == ChartVisibility::Public || (visibility == ChartVisibility::AfterArchive
        && lifecycle == Lifecycle::Archived)
}

/// Whether a link shows its chart publicly.
pub fn link_visible(visibility: ChartVisibility, lifecycle: Lifecycle) -> (b: bool)
    ensures
        b == link_shows(visibility, lifecycle),
{
    match visibility {
        ChartVisibility::Public => true,
        ChartVisibility::AfterArchive => lifecycle == Lifecycle::Archived,
        ChartVisibility::Private => false,
    }
}

/// What the listing reads of one link of a library chart: its visibility and the stage of its
/// tournament.
#[derive(Clone, Copy, Debug)]
pub struct LinkView {
    pub visibility: ChartVisibility,
    pub lifecycle: Lifecycle,
}

/// The public listing shows a library chart that no tournament links, or that one of its
/// links shows.
pub open spec fn chart_listed_spec(links: Seq<LinkView>) -> bool {
    links.len() == 0 || exists|i: int| 0 <= i < links.len() && link_shows(
        (#[trigger] links[i]).visibility,
        links[i].lifecycle,
    )
}

/// Which library charts the public listing shows. A chart that no tournament links is listed.
/// A chart with a public link, or with an after-archive link in an archived tournament, is
/// listed whatever its other links are. A chart whose links are all private, or after-archive
/// in tournaments not yet archived, is not listed. Adding a link never hides a listed chart.
pub proof fn lemma_chart_listing(links: Seq<LinkView>, i: int, extra: LinkView)
    ensures
        chart_listed_spec(Seq::<LinkView>::empty()),
        0 <= i < links.len() && (links[i].visibility == ChartVisibility::Public || (links[i].visibility
            == ChartVisibility::AfterArchive && links[i].lifecycle == Lifecycle::Archived)) ==> chart_listed_spec(
            links,
        ),
        links.len() > 0 && (forall|j: int|
            0 <= j < links.len() ==> (#[trigger] links[j]).visibility == ChartVisibility::Private || (
            links[j].visibility == ChartVisibility::AfterArchive && links[j].lifecycle != Lifecycle::Archived))
            ==> !chart_listed_spec(links),
        links.len() > 0 && chart_listed_spec(links) ==> chart_listed_spec(links.push(extra))
            && chart_listed_spec(seq![extra] + links),
{
    if 0 <= i < links.len() && link_shows(links[i].visibility, links[i].lifecycle) {
        assert(links.push(extra)[i] == links[i]);
    }
    if links.len() > 0 && chart_listed_spec(links) {
        let k = choose|k: int| 0 <= k < links.len() && link_shows((#[trigger] links[k]).visibility, links[k].lifecycle);
        assert(links.push(extra)[k] == links[k]);
        assert((seq![extra] + links)[k + 1] == links[k]);
    }
}

/// The listing does not depend on the order of a chart's links: any two lists of the same
/// links give the same answer.
pub proof fn lemma_chart_listing_ignores_order(a: Seq<LinkView>, b: Seq<LinkView>)
    requires
        a.to_multiset() == b.to_multiset(),
    ensures
        chart_listed_spec(a) == chart_listed_spec(b),
{
    broadcast use vstd::seq_lib::group_to_multiset_ensures;

    a.to_multiset_ensures();
    b.to_multiset_ensures();
    if a.len() > 0 && chart_listed_spec(a) {
        let k = choose|k: int| 0 <= k < a.len() && link_shows((#[trigger] a[k]).visibility, a[k].lifecycle);
        assert(a.contains(a[k]));
        assert(a.to_multiset().count(a[k]) > 0);
        assert(b.contains(a[k]));
        let j = choose|j: int| 0 <= j < b.len() && b[j] == a[k];
        assert(link_shows(b[j].visibility, b[j].lifecycle));
    }
    if b.len() > 0 && chart_listed_spec(b) {
        let k = choose|k: int| 0 <= k < b.len() && link_shows((#[trigger] b[k]).visibility, b[k].lifecycle);
        assert(b.contains(b[k]));
        assert(b.to_multiset().count(b[k]) > 0);
        assert(a.contains(b[k]));
        let j = choose|j: int| 0 <= j < a.len() && a[j] == b[k];
        assert(link_shows(a[j].visibility, a[j].lifecycle));
    }
}

/// Whether the public listing shows a library chart with the links `links`.
pub fn chart_listed(links: &Vec<LinkView>) -> (b: bool)
    ensures
        b == chart_listed_spec(links@),
{
    if links.len() == 0 {
        return true;
    }
    let mut i: usize = 0;
    while i < links.len()
        invariant
            i <= links.len(),
            forall|k: int| 0 <= k < i ==> !link_shows((#[trigger] links@[k]).visibility, links@[k].lifecycle),
        decreases links.len() - i,
    {
        if link_visible(links[i].visibility, links[i].lifecycle) {
            assert(link_shows(links@[i as int].visibility, links@[i as int].lifecycle));
            return true;
        }
        i = i + 1;
    }
    false
}

/// The fields of a tournament's chart link that the library sets (its id, tournament and level
/// constant are kept by the store).
#[derive(Debug)]
pub struct ChartLink {
    pub chart_library_id: Option<i64>,
    pub visibility: ChartVisibility,
    pub round_id: i64,
    pub tag_id: i64,
    pub order_index: i32,
    pub weight_millionths: i64,
    pub description: Option<String>,
    pub title: String,
    pub artist: String,
    pub charter: String,
    pub difficulty: String,
    pub cover: Option<String>,
    pub metadata: serde_json::Value,
}

/// An empty JSON object (`serde_json::json!({})`).
#[verifier::external_body]
fn empty_object() -> serde_json::Value {
    serde_json::Value::Object(serde_json::Map::new())
}

/// The text given, or the empty text.
fn text_or_empty(s: Option<String>) -> (t: String)
    ensures
        t@ == match s {
            Some(v) => v@,
            None => Seq::<char>::empty(),
        },
{
    match s {
        Some(v) => v,
        None => String::new(),
    }
}

/// The text of an optional field, or the empty text.
pub open spec fn or_empty(s: Option<String>) -> Seq<char> {
    match s {
        Some(v) => v@,
        None => Seq::empty(),
    }
}

/// The new link that `input` asks for, pointing at the library entry `chart_library_id` (the
/// one asked for, or the entry filed for it): a visibility is required; the weight defaults to
/// one million millionths, absent texts to empty ones and absent metadata to an empty object.
pub fn new_link(input: LinkInput, chart_library_id: Option<i64>) -> (r: Result<ChartLink, ResponseError>)
    ensures
        input.visibility is None ==> r is Err && r->Err_0.is(ErrorKind::BadRequest, "chart visibility is required"@),
        input.visibility matches Some(v) ==> r matches Ok(l) && {
            &&& l.chart_library_id == chart_library_id
            &&& l.visibility == v
            &&& l.round_id == input.round_id
            &&& l.tag_id == input.tag_id
            &&& l.order_index == input.order_index
            &&& l.weight_millionths == (match input.weight_millionths {
                Some(w) => w,
                None => 1_000_000,
            })
            &&& l.description == input.description
            &&& l.title@ == or_empty(input.title)
            &&& l.artist@ == or_empty(input.artist)
            &&& l.charter@ == or_empty(input.charter)
            &&& l.difficulty@ == or_empty(input.difficulty)
            &&& l.cover == input.cover
            &&& (input.metadata matches Some(m) ==> l.metadata == m)
        },
{
    let visibility = match input.visibility {
        Some(v) => v,
        None => {
            return Err(bad_request("chart visibility is required"));
        },
    };
    let metadata = match input.metadata {
        Some(m) => m,
        None => empty_object(),
    };
    Ok(
        ChartLink {
            chart_library_id,
            visibility,
            round_id: input.round_id,
            tag_id: input.tag_id,
            order_index: input.order_index,
            weight_millionths: chart_weight_or_default(input.weight_millionths),
            description: input.description,
            title: text_or_empty(input.title),
            artist: text_or_empty(input.artist),
            charter: text_or_empty(input.charter),
            difficulty: text_or_empty(input.difficulty),
            cover: input.cover,
            metadata,
        },
    )
}

/// The link `current` changed by `input`: the library entry, visibility, round, tag, order,
/// weight and description are replaced (a visibility is required, the weight defaults to one
/// million millionths); the chart's texts, cover and metadata only when given.
pub fn updated_link(current: ChartLink, input: LinkInput) -> (r: Result<ChartLink, ResponseError>)
    ensures
        input.visibility is None ==> r is Err && r->Err_0.is(ErrorKind::BadRequest, "chart visibility is required"@),
        input.visibility matches Some(v) ==> r matches Ok(l) && {
            &&& l.chart_library_id == input.chart_library_id
            &&& l.visibility == v
            &&& l.round_id == input.round_id
            &&& l.tag_id == input.tag_id
            &&& l.order_index == input.order_index
            &&& l.weight_millionths == (match input.weight_millionths {
                Some(w) => w,
                None => 1_000_000,
            })
            &&& l.description == input.description
            &&& l.title == (match input.title {
                Some(t) => t,
                None => current.title,
            })
            &&& l.artist == (match input.artist {
                Some(t) => t,
                None => current.artist,
            })
            &&& l.charter == (match input.charter {
                Some(t) => t,
                None => current.charter,
            })
            &&& l.difficulty == (match input.difficulty {
                Some(t) => t,
                None => current.difficulty,
            })
            &&& l.cover == (match input.cover {
                Some(c) => Some(c),
                None => current.cover,
            })
            &&& l.metadata == (match input.metadata {
                Some(m) => m,
                None => current.metadata,
            })
        },
{
    let visibility = match input.visibility {
        Some(v) => v,
        None => {
            return Err(bad_request("chart visibility is required"));
        },
    };
    Ok(
        ChartLink {
            chart_library_id: input.chart_library_id,
            visibility,
            round_id: input.round_id,
            tag_id: input.tag_id,
            order_index: input.order_index,
            weight_millionths: chart_weight_or_default(input.weight_millionths),
            description: input.description,
            title: match input.title {
                Some(t) => t,
                None => current.title,
            },
            artist: match input.artist {
                Some(t) => t,
                None => current.artist,
            },
            charter: match input.charter {
                Some(t) => t,
                None => current.charter,
            },
            difficulty: match input.difficulty {
                Some(t) => t,
                None => current.difficulty,
            },
            cover: match input.cover {
                Some(c) => Some(c),
                None => current.cover,
            },
            metadata: match input.metadata {
                Some(m) => m,
                None => current.metadata,
            },
        },
    )
}

/// The fields of a chart library entry that the library sets (its id, level constant and
/// review status are kept by the store).
#[derive(Debug)]
pub struct LibraryEntry {
    pub source_id: i64,
    pub external_id: Option<String>,
    pub created_by: i64,
    pub title: String,
    pub artist: String,
    pub charter: String,
    pub difficulty: String,
    pub cover: Option<String>,
    pub metadata: serde_json::Value,
    pub created_at: i64,
    pub updated_at: i64,
}

/// The request that adds a chart to the library, without the level constant.
pub struct ChartLibraryInput {
    pub source_id: Option<i64>,
    pub source_type: Option<String>,
    pub external_id: Option<String>,
    pub title: String,
    pub artist: String,
    pub charter: String,
    pub difficulty: String,
    pub cover: Option<String>,
    pub metadata: serde_json::Value,
}

/// The library entry that a signed-in caller adds, filed under the source `source_id` at
/// `now`.
pub fn new_library_entry(input: ChartLibraryInput, source_id: i64, created_by: i64, now: i64) -> (e:
    LibraryEntry)
    ensures
        e == (LibraryEntry {
            source_id,
            external_id: input.external_id,
            created_by,
            title: input.title,
            artist: input.artist,
            charter: input.charter,
            difficulty: input.difficulty,
            cover: input.cover,
            metadata: input.metadata,
            created_at: now,
            updated_at: now,
        }),
{
    LibraryEntry {
        source_id,
        external_id: input.external_id,
        created_by,
        title: input.title,
        artist: input.artist,
        charter: input.charter,
        difficulty: input.difficulty,
        cover: input.cover,
        metadata: input.metadata,
        created_at: now,
        updated_at: now,
    }
}

/// The changes to a library entry, without the level constant; absent fields stay.
pub struct ChartLibraryPatch {
    pub title: Option<String>,
    pub artist: Option<String>,
    pub charter: Option<String>,
    pub difficulty: Option<String>,
    pub cover: Option<String>,
    pub metadata: Option<serde_json::Value>,
}

/// The entry `current` with the given fields of `patch` replaced.
pub open spec fn spec_patched(current: LibraryEntry, patch: ChartLibraryPatch) -> LibraryEntry {
    LibraryEntry {
        title: match patch.title {
            Some(t) => t,
            None => current.title,
        },
        artist: match patch.artist {
            Some(t) => t,
            None => current.artist,
        },
        charter: match patch.charter {
            Some(t) => t,
            None => current.charter,
        },
        difficulty: match patch.difficulty {
            Some(t) => t,
            None => current.difficulty,
        },
        cover: match patch.cover {
            Some(c) => Some(c),
            None => current.cover,
        },
        metadata: match patch.metadata {
            Some(m) => m,
            None => current.metadata,
        },
        ..current
    }
}

fn patched_entry(current: LibraryEntry, patch: ChartLibraryPatch) -> (e: LibraryEntry)
    ensures
        e == spec_patched(current, patch),
{
    LibraryEntry {
        title: match patch.title {
            Some(t) => t,
            None => current.title,
        },
        artist: match patch.artist {
            Some(t) => t,
            None => current.artist,
        },
        charter: match patch.charter {
            Some(t) => t,
            None => current.charter,
        },
        difficulty: match patch.difficulty {
            Some(t) => t,
            None => current.difficulty,
        },
        cover: match patch.cover {
            Some(c) => Some(c),
            None => current.cover,
        },
        metadata: match patch.metadata {
            Some(m) => m,
            None => current.metadata,
        },
        ..current
    }
}

/// What the library reads of a Phira chart (its difficulty, a level constant, stays with the
/// store).
pub struct PhiraChart {
    pub id: i64,
    pub name: String,
    pub level: String,
    pub charter: String,
    pub composer: String,
    pub illustration: Option<String>,
    /// The chart's other fields, as a JSON object.
    pub extra: serde_json::Value,
}

/// The library entry of an imported Phira chart, filed under the Phira source at `now`: its
/// Phira id (in decimal) as the external id, its name as title, its composer as artist, its
/// level as difficulty, its illustration as cover and its other fields as metadata.
pub fn imported_chart(chart: PhiraChart, source_id: i64, created_by: i64, now: i64) -> (e: LibraryEntry)
    ensures
        e.source_id == source_id,
        e.external_id matches Some(x) && x@ == decimal(chart.id as int),
        e.created_by == created_by,
        e.title == chart.name,
        e.artist == chart.composer,
        e.charter == chart.charter,
        e.difficulty == chart.level,
        e.cover == chart.illustration,
        e.metadata == chart.extra,
        e.created_at == now && e.updated_at == now,
{
    let mut external = String::new();
    push_decimal(&mut external, chart.id);
    assert(Seq::<char>::empty() + decimal(chart.id as int) =~= decimal(chart.id as int));
    LibraryEntry {
        source_id,
        external_id: Some(external),
        created_by,
        title: chart.name,
        artist: chart.composer,
        charter: chart.charter,
        difficulty: chart.level,
        cover: chart.illustration,
        metadata: chart.extra,
        created_at: now,
        updated_at: now,
    }
}

fn text_of(s: &Option<String>) -> (t: String)
    ensures
        t@ == or_empty(*s),
{
    match s {
        Some(v) => v.clone(),
        None => String::new(),
    }
}

/// The library entry that a new public link without an entry files under the personal source
/// `source_id`: the link's texts (empty when absent), cover and metadata, with no external id.
pub fn personal_entry(input: &LinkInput, source_id: i64, created_by: i64, now: i64) -> (e: LibraryEntry)
    ensures
        e.source_id == source_id,
        e.external_id is None,
        e.created_by == created_by,
        e.title@ == or_empty(input.title),
        e.artist@ == or_empty(input.artist),
        e.charter@ == or_empty(input.charter),
        e.difficulty@ == or_empty(input.difficulty),
        e.cover == input.cover,
        input.metadata matches Some(m) ==> e.metadata == m,
        e.created_at == now && e.updated_at == now,
{
    let cover = match &input.cover {
        Some(c) => Some(c.clone()),
        None => None,
    };
    let metadata = match &input.metadata {
        Some(m) => m.clone(),
        None => empty_object(),
    };
    LibraryEntry {
        source_id,
        external_id: None,
        created_by,
        title: text_of(&input.title),
        artist: text_of(&input.artist),
        charter: text_of(&input.charter),
        difficulty: text_of(&input.difficulty),
        cover,
        metadata,
        created_at: now,
        updated_at: now,
    }
}

/// Changes a library entry for the caller with `token`: only `DevOps`, or the `ChartLibrary`
/// holder who uploaded the entry, may change it; the given fields of `patch` replace the
/// entry's.
pub fn update_library_entry(token: &Token, current: LibraryEntry, patch: ChartLibraryPatch) -> (r:
    Result<LibraryEntry, ResponseError>)
    ensures
        outcome(r, chart_modifier_error(token, current.created_by)),
        r matches Ok(e) ==> e == spec_patched(current, patch),
{
    require_chart_modifier(token, current.created_by)?;
    Ok(patched_entry(current, patch))
}

/// Whether the caller with `token` may delete the library entry uploaded by `created_by`
/// (`None` when there is no such entry, which leaves nothing to delete): only `DevOps`, or the
/// `ChartLibrary` holder who uploaded it.
pub fn check_library_delete(token: &Token, created_by: Option<i64>) -> (r: Result<(), ResponseError>)
    ensures
        match created_by {
            Some(c) => outcome(r, chart_modifier_error(token, c)),
            None => outcome(
                r,
                if token.id <= 0 {
                    Some((ErrorKind::Unauthorized, "authentication required"@))
                } else {
                    None
                },
            ),
        },
{
    match created_by {
        Some(c) => require_chart_modifier(token, c),
        None => authenticated(token),
    }
}

} // verus!
