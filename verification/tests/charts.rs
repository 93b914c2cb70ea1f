use rhythm_arena::charts::{
    chart_listed, chart_weight_or_default, ensure_link_target, files_personal_chart, link_visible,
    new_link, source_choice, to_ascii_lowercase, updated_link, LinkInput, LinkView, SourceChoice,
};
use rhythm_arena::error::ResponseError;
use rhythm_arena::lifecycle::Lifecycle;
use rhythm_arena::model::ChartVisibility;

fn err<T: std::fmt::Debug>(r: Result<T, ResponseError>) -> (u16, String) {
    match r {
        Err(e) => (e.status(), e.body()),
        Ok(v) => panic!("unexpected {:?}", v),
    }
}

fn target(library: Option<i64>, visibility: Option<ChartVisibility>, title: Option<&str>) -> LinkInput {
    LinkInput {
        chart_library_id: library,
        round_id: 2,
        tag_id: 3,
        order_index: 1,
        weight_millionths: None,
        description: None,
        title: title.map(str::to_owned),
        artist: None,
        charter: Some("Charter".to_owned()),
        difficulty: None,
        cover: None,
        metadata: None,
        visibility,
    }
}

#[test]
fn chart_sources() {
    assert_eq!(to_ascii_lowercase("PhIRA-Ä"), "phira-Ä");
    match source_choice(Some("  PHIRA "), Some(4)).unwrap() {
        SourceChoice::ByType(t) => assert_eq!(t, "phira"),
        _ => panic!("by type expected"),
    }
    assert!(matches!(source_choice(None, Some(4)).unwrap(), SourceChoice::ById(4)));
    assert!(matches!(source_choice(None, None).unwrap(), SourceChoice::Personal));
    match source_choice(Some("  "), None) {
        Err(ResponseError::BadRequest(m)) => assert_eq!(m, "chart source is invalid"),
        _ => panic!("error expected"),
    }
}

#[test]
fn link_targets() {
    let ok = target(None, Some(ChartVisibility::Private), Some("Song"));
    assert!(ensure_link_target(1, &ok, Some(1), Some((1, 2)), false).is_ok());
    assert_eq!(err(ensure_link_target(1, &target(None, None, Some("Song")), Some(1), Some((1, 2)), false)), (400, "chart visibility is required".to_owned()));
    assert_eq!(err(ensure_link_target(1, &ok, Some(9), Some((1, 2)), false)), (400, "round or chart tag does not belong to tournament".to_owned()));
    assert_eq!(err(ensure_link_target(1, &ok, Some(1), Some((1, 5)), false)), (400, "round or chart tag does not belong to tournament".to_owned()));
    assert_eq!(err(ensure_link_target(1, &ok, Some(1), None, false)), (400, "round or chart tag does not belong to tournament".to_owned()));
    let linked = target(Some(7), Some(ChartVisibility::Public), None);
    assert_eq!(err(ensure_link_target(1, &linked, Some(1), Some((1, 2)), false)), (404, "chart library entry not found".to_owned()));
    assert!(ensure_link_target(1, &linked, Some(1), Some((1, 2)), true).is_ok());
    let untitled = target(None, Some(ChartVisibility::Public), Some(" "));
    assert_eq!(err(ensure_link_target(1, &untitled, Some(1), Some((1, 2)), true)), (400, "chart library entry or chart title is required".to_owned()));
}

#[test]
fn personal_charts_and_listing() {
    assert!(files_personal_chart(None, Some(ChartVisibility::Public)));
    assert!(files_personal_chart(None, Some(ChartVisibility::AfterArchive)));
    assert!(!files_personal_chart(None, Some(ChartVisibility::Private)));
    assert!(!files_personal_chart(Some(1), Some(ChartVisibility::Public)));
    assert_eq!(chart_weight_or_default(None), 1_000_000);
    assert_eq!(chart_weight_or_default(Some(5)), 5);
    assert!(link_visible(ChartVisibility::Public, Lifecycle::Draft));
    assert!(!link_visible(ChartVisibility::AfterArchive, Lifecycle::Finished));
    assert!(link_visible(ChartVisibility::AfterArchive, Lifecycle::Archived));
    assert!(chart_listed(&vec![]));
    assert!(!chart_listed(&vec![LinkView { visibility: ChartVisibility::Private, lifecycle: Lifecycle::Archived }]));
    assert!(chart_listed(&vec![
        LinkView { visibility: ChartVisibility::Private, lifecycle: Lifecycle::Archived },
        LinkView { visibility: ChartVisibility::AfterArchive, lifecycle: Lifecycle::Archived },
    ]));
}

#[test]
fn links_take_their_fields() {
    let link = new_link(target(None, Some(ChartVisibility::Public), Some("Song")), Some(40)).unwrap();
    assert_eq!(link.chart_library_id, Some(40));
    assert_eq!(link.visibility, ChartVisibility::Public);
    assert_eq!((link.round_id, link.tag_id, link.order_index, link.weight_millionths), (2, 3, 1, 1_000_000));
    assert_eq!((link.title.as_str(), link.artist.as_str(), link.charter.as_str()), ("Song", "", "Charter"));
    assert!(link.metadata.as_object().is_some_and(|m| m.is_empty()));
    assert_eq!(err(new_link(target(None, None, Some("Song")), None)), (400, "chart visibility is required".to_owned()));

    let mut change = target(Some(8), Some(ChartVisibility::Private), None);
    change.weight_millionths = Some(2_000_000);
    change.artist = Some("Artist".to_owned());
    let changed = updated_link(link, change).unwrap();
    assert_eq!(changed.chart_library_id, Some(8));
    assert_eq!(changed.visibility, ChartVisibility::Private);
    assert_eq!(changed.weight_millionths, 2_000_000);
    assert_eq!((changed.title.as_str(), changed.artist.as_str(), changed.charter.as_str()), ("Song", "Artist", "Charter"));
    let keep = new_link(target(None, Some(ChartVisibility::Public), Some("A")), None).unwrap();
    assert_eq!(err(updated_link(keep, target(None, None, None))), (400, "chart visibility is required".to_owned()));
}

use rhythm_arena::access::Token;
use rhythm_arena::model::Permission;
use rhythm_arena::charts::{check_library_delete, imported_chart, new_library_entry, update_library_entry, personal_entry, ChartLibraryInput, ChartLibraryPatch, PhiraChart};

#[test]
fn library_entries() {
    let input = ChartLibraryInput {
        source_id: None,
        source_type: None,
        external_id: Some("x1".to_owned()),
        title: "T".to_owned(),
        artist: "A".to_owned(),
        charter: "C".to_owned(),
        difficulty: "IN".to_owned(),
        cover: None,
        metadata: serde_json::Value::Bool(true),
    };
    let entry = new_library_entry(input, 3, 9, 77);
    assert_eq!((entry.source_id, entry.created_by, entry.created_at, entry.updated_at), (3, 9, 77, 77));
    assert_eq!(entry.external_id.as_deref(), Some("x1"));
    let patch = ChartLibraryPatch {
        title: Some("T2".to_owned()),
        artist: None,
        charter: None,
        difficulty: None,
        cover: Some("c.png".to_owned()),
        metadata: None,
    };
    let owner = Token { id: 9, nickname: "o".to_owned(), permissions: vec![Permission::ChartLibrary] };
    let other = Token { id: 4, nickname: "x".to_owned(), permissions: vec![Permission::ChartLibrary] };
    let devops = Token { id: 4, nickname: "d".to_owned(), permissions: vec![Permission::DevOps] };
    let nobody = Token { id: 0, nickname: String::new(), permissions: vec![] };
    let keep = ChartLibraryPatch { title: None, artist: None, charter: None, difficulty: None, cover: None, metadata: None };
    let entry = match update_library_entry(&other, entry, keep) {
        Err(ResponseError::Forbidden(m)) => {
            assert_eq!(m, "can only modify your own charts");
            new_library_entry(
                ChartLibraryInput {
                    source_id: None,
                    source_type: None,
                    external_id: Some("x1".to_owned()),
                    title: "T".to_owned(),
                    artist: "A".to_owned(),
                    charter: "C".to_owned(),
                    difficulty: "IN".to_owned(),
                    cover: None,
                    metadata: serde_json::Value::Bool(true),
                },
                3,
                9,
                77,
            )
        },
        other => panic!("unexpected {:?}", other),
    };
    assert!(check_library_delete(&owner, Some(9)).is_ok());
    assert!(check_library_delete(&devops, Some(9)).is_ok());
    assert!(matches!(check_library_delete(&other, Some(9)), Err(ResponseError::Forbidden(_))));
    assert!(matches!(check_library_delete(&nobody, None), Err(ResponseError::Unauthorized(_))));
    assert!(check_library_delete(&other, None).is_ok());
    let patched = update_library_entry(&owner, entry, patch).unwrap();
    assert_eq!((patched.title.as_str(), patched.artist.as_str()), ("T2", "A"));
    assert_eq!(patched.cover.as_deref(), Some("c.png"));
    assert_eq!(patched.metadata, serde_json::Value::Bool(true));
    assert_eq!(patched.updated_at, 77);

    let mut extra = serde_json::Map::new();
    extra.insert("rating".to_owned(), serde_json::Value::from(4));
    let chart = PhiraChart {
        id: -12,
        name: "Song".to_owned(),
        level: "AT 16".to_owned(),
        charter: "ch".to_owned(),
        composer: "co".to_owned(),
        illustration: Some("i.png".to_owned()),
        extra: serde_json::Value::Object(extra),
    };
    let imported = imported_chart(chart, 5, 9, 1);
    assert_eq!(imported.external_id.as_deref(), Some("-12"));
    assert_eq!((imported.title.as_str(), imported.artist.as_str(), imported.difficulty.as_str()), ("Song", "co", "AT 16"));
    assert_eq!(imported.metadata["rating"], serde_json::Value::from(4));

    let personal = personal_entry(&target(None, Some(ChartVisibility::Public), Some("Mine")), 2, 9, 5);
    assert_eq!(personal.external_id, None);
    assert_eq!((personal.title.as_str(), personal.artist.as_str(), personal.charter.as_str()), ("Mine", "", "Charter"));
    assert!(personal.metadata.as_object().is_some_and(|m| m.is_empty()));
}
