use crate_library::query::{
    build_track_query, escape_like_string, join_strings, search_filter, tag_lookup_sql,
    tag_rows_by_track, QueryParam, TrackFilter, SEARCH_CONDITION, TAG_LOOKUP_SQL_HEAD,
    TAG_LOOKUP_SQL_TAIL, TRACK_SELECT_SQL,
};

fn describe(params: &[QueryParam<f64>]) -> Vec<String> {
    params
        .iter()
        .map(|p| match p {
            QueryParam::Text(s) => format!("text:{s}"),
            QueryParam::Number(n) => format!("number:{n}"),
        })
        .collect()
}

fn empty_filter() -> TrackFilter<f64> {
    TrackFilter {
        search: None,
        tag_ids: None,
        tag_filter_mode: None,
        playlist_id: None,
        bpm_min: None,
        bpm_max: None,
        key: None,
    }
}

#[test]
fn no_filter_selects_every_track_newest_first() {
    let q = build_track_query::<f64>(None);
    assert_eq!(q.sql, format!("{TRACK_SELECT_SQL} ORDER BY t.date_added DESC"));
    assert!(q.params.is_empty());
    let q2 = build_track_query(Some(empty_filter()));
    assert_eq!(q2.sql, q.sql);
    assert!(q2.params.is_empty());
}

#[test]
fn search_escapes_like_wildcards() {
    let q = build_track_query(Some(search_filter::<f64>("100%_pure".to_string())));
    assert_eq!(
        q.sql,
        format!("{TRACK_SELECT_SQL} WHERE {SEARCH_CONDITION} ORDER BY t.date_added DESC")
    );
    assert_eq!(describe(&q.params), vec!["text:%100\\%\\_pure%".to_string()]);
    assert_eq!(escape_like_string("a\\b%c_"), "a\\b\\%c\\_");
}

#[test]
fn every_condition_numbers_its_placeholders_in_order() {
    let filter = TrackFilter {
        search: Some("deep".to_string()),
        tag_ids: Some(vec!["t1".to_string(), "t2".to_string()]),
        tag_filter_mode: Some("and".to_string()),
        playlist_id: Some("p1".to_string()),
        bpm_min: Some(120.0),
        bpm_max: Some(128.5),
        key: Some("8A".to_string()),
    };
    let q = build_track_query(Some(filter));
    let conditions = [
        SEARCH_CONDITION.to_string(),
        "t.id IN (SELECT track_id FROM track_tags WHERE tag_id IN (?2, ?3) GROUP BY track_id HAVING COUNT(DISTINCT tag_id) = 2)".to_string(),
        "t.id IN (SELECT track_id FROM playlist_tracks WHERE playlist_id = ?4)".to_string(),
        "t.bpm >= ?5".to_string(),
        "t.bpm <= ?6".to_string(),
        "t.key = ?7".to_string(),
    ];
    assert_eq!(
        q.sql,
        format!(
            "{TRACK_SELECT_SQL} WHERE {} ORDER BY t.date_added DESC",
            conditions.join(" AND ")
        )
    );
    assert_eq!(
        describe(&q.params),
        vec!["text:%deep%", "text:t1", "text:t2", "text:p1", "number:120", "number:128.5", "text:8A"]
    );
}

#[test]
fn tags_default_to_any_and_empty_tags_add_nothing() {
    let mut f = empty_filter();
    f.tag_ids = Some(vec!["t9".to_string()]);
    f.tag_filter_mode = Some("AND".to_string());
    let q = build_track_query(Some(f));
    assert_eq!(
        q.sql,
        format!("{TRACK_SELECT_SQL} WHERE t.id IN (SELECT track_id FROM track_tags WHERE tag_id IN (?1)) ORDER BY t.date_added DESC")
    );
    assert_eq!(describe(&q.params), vec!["text:t9"]);

    let mut g = empty_filter();
    g.tag_ids = Some(Vec::new());
    g.key = Some("1B".to_string());
    let q = build_track_query(Some(g));
    assert_eq!(q.sql, format!("{TRACK_SELECT_SQL} WHERE t.key = ?1 ORDER BY t.date_added DESC"));
}

#[test]
fn tag_lookup_binds_one_placeholder_per_track() {
    assert_eq!(
        tag_lookup_sql(3),
        format!("{TAG_LOOKUP_SQL_HEAD}?1, ?2, ?3{TAG_LOOKUP_SQL_TAIL}")
    );
    assert_eq!(tag_lookup_sql(0), format!("{TAG_LOOKUP_SQL_HEAD}{TAG_LOOKUP_SQL_TAIL}"));
    assert_eq!(tag_lookup_sql(12).matches('?').count(), 12);
}

#[test]
fn tag_rows_go_to_the_first_track_with_their_id() {
    let tracks = vec!["a".to_string(), "b".to_string(), "a".to_string(), "c".to_string()];
    let rows = vec!["b".to_string(), "a".to_string(), "x".to_string(), "a".to_string()];
    let r = tag_rows_by_track(&tracks, &rows);
    assert_eq!(r, vec![vec![1, 3], vec![0], vec![], vec![]]);
}

#[test]
fn join_strings_separates_parts() {
    let parts = vec!["a".to_string(), "b".to_string(), "c".to_string()];
    assert_eq!(join_strings(&parts, " AND "), "a AND b AND c");
    assert_eq!(join_strings(&Vec::new(), ", "), "");
}
