//! Track queries: the SQL text and bound parameters for a library filter, and
//! the assignment of tag rows to the tracks they belong to.
//!
//! A filter's BPM bounds are carried as an opaque type `B` (the numeric type of
//! the BPM column); the query only decides where they are bound.
use vstd::prelude::*;

use crate::text::{
    char_is_whitespace, decimal, lemma_decimal_is_numeral, numeral_value, owned, push_char,
    push_decimal, str_eq,
};

verus! {

// ---------------------------------------------------------------------------
// Joining strings
// ---------------------------------------------------------------------------

/// `parts` separated by `sep` (what `[String]::join` returns).
pub open spec fn join(parts: Seq<Seq<char>>, sep: Seq<char>) -> Seq<char>
    decreases parts.len(),
{
    if parts.len() == 0 {
        Seq::empty()
    } else if parts.len() == 1 {
        parts[0]
    } else {
        join(parts.drop_last(), sep) + sep + parts.last()
    }
}

/// The character views of a list of strings.
pub open spec fn views(parts: Seq<String>) -> Seq<Seq<char>> {
    parts.map_values(|s: String| s@)
}

/// `parts` separated by `sep`.
pub fn join_strings(parts: &Vec<String>, sep: &str) -> (r: String)
    ensures
        r@ == join(views(parts@), sep@),
{
    let ghost v = views(parts@);
    let mut out = String::new();
    let mut i: usize = 0;
    while i < parts.len()
        invariant
            i <= parts@.len(),
            v == views(parts@),
            out@ == join(v.take(i as int), sep@),
        decreases parts@.len() - i,
    {
        proof {
            assert(v.take(i + 1).drop_last() =~= v.take(i as int));
            assert(v.take(i + 1).last() == parts@[i as int]@);
        }
        if i > 0 {
            vstd::string::StringExecFns::append(&mut out, sep);
        }
        vstd::string::StringExecFns::append(&mut out, parts[i].as_str());
        proof {
            if i == 0 {
                assert(v.take(1) =~= seq![parts@[0]@]);
                assert(out@ =~= parts@[0]@);
            } else {
                assert(out@ =~= join(v.take(i as int), sep@) + sep@ + parts@[i as int]@);
            }
        }
        i = i + 1;
    }
    assert(v.take(parts@.len() as int) =~= v);
    out
}

// ---------------------------------------------------------------------------
// Filters and parameters
// ---------------------------------------------------------------------------

/// Restrictions on which tracks a library query returns.
pub struct TrackFilter<B> {
    /// Text searched for in title, artist and album.
    pub search: Option<String>,
    /// Tags the track must carry.
    pub tag_ids: Option<Vec<String>>,
    /// `"and"` requires every tag in `tag_ids`; anything else requires any of them.
    pub tag_filter_mode: Option<String>,
    /// Playlist the track must belong to.
    pub playlist_id: Option<String>,
    /// Lowest BPM accepted.
    pub bpm_min: Option<B>,
    /// Highest BPM accepted.
    pub bpm_max: Option<B>,
    /// Musical key the track must have.
    pub key: Option<String>,
}

/// A value bound to a numbered placeholder of a query.
pub enum QueryParam<B> {
    Text(String),
    Number(B),
}

/// The mathematical content of a query parameter.
pub enum ParamView<B> {
    Text(Seq<char>),
    Number(B),
}

/// The content of a parameter.
pub open spec fn param_view<B>(p: QueryParam<B>) -> ParamView<B> {
    match p {
        QueryParam::Text(s) => ParamView::Text(s@),
        QueryParam::Number(b) => ParamView::Number(b),
    }
}

/// The contents of a list of parameters.
pub open spec fn param_views<B>(ps: Seq<QueryParam<B>>) -> Seq<ParamView<B>> {
    ps.map_values(|p: QueryParam<B>| param_view(p))
}

/// A query's SQL text and the values bound to `?1`, `?2`, ... in order.
pub struct TrackQuery<B> {
    pub sql: String,
    pub params: Vec<QueryParam<B>>,
}

// ---------------------------------------------------------------------------
// The query, stated
// ---------------------------------------------------------------------------

/// The selected columns; a query appends its conditions and its order to this.
pub open spec fn track_select_sql() -> Seq<char> {
    TRACK_SELECT_SQL@
}

/// The columns of a track, selected from `tracks t`.
pub const TRACK_SELECT_SQL: &'static str = r#"
            SELECT
                t.id, t.file_path, t.file_hash,
                t.title, t.artist, t.album, t.year, t.genre, t.label, t.catalog_number,
                t.duration_ms, t.bpm, t.key, t.bitrate, t.sample_rate, t.format,
                t.analysis_source, t.waveform_data,
                t.rating, t.play_count,
                t.date_added, t.date_modified, t.last_played,
                t.rekordbox_id, t.artwork_path, t.artwork_source, t.color,
                t.library_root_id, t.relative_path
            FROM tracks t
            "#;

/// The condition of a text search; the pattern is always the first parameter.
pub const SEARCH_CONDITION: &'static str = "(t.title LIKE ?1 ESCAPE '\\' OR t.artist LIKE ?1 ESCAPE '\\' OR t.album LIKE ?1 ESCAPE '\\')";

/// The escaped form of one character of a search text: `%` and `_` are preceded
/// by a backslash so that they match themselves in a `LIKE` pattern.
pub open spec fn escape_like_char(c: char) -> Seq<char> {
    if c == '%' || c == '_' {
        seq!['\\', c]
    } else {
        seq![c]
    }
}

/// A search text with `%` and `_` escaped.
pub open spec fn escape_like(s: Seq<char>) -> Seq<char>
    decreases s.len(),
{
    if s.len() == 0 {
        Seq::empty()
    } else {
        escape_like(s.drop_last()) + escape_like_char(s.last())
    }
}

/// The `LIKE` pattern for a search text: the escaped text between `%` wildcards.
pub open spec fn search_pattern(s: Seq<char>) -> Seq<char> {
    seq!['%'] + escape_like(s) + seq!['%']
}

/// The placeholder `?n`.
pub open spec fn placeholder(n: nat) -> Seq<char> {
    seq!['?'] + decimal(n)
}

/// The placeholders `?(start + 1)` to `?(start + count)`.
pub open spec fn placeholders(start: nat, count: nat) -> Seq<Seq<char>> {
    Seq::new(count, |i: int| placeholder((start + i + 1) as nat))
}

/// Every placeholder of a run names the parameter it is meant for: the `i`-th of
/// `placeholders(start, count)` is `?` followed by the numeral of `start + i + 1`.
pub proof fn lemma_placeholders_name_their_parameters(start: nat, count: nat)
    ensures
        forall|i: int|
            0 <= i < count ==> (#[trigger] placeholders(start, count)[i])[0] == '?' && numeral_value(
                placeholders(start, count)[i].drop_first(),
            ) == start + i + 1,
{
    assert forall|i: int| 0 <= i < count implies (#[trigger] placeholders(start, count)[i])[0]
        == '?' && numeral_value(placeholders(start, count)[i].drop_first()) == start + i + 1 by {
        let n = (start + i + 1) as nat;
        lemma_decimal_is_numeral(n);
        assert(placeholders(start, count)[i].drop_first() =~= decimal(n));
    }
}

/// Conditions and parameters gathered so far.
pub type QueryState<B> = (Seq<Seq<char>>, Seq<ParamView<B>>);

/// The filter requires every selected tag.
pub open spec fn is_and_mode(mode: Option<String>) -> bool {
    match mode {
        Some(m) => m@ == "and"@,
        None => false,
    }
}

/// Adds the text-search condition.
pub open spec fn with_search<B>(st: QueryState<B>, search: Option<String>) -> QueryState<B> {
    match search {
        Some(s) => (
            st.0.push(SEARCH_CONDITION@),
            st.1.push(ParamView::Text(search_pattern(s@))),
        ),
        None => st,
    }
}

/// The tag condition over the given placeholder list.
pub open spec fn tag_condition(placeholder_list: Seq<char>, count: nat, and_mode: bool) -> Seq<
    char,
> {
    if and_mode {
        "t.id IN (SELECT track_id FROM track_tags WHERE tag_id IN ("@ + placeholder_list
            + ") GROUP BY track_id HAVING COUNT(DISTINCT tag_id) = "@ + decimal(count) + ")"@
    } else {
        "t.id IN (SELECT track_id FROM track_tags WHERE tag_id IN ("@ + placeholder_list + "))"@
    }
}

/// Adds the tag condition (when some tags are selected).
pub open spec fn with_tags<B>(
    st: QueryState<B>,
    tag_ids: Option<Vec<String>>,
    mode: Option<String>,
) -> QueryState<B> {
    match tag_ids {
        Some(ids) => if ids@.len() > 0 {
            let ph = join(placeholders(st.1.len(), ids@.len()), ", "@);
            (
                st.0.push(tag_condition(ph, ids@.len(), is_and_mode(mode))),
                st.1 + ids@.map_values(|s: String| ParamView::<B>::Text(s@)),
            )
        } else {
            st
        },
        None => st,
    }
}

/// Adds a condition whose text is `before`, the next placeholder, then `after`,
/// binding `value`.
pub open spec fn with_bound<B>(
    st: QueryState<B>,
    before: Seq<char>,
    after: Seq<char>,
    value: ParamView<B>,
) -> QueryState<B> {
    (st.0.push(before + placeholder((st.1.len() + 1) as nat) + after), st.1.push(value))
}

/// Adds the playlist condition.
pub open spec fn with_playlist<B>(st: QueryState<B>, playlist_id: Option<String>) -> QueryState<B> {
    match playlist_id {
        Some(p) => with_bound(
            st,
            "t.id IN (SELECT track_id FROM playlist_tracks WHERE playlist_id = "@,
            ")"@,
            ParamView::Text(p@),
        ),
        None => st,
    }
}

/// Adds the lower BPM bound.
pub open spec fn with_bpm_min<B>(st: QueryState<B>, bpm_min: Option<B>) -> QueryState<B> {
    match bpm_min {
        Some(b) => with_bound(st, "t.bpm >= "@, ""@, ParamView::Number(b)),
        None => st,
    }
}

/// Adds the upper BPM bound.
pub open spec fn with_bpm_max<B>(st: QueryState<B>, bpm_max: Option<B>) -> QueryState<B> {
    match bpm_max {
        Some(b) => with_bound(st, "t.bpm <= "@, ""@, ParamView::Number(b)),
        None => st,
    }
}

/// Adds the key condition.
pub open spec fn with_key<B>(st: QueryState<B>, key: Option<String>) -> QueryState<B> {
    match key {
        Some(k) => with_bound(st, "t.key = "@, ""@, ParamView::Text(k@)),
        None => st,
    }
}

/// The conditions and parameters of a filter, in the order search, tags,
/// playlist, lower BPM, upper BPM, key.
pub open spec fn filter_state<B>(filter: Option<TrackFilter<B>>) -> QueryState<B> {
    match filter {
        None => (Seq::empty(), Seq::empty()),
        Some(f) => with_key(
            with_bpm_max(
                with_bpm_min(
                    with_playlist(
                        with_tags(
                            with_search((Seq::empty(), Seq::empty()), f.search),
                            f.tag_ids,
                            f.tag_filter_mode,
                        ),
                        f.playlist_id,
                    ),
                    f.bpm_min,
                ),
                f.bpm_max,
            ),
            f.key,
        ),
    }
}

/// The SQL of a library query: the selected columns, the conditions joined with
/// `AND` (when there are any), newest tracks first.
pub open spec fn track_query_sql(conditions: Seq<Seq<char>>) -> Seq<char> {
    track_select_sql() + (if conditions.len() > 0 {
        " WHERE "@ + join(conditions, " AND "@)
    } else {
        Seq::empty()
    }) + " ORDER BY t.date_added DESC"@
}

/// The number of tags a filter selects.
pub open spec fn filter_tag_count<B>(filter: Option<TrackFilter<B>>) -> nat {
    match filter {
        Some(f) => match f.tag_ids {
            Some(ids) => ids@.len(),
            None => 0,
        },
        None => 0,
    }
}

// ---------------------------------------------------------------------------
// The query, built
// ---------------------------------------------------------------------------

/// `s` with `%` and `_` escaped for a `LIKE ... ESCAPE '\'` pattern.
pub fn escape_like_string(s: &str) -> (r: String)
    ensures
        r@ == escape_like(s@),
{
    let chars = crate::text::chars_of(s);
    let mut out = String::new();
    let mut i: usize = 0;
    while i < chars.len()
        invariant
            i <= chars@.len(),
            chars@ == s@,
            out@ == escape_like(chars@.take(i as int)),
        decreases chars@.len() - i,
    {
        let c = chars[i];
        proof {
            assert(chars@.take(i + 1).drop_last() =~= chars@.take(i as int));
            assert(chars@.take(i + 1).last() == c);
        }
        if c == '%' || c == '_' {
            push_char(&mut out, '\\');
        }
        push_char(&mut out, c);
        proof {
            assert(out@ =~= escape_like(chars@.take(i as int)) + escape_like_char(c));
        }
        i = i + 1;
    }
    assert(chars@.take(chars@.len() as int) =~= chars@);
    out
}

/// The placeholder `?n`.
fn placeholder_string(n: usize) -> (s: String)
    ensures
        s@ == placeholder(n as nat),
{
    let mut s = String::new();
    push_char(&mut s, '?');
    push_decimal(&mut s, n);
    assert(s@ =~= placeholder(n as nat));
    s
}

/// The placeholders `?(start + 1)` to `?(start + count)`.
fn placeholder_strings(start: usize, count: usize) -> (v: Vec<String>)
    requires
        start + count <= usize::MAX,
    ensures
        views(v@) == placeholders(start as nat, count as nat),
{
    let mut v: Vec<String> = Vec::new();
    let mut i: usize = 0;
    while i < count
        invariant
            i <= count,
            start + count <= usize::MAX,
            views(v@) =~= placeholders(start as nat, i as nat),
        decreases count - i,
    {
        let ghost before = v@;
        let p = placeholder_string(start + i + 1);
        v.push(p);
        proof {
            assert(views(v@) =~= views(before).push(p@));
            assert(p@ == placeholder((start + i + 1) as nat));
            assert forall|k: int| 0 <= k < i + 1 implies #[trigger] views(v@)[k] == placeholders(
                start as nat,
                (i + 1) as nat,
            )[k] by {
                if k < i {
                    assert(views(v@)[k] == views(before)[k]);
                    assert(views(before)[k] == placeholders(start as nat, i as nat)[k]);
                }
            }
            assert(views(v@) =~= placeholders(start as nat, (i + 1) as nat));
        }
        i = i + 1;
    }
    v
}

/// Adds a condition `before ?n after` binding `value`.
fn push_bound<B>(
    conds: &mut Vec<String>,
    params: &mut Vec<QueryParam<B>>,
    before: &str,
    after: &str,
    value: QueryParam<B>,
)
    requires
        old(params)@.len() < usize::MAX,
    ensures
        final(params)@.len() == old(params)@.len() + 1,
        (views(final(conds)@), param_views(final(params)@)) == with_bound(
            (views(old(conds)@), param_views(old(params)@)),
            before@,
            after@,
            param_view(value),
        ),
{
    let mut c = String::new();
    vstd::string::StringExecFns::append(&mut c, before);
    let ph = placeholder_string(params.len() + 1);
    vstd::string::StringExecFns::append(&mut c, ph.as_str());
    vstd::string::StringExecFns::append(&mut c, after);
    conds.push(c);
    params.push(value);
    proof {
        assert(c@ =~= before@ + placeholder((old(params)@.len() + 1) as nat) + after@);
        assert(views(final(conds)@) =~= views(old(conds)@).push(c@));
        assert(param_views(final(params)@) =~= param_views(old(params)@).push(param_view(value)));
    }
}

/// The SQL and parameters that select the tracks matching `filter`, newest
/// first. Returns exactly the text and bindings of the library's track listing.
pub fn build_track_query<B>(filter: Option<TrackFilter<B>>) -> (q: TrackQuery<B>)
    requires
        filter_tag_count(filter) < usize::MAX - 8,
    ensures
        q.sql@ == track_query_sql(filter_state(filter).0),
        param_views(q.params@) == filter_state(filter).1,
{
    let ghost f0 = filter;
    let mut conds: Vec<String> = Vec::new();
    let mut params: Vec<QueryParam<B>> = Vec::new();
    match filter {
        None => {},
        Some(f) => {
            let TrackFilter { search, tag_ids, tag_filter_mode, playlist_id, bpm_min, bpm_max, key } =
                f;
            let ghost st0: QueryState<B> = (Seq::empty(), Seq::empty());
            assert(views(conds@) =~= st0.0);
            assert(param_views(params@) =~= st0.1);
            // Text search: always the first parameter, `?1`.
            if let Some(s) = &search {
                let escaped = escape_like_string(s.as_str());
                let mut pattern = String::new();
                push_char(&mut pattern, '%');
                vstd::string::StringExecFns::append(&mut pattern, escaped.as_str());
                push_char(&mut pattern, '%');
                conds.push(owned(SEARCH_CONDITION));
                params.push(QueryParam::Text(pattern));
                proof {
                    assert(pattern@ =~= search_pattern(s@));
                    assert(views(conds@) =~= st0.0.push(SEARCH_CONDITION@));
                    assert(param_views(params@) =~= st0.1.push(ParamView::Text(search_pattern(s@))));
                }
            }
            let ghost st1 = with_search(st0, search);
            assert(views(conds@) == st1.0 && param_views(params@) == st1.1);
            // Tags: one placeholder per selected tag.
            let ghost mode = tag_filter_mode;
            if let Some(ids) = tag_ids {
                if ids.len() > 0 {
                    let is_and = match &tag_filter_mode {
                        Some(m) => str_eq(m.as_str(), "and"),
                        None => false,
                    };
                    let ph = placeholder_strings(params.len(), ids.len());
                    let ph_list = join_strings(&ph, ", ");
                    let mut c = String::new();
                    vstd::string::StringExecFns::append(
                        &mut c,
                        "t.id IN (SELECT track_id FROM track_tags WHERE tag_id IN (",
                    );
                    vstd::string::StringExecFns::append(&mut c, ph_list.as_str());
                    if is_and {
                        vstd::string::StringExecFns::append(
                            &mut c,
                            ") GROUP BY track_id HAVING COUNT(DISTINCT tag_id) = ",
                        );
                        push_decimal(&mut c, ids.len());
                        vstd::string::StringExecFns::append(&mut c, ")");
                    } else {
                        vstd::string::StringExecFns::append(&mut c, "))");
                    }
                    conds.push(c);
                    let ghost before = params@;
                    let ghost ids_view = ids@;
                    let mut i: usize = 0;
                    while i < ids.len()
                        invariant
                            i <= ids@.len(),
                            ids@ == ids_view,
                            param_views(params@) =~= param_views(before) + ids_view.take(
                                i as int,
                            ).map_values(|s: String| ParamView::<B>::Text(s@)),
                        decreases ids@.len() - i,
                    {
                        let ghost prev = params@;
                        let id = ids[i].clone();
                        params.push(QueryParam::Text(id));
                        proof {
                            let f = |s: String| ParamView::<B>::Text(s@);
                            assert(ids_view.take(i + 1) =~= ids_view.take(i as int).push(
                                ids_view[i as int],
                            ));
                            assert(ids_view.take(i + 1).map_values(f) =~= ids_view.take(
                                i as int,
                            ).map_values(f).push(f(ids_view[i as int])));
                            assert(param_views(params@) =~= param_views(prev).push(
                                ParamView::Text(id@),
                            ));
                        }
                        i = i + 1;
                    }
                    proof {
                        assert(ids_view.take(ids_view.len() as int) =~= ids_view);
                        assert(c@ =~= tag_condition(
                            join(placeholders(st1.1.len(), ids_view.len()), ", "@),
                            ids_view.len(),
                            is_and_mode(mode),
                        ));
                        assert(views(conds@) =~= st1.0.push(c@));
                    }
                }
            }
            let ghost st2 = with_tags(st1, tag_ids, mode);
            assert(views(conds@) == st2.0 && param_views(params@) == st2.1);
            assert(params@.len() == param_views(params@).len());
            assert(params@.len() <= filter_tag_count(f0) + 1);
            if let Some(p) = playlist_id {
                push_bound(
                    &mut conds,
                    &mut params,
                    "t.id IN (SELECT track_id FROM playlist_tracks WHERE playlist_id = ",
                    ")",
                    QueryParam::Text(p),
                );
            }
            let ghost st3 = with_playlist(st2, playlist_id);
            assert(views(conds@) == st3.0 && param_views(params@) == st3.1);
            if let Some(b) = bpm_min {
                push_bound(&mut conds, &mut params, "t.bpm >= ", "", QueryParam::Number(b));
            }
            let ghost st4 = with_bpm_min(st3, bpm_min);
            assert(views(conds@) == st4.0 && param_views(params@) == st4.1);
            if let Some(b) = bpm_max {
                push_bound(&mut conds, &mut params, "t.bpm <= ", "", QueryParam::Number(b));
            }
            let ghost st5 = with_bpm_max(st4, bpm_max);
            assert(views(conds@) == st5.0 && param_views(params@) == st5.1);
            if let Some(k) = key {
                push_bound(&mut conds, &mut params, "t.key = ", "", QueryParam::Text(k));
            }
        },
    }
    assert(views(conds@) == filter_state(f0).0);
    let mut sql = owned(TRACK_SELECT_SQL);
    if conds.len() > 0 {
        vstd::string::StringExecFns::append(&mut sql, " WHERE ");
        let joined = join_strings(&conds, " AND ");
        vstd::string::StringExecFns::append(&mut sql, joined.as_str());
    }
    vstd::string::StringExecFns::append(&mut sql, " ORDER BY t.date_added DESC");
    assert(sql@ =~= track_query_sql(filter_state(f0).0));
    TrackQuery { sql, params }
}

// ---------------------------------------------------------------------------
// Tags of a batch of tracks
// ---------------------------------------------------------------------------

/// Text of the tag lookup before its placeholder list.
pub const TAG_LOOKUP_SQL_HEAD: &'static str = r#"
            SELECT tt.track_id, t.id, t.category_id, t.name, t.color, t.sort_order
            FROM track_tags tt
            JOIN tags t ON tt.tag_id = t.id
            WHERE tt.track_id IN ("#;

/// Text of the tag lookup after its placeholder list.
pub const TAG_LOOKUP_SQL_TAIL: &'static str = r#")
            "#;

/// The query that reads the tags of `count` tracks, bound to the track ids as
/// `?1` to `?count`.
pub open spec fn tag_lookup_sql_spec(count: nat) -> Seq<char> {
    TAG_LOOKUP_SQL_HEAD@ + join(placeholders(0, count), ", "@) + TAG_LOOKUP_SQL_TAIL@
}

/// The query that reads the tags of `count` tracks.
pub fn tag_lookup_sql(count: usize) -> (sql: String)
    ensures
        sql@ == tag_lookup_sql_spec(count as nat),
{
    let ph = placeholder_strings(0, count);
    let list = join_strings(&ph, ", ");
    let mut sql = owned(TAG_LOOKUP_SQL_HEAD);
    vstd::string::StringExecFns::append(&mut sql, list.as_str());
    vstd::string::StringExecFns::append(&mut sql, TAG_LOOKUP_SQL_TAIL);
    assert(sql@ =~= tag_lookup_sql_spec(count as nat));
    sql
}

/// Track `i` is the first track of the batch with its id.
pub open spec fn first_with_id(track_ids: Seq<String>, i: int) -> bool {
    forall|j: int| 0 <= j < i ==> (#[trigger] track_ids[j])@ != track_ids[i]@
}

/// `rows` lists, in increasing order, exactly the indices of the tag rows that
/// belong to track `i`: the rows with its id when it is the first track with that
/// id, and none otherwise (a track id's tags go to one track only).
pub open spec fn rows_of_track(
    track_ids: Seq<String>,
    row_track_ids: Seq<String>,
    i: int,
    rows: Seq<usize>,
) -> bool {
    &&& forall|a: int, b: int| 0 <= a < b < rows.len() ==> rows[a] < rows[b]
    &&& forall|k: int|
        0 <= k < row_track_ids.len() ==> (rows.contains(k as usize) <==> (first_with_id(
            track_ids,
            i,
        ) && (#[trigger] row_track_ids[k])@ == track_ids[i]@))
    &&& forall|a: int| 0 <= a < rows.len() ==> rows[a] < row_track_ids.len()
}

/// For each track of a batch, the indices of the tag rows (each row naming the
/// track id it belongs to) whose tags the track receives.
pub fn tag_rows_by_track(track_ids: &Vec<String>, row_track_ids: &Vec<String>) -> (r: Vec<Vec<usize>>)
    ensures
        r@.len() == track_ids@.len(),
        forall|i: int|
            0 <= i < track_ids@.len() ==> rows_of_track(
                track_ids@,
                row_track_ids@,
                i,
                #[trigger] r@[i]@,
            ),
{
    let mut r: Vec<Vec<usize>> = Vec::new();
    let mut i: usize = 0;
    while i < track_ids.len()
        invariant
            i <= track_ids@.len(),
            r@.len() == i,
            forall|t: int|
                0 <= t < i ==> rows_of_track(track_ids@, row_track_ids@, t, #[trigger] r@[t]@),
        decreases track_ids@.len() - i,
    {
        let mut first = true;
        let mut j: usize = 0;
        while j < i
            invariant
                j <= i < track_ids@.len(),
                first == forall|q: int| 0 <= q < j ==> (#[trigger] track_ids@[q])@ != track_ids@[i as int]@,
            decreases i - j,
        {
            if track_ids[j] == track_ids[i] {
                first = false;
            }
            j = j + 1;
        }
        let mut rows: Vec<usize> = Vec::new();
        if first {
            let mut k: usize = 0;
            while k < row_track_ids.len()
                invariant
                    k <= row_track_ids@.len(),
                    i < track_ids@.len(),
                    forall|a: int, b: int| 0 <= a < b < rows@.len() ==> rows@[a] < rows@[b],
                    forall|a: int| 0 <= a < rows@.len() ==> rows@[a] < k,
                    forall|q: int|
                        0 <= q < row_track_ids@.len() ==> (rows@.contains(q as usize) <==> (q < k
                            && (#[trigger] row_track_ids@[q])@ == track_ids@[i as int]@)),
                decreases row_track_ids@.len() - k,
            {
                let ghost prev = rows@;
                if row_track_ids[k] == track_ids[i] {
                    rows.push(k);
                    proof {
                        assert forall|q: int| 0 <= q < row_track_ids@.len() implies (rows@.contains(
                            q as usize,
                        ) <==> (q < k + 1 && (#[trigger] row_track_ids@[q])@
                            == track_ids@[i as int]@)) by {
                            if q == k {
                                assert(rows@[rows@.len() - 1] == k);
                            }
                            if rows@.contains(q as usize) && q != k {
                                let w = choose|w: int| 0 <= w < rows@.len() && rows@[w] == q as usize;
                                assert(w < prev.len());
                                assert(prev.contains(q as usize));
                            }
                            if prev.contains(q as usize) {
                                let w = choose|w: int| 0 <= w < prev.len() && prev[w] == q as usize;
                                assert(rows@[w] == q as usize);
                            }
                        }
                    }
                } else {
                    proof {
                        assert forall|q: int| 0 <= q < row_track_ids@.len() implies (rows@.contains(
                            q as usize,
                        ) <==> (q < k + 1 && (#[trigger] row_track_ids@[q])@
                            == track_ids@[i as int]@)) by {
                            if q == k && rows@.contains(q as usize) {
                                let w = choose|w: int| 0 <= w < rows@.len() && rows@[w] == q as usize;
                            }
                        }
                    }
                }
                k = k + 1;
            }
        } else {
            proof {
                assert(rows@.len() == 0);
            }
        }
        r.push(rows);
        proof {
            assert forall|t: int| 0 <= t < i + 1 implies rows_of_track(
                track_ids@,
                row_track_ids@,
                t,
                #[trigger] r@[t]@,
            ) by {
                if t == i {
                    assert(r@[t] == rows);
                }
            }
        }
        i = i + 1;
    }
    r
}

// ---------------------------------------------------------------------------
// Laws of the track query
// ---------------------------------------------------------------------------

/// The filter of a plain text search, as the search box sends it.
pub fn search_filter<B>(query: String) -> (f: TrackFilter<B>)
    ensures
        f.search matches Some(q) && q@ == query@,
        f.tag_ids is None,
        f.tag_filter_mode is None,
        f.playlist_id is None,
        f.bpm_min is None,
        f.bpm_max is None,
        f.key is None,
{
    TrackFilter {
        search: Some(query),
        tag_ids: None,
        tag_filter_mode: None,
        playlist_id: None,
        bpm_min: None,
        bpm_max: None,
        key: None,
    }
}

/// In an escaped search text every `%` and `_` is preceded by the escape
/// character, so user input never acts as a `LIKE` wildcard; and every character
/// of the input appears, in order, with at most one escape character added
/// before it.
pub proof fn lemma_escaped_wildcards_are_literal(s: Seq<char>)
    ensures
        forall|i: int|
            0 <= i < escape_like(s).len() && (#[trigger] escape_like(s)[i] == '%' || escape_like(
                s,
            )[i] == '_') ==> i > 0 && escape_like(s)[i - 1] == '\\',
        s.len() <= escape_like(s).len() <= 2 * s.len(),
    decreases s.len(),
{
    if s.len() > 0 {
        let p = escape_like(s.drop_last());
        let c = s.last();
        lemma_escaped_wildcards_are_literal(s.drop_last());
        let e = escape_like(s);
        assert(e == p + escape_like_char(c));
        assert forall|i: int|
            0 <= i < e.len() && (#[trigger] e[i] == '%' || e[i] == '_') implies i > 0 && e[i - 1]
            == '\\' by {
            if i < p.len() {
                assert(e[i] == p[i]);
                assert(e[i - 1] == p[i - 1]);
            } else if c == '%' || c == '_' {
                assert(escape_like_char(c) == seq!['\\', c]);
                if i == p.len() {
                    assert(e[i] == '\\');
                } else {
                    assert(e[i - 1] == '\\');
                }
            } else {
                assert(e[i] == c);
            }
        }
    }
}

/// A search is always bound first, so the `?1` of its condition refers to the
/// search pattern, whatever else the filter restricts.
pub proof fn lemma_search_binds_first_parameter<B>(f: TrackFilter<B>)
    requires
        f.search is Some,
    ensures
        filter_state(Some(f)).0[0] == SEARCH_CONDITION@,
        filter_state(Some(f)).1[0] == ParamView::<B>::Text(search_pattern(f.search->0@)),
{
    let st1: QueryState<B> = with_search((Seq::empty(), Seq::empty()), f.search);
    let st2 = with_tags(st1, f.tag_ids, f.tag_filter_mode);
    let st3 = with_playlist(st2, f.playlist_id);
    let st4 = with_bpm_min(st3, f.bpm_min);
    let st5 = with_bpm_max(st4, f.bpm_max);
    let st6 = with_key(st5, f.key);
    assert(st1.0[0] == SEARCH_CONDITION@ && st1.1.len() == 1);
    assert(st2.0[0] == st1.0[0] && st2.1[0] == st1.1[0]);
    assert(st3.0[0] == st1.0[0] && st3.1[0] == st1.1[0]);
    assert(st4.0[0] == st1.0[0] && st4.1[0] == st1.1[0]);
    assert(st5.0[0] == st1.0[0] && st5.1[0] == st1.1[0]);
    assert(st6.0[0] == st1.0[0] && st6.1[0] == st1.1[0]);
}

/// Each condition binds the parameters that follow the ones already bound, so the
/// number of parameters is one per search, per selected tag, per playlist, per
/// BPM bound and per key.
pub open spec fn expected_param_count<B>(f: TrackFilter<B>) -> nat {
    (if f.search is Some { 1nat } else { 0nat }) + (match f.tag_ids {
        Some(ids) => ids@.len(),
        None => 0,
    }) + (if f.playlist_id is Some { 1nat } else { 0nat }) + (if f.bpm_min is Some { 1nat } else { 0nat })
        + (if f.bpm_max is Some { 1nat } else { 0nat }) + (if f.key is Some { 1nat } else { 0nat })
}

/// The parameters of a filter are exactly as many as its conditions bind.
pub proof fn lemma_param_count<B>(f: TrackFilter<B>)
    ensures
        filter_state(Some(f)).1.len() == expected_param_count(f),
{
}

} // verus!
