//! Searching the saved commands: fuzzy search (ranked in tiers) and exact
//! (substring) search.
//!
//! Fuzzy ranking, highest first:
//!   1. a tag contains the query (ignoring case),
//!   2. the command text contains the query,
//!   3. the description contains the query,
//!   4. the comment contains the query,
//!   5. the weighted fuzzy score alone: command x3, description x2,
//!      comment x1, tags x1 (added to the tier base in every tier);
//! ties go to the more recently used command, then to the lower id, then to
//! the earlier command in the store.
use vstd::prelude::*;
use nucleo_matcher::pattern::{AtomKind, CaseMatching, Normalization, Pattern};
use nucleo_matcher::{Matcher, Utf32Str};
use chrono::{DateTime, NaiveDate, NaiveDateTime};
use crate::order::{
    RankKey, ranked, is_index_permutation, distinct_positions, rank_order, id_key,
    lemma_permutation_covers, lemma_ranked_order_unique,
};
use crate::store::{Store, Command};
use crate::text::{chars_of, to_lower, lowercase, find_infix, has_infix, join_texts, joined, text_views};

verus! {

// ───────────────────────────── outside calls ─────────────────────────────

/// nucleo-matcher's `Matcher`, the scratch state of its scoring, taken as
/// an opaque value: the search engine only carries it from call to call.
#[verifier::external_type_specification]
#[verifier::external_body]
pub struct ExMatcher(Matcher);

/// The longest fuzzy pattern, in characters, that nucleo-matcher scores
/// without overflow: `Pattern::score` adds one `u16` score per word of the
/// pattern in a `u32`, and a pattern of this many characters has at most
/// 65537 words (words are separated by spaces), whose scores sum to at most
/// `u32::MAX`.
pub const MAX_PATTERN_CHARS: usize = 131074;

/// The score that nucleo-matcher gives `text` for the fuzzy pattern `query`
/// (split into words at unescaped spaces, case ignored, smart Unicode
/// normalisation, fuzzy atoms), or 0 when some word does not match.
pub uninterp spec fn fuzzy_match_score(query: Seq<char>, text: Seq<char>) -> u32;

/// Trusted: builds a `nucleo_matcher::pattern::Pattern` from `query` with
/// `Pattern::new(query, CaseMatching::Ignore, Normalization::Smart,
/// AtomKind::Fuzzy)` and calls `Pattern::score` on `text` with `matcher`,
/// mapping "no match" to 0. The contract names the result
/// `fuzzy_match_score(query@, text@)`: the matcher is always created with
/// `Config::DEFAULT` and `Pattern::score` sets the only settings it varies
/// (case and normalisation) from the pattern, so the result depends on the
/// two strings only. `requires` keeps the haystack within the 2^32 - 1 code
/// points that the matcher accepts (it panics beyond) and the pattern within
/// `MAX_PATTERN_CHARS`, where the sum of the word scores cannot overflow.
#[verifier::external_body]
fn pattern_score(matcher: &mut Matcher, query: &str, text: &str) -> (r: u32)
    requires
        text@.len() <= u32::MAX,
        query@.len() <= MAX_PATTERN_CHARS,
    ensures
        r == fuzzy_match_score(query@, text@),
{
    let pattern = Pattern::new(query, CaseMatching::Ignore, Normalization::Smart, AtomKind::Fuzzy);
    let mut buf = Vec::new();
    pattern.score(Utf32Str::new(text, &mut buf), matcher).unwrap_or(0)
}

/// Trusted: calls `nucleo_matcher::Matcher::new(Config::DEFAULT)`. Nothing is
/// claimed of the matcher.
#[verifier::external_body]
fn new_matcher() -> Matcher {
    Matcher::new(nucleo_matcher::Config::DEFAULT)
}

/// The seconds since the Unix epoch of an RFC 3339 date-time, as chrono's
/// `DateTime::parse_from_rfc3339` reads it (`None` when it does not parse).
pub uninterp spec fn rfc3339_seconds(s: Seq<char>) -> Option<i64>;

/// Trusted: calls `chrono::DateTime::parse_from_rfc3339` and takes
/// `timestamp()` of a parsed date-time; the result is named
/// `rfc3339_seconds(s@)`.
#[verifier::external_body]
fn parse_rfc3339(s: &str) -> (r: Option<i64>)
    ensures
        r == rfc3339_seconds(s@),
{
    match DateTime::parse_from_rfc3339(s) {
        Ok(dt) => Some(dt.timestamp()),
        Err(_) => None,
    }
}

/// The seconds since the Unix epoch of a date-time without offset, read as
/// UTC with chrono's `NaiveDateTime::parse_from_str(s, fmt)`.
pub uninterp spec fn naive_datetime_seconds(s: Seq<char>, fmt: Seq<char>) -> Option<i64>;

/// Trusted: calls `chrono::NaiveDateTime::parse_from_str(s, fmt)` and takes
/// `and_utc().timestamp()` of a parsed value; the result is named
/// `naive_datetime_seconds(s@, fmt@)`.
#[verifier::external_body]
fn parse_naive_datetime(s: &str, fmt: &str) -> (r: Option<i64>)
    ensures
        r == naive_datetime_seconds(s@, fmt@),
{
    match NaiveDateTime::parse_from_str(s, fmt) {
        Ok(dt) => Some(dt.and_utc().timestamp()),
        Err(_) => None,
    }
}

/// The seconds since the Unix epoch of midnight (UTC) of a date read with
/// chrono's `NaiveDate::parse_from_str(s, fmt)`.
pub uninterp spec fn naive_date_seconds(s: Seq<char>, fmt: Seq<char>) -> Option<i64>;

/// Trusted: calls `chrono::NaiveDate::parse_from_str(s, fmt)` and, for a
/// parsed date, `and_hms_opt(0, 0, 0)` and `and_utc().timestamp()`; the
/// result is named `naive_date_seconds(s@, fmt@)`.
#[verifier::external_body]
fn parse_naive_date(s: &str, fmt: &str) -> (r: Option<i64>)
    ensures
        r == naive_date_seconds(s@, fmt@),
{
    match NaiveDate::parse_from_str(s, fmt) {
        Ok(d) => match d.and_hms_opt(0, 0, 0) {
            Some(dt) => Some(dt.and_utc().timestamp()),
            None => None,
        },
        Err(_) => None,
    }
}

// ───────────────────────────── last-used stamps ─────────────────────────────

/// The first of the readings that succeeded, `i64::MIN` when none did or
/// when the text is empty.
pub open spec fn stamp_choice(
    empty: bool,
    rfc: Option<i64>,
    iso: Option<i64>,
    spaced: Option<i64>,
    date: Option<i64>,
) -> i64 {
    if empty {
        i64::MIN
    } else if rfc is Some {
        rfc->0
    } else if iso is Some {
        iso->0
    } else if spaced is Some {
        spaced->0
    } else if date is Some {
        date->0
    } else {
        i64::MIN
    }
}

/// The time stamp of a `last_used` text: an RFC 3339 date-time, else
/// `YYYY-MM-DDTHH:MM:SS` or `YYYY-MM-DD HH:MM:SS` read as UTC, else the
/// midnight of a `YYYY-MM-DD` date; `i64::MIN` (never used) otherwise.
pub open spec fn last_used_seconds(s: Seq<char>) -> i64 {
    stamp_choice(
        s.len() == 0,
        rfc3339_seconds(s),
        naive_datetime_seconds(s, "%Y-%m-%dT%H:%M:%S"@),
        naive_datetime_seconds(s, "%Y-%m-%d %H:%M:%S"@),
        naive_date_seconds(s, "%Y-%m-%d"@),
    )
}

/// Picks the time stamp from the readings of a `last_used` text.
pub fn choose_stamp(
    empty: bool,
    rfc: Option<i64>,
    iso: Option<i64>,
    spaced: Option<i64>,
    date: Option<i64>,
) -> (r: i64)
    ensures
        r == stamp_choice(empty, rfc, iso, spaced, date),
{
    if empty {
        return i64::MIN;
    }
    match rfc {
        Some(t) => t,
        None => match iso {
            Some(t) => t,
            None => match spaced {
                Some(t) => t,
                None => match date {
                    Some(t) => t,
                    None => i64::MIN,
                },
            },
        },
    }
}

/// The time stamp of a `last_used` text (seconds since the Unix epoch),
/// `i64::MIN` for an empty or unreadable text.
pub fn parse_last_used(last_used: &str) -> (r: i64)
    ensures
        r == last_used_seconds(last_used@),
{
    let empty = last_used.is_empty();
    let rfc = parse_rfc3339(last_used);
    let iso = parse_naive_datetime(last_used, "%Y-%m-%dT%H:%M:%S");
    let spaced = parse_naive_datetime(last_used, "%Y-%m-%d %H:%M:%S");
    let date = parse_naive_date(last_used, "%Y-%m-%d");
    choose_stamp(empty, rfc, iso, spaced, date)
}

// ───────────────────────────── results ─────────────────────────────

/// One search hit: the command, its ranking score and the names of the
/// folders from the root down to the command's folder.
pub struct SearchResult {
    pub command: Command,
    pub score: u32,
    pub folder_path: Vec<String>,
}

/// The folder chains of all commands reach their end, so that every
/// command's folder path is defined.
pub open spec fn paths_defined(store: Store) -> bool {
    forall|i: int|
        0 <= i < store.commands@.len() ==> store.chain_ends(#[trigger] store.commands@[i].folder@)
}

/// `results` lists exactly the commands of `store` whose index is selected,
/// each once, ranked by `keys` (indexed by command), with the score given by
/// `scores` and the command's folder path.
pub open spec fn lists_ranked(
    store: Store,
    selected: Seq<bool>,
    keys: Seq<RankKey>,
    scores: Seq<u32>,
    results: Seq<SearchResult>,
) -> bool {
    exists|order: Seq<usize>| lists_in_order(store, selected, keys, scores, results, order)
}

/// `results` lists the selected commands in the order `order` (command
/// indices), as `lists_ranked` describes.
pub open spec fn lists_in_order(
    store: Store,
    selected: Seq<bool>,
    keys: Seq<RankKey>,
    scores: Seq<u32>,
    results: Seq<SearchResult>,
    order: Seq<usize>,
) -> bool {
    &&& order.len() == results.len()
    &&& forall|a: int, b: int| 0 <= a < b < order.len() ==> order[a] != order[b]
    &&& forall|k: int|
        0 <= k < order.len() ==> #[trigger] order[k] < store.commands@.len() && selected[order[k] as int]
    &&& forall|i: int|
        0 <= i < store.commands@.len() && #[trigger] selected[i] ==> exists|k: int|
            0 <= k < order.len() && order[k] == i
    &&& ranked(keys, order)
    &&& forall|k: int|
        0 <= k < order.len() ==> {
            let c = store.commands@[order[k] as int];
            &&& (#[trigger] results[k]).command@ == c@
            &&& results[k].score == scores[order[k] as int]
            &&& text_views(results[k].folder_path@) == store.crumbs(c.folder@)
        }
}

/// Lists the selected commands ranked by the keys.
fn rank_selected(
    store: &Store,
    selected: &Vec<bool>,
    keys: &Vec<RankKey>,
    scores: &Vec<u32>,
) -> (results: Vec<SearchResult>)
    requires
        selected@.len() == store.commands@.len(),
        keys@.len() == store.commands@.len(),
        scores@.len() == store.commands@.len(),
        forall|i: int| 0 <= i < keys@.len() ==> #[trigger] keys@[i].pos == i,
        forall|i: int|
            0 <= i < store.commands@.len() && #[trigger] selected@[i] ==> store.chain_ends(
                store.commands@[i].folder@,
            ),
    ensures
        lists_ranked(*store, selected@, keys@, scores@, results@),
{
    let n = store.commands.len();
    let mut cand: Vec<usize> = Vec::new();
    let mut ckeys: Vec<RankKey> = Vec::new();
    for i in 0..n
        invariant
            n == store.commands@.len(),
            selected@.len() == n,
            keys@.len() == n,
            forall|j: int| 0 <= j < keys@.len() ==> #[trigger] keys@[j].pos == j,
            ckeys@.len() == cand@.len(),
            forall|a: int, b: int| 0 <= a < b < cand@.len() ==> cand@[a] < cand@[b],
            forall|k: int| 0 <= k < cand@.len() ==> #[trigger] cand@[k] < i && selected@[cand@[k] as int],
            forall|k: int| 0 <= k < cand@.len() ==> #[trigger] ckeys@[k] == keys@[cand@[k] as int],
            forall|j: int| 0 <= j < i && #[trigger] selected@[j] ==> exists|k: int| 0 <= k < cand@.len() && cand@[k] == j,
    {
        if selected[i] {
            let ghost before = cand@;
            cand.push(i);
            ckeys.push(keys[i]);
            assert forall|j: int| 0 <= j < i + 1 && #[trigger] selected@[j] implies exists|k: int|
                0 <= k < cand@.len() && cand@[k] == j by {
                if j == i {
                    assert(cand@[cand@.len() - 1] == j);
                } else {
                    let k = choose|k: int| 0 <= k < before.len() && before[k] == j;
                    assert(cand@[k] == j);
                }
            }
        }
    }
    assert(distinct_positions(ckeys@)) by {
        assert forall|a: int, b: int| 0 <= a < b < ckeys@.len() implies #[trigger] ckeys@[a].pos
            != #[trigger] ckeys@[b].pos by {
            assert(ckeys@[a].pos == cand@[a]);
            assert(ckeys@[b].pos == cand@[b]);
        }
    }
    let corder = rank_order(&ckeys);
    let m = cand.len();
    let mut results: Vec<SearchResult> = Vec::new();
    let ghost mut order: Seq<usize> = Seq::empty();
    for k in 0..m
        invariant
            n == store.commands@.len(),
            m == cand@.len(),
            selected@.len() == n,
            scores@.len() == n,
            is_index_permutation(corder@, m as nat),
            forall|k: int| 0 <= k < cand@.len() ==> #[trigger] cand@[k] < n && selected@[cand@[k] as int],
            forall|i: int|
                0 <= i < store.commands@.len() && #[trigger] selected@[i] ==> store.chain_ends(
                    store.commands@[i].folder@,
                ),
            order.len() == k,
            results@.len() == k,
            forall|j: int| 0 <= j < k ==> #[trigger] order[j] == cand@[corder@[j] as int],
            forall|j: int|
                0 <= j < k ==> {
                    let c = store.commands@[order[j] as int];
                    &&& (#[trigger] results@[j]).command@ == c@
                    &&& results@[j].score == scores@[order[j] as int]
                    &&& text_views(results@[j].folder_path@) == store.crumbs(c.folder@)
                },
    {
        let idx = cand[corder[k]];
        let c = &store.commands[idx];
        let path = store.breadcrumb(c.folder.as_str());
        results.push(SearchResult { command: c.clone(), score: scores[idx], folder_path: path });
        proof {
            order = order.push(idx);
        }
    }
    proof {
        assert(lists_in_order(*store, selected@, keys@, scores@, results@, order)) by {
            assert forall|a: int, b: int| 0 <= a < b < order.len() implies order[a] != order[b] by {
                assert(corder@[a] != corder@[b]);
                if cand@[corder@[a] as int] == cand@[corder@[b] as int] {
                    if corder@[a] < corder@[b] {
                        assert(cand@[corder@[a] as int] < cand@[corder@[b] as int]);
                    } else {
                        assert(cand@[corder@[b] as int] < cand@[corder@[a] as int]);
                    }
                }
            }
            assert forall|i: int|
                0 <= i < store.commands@.len() && #[trigger] selected@[i] implies exists|k: int|
                0 <= k < order.len() && order[k] == i by {
                let j = choose|j: int| 0 <= j < cand@.len() && cand@[j] == i;
                lemma_permutation_covers(corder@, m as nat, j);
                let k = choose|k: int| 0 <= k < corder@.len() && corder@[k] == j;
                assert(order[k] == i);
            }
            assert forall|a: int, b: int| 0 <= a < b < order.len() implies crate::order::ranks_before(
                #[trigger] keys@[order[a] as int],
                #[trigger] keys@[order[b] as int],
            ) by {
                assert(ckeys@[corder@[a] as int] == keys@[order[a] as int]);
                assert(ckeys@[corder@[b] as int] == keys@[order[b] as int]);
            }
        }
    }
    results
}

// ───────────────────────────── ranking rules ─────────────────────────────

/// The tier base of a fuzzy hit: a match in a tag ranks highest, then a
/// match in the command text, in the description and in the comment (each
/// ignoring case); 0 without such a match.
pub open spec fn tier_base(tag_hit: bool, cmd_hit: bool, desc_hit: bool, comment_hit: bool) -> int {
    if tag_hit {
        5_000_000
    } else if cmd_hit {
        4_000_000
    } else if desc_hit {
        3_000_000
    } else if comment_hit {
        2_000_000
    } else {
        0
    }
}

/// The tier base of a fuzzy hit (see `tier_base`).
pub fn base_score(tag_hit: bool, cmd_hit: bool, desc_hit: bool, comment_hit: bool) -> (r: u32)
    ensures
        r == tier_base(tag_hit, cmd_hit, desc_hit, comment_hit),
{
    if tag_hit {
        5_000_000
    } else if cmd_hit {
        4_000_000
    } else if desc_hit {
        3_000_000
    } else if comment_hit {
        2_000_000
    } else {
        0
    }
}

/// The ranking score of a fuzzy hit: its tier base plus its weighted fuzzy
/// score.
pub open spec fn tiered(base: int, fuzzy: int) -> int {
    base + fuzzy
}

/// The ranking score of a fuzzy hit (see `tiered`); it must fit in `u32`.
pub fn tier_score(base: u32, fuzzy: u64) -> (r: u32)
    requires
        tiered(base as int, fuzzy as int) <= u32::MAX,
    ensures
        r == tiered(base as int, fuzzy as int),
{
    (base as u64 + fuzzy) as u32
}

/// The weighted fuzzy score: command x3, description x2, comment x1, tags x1.
pub open spec fn weighted(cmd: int, desc: int, comment: int, tags: int) -> int {
    3 * cmd + 2 * desc + comment + tags
}

/// The weighted fuzzy score of the four field scores.
pub fn weighted_score(cmd: u32, desc: u32, comment: u32, tags: u32) -> (r: u64)
    ensures
        r == weighted(cmd as int, desc as int, comment as int, tags as int),
{
    cmd as u64 * 3 + desc as u64 * 2 + comment as u64 + tags as u64
}

/// The selection of a fuzzy hit: some field matched.
pub open spec fn fuzzy_selected(base: u32, fuzzy: u64) -> bool {
    base > 0 || fuzzy != 0
}

/// The ranking keys of fuzzy hits, indexed by command, from their tier
/// bases, weighted fuzzy scores and last-used stamps.
pub open spec fn fuzzy_keys(store: Store, bases: Seq<u32>, fuzzy: Seq<u64>, stamps: Seq<i64>) -> Seq<RankKey> {
    Seq::new(
        store.commands@.len(),
        |i: int|
            RankKey {
                score: tiered(bases[i] as int, fuzzy[i] as int) as u32,
                stamp: stamps[i],
                id: store.commands@[i].id,
                pos: i as usize,
            },
    )
}

/// Which commands a fuzzy search keeps, indexed by command.
pub open spec fn fuzzy_selection(bases: Seq<u32>, fuzzy: Seq<u64>) -> Seq<bool> {
    Seq::new(bases.len(), |i: int| fuzzy_selected(bases[i], fuzzy[i]))
}

/// The scores that a fuzzy search reports, indexed by command.
pub open spec fn fuzzy_scores(bases: Seq<u32>, fuzzy: Seq<u64>) -> Seq<u32> {
    Seq::new(bases.len(), |i: int| tiered(bases[i] as int, fuzzy[i] as int) as u32)
}

/// Keys that rank commands by id (store order among equal ids).
pub open spec fn by_id_keys(store: Store) -> Seq<RankKey> {
    Seq::new(store.commands@.len(), |i: int| id_key(store.commands@[i].id, i as usize))
}

/// Every command selected.
pub open spec fn all_selected(store: Store) -> Seq<bool> {
    Seq::new(store.commands@.len(), |i: int| true)
}

/// The score 0 for every command.
pub open spec fn zero_scores(store: Store) -> Seq<u32> {
    Seq::new(store.commands@.len(), |i: int| 0u32)
}

/// Ranks the fuzzy hits, given for every command its tier base, its
/// weighted fuzzy score and its last-used time stamp.
pub fn rank_fuzzy(
    store: &Store,
    bases: &Vec<u32>,
    fuzzy: &Vec<u64>,
    stamps: &Vec<i64>,
) -> (results: Vec<SearchResult>)
    requires
        bases@.len() == store.commands@.len(),
        fuzzy@.len() == store.commands@.len(),
        stamps@.len() == store.commands@.len(),
        forall|i: int| 0 <= i < fuzzy@.len() ==> tiered(bases@[i] as int, #[trigger] fuzzy@[i] as int) <= u32::MAX,
        paths_defined(*store),
    ensures
        lists_ranked(
            *store,
            fuzzy_selection(bases@, fuzzy@),
            fuzzy_keys(*store, bases@, fuzzy@, stamps@),
            fuzzy_scores(bases@, fuzzy@),
            results@,
        ),
{
    let n = store.commands.len();
    let mut selected: Vec<bool> = Vec::new();
    let mut keys: Vec<RankKey> = Vec::new();
    let mut scores: Vec<u32> = Vec::new();
    for i in 0..n
        invariant
            n == store.commands@.len(),
            bases@.len() == n,
            fuzzy@.len() == n,
            stamps@.len() == n,
            forall|j: int| 0 <= j < fuzzy@.len() ==> tiered(bases@[j] as int, #[trigger] fuzzy@[j] as int) <= u32::MAX,
            selected@.len() == i,
            keys@.len() == i,
            scores@.len() == i,
            forall|j: int| 0 <= j < i ==> #[trigger] selected@[j] == fuzzy_selection(bases@, fuzzy@)[j],
            forall|j: int| 0 <= j < i ==> #[trigger] keys@[j] == fuzzy_keys(*store, bases@, fuzzy@, stamps@)[j],
            forall|j: int| 0 <= j < i ==> #[trigger] scores@[j] == fuzzy_scores(bases@, fuzzy@)[j],
    {
        assert(tiered(bases@[i as int] as int, fuzzy@[i as int] as int) <= u32::MAX);
        let score = tier_score(bases[i], fuzzy[i]);
        selected.push(bases[i] > 0 || fuzzy[i] != 0);
        keys.push(RankKey { score, stamp: stamps[i], id: store.commands[i].id, pos: i });
        scores.push(score);
    }
    assert(selected@ =~= fuzzy_selection(bases@, fuzzy@));
    assert(keys@ =~= fuzzy_keys(*store, bases@, fuzzy@, stamps@));
    assert(scores@ =~= fuzzy_scores(bases@, fuzzy@));
    rank_selected(store, &selected, &keys, &scores)
}

/// Lists the selected commands by id (store order among equal ids), with
/// the score 0.
pub fn rank_by_id(store: &Store, selected: &Vec<bool>) -> (results: Vec<SearchResult>)
    requires
        selected@.len() == store.commands@.len(),
        paths_defined(*store),
    ensures
        lists_ranked(*store, selected@, by_id_keys(*store), zero_scores(*store), results@),
{
    let n = store.commands.len();
    let mut keys: Vec<RankKey> = Vec::new();
    let mut scores: Vec<u32> = Vec::new();
    for i in 0..n
        invariant
            n == store.commands@.len(),
            keys@.len() == i,
            scores@.len() == i,
            forall|j: int| 0 <= j < i ==> #[trigger] keys@[j] == by_id_keys(*store)[j],
            forall|j: int| 0 <= j < i ==> #[trigger] scores@[j] == 0,
    {
        keys.push(RankKey { score: 0, stamp: 0, id: store.commands[i].id, pos: i });
        scores.push(0);
    }
    assert(keys@ =~= by_id_keys(*store));
    assert(scores@ =~= zero_scores(*store));
    rank_selected(store, selected, &keys, &scores)
}

// ───────────────────────────── matching rules ─────────────────────────────

/// A field's fuzzy score: 0 for an empty field.
pub open spec fn field_score(query: Seq<char>, text: Seq<char>) -> u32 {
    if text.len() == 0 {
        0
    } else {
        fuzzy_match_score(query, text)
    }
}

/// The tags of a command joined by spaces.
pub open spec fn tag_text(c: Command) -> Seq<char> {
    joined(text_views(c.tags@), " "@)
}

/// The weighted fuzzy score of a command for the query.
pub open spec fn command_fuzzy(query: Seq<char>, c: Command) -> int {
    weighted(
        field_score(query, c.cmd@) as int,
        field_score(query, c.desc@) as int,
        field_score(query, c.comment@) as int,
        field_score(query, tag_text(c)) as int,
    )
}

/// The command text contains the query, ignoring case.
pub open spec fn cmd_contains(query: Seq<char>, c: Command) -> bool {
    has_infix(lowercase(c.cmd@), lowercase(query))
}

/// The description contains the query, ignoring case.
pub open spec fn desc_contains(query: Seq<char>, c: Command) -> bool {
    has_infix(lowercase(c.desc@), lowercase(query))
}

/// The comment contains the query, ignoring case.
pub open spec fn comment_contains(query: Seq<char>, c: Command) -> bool {
    has_infix(lowercase(c.comment@), lowercase(query))
}

/// Some of the tags contains the lower-cased query `query_lower`, ignoring
/// case.
pub open spec fn any_tag_contains(tags: Seq<Seq<char>>, query_lower: Seq<char>) -> bool {
    exists|k: int| 0 <= k < tags.len() && has_infix(lowercase(#[trigger] tags[k]), query_lower)
}

/// Some tag of the command contains the query, ignoring case.
pub open spec fn tag_contains(query: Seq<char>, c: Command) -> bool {
    any_tag_contains(c@.tags, lowercase(query))
}

/// The tier base of a command for the query.
pub open spec fn hit_base(query: Seq<char>, c: Command) -> int {
    tier_base(
        tag_contains(query, c),
        cmd_contains(query, c),
        desc_contains(query, c),
        comment_contains(query, c),
    )
}

/// The text an exact search looks in: command, description, comment and
/// tags, separated by spaces.
pub open spec fn haystack(c: Command) -> Seq<char> {
    c.cmd@ + " "@ + c.desc@ + " "@ + c.comment@ + " "@ + tag_text(c)
}

/// The command's text contains the query, ignoring case.
pub open spec fn exact_hit(query: Seq<char>, c: Command) -> bool {
    has_infix(lowercase(haystack(c)), lowercase(query))
}

/// The fuzzy matcher accepts every field of the command.
pub open spec fn fits_matcher(c: Command) -> bool {
    &&& c.cmd@.len() <= u32::MAX
    &&& c.desc@.len() <= u32::MAX
    &&& c.comment@.len() <= u32::MAX
    &&& tag_text(c).len() <= u32::MAX
}

/// Every command can be searched: its folder path is defined and the fuzzy
/// matcher accepts its fields.
pub open spec fn searchable(store: Store) -> bool {
    &&& paths_defined(store)
    &&& forall|i: int| 0 <= i < store.commands@.len() ==> fits_matcher(#[trigger] store.commands@[i])
}

/// The tier bases of a fuzzy search for `query`, indexed by command.
pub open spec fn fuzzy_bases(store: Store, query: Seq<char>) -> Seq<u32> {
    Seq::new(store.commands@.len(), |i: int| hit_base(query, store.commands@[i]) as u32)
}

/// The weighted fuzzy scores for `query`, indexed by command.
pub open spec fn fuzzy_totals(store: Store, query: Seq<char>) -> Seq<u64> {
    Seq::new(store.commands@.len(), |i: int| command_fuzzy(query, store.commands@[i]) as u64)
}

/// Every command's ranking score for `query` (tier base plus weighted fuzzy
/// score) fits in `u32`, as the scores of a fuzzy search must.
pub open spec fn fuzzy_fits(store: Store, query: Seq<char>) -> bool {
    forall|i: int|
        0 <= i < store.commands@.len() ==> hit_base(query, #[trigger] store.commands@[i])
            + command_fuzzy(query, store.commands@[i]) <= u32::MAX
}

/// The last-used time stamps, indexed by command.
pub open spec fn last_used_stamps(store: Store) -> Seq<i64> {
    Seq::new(store.commands@.len(), |i: int| last_used_seconds(store.commands@[i].last_used@))
}

/// Which commands an exact search for `query` keeps, indexed by command.
pub open spec fn exact_selection(store: Store, query: Seq<char>) -> Seq<bool> {
    Seq::new(store.commands@.len(), |i: int| exact_hit(query, store.commands@[i]))
}

/// A ranked listing is unique: two result lists that both meet
/// `lists_ranked` for the same store, selection, keys and scores hold the
/// same commands with the same scores and folder paths in the same order.
/// So the contracts of the searches fix their results completely.
pub proof fn lemma_ranked_listing_unique(
    store: Store,
    selected: Seq<bool>,
    keys: Seq<RankKey>,
    scores: Seq<u32>,
    a: Seq<SearchResult>,
    b: Seq<SearchResult>,
)
    requires
        lists_ranked(store, selected, keys, scores, a),
        lists_ranked(store, selected, keys, scores, b),
    ensures
        a.len() == b.len(),
        forall|k: int|
            0 <= k < a.len() ==> {
                &&& (#[trigger] a[k]).command@ == b[k].command@
                &&& a[k].score == b[k].score
                &&& text_views(a[k].folder_path@) == text_views(b[k].folder_path@)
            },
{
    let o1 = choose|o: Seq<usize>| lists_in_order(store, selected, keys, scores, a, o);
    let o2 = choose|o: Seq<usize>| lists_in_order(store, selected, keys, scores, b, o);
    assert forall|x: usize| o1.contains(x) <==> o2.contains(x) by {
        if o1.contains(x) {
            let k = choose|k: int| 0 <= k < o1.len() && o1[k] == x;
            assert(o1[k] < store.commands@.len() && selected[o1[k] as int]);
            let j = choose|j: int| 0 <= j < o2.len() && o2[j] == x as int;
            assert(o2[j] == x);
        }
        if o2.contains(x) {
            let k = choose|k: int| 0 <= k < o2.len() && o2[k] == x;
            assert(o2[k] < store.commands@.len() && selected[o2[k] as int]);
            let j = choose|j: int| 0 <= j < o1.len() && o1[j] == x as int;
            assert(o1[j] == x);
        }
    }
    lemma_ranked_order_unique(keys, o1, o2);
    assert forall|k: int| 0 <= k < a.len() implies {
        &&& (#[trigger] a[k]).command@ == b[k].command@
        &&& a[k].score == b[k].score
        &&& text_views(a[k].folder_path@) == text_views(b[k].folder_path@)
    } by {
        assert(a[k].command@ == store.commands@[o1[k] as int]@);
        assert(b[k].command@ == store.commands@[o2[k] as int]@);
    }
}

/// What a fuzzy search for `query` lists: with an empty query every command,
/// by id, with the score 0; otherwise the commands with a tag, text,
/// description or comment that contains the query, or with a weighted fuzzy
/// score that is not 0, ranked by tier score, then by last use, then by id.
pub open spec fn fuzzy_outcome(store: Store, query: Seq<char>, results: Seq<SearchResult>) -> bool {
    if query.len() == 0 {
        lists_ranked(store, all_selected(store), by_id_keys(store), zero_scores(store), results)
    } else {
        let bases = fuzzy_bases(store, query);
        let totals = fuzzy_totals(store, query);
        lists_ranked(
            store,
            fuzzy_selection(bases, totals),
            fuzzy_keys(store, bases, totals, last_used_stamps(store)),
            fuzzy_scores(bases, totals),
            results,
        )
    }
}

/// What an exact search for `query` lists: the commands whose text contains
/// the query (every command for an empty query), by id, with the score 0.
pub open spec fn exact_outcome(store: Store, query: Seq<char>, results: Seq<SearchResult>) -> bool {
    let selected = if query.len() == 0 {
        all_selected(store)
    } else {
        exact_selection(store, query)
    };
    lists_ranked(store, selected, by_id_keys(store), zero_scores(store), results)
}

/// The command matches the query: a tag, its text, its description or its
/// comment contains the query (ignoring case), or its weighted fuzzy score
/// is not 0.
pub open spec fn matches_query(query: Seq<char>, c: Command) -> bool {
    ||| tag_contains(query, c)
    ||| cmd_contains(query, c)
    ||| desc_contains(query, c)
    ||| comment_contains(query, c)
    ||| command_fuzzy(query, c) != 0
}

/// `results` lists a command with the model of `c`.
pub open spec fn lists_command(results: Seq<SearchResult>, c: Command) -> bool {
    exists|k: int| 0 <= k < results.len() && (#[trigger] results[k]).command@ == c@
}

/// The result is a command of the store that matches the query.
pub open spec fn matching_result(store: Store, query: Seq<char>, r: SearchResult) -> bool {
    exists|i: int|
        0 <= i < store.commands@.len() && (#[trigger] store.commands@[i])@ == r.command@ && matches_query(
            query,
            store.commands@[i],
        )
}

/// A non-empty fuzzy search keeps exactly the commands that match the query
/// (`matches_query`): every matching command is listed, and every result is
/// a matching command of the store.
pub proof fn lemma_fuzzy_keeps_matches(store: Store, query: Seq<char>, results: Seq<SearchResult>)
    requires
        query.len() > 0,
        fuzzy_outcome(store, query, results),
    ensures
        forall|i: int|
            0 <= i < store.commands@.len() && matches_query(query, #[trigger] store.commands@[i])
                ==> lists_command(results, store.commands@[i]),
        forall|k: int| 0 <= k < results.len() ==> matching_result(store, query, #[trigger] results[k]),
{
    let bases = fuzzy_bases(store, query);
    let totals = fuzzy_totals(store, query);
    let selected = fuzzy_selection(bases, totals);
    let keys = fuzzy_keys(store, bases, totals, last_used_stamps(store));
    let scores = fuzzy_scores(bases, totals);
    let order = choose|o: Seq<usize>| lists_in_order(store, selected, keys, scores, results, o);
    assert forall|i: int| 0 <= i < store.commands@.len() implies #[trigger] selected[i] == matches_query(
        query,
        store.commands@[i],
    ) by {
        let c = store.commands@[i];
        let f = command_fuzzy(query, c);
        assert(0 <= f <= 7 * 0xffff_ffff);
        assert(totals[i] == f as u64);
        assert(bases[i] == hit_base(query, c) as u32);
    }
    assert forall|i: int|
        0 <= i < store.commands@.len() && matches_query(query, #[trigger] store.commands@[i]) implies lists_command(
        results,
        store.commands@[i],
    ) by {
        assert(selected[i]);
        let k = choose|k: int| 0 <= k < order.len() && order[k] == i;
        assert(results[k].command@ == store.commands@[order[k] as int]@);
    }
    assert forall|k: int| 0 <= k < results.len() implies matching_result(store, query, #[trigger] results[k]) by {
        let i = order[k] as int;
        assert(order[k] < store.commands@.len() && selected[order[k] as int]);
        assert(results[k].command@ == store.commands@[i]@);
    }
}

/// With an empty query the fuzzy and the exact search list the same
/// commands, in the same order (by id), with the same scores and paths.
pub proof fn lemma_empty_queries_agree(store: Store, a: Seq<SearchResult>, b: Seq<SearchResult>)
    requires
        fuzzy_outcome(store, Seq::empty(), a),
        exact_outcome(store, Seq::empty(), b),
    ensures
        a.len() == b.len(),
        forall|k: int|
            0 <= k < a.len() ==> {
                &&& (#[trigger] a[k]).command@ == b[k].command@
                &&& a[k].score == b[k].score
                &&& text_views(a[k].folder_path@) == text_views(b[k].folder_path@)
            },
{
    lemma_ranked_listing_unique(store, all_selected(store), by_id_keys(store), zero_scores(store), a, b);
}

/// A fuzzy field score, 0 for an empty field.
fn score_field(matcher: &mut Matcher, query: &str, text: &str) -> (r: u32)
    requires
        text@.len() <= u32::MAX,
        query@.len() <= MAX_PATTERN_CHARS,
    ensures
        r == field_score(query@, text@),
{
    if text.is_empty() {
        return 0;
    }
    pattern_score(matcher, query, text)
}

/// Whether the lower-cased `text` contains the lower-cased query.
fn contains_ignoring_case(text: &str, query_lower: &Vec<char>) -> (r: bool)
    ensures
        r == has_infix(lowercase(text@), query_lower@),
{
    let lower = to_lower(text);
    let chars = chars_of(lower.as_str());
    find_infix(chars.as_slice(), query_lower.as_slice())
}

/// Whether some tag contains the lower-cased query, ignoring case.
fn tags_contain(tags: &Vec<String>, query_lower: &Vec<char>) -> (r: bool)
    ensures
        r == any_tag_contains(text_views(tags@), query_lower@),
{
    for k in 0..tags.len()
        invariant
            forall|j: int|
                0 <= j < k ==> !has_infix(lowercase(#[trigger] text_views(tags@)[j]), query_lower@),
    {
        if contains_ignoring_case(tags[k].as_str(), query_lower) {
            assert(has_infix(lowercase(text_views(tags@)[k as int]), query_lower@));
            return true;
        }
    }
    false
}

/// Whether every command's folder path is defined (see `paths_defined`).
pub fn check_paths_defined(store: &Store) -> (r: bool)
    ensures
        r == paths_defined(*store),
{
    let n = store.commands.len();
    for i in 0..n
        invariant
            n == store.commands@.len(),
            forall|j: int| 0 <= j < i ==> store.chain_ends(#[trigger] store.commands@[j].folder@),
    {
        if !store.reaches_root(&store.commands[i].folder) {
            return false;
        }
    }
    true
}

/// Whether every command can be searched (see `searchable`).
pub fn check_searchable(store: &Store) -> (r: bool)
    ensures
        r == searchable(*store),
{
    let n = store.commands.len();
    for i in 0..n
        invariant
            n == store.commands@.len(),
            forall|j: int| 0 <= j < i ==> store.chain_ends(#[trigger] store.commands@[j].folder@),
            forall|j: int| 0 <= j < i ==> fits_matcher(#[trigger] store.commands@[j]),
    {
        let c = &store.commands[i];
        if !store.reaches_root(&c.folder) {
            return false;
        }
        let tags = join_texts(&c.tags, " ");
        let limit: usize = 0xffff_ffff;
        if chars_of(c.cmd.as_str()).len() > limit || chars_of(c.desc.as_str()).len() > limit
            || chars_of(c.comment.as_str()).len() > limit || chars_of(tags.as_str()).len() > limit {
            return false;
        }
    }
    true
}

/// The fuzzy and exact search engine.
pub struct Searcher {
    matcher: Matcher,
}

impl Searcher {
    /// A searcher with nucleo-matcher's default configuration.
    pub fn new() -> (s: Searcher) {
        Searcher { matcher: new_matcher() }
    }

    /// For every command: its tier base, its weighted fuzzy score and its
    /// last-used time stamp for the query.
    fn fuzzy_signals(&mut self, query: &str, store: &Store) -> (r: (Vec<u32>, Vec<u64>, Vec<i64>))
        requires
            query@.len() <= MAX_PATTERN_CHARS,
            searchable(*store),
        ensures
            r.0@ == fuzzy_bases(*store, query@),
            r.1@ == fuzzy_totals(*store, query@),
            r.2@ == last_used_stamps(*store),
            forall|i: int| 0 <= i < r.1@.len() ==> #[trigger] r.1@[i] == command_fuzzy(query@, store.commands@[i]),
    {
        let n = store.commands.len();
        let query_lower = chars_of(to_lower(query).as_str());
        let mut bases: Vec<u32> = Vec::new();
        let mut fuzzy: Vec<u64> = Vec::new();
        let mut stamps: Vec<i64> = Vec::new();
        for i in 0..n
            invariant
                n == store.commands@.len(),
                query@.len() <= MAX_PATTERN_CHARS,
                searchable(*store),
                query_lower@ == lowercase(query@),
                bases@.len() == i,
                fuzzy@.len() == i,
                stamps@.len() == i,
                forall|j: int| 0 <= j < i ==> #[trigger] bases@[j] == fuzzy_bases(*store, query@)[j],
                forall|j: int| 0 <= j < i ==> #[trigger] fuzzy@[j] == command_fuzzy(query@, store.commands@[j]),
                forall|j: int| 0 <= j < i ==> #[trigger] stamps@[j] == last_used_stamps(*store)[j],
        {
            let c = &store.commands[i];
            assert(fits_matcher(store.commands@[i as int]));
            let tag_hit = tags_contain(&c.tags, &query_lower);
            let cmd_hit = contains_ignoring_case(c.cmd.as_str(), &query_lower);
            let desc_hit = contains_ignoring_case(c.desc.as_str(), &query_lower);
            let comment_hit = contains_ignoring_case(c.comment.as_str(), &query_lower);
            assert(text_views(c.tags@) == c@.tags);
            bases.push(base_score(tag_hit, cmd_hit, desc_hit, comment_hit));
            let tags = join_texts(&c.tags, " ");
            let s_cmd = score_field(&mut self.matcher, query, c.cmd.as_str());
            let s_desc = score_field(&mut self.matcher, query, c.desc.as_str());
            let s_comment = score_field(&mut self.matcher, query, c.comment.as_str());
            let s_tags = score_field(&mut self.matcher, query, tags.as_str());
            fuzzy.push(weighted_score(s_cmd, s_desc, s_comment, s_tags));
            stamps.push(parse_last_used(c.last_used.as_str()));
        }
        assert(bases@ =~= fuzzy_bases(*store, query@));
        assert(fuzzy@ =~= fuzzy_totals(*store, query@));
        assert(stamps@ =~= last_used_stamps(*store));
        (bases, fuzzy, stamps)
    }

    /// Whether every command's ranking score for `query` fits in `u32` (see
    /// `fuzzy_fits`).
    pub fn fuzzy_fits_check(&mut self, query: &str, store: &Store) -> (r: bool)
        requires
            query@.len() <= MAX_PATTERN_CHARS,
            searchable(*store),
        ensures
            r == fuzzy_fits(*store, query@),
    {
        let (bases, fuzzy, _stamps) = self.fuzzy_signals(query, store);
        let n = bases.len();
        for i in 0..n
            invariant
                n == store.commands@.len(),
                bases@ == fuzzy_bases(*store, query@),
                fuzzy@ == fuzzy_totals(*store, query@),
                forall|j: int| 0 <= j < fuzzy@.len() ==> #[trigger] fuzzy@[j] == command_fuzzy(query@, store.commands@[j]),
                forall|j: int|
                    0 <= j < i ==> hit_base(query@, #[trigger] store.commands@[j]) + command_fuzzy(
                        query@,
                        store.commands@[j],
                    ) <= u32::MAX,
        {
            assert(bases@[i as int] == fuzzy_bases(*store, query@)[i as int]);
            assert(fuzzy@[i as int] == command_fuzzy(query@, store.commands@[i as int]));
            if fuzzy[i] > 0xffff_ffffu64 - bases[i] as u64 {
                return false;
            }
        }
        true
    }

    /// Fuzzy search over all commands. An empty query lists every command by
    /// id with the score 0. Otherwise a command is kept when a tag, its text,
    /// its description or its comment contains the query (ignoring case) or
    /// its weighted fuzzy score is not 0; the results are ranked by tier
    /// score, then by last-used time (more recent first), then by id, then
    /// by store order. The tier scores must fit in `u32` (`fuzzy_fits`).
    pub fn fuzzy_search(&mut self, query: &str, store: &Store) -> (results: Vec<SearchResult>)
        requires
            query@.len() <= MAX_PATTERN_CHARS,
            searchable(*store),
            query@.len() > 0 ==> fuzzy_fits(*store, query@),
        ensures
            fuzzy_outcome(*store, query@, results@),
    {
        let n = store.commands.len();
        if query.is_empty() {
            let mut all: Vec<bool> = Vec::new();
            for i in 0..n
                invariant
                    all@.len() == i,
                    forall|j: int| 0 <= j < i ==> #[trigger] all@[j],
            {
                all.push(true);
            }
            assert(all@ =~= all_selected(*store));
            return rank_by_id(store, &all);
        }
        let (bases, fuzzy, stamps) = self.fuzzy_signals(query, store);
        assert forall|i: int| 0 <= i < fuzzy@.len() implies tiered(
            bases@[i] as int,
            #[trigger] fuzzy@[i] as int,
        ) <= u32::MAX by {
            assert(bases@[i] == fuzzy_bases(*store, query@)[i]);
            assert(hit_base(query@, store.commands@[i]) + command_fuzzy(query@, store.commands@[i]) <= u32::MAX);
        }
        rank_fuzzy(store, &bases, &fuzzy, &stamps)
    }

    /// Fuzzy search (see `fuzzy_search`), or `None` when some command's
    /// ranking score for the non-empty query would not fit in `u32`.
    pub fn fuzzy_search_checked(&mut self, query: &str, store: &Store) -> (r: Option<Vec<SearchResult>>)
        requires
            query@.len() <= MAX_PATTERN_CHARS,
            searchable(*store),
        ensures
            r is None <==> (query@.len() > 0 && !fuzzy_fits(*store, query@)),
            r matches Some(v) ==> fuzzy_outcome(*store, query@, v@),
    {
        if !query.is_empty() && !self.fuzzy_fits_check(query, store) {
            return None;
        }
        Some(self.fuzzy_search(query, store))
    }

    /// Exact search: the commands whose text (command, description, comment
    /// and tags, separated by spaces) contains the query, ignoring case,
    /// listed by id with the score 0; an empty query lists every command.
    pub fn exact_search(&self, query: &str, store: &Store) -> (results: Vec<SearchResult>)
        requires
            paths_defined(*store),
        ensures
            exact_outcome(*store, query@, results@),
    {
        let n = store.commands.len();
        if query.is_empty() {
            let mut all: Vec<bool> = Vec::new();
            for i in 0..n
                invariant
                    all@.len() == i,
                    forall|j: int| 0 <= j < i ==> #[trigger] all@[j],
            {
                all.push(true);
            }
            assert(all@ =~= all_selected(*store));
            return rank_by_id(store, &all);
        }
        let query_lower = chars_of(to_lower(query).as_str());
        let mut hits: Vec<bool> = Vec::new();
        for i in 0..n
            invariant
                n == store.commands@.len(),
                query_lower@ == lowercase(query@),
                hits@.len() == i,
                forall|j: int| 0 <= j < i ==> #[trigger] hits@[j] == exact_selection(*store, query@)[j],
        {
            let c = &store.commands[i];
            let mut text = c.cmd.clone();
            text.append(" ");
            text.append(c.desc.as_str());
            text.append(" ");
            text.append(c.comment.as_str());
            text.append(" ");
            let tags = join_texts(&c.tags, " ");
            text.append(tags.as_str());
            assert(text@ == haystack(store.commands@[i as int]));
            hits.push(contains_ignoring_case(text.as_str(), &query_lower));
        }
        assert(hits@ =~= exact_selection(*store, query@));
        rank_by_id(store, &hits)
    }
}

impl Default for Searcher {
    fn default() -> (s: Searcher) {
        Searcher::new()
    }
}

} // verus!
