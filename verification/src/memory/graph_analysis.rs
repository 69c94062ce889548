//! Graph analysis of memory communities: the time a community spans, the
//! theme it shares, and which memories involve a set of entities.

use vstd::prelude::*;
use crate::messaging::filters::string_views;
use crate::memory::traversal::memory_views;
use crate::models::memory::{Memory, MemoryView};
use crate::text::{
    contains_seq, key_lt, lemma_key_lt_irreflexive, lemma_key_lt_total, lemma_key_lt_transitive, lowercase_chars,
    str_contains, str_eq, str_lt, to_lowercase,
};
use crate::time::{now, ts_before, Timestamp};

verus! {

/// The time span a community of memories covers: its earliest and latest
/// creation times and the whole days between them.
#[derive(Debug, Clone, Copy, PartialEq, Eq, Structural)]
pub struct TemporalSpan {
    pub start: Timestamp,
    pub end: Timestamp,
    pub duration_days: i64,
}

/// The number of nanoseconds since the epoch at `t`.
pub open spec fn epoch_nanos_at(t: Timestamp) -> int {
    t.secs * 1_000_000_000 + t.nanos
}

/// Whether `t` is the earliest creation time among `ms`.
pub open spec fn is_earliest(ms: Seq<Memory>, t: Timestamp) -> bool {
    &&& exists|i: int| 0 <= i < ms.len() && #[trigger] ms[i].created_at == t
    &&& forall|j: int| 0 <= j < ms.len() ==> !ts_before(#[trigger] ms[j].created_at, t)
}

/// Whether `t` is the latest creation time among `ms`.
pub open spec fn is_latest(ms: Seq<Memory>, t: Timestamp) -> bool {
    &&& exists|i: int| 0 <= i < ms.len() && #[trigger] ms[i].created_at == t
    &&& forall|j: int| 0 <= j < ms.len() ==> !ts_before(t, #[trigger] ms[j].created_at)
}

/// The time span of a community: from its earliest to its latest creation
/// time, with the number of whole days between them (stated for instants
/// outside leap seconds, whose nanoseconds lie below one second); for an
/// empty community, an empty span at the clock's reading.
pub fn calculate_temporal_span(community: &[Memory]) -> (r: TemporalSpan)
    ensures
        community@.len() == 0 ==> r.start == r.end && r.duration_days == 0,
        community@.len() > 0 ==> {
            &&& is_earliest(community@, r.start)
            &&& is_latest(community@, r.end)
            &&& r.start.nanos < 1_000_000_000 && r.end.nanos < 1_000_000_000 ==> r.duration_days == (
                epoch_nanos_at(r.end) - epoch_nanos_at(r.start)) / 86_400_000_000_000
        },
{
    if community.len() == 0 {
        let t = now();
        return TemporalSpan { start: t, end: t, duration_days: 0 };
    }
    let ghost ms = community@;
    let mut start = community[0].created_at;
    let mut end = community[0].created_at;
    let mut i: usize = 1;
    while i < community.len()
        invariant
            1 <= i <= ms.len(),
            ms == community@,
            exists|a: int| 0 <= a < i && #[trigger] ms[a].created_at == start,
            exists|a: int| 0 <= a < i && #[trigger] ms[a].created_at == end,
            forall|j: int| 0 <= j < i ==> !ts_before(#[trigger] ms[j].created_at, start),
            forall|j: int| 0 <= j < i ==> !ts_before(end, #[trigger] ms[j].created_at),
        decreases community.len() - i,
    {
        let t = community[i].created_at;
        if t.is_before(&start) {
            start = t;
        }
        if end.is_before(&t) {
            end = t;
        }
        assert(ms[i as int].created_at == t);
        i += 1;
    }
    let d: i128 = (end.secs as i128 - start.secs as i128) * 1_000_000_000 + (end.nanos as i128 - start.nanos as i128);
    assert(d == epoch_nanos_at(end) - epoch_nanos_at(start));
    assert(!ts_before(end, start));
    assert(start.nanos < 1_000_000_000 && end.nanos < 1_000_000_000 ==> d >= 0);
    let days = d / 86_400_000_000_000;
    assert(days < 1_000_000_000_000_000) by {
        assert(d < 86_400_000_000_000 * 1_000_000_000_000_000);
    }
    TemporalSpan { start, end, duration_days: days as i64 }
}

/// Every tag of every memory, memory by memory.
pub open spec fn all_tags(ms: Seq<Memory>) -> Seq<Seq<char>> {
    ms.map_values(|m: Memory| string_views(m.tags@)).flatten()
}

/// The test of a tag being `t`.
pub open spec fn is_tag(t: Seq<char>) -> spec_fn(Seq<char>) -> bool {
    |x: Seq<char>| x == t
}

/// How often `t` occurs among `tags`.
pub open spec fn tag_count(tags: Seq<Seq<char>>, t: Seq<char>) -> nat {
    tags.filter(is_tag(t)).len()
}

/// Whether `theme` is the theme of a community whose tags are `tags`: a most
/// frequent tag, or `general` when the community has no tags.
pub open spec fn is_theme(tags: Seq<Seq<char>>, theme: Seq<char>) -> bool {
    if tags.len() == 0 {
        theme == "general"@
    } else {
        tags.contains(theme) && forall|u: Seq<char>| #[trigger] tag_count(tags, u) <= tag_count(tags, theme)
    }
}

/// How often `t` occurs among `tags`.
fn count_of(tags: &Vec<String>, t: &str) -> (c: usize)
    ensures
        c == tag_count(string_views(tags@), t@),
{
    let ghost tv = string_views(tags@);
    let ghost eq = is_tag(t@);
    let mut c: usize = 0;
    let mut i: usize = 0;
    while i < tags.len()
        invariant
            i <= tags@.len(),
            tv == string_views(tags@),
            eq == is_tag(t@),
            c == tv.take(i as int).filter(eq).len(),
            c <= i,
        decreases tags.len() - i,
    {
        proof {
            assert(tv.take(i + 1) =~= tv.take(i as int).push(tv[i as int]));
            tv.take(i as int).lemma_filter_push(tv[i as int], eq);
        }
        if str_eq(tags[i].as_str(), t) {
            c += 1;
        }
        i += 1;
    }
    assert(tv.take(i as int) =~= tv);
    c
}

/// A tag that occurs nowhere is counted zero times.
proof fn lemma_absent_count(tags: Seq<Seq<char>>, u: Seq<char>)
    requires
        !tags.contains(u),
    ensures
        tag_count(tags, u) == 0,
{
    let eq = is_tag(u);
    assert forall|k: int| 0 <= k < tags.len() implies !eq(#[trigger] tags[k]) by {
        if eq(tags[k]) {
            assert(tags.contains(u));
        }
    }
    assert(tags.all(|x: Seq<char>| !eq(x)));
    tags.lemma_all_neg_filter_empty(eq);
}

/// The theme of a community of memories: its most frequent tag (the first
/// to reach the highest count), or `general` when it has no tags.
pub fn identify_community_theme(community: &[Memory]) -> (r: String)
    ensures
        is_theme(all_tags(community@), r@),
{
    let ghost ms = community@;
    let mut tags: Vec<String> = Vec::new();
    let mut i: usize = 0;
    while i < community.len()
        invariant
            i <= ms.len(),
            ms == community@,
            string_views(tags@) == all_tags(ms.take(i as int)),
        decreases community.len() - i,
    {
        let ghost before = string_views(tags@);
        let ghost mine = string_views(ms[i as int].tags@);
        let mut j: usize = 0;
        while j < community[i].tags.len()
            invariant
                j <= mine.len(),
                i < ms.len(),
                ms == community@,
                mine == string_views(ms[i as int].tags@),
                string_views(tags@) == before + mine.take(j as int),
            decreases community[i as int].tags@.len() - j,
        {
            let ghost prev = tags@;
            let item = String::from_str(community[i].tags[j].as_str());
            assert(item@ == mine[j as int]);
            tags.push(item);
            assert(string_views(tags@) =~= string_views(prev).push(mine[j as int]));
            assert(mine.take(j + 1) =~= mine.take(j as int).push(mine[j as int]));
            j += 1;
            assert(string_views(tags@) =~= before + mine.take(j as int));
        }
        proof {
            assert(mine.take(j as int) =~= mine);
            let views = ms.map_values(|m: Memory| string_views(m.tags@));
            assert(ms.take(i + 1).map_values(|m: Memory| string_views(m.tags@))
                =~= ms.take(i as int).map_values(|m: Memory| string_views(m.tags@)).push(mine));
            ms.take(i as int).map_values(|m: Memory| string_views(m.tags@)).lemma_flatten_push(mine);
        }
        i += 1;
    }
    assert(ms.take(i as int) =~= ms);
    let ghost tv = string_views(tags@);
    if tags.len() == 0 {
        return String::from_str("general");
    }
    let mut best: usize = 0;
    let mut best_count = count_of(&tags, tags[0].as_str());
    let mut k: usize = 1;
    while k < tags.len()
        invariant
            1 <= k <= tags@.len(),
            best < tags@.len(),
            tv == string_views(tags@),
            best_count == tag_count(tv, tv[best as int]),
            forall|q: int| 0 <= q < k ==> #[trigger] tag_count(tv, tv[q]) <= best_count,
        decreases tags.len() - k,
    {
        let c = count_of(&tags, tags[k].as_str());
        if c > best_count {
            best = k;
            best_count = c;
        }
        k += 1;
    }
    proof {
        assert forall|u: Seq<char>| #[trigger] tag_count(tv, u) <= tag_count(tv, tv[best as int]) by {
            if tv.contains(u) {
                let q = choose|q: int| 0 <= q < tv.len() && tv[q] == u;
                assert(tag_count(tv, tv[q]) <= best_count);
            } else {
                lemma_absent_count(tv, u);
            }
        }
        assert(tv.contains(tv[best as int]));
    }
    String::from_str(tags[best].as_str())
}

/// Whether a memory's content mentions every one of `entities`, ignoring
/// case (as lowercasing has it).
pub open spec fn mentions_all(content: Seq<char>, entities: Seq<Seq<char>>) -> bool {
    forall|i: int| 0 <= i < entities.len() ==> contains_seq(lowercase_chars(content), lowercase_chars(#[trigger] entities[i]))
}

/// Whether a memory involves every one of `entities`: its lowercased content
/// contains each lowercased entity.
pub fn involves_all_entities(memory: &Memory, entities: &Vec<String>) -> (r: bool)
    ensures
        r == mentions_all(memory.content@, string_views(entities@)),
{
    let content = to_lowercase(memory.content.as_str());
    let mut i: usize = 0;
    while i < entities.len()
        invariant
            i <= entities@.len(),
            content@ == lowercase_chars(memory.content@),
            forall|j: int| 0 <= j < i ==> contains_seq(lowercase_chars(memory.content@), lowercase_chars(#[trigger] string_views(entities@)[j])),
        decreases entities.len() - i,
    {
        let e = to_lowercase(entities[i].as_str());
        assert(string_views(entities@)[i as int] == entities@[i as int]@);
        if !str_contains(content.as_str(), e.as_str()) {
            return false;
        }
        i += 1;
    }
    true
}

/// Whether the memories' identifiers strictly increase.
pub open spec fn ids_increasing(r: Seq<Memory>) -> bool {
    forall|i: int, j: int| 0 <= i < j < r.len() ==> key_lt(#[trigger] r[i].id@, #[trigger] r[j].id@)
}

/// The identifiers of the memories.
pub open spec fn ids_of(ms: Seq<Memory>) -> Seq<Seq<char>> {
    ms.map_values(|m: Memory| m.id@)
}

/// Whether no memory of `ms` before position `i` has identifier `id`.
pub open spec fn no_earlier_id(ms: Seq<Memory>, i: int, id: Seq<char>) -> bool {
    forall|k: int| 0 <= k < i ==> (#[trigger] ms[k]).id@ != id
}

/// Whether `m` is the first memory of `ms` with its identifier.
pub open spec fn first_with_its_id(ms: Seq<Memory>, m: Memory) -> bool {
    exists|w: int| 0 <= w < ms.len() && #[trigger] ms[w] == m && no_earlier_id(ms, w, m.id@)
}

/// The memories related to a target, found by several searches: one memory
/// for each identifier found, other than the target's (the first found with
/// that identifier), in increasing order of identifier.
pub fn dedup_related_memories(related: Vec<Memory>, target_id: &str) -> (r: Vec<Memory>)
    ensures
        ids_increasing(r@),
        forall|k: int| 0 <= k < r@.len() ==> (#[trigger] r@[k]).id@ != target_id@ && first_with_its_id(related@, r@[k]),
        forall|i: int| 0 <= i < related@.len() && (#[trigger] related@[i]).id@ != target_id@ ==> ids_of(r@).contains(
            related@[i].id@,
        ),
{
    let ghost orig = related@;
    assert(orig.len() == related.len());
    let mut rest = related;
    let mut out: Vec<Memory> = Vec::new();
    let mut i: usize = 0;
    while rest.len() > 0
        invariant
            i <= orig.len(),
            orig.len() <= usize::MAX,
            rest@ == orig.skip(i as int),
            ids_increasing(out@),
            forall|k: int| 0 <= k < out@.len() ==> (#[trigger] out@[k]).id@ != target_id@ && exists|w: int|
                0 <= w < i && #[trigger] orig[w] == out@[k] && no_earlier_id(orig, w, out@[k].id@),
            forall|w: int| 0 <= w < i && (#[trigger] orig[w]).id@ != target_id@ ==> ids_of(out@).contains(orig[w].id@),
        decreases rest.len(),
    {
        let m = rest.remove(0);
        assert(m == orig[i as int]);
        if !str_eq(m.id.as_str(), target_id) {
            let mut p: usize = 0;
            while p < out.len() && str_lt(out[p].id.as_str(), m.id.as_str())
                invariant
                    p <= out@.len(),
                    forall|q: int| 0 <= q < p ==> key_lt(#[trigger] out@[q].id@, m.id@),
                decreases out.len() - p,
            {
                p += 1;
            }
            let ghost before = out@;
            if p < out.len() && str_eq(out[p].id.as_str(), m.id.as_str()) {
                proof {
                    assert(ids_of(out@)[p as int] == m.id@);
                }
            } else {
                proof {
                    assert forall|q: int| p <= q < before.len() implies key_lt(m.id@, #[trigger] before[q].id@) by {
                        lemma_key_lt_total(before[p as int].id@, m.id@);
                        if q > p {
                            lemma_key_lt_transitive(m.id@, before[p as int].id@, before[q].id@);
                        }
                    }
                    assert forall|k: int| 0 <= k < i implies (#[trigger] orig[k]).id@ != m.id@ by {
                        if orig[k].id@ == m.id@ {
                            assert(ids_of(before).contains(m.id@));
                            let q = choose|q: int| 0 <= q < ids_of(before).len() && ids_of(before)[q] == m.id@;
                            assert(before[q].id@ == m.id@);
                            lemma_key_lt_irreflexive(m.id@);
                        }
                    }
                    assert(no_earlier_id(orig, i as int, m.id@));
                }
                out.insert(p, m);
                proof {
                    let r = out@;
                    assert(r == before.insert(p as int, orig[i as int]));
                    assert forall|a: int, b: int| 0 <= a < b < r.len() implies key_lt(#[trigger] r[a].id@, #[trigger] r[b].id@) by {
                        if b < p {
                            assert(r[a] == before[a] && r[b] == before[b]);
                        } else if b == p {
                            assert(r[a] == before[a] && r[b] == orig[i as int]);
                        } else if a < p {
                            assert(r[a] == before[a] && r[b] == before[b - 1]);
                        } else if a == p {
                            assert(r[a] == orig[i as int] && r[b] == before[b - 1]);
                        } else {
                            assert(r[a] == before[a - 1] && r[b] == before[b - 1]);
                        }
                    }
                    assert forall|k: int| 0 <= k < r.len() implies (#[trigger] r[k]).id@ != target_id@ && exists|w: int|
                        0 <= w < i + 1 && #[trigger] orig[w] == r[k] && no_earlier_id(orig, w, r[k].id@) by {
                        if k < p {
                            assert(r[k] == before[k]);
                        } else if k == p {
                            assert(r[k] == orig[i as int]);
                        } else {
                            assert(r[k] == before[k - 1]);
                        }
                    }
                    assert forall|w: int| 0 <= w < i + 1 && (#[trigger] orig[w]).id@ != target_id@ implies ids_of(r).contains(
                        orig[w].id@,
                    ) by {
                        if w < i {
                            let q = choose|q: int| 0 <= q < ids_of(before).len() && ids_of(before)[q] == orig[w].id@;
                            if q < p {
                                assert(ids_of(r)[q] == orig[w].id@);
                            } else {
                                assert(ids_of(r)[q + 1] == orig[w].id@);
                            }
                        } else {
                            assert(ids_of(r)[p as int] == orig[w].id@);
                        }
                    }
                }
            }
        }
        i += 1;
        assert(rest@ =~= orig.skip(i as int));
    }
    out
}

/// The identifiers of the memories created before `t` (or, with `later`,
/// after it), in order.
pub open spec fn ids_created(ms: Seq<MemoryView>, t: Timestamp, later: bool) -> Seq<Seq<char>>
    decreases ms.len(),
{
    if ms.len() == 0 {
        Seq::empty()
    } else {
        let rest = ids_created(ms.drop_last(), t, later);
        let c = ms.last().created_at;
        if (!later && ts_before(c, t)) || (later && ts_before(t, c)) {
            rest.push(ms.last().id)
        } else {
            rest
        }
    }
}

/// Split the memories related to a central one created at `central_created_at`
/// into those that may have influenced it (created before) and those it may
/// have influenced (created after), by identifier, in order; those created at
/// the same instant are in neither.
pub fn split_influences(related: &[Memory], central_created_at: Timestamp) -> (r: (Vec<String>, Vec<String>))
    ensures
        string_views(r.0@) == ids_created(memory_views(related@), central_created_at, false),
        string_views(r.1@) == ids_created(memory_views(related@), central_created_at, true),
{
    let ghost ms = memory_views(related@);
    let mut influencing: Vec<String> = Vec::new();
    let mut influenced: Vec<String> = Vec::new();
    let mut i: usize = 0;
    while i < related.len()
        invariant
            i <= related@.len(),
            ms == memory_views(related@),
            string_views(influencing@) == ids_created(ms.take(i as int), central_created_at, false),
            string_views(influenced@) == ids_created(ms.take(i as int), central_created_at, true),
        decreases related.len() - i,
    {
        assert(ms.take(i + 1).drop_last() =~= ms.take(i as int));
        assert(ms.take(i + 1).last() == related@[i as int]@);
        let c = related[i].created_at;
        if c.is_before(&central_created_at) {
            influencing.push(related[i].id.clone());
            assert(string_views(influencing@) =~= ids_created(ms.take(i + 1), central_created_at, false));
            assert(string_views(influenced@) =~= ids_created(ms.take(i + 1), central_created_at, true));
        } else if central_created_at.is_before(&c) {
            influenced.push(related[i].id.clone());
            assert(string_views(influencing@) =~= ids_created(ms.take(i + 1), central_created_at, false));
            assert(string_views(influenced@) =~= ids_created(ms.take(i + 1), central_created_at, true));
        }
        i += 1;
    }
    assert(ms.take(related@.len() as int) =~= ms);
    (influencing, influenced)
}

/// The similarity matrix as rows of booleans.
pub open spec fn matrix_view(similar: Seq<Vec<bool>>) -> Seq<Seq<bool>> {
    similar.map_values(|row: Vec<bool>| row@)
}

/// Whether the matrix has `n` rows of `n` entries.
pub open spec fn is_square(sim: Seq<Seq<bool>>, n: int) -> bool {
    &&& sim.len() == n
    &&& forall|a: int| 0 <= a < n ==> (#[trigger] sim[a]).len() == n
}

/// The positions similar to `seed`.
pub open spec fn similar_to(sim: Seq<Seq<bool>>, seed: usize) -> spec_fn(usize) -> bool {
    |j: usize| sim[seed as int][j as int]
}

/// The positions not similar to `seed`.
pub open spec fn unlike(sim: Seq<Seq<bool>>, seed: usize) -> spec_fn(usize) -> bool {
    |j: usize| !sim[seed as int][j as int]
}

/// The greedy clusters of the positions `rem`, in order: the first position
/// seeds a cluster of itself and every later position similar to it, in order,
/// and the positions left cluster in the same way.
pub open spec fn greedy_clusters(sim: Seq<Seq<bool>>, rem: Seq<usize>) -> Seq<Seq<usize>>
    decreases rem.len(),
{
    if rem.len() == 0 {
        Seq::empty()
    } else {
        let seed = rem[0];
        let rest = rem.drop_first();
        proof {
            rest.lemma_filter_len(unlike(sim, seed));
        }
        seq![seq![seed] + rest.filter(similar_to(sim, seed))] + greedy_clusters(sim, rest.filter(unlike(sim, seed)))
    }
}

/// The positions below `n`, in order.
pub open spec fn positions(n: nat) -> Seq<usize> {
    Seq::new(n, |i: int| i as usize)
}

/// The clusters as sequences.
pub open spec fn clusters_view(clusters: Seq<Vec<usize>>) -> Seq<Seq<usize>> {
    clusters.map_values(|c: Vec<usize>| c@)
}

/// Cluster the memories at positions `0..n` greedily, by a similarity matrix
/// (`similar[a][b]`: whether memory `b` is similar enough to memory `a`): the
/// first memory not yet clustered seeds a cluster of itself and every later
/// unclustered memory similar to it, until all are clustered.
pub fn cluster_positions(similar: &Vec<Vec<bool>>) -> (r: Vec<Vec<usize>>)
    requires
        is_square(matrix_view(similar@), similar@.len() as int),
    ensures
        clusters_view(r@) == greedy_clusters(matrix_view(similar@), positions(similar@.len())),
{
    let ghost sim = matrix_view(similar@);
    let n = similar.len();
    let mut unclustered: Vec<usize> = Vec::new();
    let mut k: usize = 0;
    while k < n
        invariant
            k <= n,
            n == similar@.len(),
            unclustered@ == positions(k as nat),
        decreases n - k,
    {
        unclustered.push(k);
        assert(unclustered@ =~= positions((k + 1) as nat));
        k += 1;
    }
    let mut clusters: Vec<Vec<usize>> = Vec::new();
    assert(clusters_view(clusters@) + greedy_clusters(sim, unclustered@) =~= greedy_clusters(sim, positions(n as nat)));
    while unclustered.len() > 0
        invariant
            n == similar@.len(),
            sim == matrix_view(similar@),
            is_square(sim, n as int),
            forall|q: int| 0 <= q < unclustered@.len() ==> (#[trigger] unclustered@[q]) < n,
            clusters_view(clusters@) + greedy_clusters(sim, unclustered@) == greedy_clusters(sim, positions(n as nat)),
        decreases unclustered.len(),
    {
        let ghost rem = unclustered@;
        let seed = unclustered.remove(0);
        let ghost rest = unclustered@;
        assert(rest =~= rem.drop_first());
        assert(similar@[seed as int]@ == sim[seed as int]);
        let mut cluster: Vec<usize> = Vec::new();
        cluster.push(seed);
        let mut others: Vec<usize> = Vec::new();
        let mut i: usize = 0;
        assert(rest.take(0) =~= Seq::<usize>::empty());
        while i < unclustered.len()
            invariant
                i <= rest.len(),
                unclustered@ == rest,
                seed < n,
                n == similar@.len(),
                sim == matrix_view(similar@),
                is_square(sim, n as int),
                forall|q: int| 0 <= q < rest.len() ==> (#[trigger] rest[q]) < n,
                cluster@ == seq![seed] + rest.take(i as int).filter(similar_to(sim, seed)),
                others@ == rest.take(i as int).filter(unlike(sim, seed)),
                forall|q: int| 0 <= q < others@.len() ==> (#[trigger] others@[q]) < n,
            decreases rest.len() - i,
        {
            let j = unclustered[i];
            assert(rest.take(i + 1) =~= rest.take(i as int).push(j));
            proof {
                rest.take(i as int).lemma_filter_push(j, similar_to(sim, seed));
                rest.take(i as int).lemma_filter_push(j, unlike(sim, seed));
            }
            assert(similar@[seed as int]@[j as int] == sim[seed as int][j as int]);
            if similar[seed][j] {
                cluster.push(j);
                assert(cluster@ =~= seq![seed] + rest.take(i + 1).filter(similar_to(sim, seed)));
            } else {
                others.push(j);
            }
            i += 1;
        }
        assert(rest.take(rest.len() as int) =~= rest);
        let ghost c = cluster@;
        let ghost before = clusters@;
        clusters.push(cluster);
        unclustered = others;
        proof {
            assert(greedy_clusters(sim, rem) == seq![c] + greedy_clusters(sim, unclustered@));
            assert(clusters_view(clusters@) =~= clusters_view(before).push(c));
            assert(clusters_view(clusters@) + greedy_clusters(sim, unclustered@) =~= clusters_view(before) + greedy_clusters(
                sim,
                rem,
            ));
        }
    }
    assert(greedy_clusters(sim, unclustered@) =~= Seq::<Seq<usize>>::empty());
    assert(clusters_view(clusters@) =~= clusters_view(clusters@) + greedy_clusters(sim, unclustered@));
    clusters
}

/// Splitting positions by similarity to a seed keeps each of them, once.
proof fn lemma_split_keeps_all(sim: Seq<Seq<bool>>, seed: usize, s: Seq<usize>)
    ensures
        s.filter(similar_to(sim, seed)).to_multiset().add(s.filter(unlike(sim, seed)).to_multiset()) =~= s.to_multiset(),
    decreases s.len(),
{
    broadcast use vstd::multiset::group_multiset_axioms, vstd::multiset::group_multiset_properties, vstd::seq_lib::group_to_multiset_ensures;
    if s.len() == 0 {
        assert(s.filter(similar_to(sim, seed)) =~= Seq::<usize>::empty());
        assert(s.filter(unlike(sim, seed)) =~= Seq::<usize>::empty());
        assert(s.to_multiset() =~= vstd::multiset::Multiset::<usize>::empty());
    } else {
        let init = s.drop_last();
        let x = s.last();
        assert(s =~= init.push(x));
        lemma_split_keeps_all(sim, seed, init);
        init.lemma_filter_push(x, similar_to(sim, seed));
        init.lemma_filter_push(x, unlike(sim, seed));
    }
}

/// Greedy clustering places every position in exactly one cluster: the
/// clusters, put end to end, hold the positions clustered, each as often as
/// it was given.
pub proof fn lemma_clusters_partition(sim: Seq<Seq<bool>>, rem: Seq<usize>)
    ensures
        greedy_clusters(sim, rem).flatten().to_multiset() =~= rem.to_multiset(),
    decreases rem.len(),
{
    broadcast use vstd::multiset::group_multiset_axioms, vstd::multiset::group_multiset_properties, vstd::seq_lib::group_to_multiset_ensures;
    if rem.len() == 0 {
        assert(greedy_clusters(sim, rem).flatten() =~= Seq::<usize>::empty());
        assert(rem.to_multiset() =~= vstd::multiset::Multiset::<usize>::empty());
    } else {
        let seed = rem[0];
        let rest = rem.drop_first();
        let members = rest.filter(similar_to(sim, seed));
        let others = rest.filter(unlike(sim, seed));
        rest.lemma_filter_len(unlike(sim, seed));
        lemma_clusters_partition(sim, others);
        let g = greedy_clusters(sim, rem);
        let c = seq![seed] + members;
        assert(g.first() == c);
        assert(g.drop_first() =~= greedy_clusters(sim, others));
        assert(g.flatten() == c + greedy_clusters(sim, others).flatten());
        vstd::seq_lib::lemma_multiset_commutative(c, greedy_clusters(sim, others).flatten());
        vstd::seq_lib::lemma_multiset_commutative(seq![seed], members);
        vstd::seq_lib::lemma_multiset_commutative(seq![seed], rest);
        assert(rem =~= seq![seed] + rest);
        lemma_split_keeps_all(sim, seed, rest);
    }
}

} // verus!
