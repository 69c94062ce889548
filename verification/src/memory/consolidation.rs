//! Memory consolidation: the kinds of patterns, insights and connections it
//! finds, and the parts that find them.

use vstd::prelude::*;
use crate::messaging::filters::string_views;
use crate::messaging::types::strings_contain;
use crate::models::memory::{memory_type_text, Memory};
use crate::text::{join_with, str_eq};
use crate::time::{f32_at_least, new_uuid, ts_before, F32Bits, Timestamp};

verus! {

/// Configuration for memory consolidation; its thresholds are 32-bit floats
/// carried by their bits.
#[derive(Debug, Clone, Copy, PartialEq, Eq, Structural)]
pub struct ConsolidationConfig {
    pub max_memory_age_days: i64,
    pub min_memories_for_pattern: usize,
    pub consolidation_threshold: F32Bits,
    pub wisdom_extraction_threshold: F32Bits,
}

impl Default for ConsolidationConfig {
    /// Thirty days, three memories to a pattern, thresholds 0.7 and 0.8.
    fn default() -> (c: Self)
        ensures
            c == (ConsolidationConfig {
                max_memory_age_days: 30,
                min_memories_for_pattern: 3,
                consolidation_threshold: F32Bits { bits: 0x3f33_3333 },
                wisdom_extraction_threshold: F32Bits { bits: 0x3f4c_cccd },
            }),
    {
        ConsolidationConfig {
            max_memory_age_days: 30,
            min_memories_for_pattern: 3,
            consolidation_threshold: F32Bits { bits: 0x3f33_3333 },
            wisdom_extraction_threshold: F32Bits { bits: 0x3f4c_cccd },
        }
    }
}

/// A pattern detected in memories; confidence and significance are 32-bit
/// floats carried by their bits.
#[derive(Debug, Clone)]
pub struct MemoryPattern {
    pub pattern_id: String,
    pub pattern_type: PatternType,
    pub description: String,
    pub related_memory_ids: Vec<String>,
    pub confidence: F32Bits,
    pub significance: F32Bits,
}

/// An insight drawn from patterns; confidence and practical value are 32-bit
/// floats carried by their bits.
#[derive(Debug, Clone)]
pub struct WisdomInsight {
    pub insight_id: String,
    pub wisdom_type: WisdomType,
    pub description: String,
    pub supporting_patterns: Vec<String>,
    pub confidence: F32Bits,
    pub practical_value: F32Bits,
}

/// A connection between two memories; its strength is a 32-bit float carried
/// by its bits.
#[derive(Debug, Clone)]
pub struct MemoryConnection {
    pub connection_id: String,
    pub memory_a_id: String,
    pub memory_b_id: String,
    pub connection_type: ConnectionType,
    pub strength: F32Bits,
    pub description: String,
}

/// Types of patterns that can be detected.
#[derive(Debug, Clone, Copy, PartialEq, Eq, Structural)]
pub enum PatternType {
    Recurring,
    Causal,
    Temporal,
    Thematic,
    Behavioral,
    Conceptual,
}

/// Types of wisdom that can be extracted.
#[derive(Debug, Clone, Copy, PartialEq, Eq, Structural)]
pub enum WisdomType {
    Principle,
    Strategy,
    Lesson,
    Observation,
    Prediction,
}

/// Types of connections between memories.
#[derive(Debug, Clone, Copy, PartialEq, Eq, Structural)]
pub enum ConnectionType {
    Causal,
    Temporal,
    Thematic,
    Conceptual,
    Contradictory,
    Reinforcing,
}

/// Pattern detection system.
#[derive(Debug, Clone, Copy, PartialEq, Eq, Structural)]
pub struct PatternDetector;

/// Whether memory `i` comes before memory `j` in creation order, the one
/// listed first coming first among those created at the same instant.
pub open spec fn created_before(ms: Seq<Memory>, i: int, j: int) -> bool {
    ts_before(ms[i].created_at, ms[j].created_at) || (ms[i].created_at == ms[j].created_at && i < j)
}

/// Whether `order` lists the positions of `ms`, each once, oldest memory
/// first (a stable sort by creation time).
pub open spec fn creation_order(order: Seq<int>, ms: Seq<Memory>) -> bool {
    &&& order.len() == ms.len()
    &&& forall|k: int| 0 <= k < ms.len() ==> #[trigger] order.contains(k)
    &&& forall|a: int| 0 <= a < order.len() ==> 0 <= #[trigger] order[a] < ms.len()
    &&& forall|a: int, b: int| 0 <= a < b < order.len() ==> created_before(ms, #[trigger] order[a], #[trigger] order[b])
}

/// Two creation orders agree up to position `a`.
proof fn lemma_creation_orders_agree_to(o1: Seq<int>, o2: Seq<int>, ms: Seq<Memory>, a: int)
    requires
        creation_order(o1, ms),
        creation_order(o2, ms),
        0 <= a < o1.len(),
    ensures
        forall|b: int| 0 <= b <= a ==> o1[b] == o2[b],
    decreases a,
{
    if a > 0 {
        lemma_creation_orders_agree_to(o1, o2, ms, a - 1);
    }
    let x = o1[a];
    let y = o2[a];
    if x != y {
        assert(o2.contains(x));
        let b = choose|b: int| 0 <= b < o2.len() && o2[b] == x;
        assert(o1.contains(y));
        let c = choose|c: int| 0 <= c < o1.len() && o1[c] == y;
        if b < a {
            assert(o1[b] == o2[b]);
            assert(created_before(ms, o1[b], o1[a]));
        } else if c < a {
            assert(o1[c] == o2[c]);
            assert(created_before(ms, o2[c], o2[a]));
        } else {
            assert(b > a && c > a);
            assert(created_before(ms, o1[a], o1[c]));
            assert(created_before(ms, o2[a], o2[b]));
        }
    }
}

/// There is one creation order of a set of memories: sorting by creation time
/// and keeping the given order among those created at the same instant
/// determines where each memory goes.
pub proof fn lemma_creation_order_unique(o1: Seq<int>, o2: Seq<int>, ms: Seq<Memory>)
    requires
        creation_order(o1, ms),
        creation_order(o2, ms),
    ensures
        o1 == o2,
{
    if o1.len() > 0 {
        lemma_creation_orders_agree_to(o1, o2, ms, o1.len() - 1);
    }
    assert(o1 =~= o2);
}

/// The identifiers of `ms` in the order `order` lists them.
pub open spec fn ids_in_order(order: Seq<int>, ms: Seq<Memory>) -> Seq<Seq<char>> {
    order.map_values(|k: int| ms[k].id@)
}

impl PatternDetector {
    pub fn new() -> (d: Self)
        ensures
            d == PatternDetector,
    {
        PatternDetector
    }

    /// Memories sort into a sequence when there are at least three of them:
    /// then one temporal pattern relates them all, oldest first (those created
    /// at the same instant in the order given), with confidence 0.6 and
    /// significance 0.5.
    pub fn detect_temporal_patterns(&self, memories: &[Memory], _config: &ConsolidationConfig) -> (r: Option<
        Vec<MemoryPattern>,
    >)
        ensures
            memories@.len() < 3 ==> (r matches Some(p) && p@.len() == 0),
            memories@.len() >= 3 ==> (r matches Some(p) ==> {
                let r = p;
                &&& r@.len() == 1
                &&& r@[0].pattern_id@.len() == 36
                &&& r@[0].pattern_type == PatternType::Temporal
                &&& r@[0].description@ == "Sequential memory formation pattern"@
                &&& exists|order: Seq<int>| creation_order(order, memories@)
                    && string_views(r@[0].related_memory_ids@) == ids_in_order(order, memories@)
                &&& r@[0].confidence == F32Bits { bits: 0x3f19_999a }
                &&& r@[0].significance == F32Bits { bits: 0x3f00_0000 }
            }),
    {
        let mut patterns: Vec<MemoryPattern> = Vec::new();
        if memories.len() < 3 {
            return Some(patterns);
        }
        let order = creation_order_of(memories);
        let mut ids: Vec<String> = Vec::new();
        let mut i: usize = 0;
        while i < order.len()
            invariant
                i <= order@.len(),
                creation_order(order@.map_values(|k: usize| k as int), memories@),
                ids@.len() == i,
                forall|a: int| 0 <= a < i ==> (#[trigger] ids@[a])@ == memories@[order@[a] as int].id@,
            decreases order.len() - i,
        {
            let k = order[i];
            assert(order@.map_values(|k: usize| k as int)[i as int] == k as int);
            ids.push(String::from_str(memories[k].id.as_str()));
            i += 1;
        }
        let ghost ord = order@.map_values(|k: usize| k as int);
        assert(string_views(ids@) =~= ids_in_order(ord, memories@));
        let pattern_id = match new_uuid() {
            Some(id) => id,
            None => {
                return None;
            },
        };
        patterns.push(MemoryPattern {
            pattern_id,
            pattern_type: PatternType::Temporal,
            description: String::from_str("Sequential memory formation pattern"),
            related_memory_ids: ids,
            confidence: F32Bits { bits: 0x3f19_999a },
            significance: F32Bits { bits: 0x3f00_0000 },
        });
        Some(patterns)
    }
}

/// Whether position `k` is among `s`.
spec fn lists(s: Seq<usize>, k: int) -> bool {
    exists|a: int| 0 <= a < s.len() && #[trigger] s[a] == k
}

/// The positions of `memories`, oldest memory first, those created at the
/// same instant in the order given.
fn creation_order_of(memories: &[Memory]) -> (r: Vec<usize>)
    ensures
        creation_order(r@.map_values(|k: usize| k as int), memories@),
{
    let ghost ms = memories@;
    let mut out: Vec<usize> = Vec::new();
    let mut i: usize = 0;
    while i < memories.len()
        invariant
            i <= ms.len(),
            ms == memories@,
            out@.len() == i,
            forall|k: int| 0 <= k < i ==> #[trigger] lists(out@, k),
            forall|a: int| 0 <= a < out@.len() ==> 0 <= #[trigger] out@[a] < i,
            forall|a: int, b: int| 0 <= a < b < out@.len() ==> created_before(ms, #[trigger] out@[a] as int, #[trigger] out@[b] as int),
        decreases memories.len() - i,
    {
        let mut p: usize = 0;
        while p < out.len() && !memories[i].created_at.is_before(&memories[out[p]].created_at)
            invariant
                p <= out@.len(),
                i < ms.len(),
                ms == memories@,
                forall|a: int| 0 <= a < out@.len() ==> 0 <= #[trigger] out@[a] < i,
                forall|q: int| 0 <= q < p ==> !ts_before(ms[i as int].created_at, #[trigger] ms[out@[q] as int].created_at),
            decreases out.len() - p,
        {
            p += 1;
        }
        let ghost before = out@;
        proof {
            assert forall|q: int| p <= q < before.len() implies ts_before(ms[i as int].created_at, #[trigger] ms[before[q] as int].created_at) by {
                if q > p {
                    assert(created_before(ms, before[p as int] as int, before[q] as int));
                }
            }
        }
        out.insert(p, i);
        proof {
            let after = out@;
            assert(after =~= before.take(p as int).push(i) + before.skip(p as int));
            assert forall|a: int| 0 <= a < after.len() implies 0 <= #[trigger] after[a] < i + 1 by {
                if a < p {
                    assert(after[a] == before[a]);
                } else if a > p {
                    assert(after[a] == before[a - 1]);
                }
            }
            assert forall|a: int, b: int| 0 <= a < b < after.len() implies created_before(ms, #[trigger] after[a] as int, #[trigger] after[b] as int) by {
                if b < p {
                    assert(after[a] == before[a] && after[b] == before[b]);
                } else if b == p {
                    assert(after[a] == before[a] && after[b] == i);
                    assert(!ts_before(ms[i as int].created_at, ms[before[a] as int].created_at));
                } else if a < p {
                    assert(after[a] == before[a] && after[b] == before[b - 1]);
                } else if a == p {
                    assert(after[a] == i && after[b] == before[b - 1]);
                } else {
                    assert(after[a] == before[a - 1] && after[b] == before[b - 1]);
                }
            }
            assert forall|k: int| 0 <= k < i + 1 implies #[trigger] lists(after, k) by {
                if k == i {
                    assert(after[p as int] == k);
                } else {
                    assert(lists(before, k));
                    let a = choose|a: int| 0 <= a < before.len() && #[trigger] before[a] == k;
                    if a < p {
                        assert(after[a] == k);
                    } else {
                        assert(after[a + 1] == k);
                    }
                }
            }
        }
        i += 1;
    }
    proof {
        let ord = out@.map_values(|x: usize| x as int);
        assert forall|k: int| 0 <= k < ms.len() implies #[trigger] ord.contains(k) by {
            assert(lists(out@, k));
            let a = choose|a: int| 0 <= a < out@.len() && #[trigger] out@[a] == k;
            assert(ord[a] == k);
        }
    }
    out
}

/// Wisdom extraction system.
#[derive(Debug, Clone, Copy, PartialEq, Eq, Structural)]
pub struct WisdomExtractor;

/// The insight a pattern of the given type yields, if any: its kind, the text
/// its description starts with (followed by the pattern's description when
/// the second part is true), and the bits of its practical value.
pub open spec fn insight_for(t: PatternType) -> Option<(WisdomType, Seq<char>, bool, u32)> {
    match t {
        PatternType::Recurring => Some((WisdomType::Observation, "Recurring pattern identified: "@, true, 0x3f33_3333u32)),
        PatternType::Temporal => Some((
            WisdomType::Principle,
            "Sequential learning and development occurs over time"@,
            false,
            0x3f19_999au32,
        )),
        PatternType::Thematic => Some((WisdomType::Strategy, "Focus area identified: "@, true, 0x3f4c_cccdu32)),
        _ => None,
    }
}

/// What an insight says, apart from its identifier: its kind, description,
/// supporting patterns, confidence and practical value.
pub open spec fn insight_summary(w: WisdomInsight) -> (WisdomType, Seq<char>, Seq<Seq<char>>, F32Bits, F32Bits) {
    (w.wisdom_type, w.description@, string_views(w.supporting_patterns@), w.confidence, w.practical_value)
}

/// What the insights drawn from a pattern say: none, or one as
/// `insight_for` describes it, supported by the pattern and as confident.
pub open spec fn pattern_insights(p: MemoryPattern) -> Seq<(WisdomType, Seq<char>, Seq<Seq<char>>, F32Bits, F32Bits)> {
    match insight_for(p.pattern_type) {
        None => Seq::empty(),
        Some((kind, text, with_description, value)) => seq![(
            kind,
            if with_description { text + p.description@ } else { text },
            seq![p.pattern_id@],
            p.confidence,
            F32Bits { bits: value },
        )],
    }
}

/// What the insights drawn from the patterns at or above `threshold` in
/// confidence say, pattern by pattern.
pub open spec fn confident_insights(patterns: Seq<MemoryPattern>, threshold: F32Bits) -> Seq<
    (WisdomType, Seq<char>, Seq<Seq<char>>, F32Bits, F32Bits),
>
    decreases patterns.len(),
{
    if patterns.len() == 0 {
        Seq::empty()
    } else {
        let last = patterns.last();
        confident_insights(patterns.drop_last(), threshold) + if f32_at_least(last.confidence, threshold) {
            pattern_insights(last)
        } else {
            Seq::empty()
        }
    }
}

impl WisdomExtractor {
    pub fn new() -> (w: Self)
        ensures
            w == WisdomExtractor,
    {
        WisdomExtractor
    }

    /// The wisdom drawn from the patterns confident enough (at or above the
    /// configured threshold), pattern by pattern.
    pub fn extract_wisdom(&self, patterns: &[MemoryPattern], memories: &[Memory], config: &ConsolidationConfig) -> (r:
        Option<Vec<WisdomInsight>>)
        ensures
            r matches Some(v) ==> v@.map_values(|w: WisdomInsight| insight_summary(w)) == confident_insights(
                patterns@,
                config.wisdom_extraction_threshold,
            ),
            r matches Some(v) ==> forall|k: int| 0 <= k < v@.len() ==> (#[trigger] v@[k]).insight_id@.len() == 36,
    {
        let mut wisdom: Vec<WisdomInsight> = Vec::new();
        let mut i: usize = 0;
        while i < patterns.len()
            invariant
                i <= patterns@.len(),
                wisdom@.map_values(|w: WisdomInsight| insight_summary(w)) == confident_insights(
                    patterns@.take(i as int),
                    config.wisdom_extraction_threshold,
                ),
                forall|k: int| 0 <= k < wisdom@.len() ==> (#[trigger] wisdom@[k]).insight_id@.len() == 36,
            decreases patterns.len() - i,
        {
            assert(patterns@.take(i + 1).drop_last() =~= patterns@.take(i as int));
            let ghost before = wisdom@;
            if patterns[i].confidence.at_least(&config.wisdom_extraction_threshold) {
                let mut found = match self.extract_pattern_wisdom(&patterns[i], memories) {
                    Some(found) => found,
                    None => {
                        return None;
                    },
                };
                let ghost got = found@;
                assert(got.map_values(|w: WisdomInsight| insight_summary(w)) =~= pattern_insights(patterns@[i as int]));
                wisdom.append(&mut found);
                assert(wisdom@.map_values(|w: WisdomInsight| insight_summary(w)) =~= before.map_values(
                    |w: WisdomInsight| insight_summary(w),
                ) + got.map_values(|w: WisdomInsight| insight_summary(w)));
            } else {
                assert(wisdom@.map_values(|w: WisdomInsight| insight_summary(w)) =~= before.map_values(
                    |w: WisdomInsight| insight_summary(w),
                ) + Seq::empty());
            }
            i += 1;
        }
        assert(patterns@.take(i as int) =~= patterns@);
        Some(wisdom)
    }

    /// The wisdom a pattern yields: a recurring pattern an observation
    /// (practical value 0.7), a temporal one a principle (0.6), a thematic one
    /// a strategy (0.8), each with a fresh identifier, supported by the
    /// pattern and as confident as it; other patterns yield nothing.
    pub fn extract_pattern_wisdom(&self, pattern: &MemoryPattern, _memories: &[Memory]) -> (r: Option<
        Vec<WisdomInsight>,
    >)
        ensures
            insight_for(pattern.pattern_type) is None ==> (r matches Some(v) && v@.len() == 0),
            r matches Some(v) ==> match insight_for(pattern.pattern_type) {
                None => v@.len() == 0,
                Some((kind, text, with_description, value)) => {
                    let r = v;
                    &&& r@.len() == 1
                    &&& r@[0].insight_id@.len() == 36
                    &&& r@[0].wisdom_type == kind
                    &&& r@[0].description@ == if with_description { text + pattern.description@ } else { text }
                    &&& string_views(r@[0].supporting_patterns@) == seq![pattern.pattern_id@]
                    &&& r@[0].confidence == pattern.confidence
                    &&& r@[0].practical_value == F32Bits { bits: value }
                },
            },
    {
        let mut wisdom: Vec<WisdomInsight> = Vec::new();
        let (kind, description, value) = match pattern.pattern_type {
            PatternType::Recurring => (
                WisdomType::Observation,
                String::from_str("Recurring pattern identified: ").concat(pattern.description.as_str()),
                0x3f33_3333u32,
            ),
            PatternType::Temporal => (
                WisdomType::Principle,
                String::from_str("Sequential learning and development occurs over time"),
                0x3f19_999au32,
            ),
            PatternType::Thematic => (
                WisdomType::Strategy,
                String::from_str("Focus area identified: ").concat(pattern.description.as_str()),
                0x3f4c_cccdu32,
            ),
            _ => {
                return Some(wisdom);
            },
        };
        let insight_id = match new_uuid() {
            Some(id) => id,
            None => {
                return None;
            },
        };
        let mut supporting: Vec<String> = Vec::new();
        supporting.push(String::from_str(pattern.pattern_id.as_str()));
        assert(string_views(supporting@) =~= seq![pattern.pattern_id@]);
        wisdom.push(WisdomInsight {
            insight_id,
            wisdom_type: kind,
            description,
            supporting_patterns: supporting,
            confidence: pattern.confidence,
            practical_value: F32Bits { bits: value },
        });
        Some(wisdom)
    }
}

/// Connection analysis system.
#[derive(Debug, Clone, Copy, PartialEq, Eq, Structural)]
pub struct ConnectionAnalyzer;

/// What ties two memories together: the kind of connection, the tags they
/// share (for a thematic one) and its description.
#[derive(Debug, Clone)]
pub struct PairFinding {
    pub connection_type: ConnectionType,
    pub shared_tags: Vec<String>,
    pub description: String,
}

/// The tags of `a` that `b` carries too, in `a`'s order, repeats kept.
pub open spec fn shared_tag_seq(a: Seq<Seq<char>>, b: Seq<Seq<char>>) -> Seq<Seq<char>> {
    a.filter(|t: Seq<char>| b.contains(t))
}

/// The number of nanoseconds since the epoch at `t`.
pub open spec fn nanos_at(t: Timestamp) -> int {
    t.secs * 1_000_000_000 + t.nanos
}

/// Whether two instants lie less than an hour apart.
pub open spec fn within_hour(a: Timestamp, b: Timestamp) -> bool {
    -3_600_000_000_000 < nanos_at(a) - nanos_at(b) < 3_600_000_000_000
}

impl ConnectionAnalyzer {
    pub fn new() -> (c: Self)
        ensures
            c == ConnectionAnalyzer,
    {
        ConnectionAnalyzer
    }

    /// What connects two memories, if anything: shared tags make a thematic
    /// connection described as `Shared themes: ` and the tags joined by
    /// commas; otherwise creation less than an hour apart makes a temporal
    /// one described as `Created in close temporal proximity`.
    pub fn find_pair_connection(&self, memory_a: &Memory, memory_b: &Memory) -> (r: Option<PairFinding>)
        ensures
            ({
                let shared = shared_tag_seq(string_views(memory_a.tags@), string_views(memory_b.tags@));
                if shared.len() > 0 {
                    r matches Some(f) && f.connection_type == ConnectionType::Thematic
                        && string_views(f.shared_tags@) == shared
                        && f.description@ == "Shared themes: "@ + join_with(shared, ", "@)
                } else if within_hour(memory_a.created_at, memory_b.created_at) {
                    r matches Some(f) && f.connection_type == ConnectionType::Temporal
                        && f.shared_tags@.len() == 0
                        && f.description@ == "Created in close temporal proximity"@
                } else {
                    r is None
                }
            }),
    {
        let ghost av = string_views(memory_a.tags@);
        let ghost bv = string_views(memory_b.tags@);
        let ghost keep = |t: Seq<char>| bv.contains(t);
        let mut shared: Vec<String> = Vec::new();
        let mut text = String::new();
        let mut i: usize = 0;
        while i < memory_a.tags.len()
            invariant
                i <= memory_a.tags@.len(),
                av == string_views(memory_a.tags@),
                bv == string_views(memory_b.tags@),
                keep == (|t: Seq<char>| bv.contains(t)),
                string_views(shared@) == av.take(i as int).filter(keep),
                text@ == join_with(string_views(shared@), ", "@),
            decreases memory_a.tags.len() - i,
        {
            let ghost before = string_views(shared@);
            assert(av.take(i + 1).drop_last() =~= av.take(i as int));
            assert(av.take(i + 1).last() == memory_a.tags@[i as int]@);
            reveal(Seq::filter);
            if strings_contain(&memory_b.tags, memory_a.tags[i].as_str()) {
                if shared.len() > 0 {
                    text.append(", ");
                } else {
                    assert(text@ =~= Seq::<char>::empty());
                }
                text.append(memory_a.tags[i].as_str());
                shared.push(String::from_str(memory_a.tags[i].as_str()));
                assert(string_views(shared@) =~= before.push(memory_a.tags@[i as int]@));
                assert(string_views(shared@).drop_last() =~= before);
            }
            i += 1;
        }
        assert(av.take(i as int) =~= av);
        if shared.len() > 0 {
            return Some(PairFinding {
                connection_type: ConnectionType::Thematic,
                shared_tags: shared,
                description: String::from_str("Shared themes: ").concat(text.as_str()),
            });
        }
        let a = memory_a.created_at;
        let b = memory_b.created_at;
        let d: i128 = (a.secs as i128 - b.secs as i128) * 1_000_000_000 + (a.nanos as i128 - b.nanos as i128);
        if -3_600_000_000_000i128 < d && d < 3_600_000_000_000i128 {
            Some(PairFinding {
                connection_type: ConnectionType::Temporal,
                shared_tags: Vec::new(),
                description: String::from_str("Created in close temporal proximity"),
            })
        } else {
            None
        }
    }
}

/// Main memory consolidation system: a pattern detector, a wisdom extractor
/// and a connection analyzer.
#[derive(Debug, Clone, Copy, PartialEq, Eq, Structural)]
pub struct MemoryConsolidator {
    pub pattern_detector: PatternDetector,
    pub wisdom_extractor: WisdomExtractor,
    pub connection_analyzer: ConnectionAnalyzer,
}

impl MemoryConsolidator {
    pub fn new() -> (c: Self)
        ensures
            c == (MemoryConsolidator {
                pattern_detector: PatternDetector,
                wisdom_extractor: WisdomExtractor,
                connection_analyzer: ConnectionAnalyzer,
            }),
    {
        MemoryConsolidator {
            pattern_detector: PatternDetector::new(),
            wisdom_extractor: WisdomExtractor::new(),
            connection_analyzer: ConnectionAnalyzer::new(),
        }
    }
}

/// The keys of `pairs`, each once, in order of first appearance.
pub open spec fn first_keys(pairs: Seq<(Seq<char>, Seq<char>)>) -> Seq<Seq<char>>
    decreases pairs.len(),
{
    if pairs.len() == 0 {
        Seq::empty()
    } else {
        let init = first_keys(pairs.drop_last());
        if init.contains(pairs.last().0) {
            init
        } else {
            init.push(pairs.last().0)
        }
    }
}

/// The test of a pair having key `k`.
pub open spec fn has_key(k: Seq<char>) -> spec_fn((Seq<char>, Seq<char>)) -> bool {
    |p: (Seq<char>, Seq<char>)| p.0 == k
}

/// The values of the pairs with key `k`, in order.
pub open spec fn values_of(pairs: Seq<(Seq<char>, Seq<char>)>, k: Seq<char>) -> Seq<Seq<char>> {
    pairs.filter(has_key(k)).map_values(|p: (Seq<char>, Seq<char>)| p.1)
}

/// The character views of a list of string pairs.
pub open spec fn pair_views(v: Seq<(String, String)>) -> Seq<(Seq<char>, Seq<char>)> {
    v.map_values(|p: (String, String)| (p.0@, p.1@))
}

/// A key is among the first keys exactly when some pair has it.
pub proof fn lemma_first_keys_contains(pairs: Seq<(Seq<char>, Seq<char>)>, k: Seq<char>)
    ensures
        first_keys(pairs).contains(k) <==> exists|i: int| 0 <= i < pairs.len() && (#[trigger] pairs[i]).0 == k,
    decreases pairs.len(),
{
    if pairs.len() > 0 {
        let init = pairs.drop_last();
        let last = pairs.last();
        lemma_first_keys_contains(init, k);
        let fk = first_keys(init);
        if !fk.contains(last.0) {
            assert(fk.push(last.0)[fk.len() as int] == last.0);
            if fk.contains(k) {
                let a = choose|a: int| 0 <= a < fk.len() && fk[a] == k;
                assert(fk.push(last.0)[a] == k);
            }
            if fk.push(last.0).contains(k) && k != last.0 {
                let a = choose|a: int| 0 <= a < fk.push(last.0).len() && fk.push(last.0)[a] == k;
                assert(fk[a] == k);
            }
        }
        assert(first_keys(pairs).contains(k) <==> (fk.contains(k) || k == last.0));
        if exists|i: int| 0 <= i < pairs.len() && (#[trigger] pairs[i]).0 == k {
            let i = choose|i: int| 0 <= i < pairs.len() && (#[trigger] pairs[i]).0 == k;
            if i < pairs.len() - 1 {
                assert(init[i] == pairs[i]);
            }
        }
        if exists|i: int| 0 <= i < init.len() && (#[trigger] init[i]).0 == k {
            let i = choose|i: int| 0 <= i < init.len() && (#[trigger] init[i]).0 == k;
            assert(pairs[i] == init[i]);
        }
        if k == last.0 {
            assert(pairs[pairs.len() - 1].0 == k);
        }
    }
}

/// No key occurs twice among the first keys.
pub proof fn lemma_first_keys_distinct(pairs: Seq<(Seq<char>, Seq<char>)>)
    ensures
        first_keys(pairs).no_duplicates(),
    decreases pairs.len(),
{
    if pairs.len() > 0 {
        lemma_first_keys_distinct(pairs.drop_last());
    }
}

/// Group the values of key-value pairs by key: each key once, in order of
/// first appearance, with the values of its pairs in order.
pub fn group_pairs(pairs: &Vec<(String, String)>) -> (r: Vec<(String, Vec<String>)>)
    ensures
        r@.len() == first_keys(pair_views(pairs@)).len(),
        forall|g: int| 0 <= g < r@.len() ==> {
            &&& (#[trigger] r@[g]).0@ == first_keys(pair_views(pairs@))[g]
            &&& string_views(r@[g].1@) == values_of(pair_views(pairs@), r@[g].0@)
        },
{
    let ghost pv = pair_views(pairs@);
    let mut groups: Vec<(String, Vec<String>)> = Vec::new();
    let mut i: usize = 0;
    while i < pairs.len()
        invariant
            i <= pairs@.len(),
            pv == pair_views(pairs@),
            groups@.len() == first_keys(pv.take(i as int)).len(),
            forall|g: int| 0 <= g < groups@.len() ==> {
                &&& (#[trigger] groups@[g]).0@ == first_keys(pv.take(i as int))[g]
                &&& string_views(groups@[g].1@) == values_of(pv.take(i as int), groups@[g].0@)
            },
        decreases pairs.len() - i,
    {
        let ghost prev = pv.take(i as int);
        let ghost next = pv.take(i + 1);
        let ghost item = pv[i as int];
        assert(next =~= prev.push(item));
        assert(next.drop_last() =~= prev);
        assert(item == (pairs@[i as int].0@, pairs@[i as int].1@));
        let mut g: usize = 0;
        while g < groups.len() && !str_eq(groups[g].0.as_str(), pairs[i].0.as_str())
            invariant
                g <= groups@.len(),
                i < pairs@.len(),
                forall|h: int| 0 <= h < g ==> (#[trigger] groups@[h]).0@ != pairs@[i as int].0@,
            decreases groups.len() - g,
        {
            g += 1;
        }
        proof {
            assert forall|k: Seq<char>| #[trigger] values_of(next, k) == if k == item.0 {
                values_of(prev, k).push(item.1)
            } else {
                values_of(prev, k)
            } by {
                prev.lemma_filter_push(item, has_key(k));
                if k == item.0 {
                    assert(prev.filter(has_key(k)).push(item).map_values(|p: (Seq<char>, Seq<char>)| p.1)
                        =~= prev.filter(has_key(k)).map_values(|p: (Seq<char>, Seq<char>)| p.1).push(item.1));
                }
            }
            lemma_first_keys_distinct(prev);
        }
        if g < groups.len() {
            let ghost before = groups@;
            proof {
                assert(first_keys(prev)[g as int] == item.0);
                assert(first_keys(prev).contains(item.0));
                assert(first_keys(next) == first_keys(prev));
            }
            let mut group = groups.remove(g);
            group.1.push(String::from_str(pairs[i].1.as_str()));
            groups.insert(g, group);
            proof {
                assert forall|h: int| 0 <= h < groups@.len() implies {
                    &&& (#[trigger] groups@[h]).0@ == first_keys(next)[h]
                    &&& string_views(groups@[h].1@) == values_of(next, groups@[h].0@)
                } by {
                    if h == g {
                        assert(string_views(groups@[h].1@) =~= string_views(before[h].1@).push(item.1));
                    } else {
                        assert(groups@[h] == before[h]);
                        assert(before[h].0@ != item.0) by {
                            assert(first_keys(prev)[h] != first_keys(prev)[g as int]);
                        }
                    }
                }
            }
        } else {
            let ghost before = groups@;
            proof {
                assert(!first_keys(prev).contains(item.0)) by {
                    if first_keys(prev).contains(item.0) {
                        let h = choose|h: int| 0 <= h < first_keys(prev).len() && first_keys(prev)[h] == item.0;
                        assert(groups@[h].0@ == item.0);
                    }
                }
                lemma_first_keys_contains(prev, item.0);
                assert forall|q: int| 0 <= q < prev.len() implies !has_key(item.0)(#[trigger] prev[q]) by {}
                assert(prev.all(|p: (Seq<char>, Seq<char>)| !has_key(item.0)(p)));
                prev.lemma_all_neg_filter_empty(has_key(item.0));
                assert(values_of(prev, item.0) =~= Seq::<Seq<char>>::empty());
            }
            let mut vals: Vec<String> = Vec::new();
            vals.push(String::from_str(pairs[i].1.as_str()));
            groups.push((String::from_str(pairs[i].0.as_str()), vals));
            proof {
                assert forall|h: int| 0 <= h < groups@.len() implies {
                    &&& (#[trigger] groups@[h]).0@ == first_keys(next)[h]
                    &&& string_views(groups@[h].1@) == values_of(next, groups@[h].0@)
                } by {
                    if h < before.len() {
                        assert(groups@[h] == before[h]);
                        assert(before[h].0@ != item.0);
                    } else {
                        assert(string_views(groups@[h].1@) =~= seq![item.1]);
                        assert(values_of(prev, item.0).push(item.1) =~= seq![item.1]);
                    }
                }
            }
        }
        i += 1;
    }
    assert(pv.take(i as int) =~= pv);
    groups
}

/// Every tag of every memory paired with the memory's identifier, memory by
/// memory.
pub open spec fn tag_pairs(ms: Seq<Memory>) -> Seq<(Seq<char>, Seq<char>)> {
    ms.map_values(|m: Memory| m.tags@.map_values(|t: String| (t@, m.id@))).flatten()
}

/// Every tag of every memory paired with the memory's identifier.
pub fn tag_id_pairs(memories: &[Memory]) -> (r: Vec<(String, String)>)
    ensures
        pair_views(r@) == tag_pairs(memories@),
{
    let ghost ms = memories@;
    let ghost f = |m: Memory| m.tags@.map_values(|t: String| (t@, m.id@));
    let mut out: Vec<(String, String)> = Vec::new();
    let mut i: usize = 0;
    while i < memories.len()
        invariant
            i <= ms.len(),
            ms == memories@,
            f == (|m: Memory| m.tags@.map_values(|t: String| (t@, m.id@))),
            pair_views(out@) == ms.take(i as int).map_values(f).flatten(),
        decreases memories.len() - i,
    {
        let ghost before = pair_views(out@);
        let ghost mine = f(ms[i as int]);
        let mut j: usize = 0;
        while j < memories[i].tags.len()
            invariant
                i < ms.len(),
                ms == memories@,
                j <= ms[i as int].tags@.len(),
                mine == ms[i as int].tags@.map_values(|t: String| (t@, ms[i as int].id@)),
                pair_views(out@) == before + mine.take(j as int),
            decreases memories[i as int].tags@.len() - j,
        {
            let ghost prev = out@;
            out.push((String::from_str(memories[i].tags[j].as_str()), String::from_str(memories[i].id.as_str())));
            assert(pair_views(out@) =~= pair_views(prev).push(mine[j as int]));
            assert(mine.take(j + 1) =~= mine.take(j as int).push(mine[j as int]));
            j += 1;
        }
        proof {
            assert(mine.take(j as int) =~= mine);
            assert(ms.take(i + 1).map_values(f) =~= ms.take(i as int).map_values(f).push(mine));
            ms.take(i as int).map_values(f).lemma_flatten_push(mine);
        }
        i += 1;
    }
    assert(ms.take(i as int) =~= ms);
    out
}

/// The text form of each memory's type paired with its identifier.
pub open spec fn type_pairs(ms: Seq<Memory>) -> Seq<(Seq<char>, Seq<char>)> {
    ms.map_values(|m: Memory| (memory_type_text(m@.memory_type), m.id@))
}

/// The text form of each memory's type paired with the memory's identifier.
pub fn type_id_pairs(memories: &[Memory]) -> (r: Vec<(String, String)>)
    ensures
        pair_views(r@) == type_pairs(memories@),
{
    let mut out: Vec<(String, String)> = Vec::new();
    let mut i: usize = 0;
    while i < memories.len()
        invariant
            i <= memories@.len(),
            out@.len() == i,
            forall|a: int| 0 <= a < i ==> (#[trigger] out@[a]).0@ == memory_type_text(memories@[a]@.memory_type)
                && out@[a].1@ == memories@[a].id@,
        decreases memories.len() - i,
    {
        out.push((memories[i].memory_type.to_string(), String::from_str(memories[i].id.as_str())));
        i += 1;
    }
    assert(pair_views(out@) =~= type_pairs(memories@));
    out
}

} // verus!
