//! Memory versioning: the kinds of versions and changes, and the policy for
//! keeping them.

use vstd::prelude::*;
use crate::memory::traversal::memory_views;
use crate::memory::{in_range, TimeRange};
use crate::messaging::filters::{clone_strings, string_views};
use crate::messaging::types::strings_contain;
use crate::models::memory::{Memory, MemoryBuilder, MemoryType, MemoryTypeView, MemoryView};
use crate::text::{chars_of, contains_seq, has_prefix, str_contains, str_eq, string_from_chars, subvec, vec_has_prefix};
use crate::time::{f32_less, new_uuid, now, ts_before, uuid_shaped, F32Bits, Timestamp};

verus! {

/// Retention policy for version storage.
#[derive(Debug, Clone, Copy, PartialEq, Eq, Structural)]
pub struct RetentionPolicy {
    pub max_versions: usize,
    pub retention_days: i64,
    pub keep_significant_versions: bool,
}

impl Default for RetentionPolicy {
    /// Keep at most 50 versions for a year, and the significant ones beyond.
    fn default() -> (p: Self)
        ensures
            p == (RetentionPolicy { max_versions: 50, retention_days: 365, keep_significant_versions: true }),
    {
        RetentionPolicy { max_versions: 50, retention_days: 365, keep_significant_versions: true }
    }
}

/// Types of memory versions.
#[derive(Debug, Clone, Copy, PartialEq, Eq, Structural)]
pub enum VersionType {
    PersonalityEvolution,
    MemoryConsolidation,
    RelationshipChange,
    ExperienceIntegration,
    WisdomGain,
    TraumaProcessing,
    SkillDevelopment,
}

/// Context information for a version.
#[derive(Debug, Clone)]
pub struct ContextInfo {
    pub related_characters: Vec<String>,
    pub situation: String,
    pub emotional_state: String,
}

impl Default for ContextInfo {
    /// No related characters, an unknown situation, a neutral state.
    fn default() -> (c: Self)
        ensures
            c.related_characters@.len() == 0,
            c.situation@ == "unknown"@,
            c.emotional_state@ == "neutral"@,
    {
        ContextInfo {
            related_characters: Vec::new(),
            situation: String::from_str("unknown"),
            emotional_state: String::from_str("neutral"),
        }
    }
}

/// Metadata associated with a version.
#[derive(Debug)]
pub struct VersionMetadata {
    pub original_created_at: Timestamp,
    pub tags: Vec<String>,
    pub memory_type: MemoryType,
    pub context: ContextInfo,
}

impl Default for VersionMetadata {
    /// Created now, without tags, episodic, in the default context.
    fn default() -> (m: Self)
        ensures
            m.tags@.len() == 0,
            m.memory_type == MemoryType::Episodic,
            m.context.related_characters@.len() == 0,
            m.context.situation@ == "unknown"@,
            m.context.emotional_state@ == "neutral"@,
    {
        VersionMetadata {
            original_created_at: now(),
            tags: Vec::new(),
            memory_type: MemoryType::Episodic,
            context: ContextInfo::default(),
        }
    }
}

/// A specific version of a memory.
#[derive(Debug)]
pub struct MemoryVersion {
    pub version_id: String,
    pub memory_id: String,
    pub content: String,
    pub version_type: VersionType,
    pub change_reason: String,
    pub created_at: Timestamp,
    pub metadata: VersionMetadata,
}

/// A significant change in the evolution of a memory; its magnitude is a
/// 32-bit float carried by its bits.
#[derive(Debug)]
pub struct MemoryChange {
    pub change_id: String,
    pub from_version: String,
    pub to_version: String,
    pub change_type: ChangeType,
    pub magnitude: F32Bits,
    pub description: String,
    pub timestamp: Timestamp,
}

/// Snapshot of a single memory.
#[derive(Debug)]
pub struct MemorySnapshot {
    pub memory_id: String,
    pub snapshot_id: String,
    pub content: String,
    pub metadata: Vec<String>,
    pub captured_at: Timestamp,
}

/// The evolution of a memory through its versions.
#[derive(Debug)]
pub struct MemoryEvolution {
    pub memory_id: String,
    pub original_version: Option<MemoryVersion>,
    pub current_version: Option<MemoryVersion>,
    pub version_history: Vec<MemoryVersion>,
    pub evolution_summary: String,
    pub key_changes: Vec<MemoryChange>,
}

/// Whether the float carried by `f` is above 0.5, as IEEE comparison has it:
/// 0.5 has the bits `0x3f000000`, positive floats that are not NaN order as
/// their bits, up to infinity at `0x7f800000`, and negative floats and NaN are
/// not above it.
pub open spec fn above_half(f: F32Bits) -> bool {
    0x3f00_0000u32 < f.bits && f.bits <= 0x7f80_0000u32
}

/// The descriptions of the changes, in order.
pub open spec fn change_descriptions(changes: Seq<MemoryChange>) -> Seq<Seq<char>> {
    changes.map_values(|c: MemoryChange| c.description@)
}

impl MemoryEvolution {
    /// Whether some key change has a magnitude above 0.5.
    pub fn has_significant_changes(&self) -> (r: bool)
        ensures
            r == exists|i: int| 0 <= i < self.key_changes@.len() && above_half(#[trigger] self.key_changes@[i].magnitude),
    {
        let mut i: usize = 0;
        while i < self.key_changes.len()
            invariant
                i <= self.key_changes@.len(),
                forall|j: int| 0 <= j < i ==> !above_half(#[trigger] self.key_changes@[j].magnitude),
            decreases self.key_changes.len() - i,
        {
            let b = self.key_changes[i].magnitude.bits;
            if 0x3f00_0000u32 < b && b <= 0x7f80_0000u32 {
                return true;
            }
            i += 1;
        }
        false
    }

    /// The descriptions of the key changes, in order.
    pub fn get_trigger_events(&self) -> (r: Vec<String>)
        ensures
            string_views(r@) == change_descriptions(self.key_changes@),
    {
        let mut out: Vec<String> = Vec::new();
        let mut i: usize = 0;
        while i < self.key_changes.len()
            invariant
                i <= self.key_changes@.len(),
                out@.len() == i,
                forall|j: int| 0 <= j < i ==> (#[trigger] out@[j])@ == self.key_changes@[j].description@,
            decreases self.key_changes.len() - i,
        {
            out.push(String::from_str(self.key_changes[i].description.as_str()));
            i += 1;
        }
        assert(string_views(out@) =~= change_descriptions(self.key_changes@));
        out
    }
}

/// Types of memory changes.
#[derive(Debug, Clone, Copy, PartialEq, Eq, Structural)]
pub enum ChangeType {
    PersonalityShift,
    SkillGrowth,
    ContentUpdate,
    EmotionalEvolution,
    RelationshipChange,
    WisdomGain,
}

/// Direction of personality trajectory.
#[derive(Debug, Clone, Copy, PartialEq, Eq, Structural)]
pub enum TrajectoryDirection {
    Ascending,
    Declining,
    Stable,
    Oscillating,
}

/// The name of a version type (what `Debug` prints for it).
pub open spec fn version_type_name(t: VersionType) -> Seq<char> {
    match t {
        VersionType::PersonalityEvolution => "PersonalityEvolution"@,
        VersionType::MemoryConsolidation => "MemoryConsolidation"@,
        VersionType::RelationshipChange => "RelationshipChange"@,
        VersionType::ExperienceIntegration => "ExperienceIntegration"@,
        VersionType::WisdomGain => "WisdomGain"@,
        VersionType::TraumaProcessing => "TraumaProcessing"@,
        VersionType::SkillDevelopment => "SkillDevelopment"@,
    }
}

/// The version type a name stands for; an unknown name stands for memory
/// consolidation.
pub open spec fn version_type_named(s: Seq<char>) -> VersionType {
    if s == "PersonalityEvolution"@ {
        VersionType::PersonalityEvolution
    } else if s == "MemoryConsolidation"@ {
        VersionType::MemoryConsolidation
    } else if s == "RelationshipChange"@ {
        VersionType::RelationshipChange
    } else if s == "ExperienceIntegration"@ {
        VersionType::ExperienceIntegration
    } else if s == "WisdomGain"@ {
        VersionType::WisdomGain
    } else if s == "TraumaProcessing"@ {
        VersionType::TraumaProcessing
    } else if s == "SkillDevelopment"@ {
        VersionType::SkillDevelopment
    } else {
        VersionType::MemoryConsolidation
    }
}

/// The name of a version type.
pub fn version_type_text(t: VersionType) -> (r: String)
    ensures
        r@ == version_type_name(t),
{
    match t {
        VersionType::PersonalityEvolution => String::from_str("PersonalityEvolution"),
        VersionType::MemoryConsolidation => String::from_str("MemoryConsolidation"),
        VersionType::RelationshipChange => String::from_str("RelationshipChange"),
        VersionType::ExperienceIntegration => String::from_str("ExperienceIntegration"),
        VersionType::WisdomGain => String::from_str("WisdomGain"),
        VersionType::TraumaProcessing => String::from_str("TraumaProcessing"),
        VersionType::SkillDevelopment => String::from_str("SkillDevelopment"),
    }
}

/// Parse a version type from its name.
pub fn parse_version_type(type_str: &str) -> (r: VersionType)
    ensures
        r == version_type_named(type_str@),
{
    if str_eq(type_str, "PersonalityEvolution") {
        VersionType::PersonalityEvolution
    } else if str_eq(type_str, "MemoryConsolidation") {
        VersionType::MemoryConsolidation
    } else if str_eq(type_str, "RelationshipChange") {
        VersionType::RelationshipChange
    } else if str_eq(type_str, "ExperienceIntegration") {
        VersionType::ExperienceIntegration
    } else if str_eq(type_str, "WisdomGain") {
        VersionType::WisdomGain
    } else if str_eq(type_str, "TraumaProcessing") {
        VersionType::TraumaProcessing
    } else if str_eq(type_str, "SkillDevelopment") {
        VersionType::SkillDevelopment
    } else {
        VersionType::MemoryConsolidation
    }
}

/// Every version type is read back from its name.
pub proof fn lemma_version_type_name_roundtrip(t: VersionType)
    ensures
        version_type_named(version_type_name(t)) == t,
{
    reveal_strlit("PersonalityEvolution");
    reveal_strlit("MemoryConsolidation");
    reveal_strlit("RelationshipChange");
    reveal_strlit("ExperienceIntegration");
    reveal_strlit("WisdomGain");
    reveal_strlit("TraumaProcessing");
    reveal_strlit("SkillDevelopment");
    let n = version_type_name(t);
    assert(n.len() > 0 && n[0] == match t {
        VersionType::PersonalityEvolution => 'P',
        VersionType::MemoryConsolidation => 'M',
        VersionType::RelationshipChange => 'R',
        VersionType::ExperienceIntegration => 'E',
        VersionType::WisdomGain => 'W',
        VersionType::TraumaProcessing => 'T',
        VersionType::SkillDevelopment => 'S',
    });
    assert("PersonalityEvolution"@[0] == 'P');
    assert("MemoryConsolidation"@[0] == 'M');
    assert("RelationshipChange"@[0] == 'R');
    assert("ExperienceIntegration"@[0] == 'E');
    assert("WisdomGain"@[0] == 'W');
    assert("TraumaProcessing"@[0] == 'T');
    assert("SkillDevelopment"@[0] == 'S');
}

/// The tags a version is stored under: `version`, the original memory's
/// identifier after `original:`, and the version type's name after
/// `version_type:`.
pub open spec fn version_tags(memory_id: Seq<char>, t: VersionType) -> Seq<Seq<char>> {
    seq!["version"@, "original:"@ + memory_id, "version_type:"@ + version_type_name(t)]
}

/// The builder of the memory a new version of memory `memory_id` is stored
/// as: its content `Version: ` followed by the new content, an identity memory
/// from the versioning source, under the version tags.
pub fn version_memory_builder(memory_id: &str, new_content: &str, version_type: VersionType) -> (r: Option<
    MemoryBuilder,
>)
    ensures
        r matches Some(b) ==> {
            &&& uuid_shaped(b@.id)
            &&& b@ == (MemoryView {
                content: "Version: "@ + new_content@,
                memory_type: MemoryTypeView::Identity,
                source: "memory_versioning"@,
                tags: version_tags(memory_id@, version_type),
                ..b@
            })
            &&& b@.last_accessed is None && b@.access_count == 0 && b@.expires_at is None
        },
{
    let content = String::from_str("Version: ").concat(new_content);
    let original = String::from_str("original:").concat(memory_id);
    let kind_name_text = version_type_text(version_type);
    let type_tag = String::from_str("version_type:").concat(kind_name_text.as_str());
    let mut tags: Vec<&str> = Vec::new();
    tags.push("version");
    tags.push(original.as_str());
    tags.push(type_tag.as_str());
    let b = match MemoryBuilder::new_with_content(content.as_str()) {
        Some(b) => b,
        None => {
            return None;
        },
    };
    let b = b.memory_type(MemoryType::Identity).source("memory_versioning").tags(tags);
    assert(b@.tags =~= version_tags(memory_id@, version_type));
    Some(b)
}

/// What follows `p` in the first of `tags` from position `i` on that starts
/// with `p`, if any does.
pub open spec fn prefixed_rest_from(tags: Seq<Seq<char>>, p: Seq<char>, i: int) -> Option<Seq<char>>
    decreases tags.len() - i,
{
    if i < 0 || i >= tags.len() {
        None
    } else if has_prefix(tags[i], p) {
        Some(tags[i].subrange(p.len() as int, tags[i].len() as int))
    } else {
        prefixed_rest_from(tags, p, i + 1)
    }
}

/// What follows `p` in the first of `tags` that starts with `p`, if any does.
pub open spec fn prefixed_rest(tags: Seq<Seq<char>>, p: Seq<char>) -> Option<Seq<char>> {
    prefixed_rest_from(tags, p, 0)
}

/// What follows `prefix` in the first tag that starts with it.
fn find_prefixed(tags: &Vec<String>, prefix: &str) -> (r: Option<String>)
    ensures
        opt_text(r) == prefixed_rest(string_views(tags@), prefix@),
{
    let ghost tv = string_views(tags@);
    let p = chars_of(prefix);
    let mut i: usize = 0;
    while i < tags.len()
        invariant
            i <= tags@.len(),
            tv == string_views(tags@),
            p@ == prefix@,
            prefixed_rest(tv, prefix@) == prefixed_rest_from(tv, prefix@, i as int),
        decreases tags.len() - i,
    {
        let t = chars_of(tags[i].as_str());
        assert(t@ == tv[i as int]);
        if vec_has_prefix(&t, &p) {
            let rest = subvec(&t, p.len(), t.len());
            return Some(string_from_chars(rest.as_slice()));
        }
        i += 1;
    }
    None
}

/// The 32-bit float nearest to 0.3: the change magnitude a key change exceeds.
pub open spec fn f32_key_change_threshold() -> F32Bits {
    F32Bits { bits: 0x3e99_999a }
}

/// The positions, from `from` on, of the consecutive version pairs whose
/// change magnitude exceeds the key-change threshold.
pub open spec fn key_windows(magnitudes: Seq<F32Bits>, from: int) -> Seq<int>
    decreases magnitudes.len() - from,
{
    if from < 0 || from >= magnitudes.len() {
        Seq::empty()
    } else if f32_less(f32_key_change_threshold(), magnitudes[from]) {
        seq![from] + key_windows(magnitudes, from + 1)
    } else {
        key_windows(magnitudes, from + 1)
    }
}

/// The positions of key changes from `from` on lie between `from` and the
/// number of pairs.
proof fn lemma_key_windows_range(magnitudes: Seq<F32Bits>, from: int)
    requires
        0 <= from,
    ensures
        forall|j: int| 0 <= j < key_windows(magnitudes, from).len() ==> from <= #[trigger] key_windows(magnitudes, from)[j] < magnitudes.len(),
    decreases magnitudes.len() - from,
{
    if from < magnitudes.len() {
        lemma_key_windows_range(magnitudes, from + 1);
        let rest = key_windows(magnitudes, from + 1);
        if f32_less(f32_key_change_threshold(), magnitudes[from]) {
            assert forall|j: int| 0 <= j < key_windows(magnitudes, from).len() implies from <= #[trigger] key_windows(magnitudes, from)[j] < magnitudes.len() by {
                if j > 0 {
                    assert(key_windows(magnitudes, from)[j] == rest[j - 1]);
                }
            }
        }
    }
}

/// Whether `c` records the change from version `earlier` to version `later`
/// with the given magnitude: their identifiers, the kind of change, a
/// description by the beginnings of their contents, at the later one's time.
pub open spec fn records_change(c: MemoryChange, earlier: MemoryVersion, later: MemoryVersion, magnitude: F32Bits) -> bool {
    &&& c.from_version@ == earlier.version_id@
    &&& c.to_version@ == later.version_id@
    &&& c.change_type == change_kind(earlier.version_type, later.version_type)
    &&& c.magnitude == magnitude
    &&& c.description@ == "Memory evolved from '"@ + first_fifty(earlier.content@) + "' to '"@ + first_fifty(later.content@) + "'"@
    &&& c.timestamp == later.created_at
}

/// The key changes of a memory's evolution: for each consecutive pair of its
/// versions (oldest first) whose change magnitude, given in
/// `pair_magnitudes`, exceeds 0.3, the change between them, under a fresh
/// identifier, in order.
pub fn identify_key_changes(versions: &[MemoryVersion], pair_magnitudes: &[F32Bits]) -> (r: Option<
    Vec<MemoryChange>,
>)
    requires
        pair_magnitudes@.len() + 1 == versions@.len() || (versions@.len() == 0 && pair_magnitudes@.len() == 0),
    ensures
        key_windows(pair_magnitudes@, 0).len() == 0 ==> (r matches Some(v) && v@.len() == 0),
        r matches Some(v) ==> v@.len() == key_windows(pair_magnitudes@, 0).len(),
        r matches Some(v) ==> forall|j: int| 0 <= j < v@.len() ==> {
            let w = #[trigger] key_windows(pair_magnitudes@, 0)[j];
            records_change(v@[j], versions@[w], versions@[w + 1], pair_magnitudes@[w])
        },
{
    let ghost mags = pair_magnitudes@;
    let threshold = F32Bits { bits: 0x3e99_999a };
    let mut out: Vec<MemoryChange> = Vec::new();
    let mut k: usize = 0;
    while k < pair_magnitudes.len()
        invariant
            k <= mags.len(),
            mags == pair_magnitudes@,
            mags.len() + 1 == versions@.len() || (versions@.len() == 0 && mags.len() == 0),
            threshold == f32_key_change_threshold(),
            out@.len() + key_windows(mags, k as int).len() == key_windows(mags, 0).len(),
            forall|j: int| 0 <= j < out@.len() ==> key_windows(mags, 0)[j] < k,
            forall|j: int| out@.len() <= j < key_windows(mags, 0).len() ==> #[trigger] key_windows(mags, 0)[j] == key_windows(mags, k as int)[j - out@.len()],
            forall|j: int| 0 <= j < out@.len() ==> {
                let w = #[trigger] key_windows(mags, 0)[j];
                records_change(out@[j], versions@[w], versions@[w + 1], mags[w])
            },
        decreases pair_magnitudes.len() - k,
    {
        let m = pair_magnitudes[k];
        proof {
            lemma_key_windows_range(mags, k as int);
            lemma_key_windows_range(mags, k + 1);
        }
        if threshold.less_than(&m) {
            let earlier = &versions[k];
            let later = &versions[k + 1];
            let change_id = match new_uuid() {
                Some(id) => id,
                None => {
                    return None;
                },
            };
            let change = MemoryChange {
                change_id,
                from_version: earlier.version_id.clone(),
                to_version: later.version_id.clone(),
                change_type: classify_change_type(earlier, later),
                magnitude: m,
                description: describe_change(earlier, later),
                timestamp: later.created_at,
            };
            let ghost before = out@;
            out.push(change);
            proof {
                assert(key_windows(mags, k as int) == seq![k as int] + key_windows(mags, k + 1));
                assert(key_windows(mags, 0)[before.len() as int] == key_windows(mags, k as int)[0]);
                assert forall|j: int| 0 <= j < out@.len() implies {
                    let w = #[trigger] key_windows(mags, 0)[j];
                    records_change(out@[j], versions@[w], versions@[w + 1], mags[w])
                } by {
                    if j < before.len() {
                        assert(out@[j] == before[j]);
                    }
                }
                assert forall|j: int| out@.len() <= j < key_windows(mags, 0).len() implies #[trigger] key_windows(mags, 0)[j]
                    == key_windows(mags, k + 1)[j - out@.len()] by {
                    assert(key_windows(mags, 0)[j] == key_windows(mags, k as int)[j - before.len()]);
                }
            }
        } else {
            proof {
                assert(key_windows(mags, k as int) == key_windows(mags, k + 1));
            }
        }
        k += 1;
    }
    Some(out)
}

/// The characters of an optional string.
pub open spec fn opt_text(o: Option<String>) -> Option<Seq<char>> {
    match o {
        Some(s) => Some(s@),
        None => None,
    }
}

/// Whether a stored memory holds a version: it carries the tag `version`.
pub open spec fn is_version_memory(m: MemoryView) -> bool {
    m.tags.contains("version"@)
}

/// Whether `v` is the version read from memory `m`: its identifier, content
/// and creation time are the memory's, its original memory and type are named
/// by the memory's first `original:` and `version_type:` tags (else `unknown`
/// and `GradualEvolution`), its reason is `Auto-generated`, and its metadata
/// is the default.
pub open spec fn is_version_of(v: MemoryVersion, m: MemoryView) -> bool {
    &&& v.version_id@ == m.id
    &&& v.memory_id@ == match prefixed_rest(m.tags, "original:"@) {
        Some(id) => id,
        None => "unknown"@,
    }
    &&& v.content@ == m.content
    &&& v.version_type == version_type_named(match prefixed_rest(m.tags, "version_type:"@) {
        Some(n) => n,
        None => "GradualEvolution"@,
    })
    &&& v.change_reason@ == "Auto-generated"@
    &&& v.created_at == m.created_at
    &&& v.metadata.tags@.len() == 0
    &&& v.metadata.memory_type == MemoryType::Episodic
}

/// The version stored in a memory, if the memory is one: tagged `version`,
/// its type named by its first `version_type:` tag (else the name
/// `GradualEvolution`, read as memory consolidation), its original memory
/// named by its first `original:` tag (else `unknown`), keeping the memory's
/// identifier, content and creation time, with the reason `Auto-generated`
/// and default metadata stamped now.
pub fn parse_memory_version(memory: &Memory) -> (r: Option<MemoryVersion>)
    ensures
        !is_version_memory(memory@) ==> r is None,
        is_version_memory(memory@) ==> (r matches Some(v) && is_version_of(v, memory@)),
{
    if !strings_contain(&memory.tags, "version") {
        return None;
    }
    let kind_name_text = match find_prefixed(&memory.tags, "version_type:") {
        Some(n) => n,
        None => String::from_str("GradualEvolution"),
    };
    let original = match find_prefixed(&memory.tags, "original:") {
        Some(n) => n,
        None => String::from_str("unknown"),
    };
    Some(MemoryVersion {
        version_id: String::from_str(memory.id.as_str()),
        memory_id: original,
        content: String::from_str(memory.content.as_str()),
        version_type: parse_version_type(kind_name_text.as_str()),
        change_reason: String::from_str("Auto-generated"),
        created_at: memory.created_at,
        metadata: VersionMetadata::default(),
    })
}

/// The memories, of `ms`, that hold versions, in order.
pub open spec fn version_sources(ms: Seq<MemoryView>) -> Seq<MemoryView>
    decreases ms.len(),
{
    if ms.len() == 0 {
        Seq::empty()
    } else {
        let rest = version_sources(ms.drop_last());
        if is_version_memory(ms.last()) {
            rest.push(ms.last())
        } else {
            rest
        }
    }
}

/// Whether each of `vs` is the version read from the memory at its place in `ms`.
pub open spec fn read_from(vs: Seq<MemoryVersion>, ms: Seq<MemoryView>) -> bool {
    &&& vs.len() == ms.len()
    &&& forall|i: int| 0 <= i < vs.len() ==> is_version_of(#[trigger] vs[i], ms[i])
}

/// The predicate of a version created at `t`.
pub open spec fn created(t: Timestamp) -> spec_fn(MemoryVersion) -> bool {
    |v: MemoryVersion| v.created_at == t
}

/// Whether the versions run from the oldest to the most recent.
pub open spec fn oldest_first(s: Seq<MemoryVersion>) -> bool {
    forall|i: int, j: int| 0 <= i < j < s.len() ==> !ts_before(#[trigger] s[j].created_at, #[trigger] s[i].created_at)
}

/// Whether `r` is `s` ordered from the oldest version to the most recent,
/// versions created at the same instant keeping their order in `s`.
pub open spec fn ordered_oldest_first(r: Seq<MemoryVersion>, s: Seq<MemoryVersion>) -> bool {
    &&& oldest_first(r)
    &&& forall|t: Timestamp| #[trigger] r.filter(created(t)) == s.filter(created(t))
}

/// The versions held by stored memories: each memory tagged `version` read as
/// a version, ordered from the oldest to the most recent (those created at the
/// same instant in the order of the memories).
pub fn collect_memory_versions(memories: &[Memory]) -> (r: Vec<MemoryVersion>)
    ensures
        exists|vs: Seq<MemoryVersion>|
            #[trigger] read_from(vs, version_sources(memory_views(memories@)))
                && ordered_oldest_first(r@, vs),
{
    let ghost ms = memory_views(memories@);
    let mut parsed: Vec<MemoryVersion> = Vec::new();
    let mut i: usize = 0;
    while i < memories.len()
        invariant
            i <= memories@.len(),
            ms == memory_views(memories@),
            read_from(parsed@, version_sources(ms.take(i as int))),
        decreases memories.len() - i,
    {
        assert(ms.take(i + 1).drop_last() =~= ms.take(i as int));
        assert(ms.take(i + 1).last() == memories@[i as int]@);
        let ghost before = parsed@;
        match parse_memory_version(&memories[i]) {
            Some(v) => {
                parsed.push(v);
                assert(parsed@ == before.push(v));
            },
            None => {},
        }
        i += 1;
    }
    assert(ms.take(memories@.len() as int) =~= ms);
    let ghost vs = parsed@;
    let r = order_versions(parsed);
    assert(read_from(vs, version_sources(ms)));
    r
}

/// Put versions in order from the oldest to the most recent, versions
/// created at the same instant keeping their order.
pub fn order_versions(versions: Vec<MemoryVersion>) -> (r: Vec<MemoryVersion>)
    ensures
        ordered_oldest_first(r@, versions@),
{
    let ghost orig = versions@;
    assert(orig.len() == versions.len());
    let mut rest = versions;
    let mut out: Vec<MemoryVersion> = Vec::new();
    let mut i: usize = 0;
    while rest.len() > 0
        invariant
            i <= orig.len(),
            orig.len() <= usize::MAX,
            rest@ == orig.skip(i as int),
            oldest_first(out@),
            forall|t: Timestamp| #[trigger] out@.filter(created(t)) == orig.take(i as int).filter(created(t)),
        decreases rest.len(),
    {
        let v = rest.remove(0);
        assert(v == orig[i as int]);
        assert(orig.take(i + 1) =~= orig.take(i as int).push(v));
        let mut p: usize = 0;
        while p < out.len() && !v.created_at.is_before(&out[p].created_at)
            invariant
                p <= out@.len(),
                forall|q: int| 0 <= q < p ==> !ts_before(v.created_at, #[trigger] out@[q].created_at),
            decreases out.len() - p,
        {
            p += 1;
        }
        let ghost before = out@;
        proof {
            lemma_later_after(before, p as int, v.created_at);
        }
        out.insert(p, v);
        proof {
            lemma_insert_keeps_oldest_first(before, p as int, v);
            assert forall|t: Timestamp| #[trigger] out@.filter(created(t))
                == orig.take(i + 1).filter(created(t)) by {
                lemma_insert_created_filter(before, p as int, v, t);
                orig.take(i as int).lemma_filter_push(v, created(t));
                assert(before.filter(created(t)) == orig.take(i as int).filter(created(t)));
            }
        }
        i += 1;
        assert(rest@ =~= orig.skip(i as int));
    }
    assert(orig.take(i as int) =~= orig);
    out
}

/// In a list that runs from the oldest to the most recent, once an entry is
/// later than `ts`, so is every entry after it.
proof fn lemma_later_after(s: Seq<MemoryVersion>, p: int, ts: Timestamp)
    requires
        oldest_first(s),
        0 <= p <= s.len(),
        p < s.len() ==> ts_before(ts, s[p].created_at),
    ensures
        forall|q: int| p <= q < s.len() ==> ts_before(ts, #[trigger] s[q].created_at),
{
    assert forall|q: int| p <= q < s.len() implies ts_before(ts, #[trigger] s[q].created_at) by {
        if q > p {
            assert(!ts_before(s[q].created_at, s[p].created_at));
        }
    }
}

/// Inserting a version after every entry created no later and before every
/// later one keeps the list running from the oldest to the most recent.
proof fn lemma_insert_keeps_oldest_first(s: Seq<MemoryVersion>, p: int, v: MemoryVersion)
    requires
        oldest_first(s),
        0 <= p <= s.len(),
        forall|q: int| 0 <= q < p ==> !ts_before(v.created_at, #[trigger] s[q].created_at),
        forall|q: int| p <= q < s.len() ==> ts_before(v.created_at, #[trigger] s[q].created_at),
    ensures
        oldest_first(s.insert(p, v)),
{
    let r = s.insert(p, v);
    assert forall|i: int, j: int| 0 <= i < j < r.len() implies !ts_before(#[trigger] r[j].created_at, #[trigger] r[i].created_at) by {
        if j < p {
            assert(r[i] == s[i] && r[j] == s[j]);
        } else if j == p {
            assert(r[i] == s[i] && r[j] == v);
        } else if i < p {
            assert(r[i] == s[i] && r[j] == s[j - 1]);
        } else if i == p {
            assert(r[i] == v && r[j] == s[j - 1]);
        } else {
            assert(r[i] == s[i - 1] && r[j] == s[j - 1]);
        }
    }
}

/// Inserting a version before every later entry adds it at the end of the
/// entries created when it was, and changes no other instant's entries.
proof fn lemma_insert_created_filter(s: Seq<MemoryVersion>, p: int, v: MemoryVersion, t: Timestamp)
    requires
        0 <= p <= s.len(),
        forall|q: int| p <= q < s.len() ==> ts_before(v.created_at, #[trigger] s[q].created_at),
    ensures
        s.insert(p, v).filter(created(t)) == if v.created_at == t {
            s.filter(created(t)).push(v)
        } else {
            s.filter(created(t))
        },
{
    let a = s.take(p);
    let b = s.skip(p);
    assert(s =~= a + b);
    assert(s.insert(p, v) =~= a.push(v) + b);
    Seq::filter_distributes_over_add(a.push(v), b, created(t));
    Seq::filter_distributes_over_add(a, b, created(t));
    a.lemma_filter_push(v, created(t));
    if v.created_at == t {
        assert forall|q: int| 0 <= q < b.len() implies !created(t)(#[trigger] b[q]) by {
            assert(b[q] == s[p + q]);
        }
        b.lemma_all_neg_filter_empty(created(t));
        assert(b.filter(created(t)) =~= Seq::<MemoryVersion>::empty());
        assert(a.filter(created(t)).push(v) + b.filter(created(t)) =~= (a.filter(created(t)) + b.filter(created(t))).push(v));
    }
}

/// How many of `count` versions lie beyond the `max_versions` that are kept.
pub open spec fn surplus(count: nat, max_versions: usize) -> nat {
    if count > max_versions {
        (count - max_versions) as nat
    } else {
        0
    }
}

/// The identifiers of the versions the retention policy lets go: of versions
/// ordered from the oldest, those beyond `max_versions`, taken from the oldest.
pub fn versions_beyond_retention(versions: &[MemoryVersion], policy: &RetentionPolicy) -> (r: Vec<String>)
    ensures
        r@.len() == surplus(versions@.len(), policy.max_versions),
        forall|i: int| 0 <= i < r@.len() ==> #[trigger] r@[i]@ == versions@[i].version_id@,
{
    let excess: usize = if versions.len() > policy.max_versions { versions.len() - policy.max_versions } else { 0 };
    let mut out: Vec<String> = Vec::new();
    let mut i: usize = 0;
    while i < excess
        invariant
            excess <= versions@.len(),
            i <= excess,
            out@.len() == i,
            forall|j: int| 0 <= j < i ==> #[trigger] out@[j]@ == versions@[j].version_id@,
        decreases excess - i,
    {
        out.push(versions[i].version_id.clone());
        i += 1;
    }
    out
}

/// A snapshot of a memory, taken now under `snapshot_id`: the memory's
/// identifier and content, with its tags as metadata.
pub fn snapshot_of(memory: &Memory, snapshot_id: &str) -> (r: MemorySnapshot)
    ensures
        r.memory_id@ == memory.id@,
        r.snapshot_id@ == snapshot_id@,
        r.content@ == memory.content@,
        string_views(r.metadata@) == string_views(memory.tags@),
{
    MemorySnapshot {
        memory_id: memory.id.clone(),
        snapshot_id: String::from_str(snapshot_id),
        content: memory.content.clone(),
        metadata: clone_strings(&memory.tags),
        captured_at: now(),
    }
}

/// The predicate of a memory created within a time range.
pub open spec fn created_within(range: TimeRange) -> spec_fn(Memory) -> bool {
    |m: Memory| in_range(range, m.created_at)
}

/// Of the memories found by tag, those created within the time range, when
/// there is one (all of them otherwise), in order.
pub fn retain_in_time_range(memories: Vec<Memory>, time_range: Option<TimeRange>) -> (r: Vec<Memory>)
    ensures
        r@ == match time_range {
            Some(range) => memories@.filter(created_within(range)),
            None => memories@,
        },
{
    let range = match time_range {
        Some(range) => range,
        None => {
            return memories;
        },
    };
    let ghost orig = memories@;
    assert(orig.len() == memories.len());
    let mut rest = memories;
    let mut out: Vec<Memory> = Vec::new();
    let mut i: usize = 0;
    while rest.len() > 0
        invariant
            i <= orig.len(),
            orig.len() <= usize::MAX,
            rest@ == orig.skip(i as int),
            out@ == orig.take(i as int).filter(created_within(range)),
        decreases rest.len(),
    {
        let m = rest.remove(0);
        assert(m == orig[i as int]);
        assert(orig.take(i + 1) =~= orig.take(i as int).push(m));
        proof {
            orig.take(i as int).lemma_filter_push(m, created_within(range));
        }
        if range.contains(m.created_at) {
            out.push(m);
        }
        i += 1;
        assert(rest@ =~= orig.skip(i as int));
    }
    assert(orig.take(i as int) =~= orig);
    out
}

/// A version stored under the version tags of memory `memory_id` and type
/// `t` is read back with that memory and that type.
pub proof fn lemma_version_tags_roundtrip(memory_id: Seq<char>, t: VersionType)
    ensures
        version_tags(memory_id, t).contains("version"@),
        prefixed_rest(version_tags(memory_id, t), "original:"@) == Some(memory_id),
        prefixed_rest(version_tags(memory_id, t), "version_type:"@) == Some(version_type_name(t)),
        version_type_named(version_type_name(t)) == t,
{
    let tags = version_tags(memory_id, t);
    reveal_strlit("version");
    reveal_strlit("original:");
    reveal_strlit("version_type:");
    assert(tags[0] == "version"@);
    assert(!has_prefix(tags[0], "original:"@)) by {
        assert(tags[0][0] != "original:"@[0]);
    }
    assert(!has_prefix(tags[0], "version_type:"@));
    assert(has_prefix(tags[1], "original:"@)) by {
        assert(tags[1].subrange(0, 9) =~= "original:"@);
    }
    assert(tags[1].subrange(9, tags[1].len() as int) =~= memory_id);
    assert(!has_prefix(tags[1], "version_type:"@)) by {
        assert(tags[1][0] != "version_type:"@[0]);
    }
    assert(has_prefix(tags[2], "version_type:"@)) by {
        assert(tags[2].subrange(0, 13) =~= "version_type:"@);
    }
    assert(tags[2].subrange(13, tags[2].len() as int) =~= version_type_name(t));
    assert(prefixed_rest_from(tags, "original:"@, 1) == Some(memory_id));
    assert(prefixed_rest_from(tags, "version_type:"@, 2) == Some(version_type_name(t)));
    assert(prefixed_rest_from(tags, "version_type:"@, 1) == Some(version_type_name(t)));
    lemma_version_type_name_roundtrip(t);
}

/// The kind of change between two versions: a personality shift when either
/// is a personality evolution, else skill growth when either is a skill
/// development, else a content update.
pub open spec fn change_kind(earlier: VersionType, later: VersionType) -> ChangeType {
    if earlier == VersionType::PersonalityEvolution || later == VersionType::PersonalityEvolution {
        ChangeType::PersonalityShift
    } else if earlier == VersionType::SkillDevelopment || later == VersionType::SkillDevelopment {
        ChangeType::SkillGrowth
    } else {
        ChangeType::ContentUpdate
    }
}

/// Classify the change between two versions.
pub fn classify_change_type(earlier: &MemoryVersion, later: &MemoryVersion) -> (r: ChangeType)
    ensures
        r == change_kind(earlier.version_type, later.version_type),
{
    match (earlier.version_type, later.version_type) {
        (VersionType::PersonalityEvolution, _) => ChangeType::PersonalityShift,
        (_, VersionType::PersonalityEvolution) => ChangeType::PersonalityShift,
        (VersionType::SkillDevelopment, _) => ChangeType::SkillGrowth,
        (_, VersionType::SkillDevelopment) => ChangeType::SkillGrowth,
        _ => ChangeType::ContentUpdate,
    }
}

/// One half, as a 32-bit float.
pub open spec fn f32_half() -> F32Bits {
    F32Bits { bits: 0x3f00_0000 }
}

/// The 32-bit float nearest to 0.8.
pub open spec fn f32_four_fifths() -> F32Bits {
    F32Bits { bits: 0x3f4c_cccd }
}

/// How much the content changed between two versions whose contents have the
/// given similarity: a major change below one half, a moderate refinement
/// below 0.8, else a minor adjustment (also when the similarity is NaN).
pub open spec fn change_label(similarity: F32Bits) -> Seq<char> {
    if f32_less(similarity, f32_half()) {
        "Major content change"@
    } else if f32_less(similarity, f32_four_fifths()) {
        "Moderate refinement"@
    } else {
        "Minor adjustment"@
    }
}

/// Compare two versions by the similarity of their contents.
pub fn compare_versions(content_similarity: F32Bits) -> (r: String)
    ensures
        r@ == change_label(content_similarity),
{
    let half = F32Bits { bits: 0x3f00_0000 };
    let four_fifths = F32Bits { bits: 0x3f4c_cccd };
    if content_similarity.less_than(&half) {
        String::from_str("Major content change")
    } else if content_similarity.less_than(&four_fifths) {
        String::from_str("Moderate refinement")
    } else {
        String::from_str("Minor adjustment")
    }
}

/// Whether one of the change labels mentions `word`.
pub open spec fn some_label_mentions(labels: Seq<Seq<char>>, word: Seq<char>) -> bool {
    exists|i: int| 0 <= i < labels.len() && contains_seq(#[trigger] labels[i], word)
}

/// The summary of a memory's evolution over `version_count` versions, whose
/// consecutive pairs changed as `labels` say: nothing significant with fewer
/// than two versions, else personality evolution when a change mentions
/// personality, skill development when one mentions a skill, and gradual
/// refinement otherwise.
pub open spec fn evolution_summary(version_count: nat, labels: Seq<Seq<char>>) -> Seq<char> {
    if version_count < 2 {
        "No significant evolution detected"@
    } else if some_label_mentions(labels, "personality"@) {
        "Significant personality evolution detected"@
    } else if some_label_mentions(labels, "skill"@) {
        "Skill development evolution observed"@
    } else {
        "Gradual memory refinement over time"@
    }
}

/// Summarise how a memory evolved over `version_count` versions, given the
/// content similarity of each consecutive pair of versions, oldest first.
pub fn analyze_evolution(version_count: usize, pair_similarities: &[F32Bits]) -> (r: String)
    ensures
        r@ == evolution_summary(
            version_count as nat,
            pair_similarities@.map_values(|s: F32Bits| change_label(s)),
        ),
{
    let ghost labels = pair_similarities@.map_values(|s: F32Bits| change_label(s));
    if version_count < 2 {
        return String::from_str("No significant evolution detected");
    }
    let mut personality = false;
    let mut skill = false;
    let mut i: usize = 0;
    while i < pair_similarities.len()
        invariant
            i <= pair_similarities@.len(),
            labels == pair_similarities@.map_values(|s: F32Bits| change_label(s)),
            personality == exists|j: int| 0 <= j < i && contains_seq(#[trigger] labels[j], "personality"@),
            skill == exists|j: int| 0 <= j < i && contains_seq(#[trigger] labels[j], "skill"@),
        decreases pair_similarities.len() - i,
    {
        let label = compare_versions(pair_similarities[i]);
        assert(labels[i as int] == label@);
        if str_contains(label.as_str(), "personality") {
            personality = true;
        }
        if str_contains(label.as_str(), "skill") {
            skill = true;
        }
        i += 1;
    }
    if personality {
        String::from_str("Significant personality evolution detected")
    } else if skill {
        String::from_str("Skill development evolution observed")
    } else {
        String::from_str("Gradual memory refinement over time")
    }
}

/// At most the first fifty characters of `s`.
pub open spec fn first_fifty(s: Seq<char>) -> Seq<char> {
    if s.len() <= 50 {
        s
    } else {
        s.take(50)
    }
}

/// At most the first fifty characters of a text.
fn first_fifty_of(s: &str) -> (r: String)
    ensures
        r@ == first_fifty(s@),
{
    let c = chars_of(s);
    let n: usize = if c.len() <= 50 { c.len() } else { 50 };
    let part = subvec(&c, 0, n);
    string_from_chars(part.as_slice())
}

/// Describe the change between two versions by the beginnings of their
/// contents.
pub fn describe_change(earlier: &MemoryVersion, later: &MemoryVersion) -> (r: String)
    ensures
        r@ == "Memory evolved from '"@ + first_fifty(earlier.content@) + "' to '"@ + first_fifty(later.content@) + "'"@,
{
    let a = first_fifty_of(earlier.content.as_str());
    let b = first_fifty_of(later.content.as_str());
    String::from_str("Memory evolved from '").concat(a.as_str()).concat("' to '").concat(b.as_str()).concat("'")
}

/// The names of the characters a memory's tags mention: what follows `char_`
/// in each tag that starts with it, in order.
pub open spec fn character_names(tags: Seq<Seq<char>>) -> Seq<Seq<char>>
    decreases tags.len(),
{
    if tags.len() == 0 {
        Seq::empty()
    } else {
        let rest = character_names(tags.drop_last());
        if has_prefix(tags.last(), "char_"@) {
            rest.push(tags.last().subrange(5, tags.last().len() as int))
        } else {
            rest
        }
    }
}

/// The context of a memory: the characters its tags name, an unknown
/// situation and a neutral emotional state.
pub fn extract_context(memory: &Memory) -> (c: ContextInfo)
    ensures
        string_views(c.related_characters@) == character_names(string_views(memory.tags@)),
        c.situation@ == "unknown"@,
        c.emotional_state@ == "neutral"@,
{
    let ghost tv = string_views(memory.tags@);
    let p = chars_of("char_");
    proof {
        reveal_strlit("char_");
    }
    let mut names: Vec<String> = Vec::new();
    let mut i: usize = 0;
    while i < memory.tags.len()
        invariant
            i <= memory.tags@.len(),
            tv == string_views(memory.tags@),
            p@ == "char_"@,
            p@.len() == 5,
            string_views(names@) == character_names(tv.take(i as int)),
        decreases memory.tags.len() - i,
    {
        let t = chars_of(memory.tags[i].as_str());
        assert(tv.take(i + 1).drop_last() =~= tv.take(i as int));
        assert(tv.take(i + 1).last() == t@);
        if vec_has_prefix(&t, &p) {
            let rest = subvec(&t, p.len(), t.len());
            let name = string_from_chars(rest.as_slice());
            names.push(name);
            assert(string_views(names@) =~= character_names(tv.take(i as int)).push(t@.subrange(5, t@.len() as int)));
        }
        i += 1;
    }
    assert(tv.take(i as int) =~= tv);
    ContextInfo {
        related_characters: names,
        situation: String::from_str("unknown"),
        emotional_state: String::from_str("neutral"),
    }
}

} // verus!
