//! Generic relationship data structures.
//!
//! The strengths of a relationship (intensity, trust, familiarity) and the
//! changes an event makes to them are 32-bit floats; the library carries each
//! one by its bit pattern and never computes with it.

use vstd::prelude::*;
use crate::json::{JsonValue, JsonView, entries_view, copy_entries, obj_get};
use crate::text::{contains_seq, lowercase_chars, str_contains, str_eq, to_lowercase};
use crate::time::{Timestamp, F32Bits, ts_before, now, new_uuid, uuid_shaped};
use crate::memory::seconds_before;

verus! {

/// Types of relationships between entities.
#[derive(Debug, Clone, Copy, PartialEq, Eq, Hash, Structural)]
pub enum RelationshipType {
    Friendship,
    Rivalry,
    Professional,
    Mentorship,
    Family,
    Romance,
    Antagonistic,
    Neutral,
    Alliance,
    Competition,
}

/// The display name of a relationship type.
pub open spec fn relationship_type_name(t: RelationshipType) -> Seq<char> {
    match t {
        RelationshipType::Friendship => "Friendship"@,
        RelationshipType::Rivalry => "Rivalry"@,
        RelationshipType::Professional => "Professional"@,
        RelationshipType::Mentorship => "Mentorship"@,
        RelationshipType::Family => "Family"@,
        RelationshipType::Romance => "Romance"@,
        RelationshipType::Antagonistic => "Antagonistic"@,
        RelationshipType::Neutral => "Neutral"@,
        RelationshipType::Alliance => "Alliance"@,
        RelationshipType::Competition => "Competition"@,
    }
}

impl RelationshipType {
    /// The display name of this relationship type.
    pub fn to_string(&self) -> (s: String)
        ensures
            s@ == relationship_type_name(*self),
    {
        let name = match self {
            RelationshipType::Friendship => "Friendship",
            RelationshipType::Rivalry => "Rivalry",
            RelationshipType::Professional => "Professional",
            RelationshipType::Mentorship => "Mentorship",
            RelationshipType::Family => "Family",
            RelationshipType::Romance => "Romance",
            RelationshipType::Antagonistic => "Antagonistic",
            RelationshipType::Neutral => "Neutral",
            RelationshipType::Alliance => "Alliance",
            RelationshipType::Competition => "Competition",
        };
        String::from_str(name)
    }
}

/// Types of events that can affect relationships.
#[derive(Debug, Clone, PartialEq, Eq)]
pub enum EventType {
    PositiveInteraction,
    NegativeInteraction,
    SharedExperience,
    Conflict,
    Cooperation,
    Betrayal,
    Sacrifice,
    Discovery,
    Support,
    Achievement,
    Disagreement,
    Collaboration,
    /// Extensible for application-specific events
    Custom(String),
}

/// An event type with a custom name as a character sequence.
pub enum EventTypeView {
    PositiveInteraction,
    NegativeInteraction,
    SharedExperience,
    Conflict,
    Cooperation,
    Betrayal,
    Sacrifice,
    Discovery,
    Support,
    Achievement,
    Disagreement,
    Collaboration,
    Custom(Seq<char>),
}

impl View for EventType {
    type V = EventTypeView;

    open spec fn view(&self) -> EventTypeView {
        match self {
            EventType::PositiveInteraction => EventTypeView::PositiveInteraction,
            EventType::NegativeInteraction => EventTypeView::NegativeInteraction,
            EventType::SharedExperience => EventTypeView::SharedExperience,
            EventType::Conflict => EventTypeView::Conflict,
            EventType::Cooperation => EventTypeView::Cooperation,
            EventType::Betrayal => EventTypeView::Betrayal,
            EventType::Sacrifice => EventTypeView::Sacrifice,
            EventType::Discovery => EventTypeView::Discovery,
            EventType::Support => EventTypeView::Support,
            EventType::Achievement => EventTypeView::Achievement,
            EventType::Disagreement => EventTypeView::Disagreement,
            EventType::Collaboration => EventTypeView::Collaboration,
            EventType::Custom(s) => EventTypeView::Custom(s@),
        }
    }
}

impl EventType {
    /// A copy of this event type.
    pub fn copy(&self) -> (r: Self)
        ensures
            r@ == self@,
    {
        match self {
            EventType::PositiveInteraction => EventType::PositiveInteraction,
            EventType::NegativeInteraction => EventType::NegativeInteraction,
            EventType::SharedExperience => EventType::SharedExperience,
            EventType::Conflict => EventType::Conflict,
            EventType::Cooperation => EventType::Cooperation,
            EventType::Betrayal => EventType::Betrayal,
            EventType::Sacrifice => EventType::Sacrifice,
            EventType::Discovery => EventType::Discovery,
            EventType::Support => EventType::Support,
            EventType::Achievement => EventType::Achievement,
            EventType::Disagreement => EventType::Disagreement,
            EventType::Collaboration => EventType::Collaboration,
            EventType::Custom(s) => EventType::Custom(s.clone()),
        }
    }
}

/// Impact of an event on a relationship: the changes to intensity, trust and
/// familiarity, and the type the relationship shifts to, if any.
#[derive(Debug, Clone, Copy, PartialEq, Eq, Structural)]
pub struct RelationshipImpact {
    pub intensity_change: F32Bits,
    pub trust_change: F32Bits,
    pub familiarity_change: F32Bits,
    pub relationship_type_shift: Option<RelationshipType>,
}

/// Whether the float carried by `f` has an absolute value above 0.01, as IEEE
/// comparison has it: with the sign bit cleared, the bits of a float that is
/// not NaN order as its magnitude, 0.01 has the bits `0x3c23d70a`, and NaN
/// (above `0x7f800000`, the bits of infinity) is above nothing.
pub open spec fn magnitude_above_hundredth(f: F32Bits) -> bool {
    let a = f.bits & 0x7fff_ffffu32;
    0x3c23_d70au32 < a && a <= 0x7f80_0000u32
}

impl RelationshipImpact {
    /// Whether this impact has any relationship effect: a change of
    /// intensity, trust or familiarity above 0.01 in size, or a shift of
    /// relationship type.
    pub fn has_relationship_effect(&self) -> (r: bool)
        ensures
            r == (magnitude_above_hundredth(self.intensity_change)
                || magnitude_above_hundredth(self.trust_change)
                || magnitude_above_hundredth(self.familiarity_change)
                || self.relationship_type_shift is Some),
    {
        let i = self.intensity_change.bits & 0x7fff_ffffu32;
        let t = self.trust_change.bits & 0x7fff_ffffu32;
        let f = self.familiarity_change.bits & 0x7fff_ffffu32;
        (0x3c23_d70au32 < i && i <= 0x7f80_0000u32)
            || (0x3c23_d70au32 < t && t <= 0x7f80_0000u32)
            || (0x3c23_d70au32 < f && f <= 0x7f80_0000u32)
            || self.relationship_type_shift.is_some()
    }
}

/// Events that affect relationships.
#[derive(Debug)]
pub struct RelationshipEvent {
    pub id: String,
    pub event_type: EventType,
    pub description: String,
    pub impact: RelationshipImpact,
    pub timestamp: Timestamp,
    pub context: String,
    pub metadata: Vec<(String, JsonValue)>,
}

/// A relationship event with its texts and values as views.
pub struct RelationshipEventView {
    pub id: Seq<char>,
    pub event_type: EventTypeView,
    pub description: Seq<char>,
    pub impact: RelationshipImpact,
    pub timestamp: Timestamp,
    pub context: Seq<char>,
    pub metadata: Seq<(Seq<char>, JsonView)>,
}

impl View for RelationshipEvent {
    type V = RelationshipEventView;

    open spec fn view(&self) -> RelationshipEventView {
        RelationshipEventView {
            id: self.id@,
            event_type: self.event_type@,
            description: self.description@,
            impact: self.impact,
            timestamp: self.timestamp,
            context: self.context@,
            metadata: entries_view(self.metadata@),
        }
    }
}

impl RelationshipEvent {
    /// Create a new relationship event with a fresh identifier, stamped with
    /// the current time; `None` when no fresh identifier can be drawn.
    pub fn new(event_type: EventType, description: String, impact: RelationshipImpact, context: String) -> (r:
        Option<Self>)
        ensures
            r matches Some(e) ==> {
                &&& uuid_shaped(e.id@)
                &&& e.event_type == event_type
                &&& e.description == description
                &&& e.impact == impact
                &&& e.context == context
                &&& e.metadata@.len() == 0
            },
    {
        let id = match new_uuid() {
            Some(id) => id,
            None => {
                return None;
            },
        };
        Some(
            RelationshipEvent {
                id,
                event_type,
                description,
                impact,
                timestamp: now(),
                context,
                metadata: Vec::new(),
            },
        )
    }

    /// A copy of this event.
    pub fn copy(&self) -> (r: Self)
        ensures
            r@ == self@,
    {
        RelationshipEvent {
            id: self.id.clone(),
            event_type: self.event_type.copy(),
            description: self.description.clone(),
            impact: self.impact,
            timestamp: self.timestamp,
            context: self.context.clone(),
            metadata: copy_entries(&self.metadata),
        }
    }
}

impl Clone for RelationshipEvent {
    fn clone(&self) -> (r: Self)
        ensures
            r@ == self@,
    {
        self.copy()
    }
}

/// Generic relationship between two entities (agents, characters, etc.).
#[derive(Debug)]
pub struct Relationship {
    pub id: String,
    pub entity_a: String,
    pub entity_b: String,
    pub relationship_type: RelationshipType,
    /// -1.0 (hostile) to 1.0 (close)
    pub intensity: F32Bits,
    /// 0.0 (no trust) to 1.0 (complete trust)
    pub trust_level: F32Bits,
    /// 0.0 (strangers) to 1.0 (very familiar)
    pub familiarity: F32Bits,
    pub history: Vec<RelationshipEvent>,
    pub created_at: Timestamp,
    pub last_updated: Timestamp,
    /// Extensible for application-specific data, in key order
    pub metadata: Vec<(String, JsonValue)>,
}

/// A relationship with its texts and values as views.
pub struct RelationshipView {
    pub id: Seq<char>,
    pub entity_a: Seq<char>,
    pub entity_b: Seq<char>,
    pub relationship_type: RelationshipType,
    pub intensity: F32Bits,
    pub trust_level: F32Bits,
    pub familiarity: F32Bits,
    pub history: Seq<RelationshipEventView>,
    pub created_at: Timestamp,
    pub last_updated: Timestamp,
    pub metadata: Seq<(Seq<char>, JsonView)>,
}

/// The views of a list of events.
pub open spec fn events_view(events: Seq<RelationshipEvent>) -> Seq<RelationshipEventView> {
    events.map_values(|e: RelationshipEvent| e@)
}

impl View for Relationship {
    type V = RelationshipView;

    open spec fn view(&self) -> RelationshipView {
        RelationshipView {
            id: self.id@,
            entity_a: self.entity_a@,
            entity_b: self.entity_b@,
            relationship_type: self.relationship_type,
            intensity: self.intensity,
            trust_level: self.trust_level,
            familiarity: self.familiarity,
            history: events_view(self.history@),
            created_at: self.created_at,
            last_updated: self.last_updated,
            metadata: entries_view(self.metadata@),
        }
    }
}

/// The views of a list of borrowed events.
pub open spec fn ref_events_view(events: Seq<&RelationshipEvent>) -> Seq<RelationshipEventView> {
    events.map_values(|e: &RelationshipEvent| e@)
}

/// The events among `events` that happened after `cutoff`, in order.
pub open spec fn events_after_view(events: Seq<RelationshipEventView>, cutoff: Timestamp) -> Seq<RelationshipEventView> {
    events.filter(after_cutoff(cutoff))
}

/// Whether an event happened after `cutoff`.
pub open spec fn after_cutoff(cutoff: Timestamp) -> spec_fn(RelationshipEventView) -> bool {
    |e: RelationshipEventView| ts_before(cutoff, e.timestamp)
}

/// Whether an event description speaks of family: its lowercased text
/// contains `family`, `sibling`, `parent` or `child`.
pub open spec fn mentions_family(description: Seq<char>) -> bool {
    let d = lowercase_chars(description);
    contains_seq(d, "family"@) || contains_seq(d, "sibling"@) || contains_seq(d, "parent"@) || contains_seq(d, "child"@)
}

/// Whether a relationship carries family markers: its `family_relation`
/// metadata when present (true only when it is the boolean `true`), else an
/// event whose description speaks of family.
pub open spec fn family_marked(r: RelationshipView) -> bool {
    match obj_get(r.metadata, "family_relation"@) {
        Some(v) => v == JsonView::Bool(true),
        None => exists|i: int| 0 <= i < r.history.len() && mentions_family(#[trigger] r.history[i].description),
    }
}

/// The value stored under `key` among object entries.
pub(crate) fn entry_value<'a>(entries: &'a Vec<(String, JsonValue)>, key: &str) -> (r: Option<&'a JsonValue>)
    ensures
        match r {
            Some(v) => obj_get(entries_view(entries@), key@) == Some(v@),
            None => obj_get(entries_view(entries@), key@) is None,
        },
{
    let ghost ve = entries_view(entries@);
    let mut i: usize = 0;
    assert(ve.skip(0) =~= ve);
    while i < entries.len()
        invariant
            i <= entries.len(),
            ve == entries_view(entries@),
            obj_get(ve, key@) == obj_get(ve.skip(i as int), key@),
        decreases entries.len() - i,
    {
        assert(ve.skip(i as int).drop_first() =~= ve.skip(i + 1));
        assert(ve.skip(i as int)[0] == ve[i as int]);
        if str_eq(entries[i].0.as_str(), key) {
            return Some(&entries[i].1);
        }
        i += 1;
    }
    None
}

/// Whether an event description speaks of family.
fn speaks_of_family(description: &str) -> (r: bool)
    ensures
        r == mentions_family(description@),
{
    let d = to_lowercase(description);
    str_contains(d.as_str(), "family") || str_contains(d.as_str(), "sibling") || str_contains(d.as_str(), "parent")
        || str_contains(d.as_str(), "child")
}

/// The other entity of a relationship seen from `entity`.
pub open spec fn other_entity(r: RelationshipView, entity: Seq<char>) -> Option<Seq<char>> {
    if r.entity_a == entity {
        Some(r.entity_b)
    } else if r.entity_b == entity {
        Some(r.entity_a)
    } else {
        None
    }
}

/// Whether a relationship involves `entity`.
pub open spec fn involves(r: RelationshipView, entity: Seq<char>) -> bool {
    r.entity_a == entity || r.entity_b == entity
}

/// A relationship involves exactly the entities it has another side for, and
/// between two distinct entities the other side of the other side is the
/// entity itself.
pub proof fn lemma_other_entity(r: RelationshipView, entity: Seq<char>)
    ensures
        involves(r, entity) <==> other_entity(r, entity) is Some,
        r.entity_a != r.entity_b && involves(r, entity) ==> other_entity(r, other_entity(r, entity)->0) == Some(
            entity,
        ),
{
}

/// The bit pattern of `0.0_f32`.
pub open spec fn f32_zero() -> F32Bits {
    F32Bits { bits: 0 }
}

/// The bit pattern of `0.5_f32`.
pub open spec fn f32_half() -> F32Bits {
    F32Bits { bits: 0x3f00_0000 }
}

/// The bit pattern of `0.1_f32`.
pub open spec fn f32_tenth() -> F32Bits {
    F32Bits { bits: 0x3dcc_cccd }
}

/// A copy of a list of events.
fn copy_events(events: &Vec<RelationshipEvent>) -> (r: Vec<RelationshipEvent>)
    ensures
        events_view(r@) == events_view(events@),
{
    let mut out: Vec<RelationshipEvent> = Vec::new();
    let mut i: usize = 0;
    while i < events.len()
        invariant
            i <= events.len(),
            out@.len() == i,
            forall|j: int| 0 <= j < i ==> (#[trigger] out@[j])@ == events@[j]@,
        decreases events.len() - i,
    {
        out.push(events[i].copy());
        i += 1;
    }
    assert(events_view(out@) =~= events_view(events@));
    out
}

impl Relationship {
    /// Create a new neutral relationship between two entities: intensity 0,
    /// trust 0.5, familiarity 0.1, no history, a fresh identifier; `None` when
    /// no fresh identifier can be drawn.
    pub fn new(entity_a: String, entity_b: String) -> (r: Option<Self>)
        ensures
            r matches Some(rel) ==> {
                &&& uuid_shaped(rel.id@)
                &&& rel.entity_a == entity_a
                &&& rel.entity_b == entity_b
                &&& rel.relationship_type == RelationshipType::Neutral
                &&& rel.intensity == f32_zero()
                &&& rel.trust_level == f32_half()
                &&& rel.familiarity == f32_tenth()
                &&& rel.history@.len() == 0
                &&& rel.metadata@.len() == 0
            },
    {
        let id = match new_uuid() {
            Some(id) => id,
            None => {
                return None;
            },
        };
        let now_at = now();
        Some(Relationship {
            id,
            entity_a,
            entity_b,
            relationship_type: RelationshipType::Neutral,
            intensity: F32Bits { bits: 0 },
            trust_level: F32Bits { bits: 0x3f00_0000 },
            familiarity: F32Bits { bits: 0x3dcc_cccd },
            history: Vec::new(),
            created_at: now_at,
            last_updated: now(),
            metadata: Vec::new(),
        })
    }

    /// The other entity in this relationship: `entity_b` for `entity_a`,
    /// `entity_a` for `entity_b`, nothing for anyone else.
    pub fn get_other_entity(&self, entity: &str) -> (r: Option<&str>)
        ensures
            match r {
                Some(o) => other_entity(self@, entity@) == Some(o@),
                None => other_entity(self@, entity@) is None,
            },
    {
        if str_eq(self.entity_a.as_str(), entity) {
            Some(self.entity_b.as_str())
        } else if str_eq(self.entity_b.as_str(), entity) {
            Some(self.entity_a.as_str())
        } else {
            None
        }
    }

    /// Whether this relationship involves the given entity.
    pub fn involves_entity(&self, entity: &str) -> (r: bool)
        ensures
            r == involves(self@, entity@),
    {
        str_eq(self.entity_a.as_str(), entity) || str_eq(self.entity_b.as_str(), entity)
    }

    /// Add an event to the relationship history and stamp the update time.
    pub fn add_event(&mut self, event: RelationshipEvent)
        ensures
            final(self)@ == (RelationshipView {
                history: old(self)@.history.push(event@),
                last_updated: final(self).last_updated,
                ..old(self)@
            }),
    {
        let ghost ev = event@;
        self.history.push(event);
        self.last_updated = now();
        assert(events_view(self.history@) =~= old(self)@.history.push(ev));
    }

    /// Whether the relationship carries family markers.
    pub fn has_family_markers(&self) -> (r: bool)
        ensures
            r == family_marked(self@),
    {
        if let Some(marker) = entry_value(&self.metadata, "family_relation") {
            return match marker {
                JsonValue::Bool(b) => *b,
                _ => false,
            };
        }
        let ghost rv = self@;
        let mut i: usize = 0;
        while i < self.history.len()
            invariant
                i <= self.history@.len(),
                rv == self@,
                obj_get(rv.metadata, "family_relation"@) is None,
                forall|j: int| 0 <= j < i ==> !mentions_family(#[trigger] rv.history[j].description),
            decreases self.history.len() - i,
        {
            assert(rv.history[i as int].description == self.history@[i as int].description@);
            if speaks_of_family(self.history[i].description.as_str()) {
                return true;
            }
            i += 1;
        }
        false
    }

    /// The events of the last `within_hours` hours: those after the instant
    /// that many hours before the clock's reading, in order.
    pub fn get_recent_events(&self, within_hours: i64) -> (r: Vec<&RelationshipEvent>)
        requires
            -2_000_000_000 <= within_hours <= 2_000_000_000,
        ensures
            exists|t: Timestamp|
                ref_events_view(r@) == events_after_view(
                    events_view(self.history@),
                    #[trigger] seconds_before(t, within_hours * 3_600),
                ),
    {
        let t = now();
        let cutoff = Timestamp { secs: t.secs - within_hours * 3_600, nanos: t.nanos };
        let r = self.events_after(cutoff);
        assert(cutoff == seconds_before(t, within_hours * 3_600));
        r
    }

    /// The events of the history that happened after `cutoff`, in order.
    pub fn events_after(&self, cutoff: Timestamp) -> (r: Vec<&RelationshipEvent>)
        ensures
            ref_events_view(r@) == events_after_view(events_view(self.history@), cutoff),
    {
        let ghost hv = events_view(self.history@);
        let mut out: Vec<&RelationshipEvent> = Vec::new();
        let mut i: usize = 0;
        while i < self.history.len()
            invariant
                i <= self.history@.len(),
                hv == events_view(self.history@),
                ref_events_view(out@) == events_after_view(hv.take(i as int), cutoff),
            decreases self.history.len() - i,
        {
            let ghost before = out@;
            let ghost pred = after_cutoff(cutoff);
            assert(hv.take(i + 1).drop_last() =~= hv.take(i as int));
            assert(hv.take(i + 1).last() == self.history@[i as int]@);
            reveal(Seq::filter);
            assert(events_after_view(hv.take(i + 1), cutoff) == if pred(hv.take(i + 1).last()) {
                hv.take(i + 1).drop_last().filter(pred).push(hv.take(i + 1).last())
            } else {
                hv.take(i + 1).drop_last().filter(pred)
            });
            if cutoff.is_before(&self.history[i].timestamp) {
                out.push(&self.history[i]);
                assert(ref_events_view(out@) =~= ref_events_view(before).push(self.history@[i as int]@));
            }
            i += 1;
        }
        assert(hv.take(self.history@.len() as int) =~= hv);
        out
    }

    /// A copy of this relationship.
    pub fn copy(&self) -> (r: Self)
        ensures
            r@ == self@,
    {
        Relationship {
            id: self.id.clone(),
            entity_a: self.entity_a.clone(),
            entity_b: self.entity_b.clone(),
            relationship_type: self.relationship_type,
            intensity: self.intensity,
            trust_level: self.trust_level,
            familiarity: self.familiarity,
            history: copy_events(&self.history),
            created_at: self.created_at,
            last_updated: self.last_updated,
            metadata: copy_entries(&self.metadata),
        }
    }
}

impl Clone for Relationship {
    fn clone(&self) -> (r: Self)
        ensures
            r@ == self@,
    {
        self.copy()
    }
}

/// Current mood in a relationship.
#[derive(Debug, Clone, Copy, PartialEq, Eq, Structural)]
pub enum Mood {
    Friendly,
    Hostile,
    Neutral,
    Romantic,
    Protective,
    Suspicious,
    Admiring,
    Disappointed,
    Grateful,
    Competitive,
    Respectful,
    Dismissive,
}

/// The display name of a mood.
pub open spec fn mood_name(m: Mood) -> Seq<char> {
    match m {
        Mood::Friendly => "Friendly"@,
        Mood::Hostile => "Hostile"@,
        Mood::Neutral => "Neutral"@,
        Mood::Romantic => "Romantic"@,
        Mood::Protective => "Protective"@,
        Mood::Suspicious => "Suspicious"@,
        Mood::Admiring => "Admiring"@,
        Mood::Disappointed => "Disappointed"@,
        Mood::Grateful => "Grateful"@,
        Mood::Competitive => "Competitive"@,
        Mood::Respectful => "Respectful"@,
        Mood::Dismissive => "Dismissive"@,
    }
}

impl Mood {
    /// The display name of this mood.
    pub fn to_string(&self) -> (s: String)
        ensures
            s@ == mood_name(*self),
    {
        let name = match self {
            Mood::Friendly => "Friendly",
            Mood::Hostile => "Hostile",
            Mood::Neutral => "Neutral",
            Mood::Romantic => "Romantic",
            Mood::Protective => "Protective",
            Mood::Suspicious => "Suspicious",
            Mood::Admiring => "Admiring",
            Mood::Disappointed => "Disappointed",
            Mood::Grateful => "Grateful",
            Mood::Competitive => "Competitive",
            Mood::Respectful => "Respectful",
            Mood::Dismissive => "Dismissive",
        };
        String::from_str(name)
    }
}

/// Direction of relationship trends.
#[derive(Debug, Clone, Copy, PartialEq, Eq, Structural)]
pub enum TrendDirection {
    Improving,
    Declining,
    Stable,
    Volatile,
}

/// Style of interaction between entities.
#[derive(Debug, Clone, Copy, PartialEq, Eq, Structural)]
pub enum InteractionStyle {
    Warm,
    Cold,
    Professional,
    Playful,
    Cautious,
    Aggressive,
    Supportive,
    Dismissive,
    Respectful,
    Protective,
}

/// The display name of an interaction style.
pub open spec fn interaction_style_name(s: InteractionStyle) -> Seq<char> {
    match s {
        InteractionStyle::Warm => "Warm"@,
        InteractionStyle::Cold => "Cold"@,
        InteractionStyle::Professional => "Professional"@,
        InteractionStyle::Playful => "Playful"@,
        InteractionStyle::Cautious => "Cautious"@,
        InteractionStyle::Aggressive => "Aggressive"@,
        InteractionStyle::Supportive => "Supportive"@,
        InteractionStyle::Dismissive => "Dismissive"@,
        InteractionStyle::Respectful => "Respectful"@,
        InteractionStyle::Protective => "Protective"@,
    }
}

impl InteractionStyle {
    /// The display name of this interaction style.
    pub fn to_string(&self) -> (s: String)
        ensures
            s@ == interaction_style_name(*self),
    {
        let name = match self {
            InteractionStyle::Warm => "Warm",
            InteractionStyle::Cold => "Cold",
            InteractionStyle::Professional => "Professional",
            InteractionStyle::Playful => "Playful",
            InteractionStyle::Cautious => "Cautious",
            InteractionStyle::Aggressive => "Aggressive",
            InteractionStyle::Supportive => "Supportive",
            InteractionStyle::Dismissive => "Dismissive",
            InteractionStyle::Respectful => "Respectful",
            InteractionStyle::Protective => "Protective",
        };
        String::from_str(name)
    }
}

} // verus!
