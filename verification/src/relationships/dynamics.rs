//! Group dynamics among related entities: the kinds of alliances and
//! conflicts.

use vstd::prelude::*;
use crate::json::{obj_get, JsonValue, JsonView};
use crate::messaging::filters::string_views;
use crate::relationships::types::{
    entry_value, involves, other_entity, EventType, EventTypeView, Relationship, RelationshipEventView, RelationshipType,
    RelationshipView,
};
use crate::text::{lowercase_chars, str_eq, to_lowercase};
use crate::time::{f32_less, F32Bits};

verus! {

/// Analyzer of the dynamics of a group of related entities.
#[derive(Debug, Clone, Copy, PartialEq, Eq, Structural)]
pub struct GroupDynamicsAnalyzer;

/// The views of a list of relationships.
pub open spec fn relationship_views(rels: Seq<Relationship>) -> Seq<RelationshipView> {
    rels.map_values(|r: Relationship| r@)
}

/// Whether a relationship links `a` and `b`, either way round.
pub open spec fn links(r: RelationshipView, a: Seq<char>, b: Seq<char>) -> bool {
    (r.entity_a == a && r.entity_b == b) || (r.entity_a == b && r.entity_b == a)
}

/// The first relationship linking `a` and `b`, if any.
pub open spec fn first_link(rels: Seq<RelationshipView>, a: Seq<char>, b: Seq<char>) -> Option<RelationshipView>
    decreases rels.len(),
{
    if rels.len() == 0 {
        None
    } else if links(rels[0], a, b) {
        Some(rels[0])
    } else {
        first_link(rels.drop_first(), a, b)
    }
}

/// The 32-bit float with the given bits.
pub open spec fn f32_const(bits: u32) -> F32Bits {
    F32Bits { bits }
}

/// Whether a relationship makes the other side a strong ally of `entity`:
/// it involves `entity`, with intensity above 0.5 and trust above 0.6.
pub open spec fn strong_ally_link(r: RelationshipView, entity: Seq<char>) -> bool {
    involves(r, entity) && f32_less(f32_const(0x3f00_0000), r.intensity) && f32_less(
        f32_const(0x3f19_999a),
        r.trust_level,
    )
}

/// The strong allies of `entity`, one per strong link, in order.
pub open spec fn strong_allies(rels: Seq<RelationshipView>, entity: Seq<char>) -> Seq<Seq<char>>
    decreases rels.len(),
{
    if rels.len() == 0 {
        Seq::empty()
    } else {
        let init = strong_allies(rels.drop_last(), entity);
        let r = rels.last();
        if strong_ally_link(r, entity) {
            init.push(other_entity(r, entity)->0)
        } else {
            init
        }
    }
}

/// How many members are linked to the leader, first link counted, by a
/// relationship of type `t`.
pub open spec fn linked_type_count(
    rels: Seq<RelationshipView>,
    leader: Seq<char>,
    members: Seq<Seq<char>>,
    t: RelationshipType,
) -> nat
    decreases members.len(),
{
    if members.len() == 0 {
        0
    } else {
        linked_type_count(rels, leader, members.drop_last(), t) + match first_link(rels, leader, members.last()) {
            Some(r) => if r.relationship_type == t { 1nat } else { 0nat },
            None => 0nat,
        }
    }
}

/// The type of an alliance: romance if any member is a romance, else family
/// when family links outnumber both friendship and professional ones, else
/// professional when those outnumber friendships, else friendship when there
/// is one, else convenience.
pub open spec fn alliance_kind(rels: Seq<RelationshipView>, leader: Seq<char>, members: Seq<Seq<char>>) -> AllianceType {
    let romance = linked_type_count(rels, leader, members, RelationshipType::Romance);
    let family = linked_type_count(rels, leader, members, RelationshipType::Family);
    let professional = linked_type_count(rels, leader, members, RelationshipType::Professional);
    let friendship = linked_type_count(rels, leader, members, RelationshipType::Friendship);
    if romance > 0 {
        AllianceType::Romance
    } else if family > friendship && family > professional {
        AllianceType::Family
    } else if professional > friendship {
        AllianceType::Professional
    } else if friendship > 0 {
        AllianceType::Friendship
    } else {
        AllianceType::Convenience
    }
}

/// The source of a conflict read from at most the last `k` events, latest
/// first: a betrayal, a direct conflict or a negative interaction.
pub open spec fn conflict_source_within(events: Seq<EventTypeView>, k: nat) -> Seq<char>
    decreases k,
{
    if k == 0 || events.len() == 0 {
        "Unknown conflict source"@
    } else {
        match events.last() {
            EventTypeView::Betrayal => "Betrayal"@,
            EventTypeView::Conflict => "Direct conflict"@,
            EventTypeView::NegativeInteraction => "Negative interaction"@,
            _ => conflict_source_within(events.drop_last(), (k - 1) as nat),
        }
    }
}

/// The kinds of the events of a relationship.
pub open spec fn event_kinds(r: RelationshipView) -> Seq<EventTypeView> {
    r.history.map_values(|e: RelationshipEventView| e.event_type)
}

/// The conflict type a relationship's `conflict_type` metadata names, when it
/// is a string (compared in lowercase), else the type its kind suggests.
pub open spec fn conflict_kind(r: RelationshipView) -> ConflictType {
    match obj_get(r.metadata, "conflict_type"@) {
        Some(JsonView::String(s)) => {
            let l = lowercase_chars(s);
            if l == "romantic"@ {
                ConflictType::Romantic
            } else if l == "resource"@ {
                ConflictType::Resource
            } else if l == "ideological"@ {
                ConflictType::Ideological
            } else if l == "professional"@ {
                ConflictType::Professional
            } else {
                ConflictType::Personal
            }
        },
        _ => match r.relationship_type {
            RelationshipType::Professional => ConflictType::Professional,
            RelationshipType::Romance => ConflictType::Romantic,
            _ => ConflictType::Personal,
        },
    }
}

/// Whether a relationship is a conflict zone: intensity below -0.3, or below
/// zero with trust below 0.4.
pub open spec fn conflicted(r: RelationshipView) -> bool {
    f32_less(r.intensity, f32_const(0xbe99_999a)) || (f32_less(r.intensity, f32_const(0))
        && f32_less(r.trust_level, f32_const(0x3ecc_cccd)))
}

/// The alliances among `entities`, and the entities already placed in one:
/// entities are taken in order, those already placed skipped, and one with
/// strong allies leads them in an alliance that places it and them.
pub open spec fn alliances(rels: Seq<RelationshipView>, entities: Seq<Seq<char>>) -> (
    Seq<(Seq<char>, Seq<Seq<char>>)>,
    Seq<Seq<char>>,
)
    decreases entities.len(),
{
    if entities.len() == 0 {
        (Seq::empty(), Seq::empty())
    } else {
        let (groups, placed) = alliances(rels, entities.drop_last());
        let e = entities.last();
        let allies = strong_allies(rels, e);
        if placed.contains(e) || allies.len() == 0 {
            (groups, placed)
        } else {
            (groups.push((e, allies)), placed.push(e) + allies)
        }
    }
}

impl GroupDynamicsAnalyzer {
    /// The alliances among `entities`: leaders with their strong allies, an
    /// entity already placed in an alliance leading none.
    pub fn alliance_groups(relationships: &[Relationship], entities: &[String]) -> (r: Vec<(String, Vec<String>)>)
        ensures
            r@.len() == alliances(relationship_views(relationships@), string_views(entities@)).0.len(),
            forall|g: int| 0 <= g < r@.len() ==> {
                &&& (#[trigger] r@[g]).0@ == alliances(relationship_views(relationships@), string_views(entities@)).0[g].0
                &&& string_views(r@[g].1@) == alliances(relationship_views(relationships@), string_views(entities@)).0[g].1
            },
    {
        let ghost rv = relationship_views(relationships@);
        let ghost ev = string_views(entities@);
        let mut groups: Vec<(String, Vec<String>)> = Vec::new();
        let mut placed: Vec<String> = Vec::new();
        let mut i: usize = 0;
        while i < entities.len()
            invariant
                i <= entities@.len(),
                rv == relationship_views(relationships@),
                ev == string_views(entities@),
                groups@.len() == alliances(rv, ev.take(i as int)).0.len(),
                forall|g: int| 0 <= g < groups@.len() ==> {
                    &&& (#[trigger] groups@[g]).0@ == alliances(rv, ev.take(i as int)).0[g].0
                    &&& string_views(groups@[g].1@) == alliances(rv, ev.take(i as int)).0[g].1
                },
                string_views(placed@) == alliances(rv, ev.take(i as int)).1,
            decreases entities.len() - i,
        {
            let ghost prev = ev.take(i as int);
            assert(ev.take(i + 1).drop_last() =~= prev);
            assert(ev.take(i + 1).last() == entities@[i as int]@);
            let entity = entities[i].as_str();
            if !crate::messaging::types::strings_contain(&placed, entity) {
                let allies = Self::get_strong_allies(entity, relationships);
                if allies.len() > 0 {
                    let ghost before_groups = groups@;
                    let ghost before_placed = string_views(placed@);
                    placed.push(String::from_str(entity));
                    let mut j: usize = 0;
                    while j < allies.len()
                        invariant
                            j <= allies@.len(),
                            string_views(placed@) == before_placed.push(entity@) + string_views(allies@).take(j as int),
                        decreases allies.len() - j,
                    {
                        let ghost p = placed@;
                        placed.push(String::from_str(allies[j].as_str()));
                        assert(string_views(placed@) =~= string_views(p).push(allies@[j as int]@));
                        assert(string_views(allies@).take(j + 1) =~= string_views(allies@).take(j as int).push(
                            allies@[j as int]@,
                        ));
                        j += 1;
                    }
                    assert(string_views(allies@).take(j as int) =~= string_views(allies@));
                    groups.push((String::from_str(entity), allies));
                    proof {
                        assert forall|g: int| 0 <= g < groups@.len() implies {
                            &&& (#[trigger] groups@[g]).0@ == alliances(rv, ev.take(i + 1)).0[g].0
                            &&& string_views(groups@[g].1@) == alliances(rv, ev.take(i + 1)).0[g].1
                        } by {
                            if g < before_groups.len() {
                                assert(groups@[g] == before_groups[g]);
                            }
                        }
                    }
                }
            }
            i += 1;
        }
        assert(ev.take(i as int) =~= ev);
        groups
    }

    /// The first relationship linking two entities, either way round.
    pub fn find_relationship<'a>(entity_a: &str, entity_b: &str, relationships: &'a [Relationship]) -> (r: Option<
        &'a Relationship,
    >)
        ensures
            match r {
                Some(x) => first_link(relationship_views(relationships@), entity_a@, entity_b@) == Some(x@),
                None => first_link(relationship_views(relationships@), entity_a@, entity_b@) is None,
            },
    {
        let ghost rv = relationship_views(relationships@);
        let mut i: usize = 0;
        assert(rv.skip(0) =~= rv);
        while i < relationships.len()
            invariant
                i <= relationships@.len(),
                rv == relationship_views(relationships@),
                first_link(rv, entity_a@, entity_b@) == first_link(rv.skip(i as int), entity_a@, entity_b@),
            decreases relationships.len() - i,
        {
            assert(rv.skip(i as int).drop_first() =~= rv.skip(i + 1));
            assert(rv.skip(i as int)[0] == relationships@[i as int]@);
            let r = &relationships[i];
            if (str_eq(r.entity_a.as_str(), entity_a) && str_eq(r.entity_b.as_str(), entity_b)) || (str_eq(
                r.entity_a.as_str(),
                entity_b,
            ) && str_eq(r.entity_b.as_str(), entity_a)) {
                return Some(r);
            }
            i += 1;
        }
        None
    }

    /// The entities `entity` has a strong positive relationship with: the
    /// other side of each relationship involving it with intensity above 0.5
    /// and trust above 0.6.
    pub fn get_strong_allies(entity: &str, relationships: &[Relationship]) -> (r: Vec<String>)
        ensures
            string_views(r@) == strong_allies(relationship_views(relationships@), entity@),
    {
        let ghost rv = relationship_views(relationships@);
        let half = F32Bits { bits: 0x3f00_0000 };
        let trust_floor = F32Bits { bits: 0x3f19_999a };
        let mut allies: Vec<String> = Vec::new();
        let mut i: usize = 0;
        while i < relationships.len()
            invariant
                i <= relationships@.len(),
                rv == relationship_views(relationships@),
                half == f32_const(0x3f00_0000),
                trust_floor == f32_const(0x3f19_999a),
                string_views(allies@) == strong_allies(rv.take(i as int), entity@),
            decreases relationships.len() - i,
        {
            let ghost before = allies@;
            assert(rv.take(i + 1).drop_last() =~= rv.take(i as int));
            assert(rv.take(i + 1).last() == relationships@[i as int]@);
            let r = &relationships[i];
            if r.involves_entity(entity) && half.less_than(&r.intensity) && trust_floor.less_than(&r.trust_level) {
                if let Some(other) = r.get_other_entity(entity) {
                    allies.push(String::from_str(other));
                    assert(string_views(allies@) =~= string_views(
                        before,
                    ).push(other@));
                }
            }
            i += 1;
        }
        assert(rv.take(i as int) =~= rv);
        allies
    }

    /// The type of an alliance between a leader and its members.
    pub fn determine_alliance_type(leader: &str, members: &[String], relationships: &[Relationship]) -> (r:
        AllianceType)
        ensures
            r == alliance_kind(
                relationship_views(relationships@),
                leader@,
                string_views(members@),
            ),
    {
        let ghost rv = relationship_views(relationships@);
        let ghost mv = string_views(members@);
        let mut romance: usize = 0;
        let mut family: usize = 0;
        let mut professional: usize = 0;
        let mut friendship: usize = 0;
        let mut i: usize = 0;
        while i < members.len()
            invariant
                i <= members@.len(),
                rv == relationship_views(relationships@),
                mv == string_views(members@),
                romance == linked_type_count(rv, leader@, mv.take(i as int), RelationshipType::Romance),
                family == linked_type_count(rv, leader@, mv.take(i as int), RelationshipType::Family),
                professional == linked_type_count(rv, leader@, mv.take(i as int), RelationshipType::Professional),
                friendship == linked_type_count(rv, leader@, mv.take(i as int), RelationshipType::Friendship),
                romance <= i && family <= i && professional <= i && friendship <= i,
            decreases members.len() - i,
        {
            assert(mv.take(i + 1).drop_last() =~= mv.take(i as int));
            assert(mv.take(i + 1).last() == members@[i as int]@);
            if let Some(rel) = Self::find_relationship(leader, members[i].as_str(), relationships) {
                match rel.relationship_type {
                    RelationshipType::Romance => romance += 1,
                    RelationshipType::Family => family += 1,
                    RelationshipType::Professional => professional += 1,
                    RelationshipType::Friendship => friendship += 1,
                    _ => {},
                }
            }
            i += 1;
        }
        assert(mv.take(i as int) =~= mv);
        if romance > 0 {
            AllianceType::Romance
        } else if family > friendship && family > professional {
            AllianceType::Family
        } else if professional > friendship {
            AllianceType::Professional
        } else if friendship > 0 {
            AllianceType::Friendship
        } else {
            AllianceType::Convenience
        }
    }

    /// The source of a conflict, read from the last five events, latest
    /// first.
    pub fn identify_conflict_source(relationship: &Relationship) -> (r: String)
        ensures
            r@ == conflict_source_within(event_kinds(relationship@), 5),
    {
        let ghost kinds = event_kinds(relationship@);
        let n = relationship.history.len();
        assert(kinds.len() == n);
        assert(kinds.take(n as int) =~= kinds);
        let mut k: usize = 0;
        while k < 5 && k < n
            invariant
                k <= 5,
                k <= n,
                n == relationship.history@.len(),
                kinds == event_kinds(relationship@),
                conflict_source_within(kinds, 5) == conflict_source_within(kinds.take(n - k), (5 - k) as nat),
            decreases 5 - k,
        {
            let ghost prefix = kinds.take(n - k);
            assert(prefix.last() == relationship.history@[n - k - 1]@.event_type);
            assert(prefix.drop_last() =~= kinds.take(n - k - 1));
            match relationship.history[n - k - 1].event_type {
                EventType::Betrayal => {
                    return String::from_str("Betrayal");
                },
                EventType::Conflict => {
                    return String::from_str("Direct conflict");
                },
                EventType::NegativeInteraction => {
                    return String::from_str("Negative interaction");
                },
                _ => {},
            }
            k += 1;
        }
        String::from_str("Unknown conflict source")
    }

    /// The type of a conflict: named by the `conflict_type` metadata when
    /// that is a string, else suggested by the relationship's type.
    pub fn determine_conflict_type(relationship: &Relationship) -> (r: ConflictType)
        ensures
            r == conflict_kind(relationship@),
    {
        let named = match entry_value(&relationship.metadata, "conflict_type") {
            Some(JsonValue::String(s)) => Some(to_lowercase(s.as_str())),
            _ => None,
        };
        match named {
            Some(l) => {
                if str_eq(l.as_str(), "romantic") {
                    ConflictType::Romantic
                } else if str_eq(l.as_str(), "resource") {
                    ConflictType::Resource
                } else if str_eq(l.as_str(), "ideological") {
                    ConflictType::Ideological
                } else if str_eq(l.as_str(), "professional") {
                    ConflictType::Professional
                } else {
                    ConflictType::Personal
                }
            },
            None => match relationship.relationship_type {
                RelationshipType::Professional => ConflictType::Professional,
                RelationshipType::Romance => ConflictType::Romantic,
                _ => ConflictType::Personal,
            },
        }
    }

    /// Whether a relationship is a conflict zone.
    pub fn is_conflict(relationship: &Relationship) -> (r: bool)
        ensures
            r == conflicted(relationship@),
    {
        let i = relationship.intensity;
        let t = relationship.trust_level;
        i.less_than(&F32Bits { bits: 0xbe99_999a }) || (i.less_than(&F32Bits { bits: 0 }) && t.less_than(
            &F32Bits { bits: 0x3ecc_cccd },
        ))
    }
}

/// Types of alliances between entities.
#[derive(Debug, Clone, Copy, PartialEq, Eq, Structural)]
pub enum AllianceType {
    Friendship,
    Professional,
    Family,
    Convenience,
    Romance,
}

/// Types of conflicts between entities.
#[derive(Debug, Clone, Copy, PartialEq, Eq, Structural)]
pub enum ConflictType {
    Personal,
    Professional,
    Ideological,
    Resource,
    Romantic,
}

} // verus!
