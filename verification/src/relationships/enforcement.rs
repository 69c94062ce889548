//! Relationship constraint enforcement.
//!
//! Applies the constraints a relationship type carries (symmetry for now) when
//! a relationship is created or deleted. Enforcement is optional: a caller can
//! switch it off for each operation.

use vstd::prelude::*;
use crate::relationships::registry::{RegistryError, RelationshipTypeDef, RelationshipTypeRegistry,
    TypeDefView, registry_error_text};
use crate::relationships::types::{Relationship, RelationshipView, relationship_type_name};

verus! {

/// Error types for constraint enforcement.
#[derive(Debug, Clone, PartialEq, Eq)]
pub enum EnforcementError {
    /// The registry failed; the text is the registry error's message.
    RegistryError(String),
    /// The relationship type is not registered.
    TypeNotFound(String),
    /// A symmetric relationship would be left without its inverse.
    SymmetricViolation(String),
    /// A relationship implied by transitivity is missing.
    TransitiveNotFound(String),
    /// Enforcement could not be carried out.
    EnforcementFailed(String),
}

/// The message of an enforcement error.
pub open spec fn enforcement_error_text(e: EnforcementError) -> Seq<char> {
    match e {
        EnforcementError::RegistryError(s) => "Registry error: "@ + s@,
        EnforcementError::TypeNotFound(s) => "Type not found in registry: "@ + s@,
        EnforcementError::SymmetricViolation(s) => "Symmetric relationship constraint violation: "@ + s@,
        EnforcementError::TransitiveNotFound(s) => "Transitive relationship not found: "@ + s@,
        EnforcementError::EnforcementFailed(s) => "Enforcement failed: "@ + s@,
    }
}

impl EnforcementError {
    /// The human-readable message of this error.
    pub fn to_string(&self) -> (s: String)
        ensures
            s@ == enforcement_error_text(*self),
    {
        match self {
            EnforcementError::RegistryError(m) => String::from_str("Registry error: ").concat(m.as_str()),
            EnforcementError::TypeNotFound(m) => String::from_str("Type not found in registry: ").concat(m.as_str()),
            EnforcementError::SymmetricViolation(m) => String::from_str(
                "Symmetric relationship constraint violation: ",
            ).concat(m.as_str()),
            EnforcementError::TransitiveNotFound(m) => String::from_str("Transitive relationship not found: ").concat(
                m.as_str(),
            ),
            EnforcementError::EnforcementFailed(m) => String::from_str("Enforcement failed: ").concat(m.as_str()),
        }
    }
}

impl From<RegistryError> for EnforcementError {
    fn from(err: RegistryError) -> (r: Self)
        ensures
            r matches EnforcementError::RegistryError(s) && s@ == registry_error_text(err),
    {
        EnforcementError::RegistryError(err.to_string())
    }
}

impl vstd::std_specs::convert::FromSpecImpl<RegistryError> for EnforcementError {
    open spec fn obeys_from_spec() -> bool {
        false
    }

    open spec fn from_spec(err: RegistryError) -> Self {
        arbitrary()
    }
}

/// Result of applying enforcement to a relationship.
#[derive(Debug, Clone)]
pub struct EnforcementResult {
    /// The original relationship
    pub primary: Relationship,
    /// Additional relationships created due to enforcement (e.g., symmetric inverses)
    pub additional: Vec<Relationship>,
    /// Whether enforcement was actually applied
    pub enforced: bool,
    /// Description of what enforcement was applied
    pub enforcement_description: String,
}

/// Whether `inv` is the symmetric inverse of `rel`: the same relationship seen
/// from the other side, under its own identifier.
pub open spec fn is_symmetric_inverse(inv: RelationshipView, rel: RelationshipView) -> bool {
    inv == RelationshipView { id: inv.id, entity_a: rel.entity_b, entity_b: rel.entity_a, ..rel }
}

/// The symmetric inverse of a symmetric inverse is the original relationship
/// (under the identifier it was given).
pub proof fn lemma_inverse_of_inverse(rel: RelationshipView, inv: RelationshipView, back: RelationshipView)
    requires
        is_symmetric_inverse(inv, rel),
        is_symmetric_inverse(back, inv),
    ensures
        back == (RelationshipView { id: back.id, ..rel }),
{
}

/// Constraints enforcer for relationship operations.
pub struct ConstraintEnforcer {
    registry: RelationshipTypeRegistry,
}

impl ConstraintEnforcer {
    /// The type definitions the enforcer goes by.
    pub closed spec fn types(&self) -> Map<Seq<char>, TypeDefView> {
        self.registry@
    }

    /// Create a new constraint enforcer with a given registry.
    pub fn new(registry: RelationshipTypeRegistry) -> (r: Self)
        ensures
            r.types() == registry@,
    {
        ConstraintEnforcer { registry }
    }

    /// The registry the enforcer goes by.
    pub fn registry(&self) -> (r: &RelationshipTypeRegistry)
        ensures
            r@ == self.types(),
    {
        proof {
            use_type_invariant(&self.registry);
        }
        &self.registry
    }

    /// Validate that a relationship type exists in the registry, and give back
    /// its definition.
    pub fn validate_type(&self, kind_name: &str) -> (r: Result<RelationshipTypeDef, EnforcementError>)
        ensures
            match r {
                Ok(d) => self.types().contains_key(kind_name@) && d@ == self.types()[kind_name@],
                Err(e) => !self.types().contains_key(kind_name@) && (e matches EnforcementError::TypeNotFound(n)
                    && n@ == kind_name@),
            },
    {
        proof {
            use_type_invariant(&self.registry);
        }
        match self.registry.get(kind_name) {
            Some(d) => Ok(d),
            None => Err(EnforcementError::TypeNotFound(String::from_str(kind_name))),
        }
    }

    /// Check if a relationship type is symmetric.
    pub fn is_symmetric(&self, kind_name: &str) -> (r: Result<bool, EnforcementError>)
        ensures
            match r {
                Ok(b) => self.types().contains_key(kind_name@) && b == self.types()[kind_name@].symmetric,
                Err(e) => !self.types().contains_key(kind_name@) && (e matches EnforcementError::TypeNotFound(n)
                    && n@ == kind_name@),
            },
    {
        proof {
            use_type_invariant(&self.registry);
        }
        let d = self.validate_type(kind_name)?;
        Ok(d.symmetric)
    }

    /// Check if a relationship type is transitive.
    pub fn is_transitive(&self, kind_name: &str) -> (r: Result<bool, EnforcementError>)
        ensures
            match r {
                Ok(b) => self.types().contains_key(kind_name@) && b == self.types()[kind_name@].transitive,
                Err(e) => !self.types().contains_key(kind_name@) && (e matches EnforcementError::TypeNotFound(n)
                    && n@ == kind_name@),
            },
    {
        proof {
            use_type_invariant(&self.registry);
        }
        let d = self.validate_type(kind_name)?;
        Ok(d.transitive)
    }

    /// Get the inverse type name for a relationship type.
    pub fn get_inverse_type(&self, kind_name: &str) -> (r: Result<Option<String>, EnforcementError>)
        ensures
            match r {
                Ok(inv) => self.types().contains_key(kind_name@) && match inv {
                    Some(s) => self.types()[kind_name@].inverse == Some(s@),
                    None => self.types()[kind_name@].inverse is None,
                },
                Err(e) => !self.types().contains_key(kind_name@) && (e matches EnforcementError::TypeNotFound(n)
                    && n@ == kind_name@),
            },
    {
        proof {
            use_type_invariant(&self.registry);
        }
        let d = self.validate_type(kind_name)?;
        Ok(d.inverse)
    }

    /// Apply constraints when creating a relationship. With enforcement on,
    /// the relationship's type must be registered, and a symmetric type gets
    /// the inverse relationship beside it.
    pub fn enforce_on_create(&self, relationship: &Relationship, enforce: bool) -> (r: Result<
        EnforcementResult,
        EnforcementError,
    >)
        ensures
            !enforce ==> (r matches Ok(res) && res.primary@ == relationship@ && res.additional@.len() == 0
                && !res.enforced && res.enforcement_description@ == "Enforcement disabled"@),
            enforce && !self.types().contains_key(relationship_type_name(relationship.relationship_type)) ==> (
            r matches Err(EnforcementError::TypeNotFound(n)) && n@ == relationship_type_name(
                relationship.relationship_type,
            )),
            enforce && self.types().contains_key(relationship_type_name(relationship.relationship_type)) ==> (
            if self.types()[relationship_type_name(relationship.relationship_type)].symmetric {
                ||| r matches Err(EnforcementError::EnforcementFailed(m))
                    && m@ == "Could not draw an identifier for the inverse relationship"@
                ||| r matches Ok(res) && res.primary@ == relationship@ && res.enforced && {
                    &&& res.additional@.len() == 1
                    &&& is_symmetric_inverse(res.additional@[0]@, relationship@)
                    &&& res.additional@[0].id@.len() == 36
                    &&& res.enforcement_description@ == "Created symmetric inverse relationship: "@
                        + relationship.entity_a@ + " \u{2194} "@ + relationship.entity_b@
                }
            } else {
                r matches Ok(res) && res.primary@ == relationship@ && res.enforced && res.additional@.len() == 0
                    && res.enforcement_description@.len() == 0
            }),
    {
        proof {
            use_type_invariant(&self.registry);
        }
        if !enforce {
            return Ok(
                EnforcementResult {
                    primary: relationship.copy(),
                    additional: Vec::new(),
                    enforced: false,
                    enforcement_description: String::from_str("Enforcement disabled"),
                },
            );
        }
        let kind_name = relationship.relationship_type.to_string();
        let type_def = match self.registry.get(kind_name.as_str()) {
            Some(d) => d,
            None => {
                return Err(EnforcementError::TypeNotFound(kind_name));
            },
        };
        let mut additional: Vec<Relationship> = Vec::new();
        let mut enforcement_description = String::new();
        if type_def.symmetric {
            let mut inverse = relationship.copy();
            inverse.id = match crate::time::new_uuid() {
                Some(id) => id,
                None => {
                    return Err(
                        EnforcementError::EnforcementFailed(
                            String::from_str("Could not draw an identifier for the inverse relationship"),
                        ),
                    );
                },
            };
            inverse.entity_a = relationship.entity_b.clone();
            inverse.entity_b = relationship.entity_a.clone();
            let d = String::from_str("Created symmetric inverse relationship: ").concat(relationship.entity_a.as_str());
            enforcement_description = d.concat(" \u{2194} ").concat(relationship.entity_b.as_str());
            additional.push(inverse);
        }
        Ok(EnforcementResult { primary: relationship.copy(), additional, enforced: true, enforcement_description })
    }

    /// Apply constraints when deleting a relationship: gives back the
    /// identifiers to delete. With enforcement on, the relationship's type must
    /// be registered; finding a symmetric inverse is left to the caller.
    pub fn enforce_on_delete(&self, relationship: &Relationship, enforce: bool) -> (r: Result<
        Vec<String>,
        EnforcementError,
    >)
        ensures
            (!enforce || self.types().contains_key(relationship_type_name(relationship.relationship_type))) ==> (
            r matches Ok(ids) && ids@.len() == 1 && ids@[0]@ == relationship.id@),
            enforce && !self.types().contains_key(relationship_type_name(relationship.relationship_type)) ==> (
            r matches Err(EnforcementError::TypeNotFound(n)) && n@ == relationship_type_name(
                relationship.relationship_type,
            )),
    {
        proof {
            use_type_invariant(&self.registry);
        }
        let mut to_delete: Vec<String> = Vec::new();
        to_delete.push(relationship.id.clone());
        if !enforce {
            return Ok(to_delete);
        }
        let kind_name = relationship.relationship_type.to_string();
        match self.registry.get(kind_name.as_str()) {
            Some(_) => Ok(to_delete),
            None => Err(EnforcementError::TypeNotFound(kind_name)),
        }
    }
}

} // verus!
