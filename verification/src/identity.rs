//! Equality of names: by local name and namespace, never by prefix.

use crate::tree::{Name, NameView};
use vstd::prelude::*;

verus! {

impl PartialEq for Name {
    fn eq(&self, other: &Name) -> (b: bool) {
        if self.local_name != other.local_name {
            return false;
        }
        match (&self.namespace, &other.namespace) {
            (Some(mine), Some(theirs)) => *mine == *theirs,
            (None, None) => true,
            _ => false,
        }
    }
}

impl vstd::std_specs::cmp::PartialEqSpecImpl for Name {
    open spec fn obeys_eq_spec() -> bool {
        true
    }

    open spec fn eq_spec(&self, other: &Name) -> bool {
        self@.same_identity(other@)
    }
}

/// Two names that agree in local name and namespace have the same identity,
/// whatever their prefixes are.
pub proof fn lemma_identity_ignores_prefix(a: NameView, b: NameView)
    requires
        a.local_name == b.local_name,
        a.namespace == b.namespace,
    ensures
        a.same_identity(b),
        a.same_identity(NameView { prefix: None, ..b }),
        (NameView { prefix: None, ..a }).same_identity(b),
{
}

/// Identity of names is an equivalence relation.
pub proof fn lemma_identity_is_equivalence(a: NameView, b: NameView, c: NameView)
    ensures
        a.same_identity(a),
        a.same_identity(b) ==> b.same_identity(a),
        a.same_identity(b) && b.same_identity(c) ==> a.same_identity(c),
{
}

} // verus!
