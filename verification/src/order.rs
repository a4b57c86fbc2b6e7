//! Comparing projects with `==` and `<`: equality goes by the manifest
//! path alone, the order by size and then by path. Two records of one
//! project that differ in size are therefore equal and yet ordered; within
//! one scan there are no such records.

use core::cmp::Ordering;
use vstd::prelude::*;
use vstd::std_specs::cmp::{PartialEqSpecImpl, PartialOrdSpecImpl};
use crate::project::{lemma_order_is_strict, lemma_order_is_total, project_lt, same_project, Project, ProjectView};

verus! {

/// How `a` stands to `b` in the order of projects.
pub open spec fn compared(a: ProjectView, b: ProjectView) -> Ordering {
    if project_lt(a, b) {
        Ordering::Less
    } else if project_lt(b, a) {
        Ordering::Greater
    } else {
        Ordering::Equal
    }
}

/// Two records that compare as equal have the same path, and comparing
/// the other way round gives the opposite answer.
pub proof fn lemma_compared(a: ProjectView, b: ProjectView)
    ensures
        compared(a, b) == Ordering::Equal ==> same_project(a, b) && a.size == b.size,
        compared(a, b) == Ordering::Less <==> compared(b, a) == Ordering::Greater,
        compared(a, b) == Ordering::Equal <==> compared(b, a) == Ordering::Equal,
{
    lemma_order_is_strict(a, b);
    if !same_project(a, b) {
        lemma_order_is_total(a, b);
    }
}

impl PartialEq for Project {
    fn eq(&self, other: &Project) -> (r: bool) {
        self.same_as(other)
    }
}

impl PartialEqSpecImpl for Project {
    open spec fn obeys_eq_spec() -> bool {
        true
    }

    open spec fn eq_spec(&self, other: &Project) -> bool {
        same_project(self@, other@)
    }
}

impl Eq for Project {

}

impl PartialOrd for Project {
    fn partial_cmp(&self, other: &Project) -> (r: Option<Ordering>) {
        Some(self.cmp(other))
    }
}

impl PartialOrdSpecImpl for Project {
    open spec fn obeys_partial_cmp_spec() -> bool {
        true
    }

    open spec fn partial_cmp_spec(&self, other: &Project) -> Option<Ordering> {
        Some(compared(self@, other@))
    }
}

impl Project {
    /// How this project stands to `other` in the order of projects.
    pub fn cmp(&self, other: &Project) -> (r: Ordering)
        ensures
            r == compared(self@, other@),
    {
        if self.precedes(other) {
            Ordering::Less
        } else if other.precedes(self) {
            Ordering::Greater
        } else {
            Ordering::Equal
        }
    }
}

} // verus!
