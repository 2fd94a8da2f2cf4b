//! `==` and `<` on definitions: the identity and the listing order of the
//! loaded set.

use core::cmp::Ordering;
use vstd::prelude::*;
use vstd::std_specs::cmp::{PartialEqSpecImpl, PartialOrdSpecImpl};

use crate::daemons::DaemonConfig;
use crate::order::{before, comes_before, same_daemon, same_identity};

verus! {

impl PartialEq for DaemonConfig {
    /// Two definitions are equal where they are duplicates of each other.
    fn eq(&self, other: &DaemonConfig) -> (r: bool) {
        same_identity(self, other)
    }
}

impl PartialEqSpecImpl for DaemonConfig {
    open spec fn obeys_eq_spec() -> bool {
        true
    }

    open spec fn eq_spec(&self, other: &DaemonConfig) -> bool {
        same_daemon(self@, other@)
    }
}

impl Eq for DaemonConfig {

}

impl PartialOrd for DaemonConfig {
    /// The listing order; two definitions are on a par where they are
    /// duplicates of each other.
    fn partial_cmp(&self, other: &DaemonConfig) -> (r: Option<Ordering>) {
        if comes_before(self, other) {
            Some(Ordering::Less)
        } else if comes_before(other, self) {
            Some(Ordering::Greater)
        } else {
            Some(Ordering::Equal)
        }
    }
}

impl PartialOrdSpecImpl for DaemonConfig {
    open spec fn obeys_partial_cmp_spec() -> bool {
        true
    }

    open spec fn partial_cmp_spec(&self, other: &DaemonConfig) -> Option<Ordering> {
        if before(self@, other@) {
            Some(Ordering::Less)
        } else if before(other@, self@) {
            Some(Ordering::Greater)
        } else {
            Some(Ordering::Equal)
        }
    }
}

} // verus!
