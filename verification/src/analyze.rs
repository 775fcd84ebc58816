//! The contract the config-semantic analyzer's checks plug into, and the
//! diagnostics they report through it.

use vstd::prelude::*;
use crate::ce7_missing_parent::MissingParent;
use crate::config::{Number, ProjectConfig};
use crate::cw2_magwell_missing_magazine::MagwellMissingMagazine;
use crate::processed::Processed;

verus! {

/// One config-semantic diagnostic.
pub enum ConfigCode {
    MissingParent(MissingParent),
    MagwellMissingMagazine(MagwellMissingMagazine),
}

/// What every analyzed node offers: a validity check, and its collected
/// warnings and errors over the processed mapping. Each implementer states
/// through the spec functions what it finds.
pub trait Analyze {
    spec fn spec_valid(&self) -> bool;

    spec fn spec_warning_count(&self) -> nat;

    spec fn spec_error_count(&self) -> nat;

    fn valid(&self, project: Option<&ProjectConfig>) -> (r: bool)
        ensures
            r == self.spec_valid(),
    ;

    fn warnings(&self, project: Option<&ProjectConfig>, processed: &Processed) -> (r: Vec<
        ConfigCode,
    >)
        ensures
            r@.len() == self.spec_warning_count(),
    ;

    fn errors(&self, project: Option<&ProjectConfig>, processed: &Processed) -> (r: Vec<
        ConfigCode,
    >)
        ensures
            r@.len() == self.spec_error_count(),
    ;
}

/// Number nodes are always valid and never produce diagnostics.
impl Analyze for Number {
    open spec fn spec_valid(&self) -> bool {
        true
    }

    open spec fn spec_warning_count(&self) -> nat {
        0
    }

    open spec fn spec_error_count(&self) -> nat {
        0
    }

    fn valid(&self, project: Option<&ProjectConfig>) -> (r: bool)
        ensures
            r == self.spec_valid(),
    {
        true
    }

    fn warnings(&self, project: Option<&ProjectConfig>, processed: &Processed) -> (r: Vec<
        ConfigCode,
    >)
        ensures
            r@.len() == self.spec_warning_count(),
    {
        Vec::new()
    }

    fn errors(&self, project: Option<&ProjectConfig>, processed: &Processed) -> (r: Vec<
        ConfigCode,
    >)
        ensures
            r@.len() == self.spec_error_count(),
    {
        Vec::new()
    }
}

} // verus!
