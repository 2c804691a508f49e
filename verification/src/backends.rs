//! Discovery of clickable regions.
//!
//! A backend yields the targets on screen together with the region that
//! scopes them, if any. Backends are tried in their configured order, and
//! the first one that finds a target wins.

use crate::hints::{Child, Extents};
use vstd::prelude::*;
use vstd::string::StringExecFns;

pub mod atspi_backend;
pub mod focus;
pub mod opencv_backend;
pub mod paths;
pub mod walk;

verus! {

/// What a backend found: the targets, and the region that they were scoped
/// to. Where there is a region, every target lies inside it.
#[derive(Debug, Clone, PartialEq, Eq)]
pub struct BackendResult {
    pub children: Vec<Child>,
    pub focus_extents: Option<Extents>,
}

impl BackendResult {
    /// Every target has positive sides and lies inside the region, if
    /// there is one.
    pub open spec fn well_formed(self) -> bool {
        walk::all_inside(self.children@, self.focus_extents)
    }
}

/// Why a backend has nothing to offer.
#[derive(Debug, Clone, PartialEq, Eq)]
pub enum BackendError {
    /// The backend found no target at all.
    NoTargets,
    /// The backend could not do its work; the text says why.
    Failed(String),
}

/// A source of targets.
pub trait Backend {
    fn name(&self) -> &'static str;

    fn get_children(&mut self) -> Result<BackendResult, BackendError>;
}

/// The backends that can be configured.
#[derive(Debug, Clone, Copy, PartialEq, Eq, Structural)]
pub enum BackendKind {
    Atspi,
    OpenCv,
}

/// The backend that a configured name means, if it means one.
pub open spec fn spec_backend_kind(name: Seq<char>) -> Option<BackendKind> {
    if name == "atspi"@ {
        Some(BackendKind::Atspi)
    } else if name == "opencv"@ {
        Some(BackendKind::OpenCv)
    } else {
        None
    }
}

/// The backends that the names mean, in the order of the names; a name that
/// means none is passed over.
pub open spec fn spec_build_backends(names: Seq<String>) -> Seq<BackendKind>
    decreases names.len(),
{
    if names.len() == 0 {
        Seq::empty()
    } else {
        match spec_backend_kind(names.last()@) {
            Some(kind) => spec_build_backends(names.drop_last()).push(kind),
            None => spec_build_backends(names.drop_last()),
        }
    }
}

/// The backends to try, in order, for the configured names.
pub fn build_backends(enable: &Vec<String>) -> (kinds: Vec<BackendKind>)
    ensures
        kinds@ == spec_build_backends(enable@),
{
    let atspi = String::from_str("atspi");
    let opencv = String::from_str("opencv");
    let mut kinds: Vec<BackendKind> = Vec::new();
    let mut i: usize = 0;
    assert(enable@.take(0) =~= Seq::<String>::empty());
    while i < enable.len()
        invariant
            i <= enable@.len(),
            atspi@ == "atspi"@,
            opencv@ == "opencv"@,
            kinds@ == spec_build_backends(enable@.take(i as int)),
        decreases enable@.len() - i,
    {
        assert(enable@.take(i + 1).drop_last() =~= enable@.take(i as int));
        if enable[i] == atspi {
            kinds.push(BackendKind::Atspi);
        } else if enable[i] == opencv {
            kinds.push(BackendKind::OpenCv);
        }
        i = i + 1;
    }
    assert(enable@.take(i as int) =~= enable@);
    kinds
}

/// What a backend's answer is worth: its result if it holds a target, else
/// the reason why it holds none.
pub open spec fn spec_usable(answer: Result<BackendResult, BackendError>) -> Result<
    BackendResult,
    BackendError,
> {
    match answer {
        Ok(result) => if result.children@.len() > 0 {
            Ok(result)
        } else {
            Err(BackendError::NoTargets)
        },
        Err(error) => Err(error),
    }
}

/// Tells a result with targets from one without: an empty result is no
/// success.
pub fn usable(answer: Result<BackendResult, BackendError>) -> (outcome: Result<
    BackendResult,
    BackendError,
>)
    ensures
        outcome == spec_usable(answer),
{
    match answer {
        Ok(result) => {
            if result.children.len() > 0 {
                Ok(result)
            } else {
                Err(BackendError::NoTargets)
            }
        },
        Err(error) => Err(error),
    }
}

/// The targets of a discovery run.
#[derive(Debug, PartialEq, Eq)]
pub struct Discovered {
    /// The position of the backend that found the targets.
    pub backend: usize,
    /// The name of that backend.
    pub name: &'static str,
    pub result: BackendResult,
    /// Why each backend before that one had nothing to offer.
    pub failures: Vec<BackendError>,
}

/// No backend found a target.
#[derive(Debug, PartialEq, Eq)]
pub struct NothingDiscovered {
    /// Why each backend had nothing to offer, one for each backend.
    pub failures: Vec<BackendError>,
}

impl NothingDiscovered {
    /// The error in words.
    pub fn message(&self) -> (text: String)
        ensures
            text@ == "no children gathered from any backend; check accessibility setup"@,
    {
        String::from_str("no children gathered from any backend; check accessibility setup")
    }
}

/// Tries the backends in order and stops at the first that finds a target.
///
/// Success names that backend and holds a reason for each backend before
/// it. Failure means that every backend was tried, and holds a reason for
/// each.
pub fn discover(backends: &mut Vec<Box<dyn Backend>>) -> (found: Result<
    Discovered,
    NothingDiscovered,
>)
    ensures
        final(backends)@.len() == old(backends)@.len(),
        match found {
            Ok(discovered) => {
                &&& discovered.backend < old(backends)@.len()
                &&& discovered.failures@.len() == discovered.backend
                &&& discovered.result.children@.len() > 0
            },
            Err(nothing) => nothing.failures@.len() == old(backends)@.len(),
        },
{
    let mut failures: Vec<BackendError> = Vec::new();
    let mut i: usize = 0;
    while i < backends.len()
        invariant
            i <= backends@.len(),
            backends@.len() == old(backends)@.len(),
            failures@.len() == i,
        decreases backends@.len() - i,
    {
        let answer = backends[i].get_children();
        match usable(answer) {
            Ok(result) => {
                let name = backends[i].name();
                return Ok(Discovered { backend: i, name, result, failures });
            },
            Err(error) => {
                failures.push(error);
            },
        }
        i = i + 1;
    }
    Err(NothingDiscovered { failures })
}

} // verus!
