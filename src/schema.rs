//! The child relation that decides where an unknown-size container ends.
use vstd::prelude::*;

verus! {

/// One step of the path that a specification gives for a tag identifier:
/// the identifiers of the containers it may sit in, outermost first.
#[derive(Clone, Copy, Debug)]
pub enum PathStep {
    /// A container with this identifier.
    Id(u64),
    /// Any container, at a depth between the bounds.
    Global { min: Option<u64>, max: Option<u64> },
}

/// A tag whose path is `path` is a valid child of container `parent` when
/// the path ends in `parent`, or ends in a global step, which admits any
/// container.
pub open spec fn child_by_path(parent: u64, path: Seq<PathStep>) -> bool {
    path.len() > 0 && match path.last() {
        PathStep::Id(p) => p == parent,
        PathStep::Global { .. } => true,
    }
}

/// Whether a tag with path `path` is a valid child of container `parent`.
pub fn is_child_by_path(parent: u64, path: &[PathStep]) -> (r: bool)
    ensures
        r == child_by_path(parent, path@),
{
    let n = path.len();
    if n == 0 {
        return false;
    }
    match path[n - 1] {
        PathStep::Id(p) => p == parent,
        PathStep::Global { .. } => true,
    }
}

} // verus!
