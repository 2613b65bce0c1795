//! Validation of shells.
//!
//! Two things are checked. The half-edges of a shell must agree on what is
//! the same edge, and the shell must be watertight.

use vstd::prelude::*;
use crate::objects::edge::HalfEdge;
use crate::objects::face::Face;
use crate::objects::shell::Shell;
use crate::objects::store::{Objects, ObjectsView};
use crate::objects::surface::Surface;
use crate::storage::Handle;
use crate::validate::coincidence::spec_coincidence_errors;
use crate::validate::edges::{spec_edges_have_middles, spec_shell_edges};
use crate::validate::watertight::spec_watertight;
use crate::validate::{Validate, ValidationConfig, ValidationError};

verus! {

/// What validation can find wrong with a shell.
#[derive(Clone, Copy, Debug, PartialEq, Eq, Hash)]
pub enum ShellValidationError {
    /// A global edge is not traced by exactly two half-edges of the shell.
    NotWatertight,
    /// Two half-edges coincide, but trace different global edges.
    CoincidentEdgesNotIdentical(Handle<HalfEdge>, Handle<HalfEdge>),
    /// Two half-edges trace the same global edge, but do not coincide.
    IdenticalEdgesNotCoincident {
        /// The first half-edge
        edge_1: Handle<HalfEdge>,
        /// The surface that the first half-edge is on
        surface_1: Handle<Surface>,
        /// The second half-edge
        edge_2: Handle<HalfEdge>,
        /// The surface that the second half-edge is on
        surface_2: Handle<Surface>,
    },
}

/// Every error of a shell: the errors of the pairs of its half-edges, then
/// one more if it is not watertight.
pub open spec fn spec_shell_errors(
    objects: ObjectsView,
    config: ValidationConfig,
    shell: Seq<Handle<Face>>,
) -> Seq<ValidationError> {
    let edges = spec_shell_edges(objects, shell);
    let coincidence = spec_coincidence_errors(objects, config, edges, edges.len() as int);
    if spec_watertight(objects, edges) {
        coincidence
    } else {
        coincidence.push(ValidationError::Shell(ShellValidationError::NotWatertight))
    }
}

impl Validate for Shell {
    open spec fn validate_requires(&self, objects: ObjectsView) -> bool {
        &&& objects.holds_shell(self@)
        &&& spec_edges_have_middles(objects, spec_shell_edges(objects, self@))
    }

    open spec fn spec_errors(&self, objects: ObjectsView, config: ValidationConfig) -> Seq<
        ValidationError,
    > {
        spec_shell_errors(objects, config, self@)
    }

    fn validate_with_config(
        &self,
        objects: &Objects,
        config: &ValidationConfig,
        errors: &mut Vec<ValidationError>,
    ) {
        let ghost before = errors@;
        ShellValidationError::validate_edges_coincident(self, objects, config, errors);
        let ghost between = errors@;
        ShellValidationError::validate_watertight(self, objects, errors);
        assert(errors@ =~= before + spec_shell_errors(objects@, *config, self@));
    }
}

} // verus!
