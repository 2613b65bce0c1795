//! Validation: finding out whether objects are what they are meant to be.
//!
//! Validation only reports. It changes nothing and refuses nothing; what to
//! do about an error is the caller's decision.

pub mod coincidence;
pub mod edges;
pub mod shell;
pub mod watertight;

use vstd::prelude::*;
use crate::objects::store::{Objects, ObjectsView};
use crate::validate::shell::ShellValidationError;

verus! {

/// The distances that validation goes by, in lattice units.
#[derive(Clone, Copy, Debug, PartialEq, Eq, Structural, Hash)]
pub struct ValidationConfig {
    /// Two half-edges that trace different global edges must somewhere be at
    /// least this far apart.
    pub distinct_min_distance: u32,
    /// Two half-edges that trace the same global edge may nowhere be further
    /// apart than this.
    pub identical_max_distance: u32,
}

impl ValidationConfig {
    /// The distances that validation goes by where none are chosen: what is
    /// the same edge must coincide exactly, and what is closer than one
    /// lattice unit all along coincides.
    pub open spec fn spec_default() -> ValidationConfig {
        ValidationConfig { distinct_min_distance: 1, identical_max_distance: 0 }
    }
}

impl Default for ValidationConfig {
    fn default() -> (c: ValidationConfig)
        ensures
            c == ValidationConfig::spec_default(),
    {
        ValidationConfig { distinct_min_distance: 1, identical_max_distance: 0 }
    }
}

/// Validation of an object.
pub trait Validate {
    /// What the store must hold for the object to be validated.
    spec fn validate_requires(&self, objects: ObjectsView) -> bool;

    /// Every error of the object, in the order in which validation finds
    /// them.
    spec fn spec_errors(&self, objects: ObjectsView, config: ValidationConfig) -> Seq<
        ValidationError,
    >;

    /// Validates the object by the given distances, and appends every error
    /// that it finds.
    fn validate_with_config(
        &self,
        objects: &Objects,
        config: &ValidationConfig,
        errors: &mut Vec<ValidationError>,
    )
        requires
            self.validate_requires(objects@),
        ensures
            final(errors)@ == old(errors)@ + self.spec_errors(objects@, *config),
    ;

    /// Validates the object by the default distances, and appends every
    /// error that it finds.
    fn validate(&self, objects: &Objects, errors: &mut Vec<ValidationError>)
        requires
            self.validate_requires(objects@),
        ensures
            final(errors)@ == old(errors)@ + self.spec_errors(
                objects@,
                ValidationConfig::spec_default(),
            ),
    {
        let config = ValidationConfig::default();
        self.validate_with_config(objects, &config, errors)
    }

    /// Validates the object by the default distances, and returns the first
    /// error, if there is any.
    fn validate_and_return_first_error(&self, objects: &Objects) -> (r: Result<
        (),
        ValidationError,
    >)
        requires
            self.validate_requires(objects@),
        ensures
            r is Ok <==> self.spec_errors(objects@, ValidationConfig::spec_default()).len() == 0,
            r matches Err(first) ==> first == self.spec_errors(
                objects@,
                ValidationConfig::spec_default(),
            )[0],
    {
        let mut errors: Vec<ValidationError> = Vec::new();
        self.validate(objects, &mut errors);
        assert(errors@ =~= self.spec_errors(objects@, ValidationConfig::spec_default()));
        if errors.len() > 0 {
            Err(errors[0])
        } else {
            Ok(())
        }
    }
}

/// An error that validation found.
#[derive(Clone, Copy, Debug, PartialEq, Eq, Hash)]
pub enum ValidationError {
    /// A shell is not what it is meant to be
    Shell(ShellValidationError),
}

impl ValidationError {
    /// Whether the error says that a shell is not watertight.
    pub fn is_not_watertight(&self) -> (r: bool)
        ensures
            r == (*self == ValidationError::Shell(ShellValidationError::NotWatertight)),
    {
        match self {
            ValidationError::Shell(ShellValidationError::NotWatertight) => true,
            _ => false,
        }
    }

    /// Whether the error says that two half-edges coincide but trace
    /// different global edges.
    pub fn is_coincident_not_identical(&self) -> (r: bool)
        ensures
            r == (*self matches ValidationError::Shell(e) && e is CoincidentEdgesNotIdentical),
    {
        match self {
            ValidationError::Shell(ShellValidationError::CoincidentEdgesNotIdentical(_, _)) => true,
            _ => false,
        }
    }

    /// Whether the error says that two half-edges trace the same global edge
    /// but do not coincide.
    pub fn is_identical_not_coincident(&self) -> (r: bool)
        ensures
            r == (*self matches ValidationError::Shell(e) && e is IdenticalEdgesNotCoincident),
    {
        match self {
            ValidationError::Shell(ShellValidationError::IdenticalEdgesNotCoincident { .. }) => {
                true
            },
            _ => false,
        }
    }
}

} // verus!
