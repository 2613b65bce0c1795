//! Faces.

use vstd::prelude::*;
use crate::objects::cycle::Cycle;
use crate::objects::surface::Surface;
use crate::storage::Handle;

verus! {

/// The color of a face: red, green, blue and opacity.
#[derive(Clone, Copy, Debug, PartialEq, Eq, Structural, Hash)]
pub struct Color {
    /// Red
    pub r: u8,
    /// Green
    pub g: u8,
    /// Blue
    pub b: u8,
    /// Opacity
    pub a: u8,
}

impl Color {
    /// The color that a face has where none was chosen: opaque red.
    pub open spec fn spec_default() -> Color {
        Color { r: 255, g: 0, b: 0, a: 255 }
    }
}

impl Default for Color {
    fn default() -> (c: Color)
        ensures
            c == Color::spec_default(),
    {
        Color { r: 255, g: 0, b: 0, a: 255 }
    }
}

/// A face: a region of a surface, bounded by one exterior cycle and any
/// number of interior cycles, its holes.
#[derive(Clone, Debug, PartialEq, Eq, Hash)]
pub struct Face {
    surface: Handle<Surface>,
    exterior: Handle<Cycle>,
    interiors: Vec<Handle<Cycle>>,
    color: Color,
}

/// What a face holds.
pub struct FaceView {
    /// The surface that the face lies on
    pub surface: Handle<Surface>,
    /// The cycle that bounds the face on the outside
    pub exterior: Handle<Cycle>,
    /// The cycles that bound the holes of the face
    pub interiors: Seq<Handle<Cycle>>,
    /// The color of the face
    pub color: Color,
}

impl FaceView {
    /// The exterior cycle, then the interior cycles in order.
    pub open spec fn all_cycles(self) -> Seq<Handle<Cycle>> {
        seq![self.exterior] + self.interiors
    }
}

impl View for Face {
    type V = FaceView;

    closed spec fn view(&self) -> FaceView {
        FaceView {
            surface: self.surface,
            exterior: self.exterior,
            interiors: self.interiors@,
            color: self.color,
        }
    }
}

impl Face {
    /// The face with these parts.
    pub fn new(
        surface: Handle<Surface>,
        exterior: Handle<Cycle>,
        interiors: Vec<Handle<Cycle>>,
        color: Color,
    ) -> (f: Face)
        ensures
            f@ == (FaceView { surface, exterior, interiors: interiors@, color }),
    {
        Face { surface, exterior, interiors, color }
    }

    /// The surface that the face lies on.
    pub fn surface(&self) -> (s: &Handle<Surface>)
        ensures
            *s == self@.surface,
    {
        &self.surface
    }

    /// The cycle that bounds the face on the outside.
    pub fn exterior(&self) -> (c: &Handle<Cycle>)
        ensures
            *c == self@.exterior,
    {
        &self.exterior
    }

    /// The cycles that bound the holes of the face.
    pub fn interiors(&self) -> (c: &Vec<Handle<Cycle>>)
        ensures
            c@ == self@.interiors,
    {
        &self.interiors
    }

    /// The exterior cycle, then the interior cycles in order.
    pub fn all_cycles(&self) -> (c: Vec<Handle<Cycle>>)
        ensures
            c@ == self@.all_cycles(),
    {
        let mut cycles: Vec<Handle<Cycle>> = Vec::new();
        cycles.push(self.exterior);
        let mut i: usize = 0;
        while i < self.interiors.len()
            invariant
                i <= self.interiors@.len(),
                cycles@ == seq![self.exterior] + self.interiors@.subrange(0, i as int),
            decreases self.interiors@.len() - i,
        {
            cycles.push(self.interiors[i]);
            i += 1;
            assert(cycles@ =~= seq![self.exterior] + self.interiors@.subrange(0, i as int));
        }
        assert(self.interiors@.subrange(0, i as int) =~= self.interiors@);
        cycles
    }

    /// The color of the face.
    pub fn color(&self) -> (c: Color)
        ensures
            c == self@.color,
    {
        self.color
    }
}

} // verus!
