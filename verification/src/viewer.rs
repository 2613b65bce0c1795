//! What a viewer is asked to draw.

use vstd::prelude::*;

verus! {

/// What is drawn of a shape.
#[derive(Clone, Copy, Debug, PartialEq, Eq, Structural, Hash)]
pub struct DrawConfig {
    /// Whether the faces of the shape are drawn
    pub draw_model: bool,
    /// Whether the lines of the mesh are drawn
    pub draw_mesh: bool,
    /// Whether the lines that help in finding faults are drawn
    pub draw_debug: bool,
}

impl DrawConfig {
    /// What is drawn where nothing was chosen: the faces, and no lines.
    pub open spec fn spec_default() -> DrawConfig {
        DrawConfig { draw_model: true, draw_mesh: false, draw_debug: false }
    }

    /// Turns the drawing of the faces on if it is off, and off if it is on.
    pub fn toggle_draw_model(&mut self)
        ensures
            *final(self) == (DrawConfig { draw_model: !old(self).draw_model, ..*old(self) }),
    {
        self.draw_model = !self.draw_model;
    }

    /// Turns the drawing of the mesh on or off, where lines can be drawn at
    /// all; where they cannot, nothing changes.
    pub fn toggle_draw_mesh(&mut self, line_drawing_available: bool)
        ensures
            line_drawing_available ==> *final(self) == (DrawConfig {
                draw_mesh: !old(self).draw_mesh,
                ..*old(self)
            }),
            !line_drawing_available ==> *final(self) == *old(self),
    {
        if line_drawing_available {
            self.draw_mesh = !self.draw_mesh;
        }
    }

    /// Turns the drawing of the debug lines on or off, where lines can be
    /// drawn at all; where they cannot, nothing changes.
    pub fn toggle_draw_debug(&mut self, line_drawing_available: bool)
        ensures
            line_drawing_available ==> *final(self) == (DrawConfig {
                draw_debug: !old(self).draw_debug,
                ..*old(self)
            }),
            !line_drawing_available ==> *final(self) == *old(self),
    {
        if line_drawing_available {
            self.draw_debug = !self.draw_debug;
        }
    }
}

impl Default for DrawConfig {
    fn default() -> (config: DrawConfig)
        ensures
            config == DrawConfig::spec_default(),
    {
        DrawConfig { draw_model: true, draw_mesh: false, draw_debug: false }
    }
}

} // verus!
