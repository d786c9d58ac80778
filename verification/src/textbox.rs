//! A line of text on the screen.
use vstd::prelude::*;
use crate::vector::{Vec2, Vec3};

verus! {

/// The colour that a new text box is drawn in: full red, green and blue.
pub open spec fn white() -> Vec3 {
    Vec3 { x: 255, y: 255, z: 255 }
}

/// A text, where it stands on the screen, its colour in red, green and
/// blue, and whether it is shown.
pub struct TextBox {
    position: Vec2,
    pub text: String,
    is_visible: bool,
    text_color: Vec3,
}

impl TextBox {
    pub closed spec fn position(&self) -> Vec2 {
        self.position
    }

    pub closed spec fn visible(&self) -> bool {
        self.is_visible
    }

    /// The characters of the text.
    pub closed spec fn content(&self) -> Seq<char> {
        self.text@
    }

    pub closed spec fn color(&self) -> Vec3 {
        self.text_color
    }

    /// A visible, white text box at `pos`.
    pub fn new(pos: Vec2, st: &str) -> (r: TextBox)
        ensures
            r.position() == pos,
            r.content() == st@,
            r.visible(),
            r.color() == white(),
    {
        TextBox {
            position: pos,
            text: st.to_owned(),
            is_visible: true,
            text_color: Vec3 { x: 255, y: 255, z: 255 },
        }
    }

    pub fn set_color(&mut self, color: Vec3)
        ensures
            final(self).color() == color,
            final(self).position() == old(self).position(),
            final(self).content() == old(self).content(),
            final(self).visible() == old(self).visible(),
    {
        self.text_color = color;
    }

    pub fn get_color(&self) -> (c: Vec3)
        ensures
            c == self.color(),
    {
        self.text_color
    }

    pub fn set_visibility(&mut self, visible: bool)
        ensures
            final(self).visible() == visible,
            final(self).position() == old(self).position(),
            final(self).content() == old(self).content(),
            final(self).color() == old(self).color(),
    {
        self.is_visible = visible;
    }

    pub fn is_visible(&self) -> (v: bool)
        ensures
            v == self.visible(),
    {
        self.is_visible
    }

    pub fn set_position(&mut self, pos: Vec2)
        ensures
            final(self).position() == pos,
            final(self).visible() == old(self).visible(),
            final(self).content() == old(self).content(),
            final(self).color() == old(self).color(),
    {
        self.position = pos;
    }

    pub fn get_position(&self) -> (p: Vec2)
        ensures
            p == self.position(),
    {
        self.position
    }
}

} // verus!
