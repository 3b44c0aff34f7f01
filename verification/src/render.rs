//! Rendering: the traits that a renderer and its factory implement, and the
//! drawing of the presence as a list of commands for a pixel surface.
use crate::shared::{status_text, text_or_placeholder, SharedPresenceView};
use vstd::prelude::*;

verus! {

/// A renderer could not draw, or could not be built.
#[derive(Debug)]
pub struct RenderError {
    pub message: String,
}

/// Something that paints itself onto a surface of type `D`.
pub trait Render<D> {
    fn render(&self, canvas: &mut D) -> Result<(), RenderError>;
}

/// Builds a renderer from its configuration.
pub trait RenderFactory<D> {
    fn render_name(&self) -> &'static str;

    fn render_description(&self) -> &'static str;

    fn load_from_config(&self) -> Result<Box<dyn Render<D>>, RenderError>;
}

/// The fonts of the two lines.
#[derive(Clone, Copy, Debug, PartialEq, Eq)]
pub enum Font {
    Mono6x10,
    Mono5x7,
}

/// One operation on the surface. Text is white and left-aligned at (`x`, `y`).
#[derive(Debug)]
pub enum DrawCommand {
    /// Fill the whole surface with black.
    Clear,
    Text { text: String, x: i32, y: i32, font: Font },
}

/// A command draws `text` at (`x`, `y`) in `font`.
pub open spec fn draws(c: DrawCommand, text: Seq<char>, x: i32, y: i32, font: Font) -> bool {
    match c {
        DrawCommand::Text { text: t, x: cx, y: cy, font: f } => t@ == text && cx == x && cy == y
            && f == font,
        DrawCommand::Clear => false,
    }
}

/// The commands that draw the published presence: none while nothing has been
/// published; else a clear, the person's name at (0, 15) and the status line
/// at (0, 40).
pub fn draw_commands(view: &SharedPresenceView) -> (commands: Vec<DrawCommand>)
    ensures
        match view.state {
            None => commands@.len() == 0,
            Some(s) => {
                &&& commands@.len() == 3
                &&& commands@[0] is Clear
                &&& draws(commands@[1], text_or_placeholder(view.person_name), 0, 15, Font::Mono6x10)
                &&& draws(commands@[2], status_text(s@, view.person_status), 0, 40, Font::Mono5x7)
            },
        },
{
    let mut commands: Vec<DrawCommand> = Vec::new();
    match view.lines() {
        None => {},
        Some((name, status)) => {
            commands.push(DrawCommand::Clear);
            commands.push(DrawCommand::Text { text: name, x: 0, y: 15, font: Font::Mono6x10 });
            commands.push(DrawCommand::Text { text: status, x: 0, y: 40, font: Font::Mono5x7 });
        },
    }
    commands
}

} // verus!
