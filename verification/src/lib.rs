//! A retained-mode text console, and a small roguelike that is played in
//! it.
//!
//! A console is a sparse grid of coloured glyphs. It is turned into quad
//! geometry only when its contents have changed: `render` hands out vertex
//! and index buffers for a dirty console, and nothing but a draw count for a
//! clean one. The game keeps its level, its objects and its messages, and
//! draws them into consoles of its own.
//!
//! Everything here works on whole numbers. A vertex names its place by cell
//! and corner and its texture coordinate as an undivided quotient; where a
//! console lies on the screen, which takes real-valued arithmetic, is left
//! to the renderer that consumes the buffers.

pub mod batch;
pub mod builder;
pub mod color;
pub mod colors;
pub mod console;
pub mod font;
pub mod fov;
pub mod game;
pub mod game_handler;
pub mod glyph;
pub mod grid;
pub mod laws;
pub mod map;
pub mod numeric;
pub mod object;
mod random;
pub mod resources;
pub mod shader;
pub mod theme;
pub mod vertex_format;
pub mod viewport;
pub mod widgets;
