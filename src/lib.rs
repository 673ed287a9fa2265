//! Grid state, update decoding and input translation for a terminal-like
//! front-end driven by an embedded editor process.
pub mod decode;
pub mod events;
pub mod grid;
pub mod input;
pub mod redraw;
pub mod render;
pub mod state;
pub mod value;
