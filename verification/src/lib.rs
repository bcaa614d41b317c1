//! The verified core of a terminal front-end for a music playback daemon:
//! the key-binding and column-format grammars, the key-code codec, the
//! action resolver and dispatch table, the adaptive column layout engine,
//! and the marquee scroller, with the configuration model that ties them
//! together.

pub mod config;
pub mod constants;
pub mod dispatch;
pub mod format;
pub mod keymap;
pub mod keys;
pub mod model;
pub mod parser;
pub mod server_info;
pub mod text;
pub mod util;
pub mod view;
