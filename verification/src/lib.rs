//! Core logic of the lychee image viewer: which files are images, how the
//! command line paths become the list of images, how key presses map to
//! viewer commands, and how the viewer's state evolves from one command to
//! the next.
pub mod app;
pub mod cache;
pub mod cli;
pub mod decode;
pub mod framebuffer;
pub mod img;
pub mod keybindings;
pub mod laws;
pub mod orient;
pub mod text;

pub use app::{App, Message};
pub use cli::{Args, ArgsError};
pub use img::{collect_paths, is_hidden_file, is_image_file};
pub use keybindings::{handle_key_event, Key, NamedKey};
pub use decode::load_image;
pub use orient::orient;
