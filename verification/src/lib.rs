use vstd::prelude::*;

pub mod background;
pub mod color;
pub mod command;
pub mod compositor;
pub mod config;
pub mod decoration;
pub mod event;
pub mod handles;
pub mod image;
pub mod laws;
pub mod protocol;
pub mod rect;
pub mod scheme;
pub mod tile;
pub mod window;
pub mod window_order;

verus! {
} // verus!
