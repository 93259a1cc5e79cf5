use vstd::prelude::*;

pub mod animation;
pub mod collision;
pub mod level_maker;
pub mod save;
pub mod screen;
pub mod slug;
pub mod slug_maker;
pub mod sprite;
pub mod texture;
pub mod tile;
pub mod types;
