//! Text adventures made of scene files: each scene is a description
//! followed by action rules that react to what the player types.

pub mod text;
pub mod grammar;
pub mod action;
pub mod scene;
pub mod game;
pub mod adventure;
