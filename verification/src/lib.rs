use vstd::prelude::*;

pub mod action;
pub mod animation;
pub mod background;
pub mod blueprint;
pub mod bubble;
pub mod build_mode;
pub mod camera;
pub mod docking;
pub mod faction;
pub mod hit;
pub mod hull;
pub mod input;
pub mod layout;
pub mod inventory;
pub mod modules;
pub mod registry;
pub mod save;
pub mod station;
pub mod text;
pub mod turret;

verus! {
} // verus!
