use vstd::prelude::*;

pub mod abyss_build;
pub mod abyss_data;
pub mod abyss_keys;
pub mod api;
pub mod colors;
pub mod combat;
pub mod devices;
pub mod json;
pub mod labels;
pub mod monster_images;
pub mod ranking;
pub mod search;
pub mod selection;
pub mod settings;
pub mod text;

verus! {
} // verus!
