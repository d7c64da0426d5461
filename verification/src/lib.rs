//! Reading Unity asset bundles (UnityFS archives) and serialized asset files.
use vstd::prelude::*;

pub mod binary;
pub mod classes;
pub mod containers;
pub mod error;
pub mod keyed;
pub mod material;
pub mod resource;
pub mod serialized_file;
pub mod text;
pub mod type_tree;
pub mod unity_asset_view;
pub mod unityfs;
pub mod until;

verus! {
} // verus!
