//! Scene-graph prefab loading: node extents, a shared material table, a
//! multi-pass sub-asset resolver and the attachment of resolved node
//! fragments onto entities; with the change stack of UI button actions and
//! the physically based drawing pass.

pub mod assets;
pub mod attach;
pub mod extent;
pub mod material;
pub mod prefab;
pub mod render;
pub mod scene;
pub mod ui;
