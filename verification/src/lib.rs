//! Core model of a map tile viewer: tile requests and their queue, the tile
//! cache, the atlas of layers and maps, settings paths and units of measurement.
#![allow(unused_imports)]

pub mod foreign;
pub mod clock;
pub mod text;
pub mod paths;
pub mod id;
pub mod units;
pub mod tiles;
pub mod map;
pub mod root;
pub mod settings;
pub mod persistence;
pub mod gui;
pub mod geo;
pub mod gpx;
pub mod laws;
