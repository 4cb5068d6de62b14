//! Verified core of a Quake level toolkit: TrenchBroom game configuration types,
//! FGD (entity definition) generation and parsing, asset manifests, and the
//! integer grid used to build irradiance volumes from BSP light grids.

pub mod tb_types;
pub mod text;
pub mod class;
pub mod registry;
pub mod fgd;
pub mod fgd_write;
pub mod shape;
pub mod irradiance;
pub mod light_grid;
pub mod hooks;
pub mod json;
pub mod game_config;
pub mod manifest;
pub mod definitions;
pub mod builtin;
pub mod images;
pub mod insertion;
pub mod bsp_models;
pub mod preferences;
pub mod class_name;
