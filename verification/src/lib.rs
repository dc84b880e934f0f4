//! Conversion of EasyEDA CAD component data (schematic symbols, PCB
//! footprints, 3D meshes) into KiCad's textual library formats.
//!
//! The pipeline is decode -> normalize -> encode: a tolerant parser for the
//! tilde/caret-delimited shape-string grammar, a geometric normalizer that
//! recenters and unit-converts the decoded entities, and a serializer that
//! renders KiCad s-expression text. All geometry is carried in fixed-point
//! integers (nanometers for lengths, millidegrees for angles), so every step
//! is exact and fully specified.

pub mod converter;
pub mod easyeda_models;
pub mod error;
pub mod geometry;
pub mod grammar;
pub mod importer;
pub mod kicad_models;
pub mod mapper;
pub mod mesh;
pub mod numbers;
pub mod serializer;
pub mod text;
