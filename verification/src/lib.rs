//! Conversion of MGSDRV `.MUS` music text into Standard MIDI File events.

pub mod cli;
pub mod commanded;
pub mod conversion;
pub mod diagnostics;
pub mod fraction;
pub mod ir;
pub mod json;
pub mod name_map;
pub mod parser;
pub mod render;
pub mod report;
pub mod smfmap;
pub mod text;
pub mod told;
pub mod views;
pub mod yaml;
