pub mod detectors;
pub mod model;
pub mod pattern;
pub mod text;
pub mod syntax;
pub mod ts_bridge;
pub mod host;
pub mod languages;
pub mod agent;
pub mod settings;
pub mod reporters;
