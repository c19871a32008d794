//! Parsing for the local client's own data files.

pub mod controller;
pub mod model;

pub use self::controller::ControllerYaml;
pub use self::model::ModelYaml;
