//! Finds function definitions, and the ones that carry the autometrics marker,
//! in Go, Python, Rust and TypeScript sources, and adds the marker where it is
//! missing.

pub mod files;
pub mod go;
pub mod imports;
pub mod instrument;
pub mod language;
pub mod listing;
pub mod merge;
pub mod model;
pub mod order;
pub mod paths;
pub mod project;
pub mod python;
pub mod roots;
pub mod rope;
pub mod rust;
pub mod syntax;
pub mod text;
pub mod typescript;

pub use model::{AmlError, FunctionId, FunctionInfo, Language, Location, Position, Range};
pub use instrument::InstrumentFile;
pub use project::{
    ListAmFunctions, Project, ProjectFunctions, SourceFile, list_all_project_functions,
    list_single_project_functions,
};
pub use roots::find_project_roots;
