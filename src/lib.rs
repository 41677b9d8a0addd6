//! Generation of managed-language FFI bindings from export descriptors.
//!
//! The pipeline classifies each exported type, synthesizes the marshalling
//! statements for the types that need them, assembles a typed syntax tree of
//! the target language and lowers it to a generic token stream that is
//! formatted and rendered to source text.

pub mod text;
pub mod descriptor;
pub mod level_0;
pub mod level_1;
pub mod ast;
pub mod case;
pub mod codegen;
pub mod level_2;
pub mod new_codegen;
pub mod platform;
pub mod path_ext;
pub mod csproj;
pub mod format_level_0;
pub mod passes;
pub mod bindings;
pub mod section;
