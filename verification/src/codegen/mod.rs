//! The code generators: one walk over the program, three dialects of output.
pub mod c;
pub mod context;
pub mod emit;
pub mod js;
pub mod mentions;
pub mod module;
pub mod rs;
pub mod runtime;
pub mod success;
pub mod target;

pub use c::c_codegen_module;
pub use context::CodegenContext;
pub use emit::Dialect;
pub use js::js_codegen_module;
pub use module::codegen_module;
pub use module::number_literals;
pub use rs::rs_codegen_module;
pub use runtime::Runtime;
pub use target::CodegenTarget;
