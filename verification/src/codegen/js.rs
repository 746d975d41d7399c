//! The JavaScript dialect.
use vstd::prelude::*;
use crate::codegen::emit::{CodegenError, Dialect, Setting};
use crate::codegen::module::{codegen_module, program_out};
use crate::codegen::runtime::Runtime;
use crate::lang::ast::Block;
use crate::program::{program_wf, NamespaceId, Program};

verus! {

/// The JavaScript text of a program with `main` as its entry block: the runtime in
/// front, then the functions, the entry block as `main_body`, and the lines that run
/// it. `runtime` is the fixed text that JavaScript programs are put together with;
/// `numbers` holds the texts of the number literals.
pub fn js_codegen_module(
    program: &Program,
    runtime: &Runtime,
    main_namespace: NamespaceId,
    main: &Block,
    numbers: &Vec<String>,
) -> (r: Result<String, CodegenError>)
    requires
        program_wf(program@),
        main_namespace < program@.len(),
    ensures
        match program_out(
            Setting {
                dialect: Dialect::Js,
                program: program@,
                namespace: main_namespace,
                numbers: numbers@.map_values(|n: String| n@),
            },
            runtime@,
            main@,
        ) {
            Ok(text) => r is Ok && r->Ok_0@ == text && text.len() > 500,
            Err(m) => r is Err && r->Err_0@ == m,
        },
{
    codegen_module(program, Dialect::Js, runtime, main_namespace, main, numbers)
}

} // verus!
