//! Canonical re-printer for a parametric-modeling scripting language.
//!
//! Given a parsed program tree, the library deterministically reconstructs
//! formatted source text: comments, blank-line intent and shebang lines are
//! preserved, while whitespace, indentation and line-wrapping are normalized
//! by fixed layout rules.  Every printer carries a contract pinning its exact
//! output, stated over a `Seq<char>` model of the rendered text in
//! `crate::model`.

use vstd::prelude::*;

pub mod ast;
pub mod laws;
pub mod model;
pub mod options;
pub mod text;
pub mod unparser;

verus! {

/// A parsed program: the unit the public rendering entry points take.
pub struct Program {
    /// The syntax tree, as produced by an external parser.
    pub ast: crate::ast::Program,
}

impl Program {
    /// Renders the program with the default formatting options:
    /// two-space indentation and a forced trailing newline.
    pub fn recast(&self) -> (r: String)
        requires
            crate::ast::program_wf(self.ast),
        ensures
            r@ == crate::model::program_text(
                self.ast,
                (crate::options::FormatOptions {
                    tab_size: 2,
                    use_tabs: false,
                    insert_final_newline: true,
                }),
                0,
            ),
    {
        let options = crate::options::FormatOptions::default();
        self.ast.recast(&options, 0)
    }

    /// Renders the program with the given formatting options.
    pub fn recast_with_options(&self, options: &crate::options::FormatOptions) -> (r: String)
        requires
            crate::ast::program_wf(self.ast),
        ensures
            r@ == crate::model::program_text(self.ast, *options, 0),
    {
        self.ast.recast(options, 0)
    }
}

} // verus!
