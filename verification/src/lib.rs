//! Demangler for a legacy C++ compiler's name-mangling scheme.
//!
//! The pipeline expands an optional back-reference compression wrapper,
//! infers the length prefix of the leading identifier, parses the mangled
//! grammar into a `Name` tree, and renders that tree as readable text.
//! Every stage is total: on any malformation the top-level entry point
//! falls back to echoing its input as an opaque identifier.

use vstd::prelude::*;

mod ast;
mod decompress;
mod grammar;
mod parser;
mod render;
mod splitter;
mod tables;
mod text;

pub use ast::Modifier;
pub use ast::ModifierV;
pub use ast::Name;
pub use ast::NameV;
pub use decompress::decompress;
pub use parser::ListOutcome;
pub use parser::ParseOutcome;
pub use parser::arguments;
pub use parser::read_function;
pub use parser::read_name;
pub use parser::read_names;
pub use parser::template;
pub use render::render;
pub use splitter::preprocess;
pub use tables::get_base_types;
pub use tables::get_name_modifiers;
pub use tables::get_special_names;

verus! {

/// What `demangle` returns: the tree parsed from the decompressed and
/// length-prefixed input, or the input itself as an opaque identifier
/// when any stage fails.
pub open spec fn spec_demangle(x: Seq<char>) -> NameV {
    match decompress::spec_decompress(x) {
        None => NameV::Identifier(x),
        Some(flat) => match grammar::spec_read_function(splitter::spec_preprocess(flat), 0) {
            grammar::SpecParse::Found(nv, p) => nv,
            _ => NameV::Identifier(x),
        },
    }
}

/// Decodes a mangled symbol name into a `Name` tree. Total: on any
/// decompression malformation, parse failure or names-list index
/// violation, the input comes back unchanged as an opaque identifier.
pub fn demangle(x: String) -> (r: Name)
    ensures
        r@ == spec_demangle(x@),
{
    let flat = match decompress::decompress(x.as_str()) {
        Some(f) => f,
        None => {
            return Name::Identifier(x);
        },
    };
    let pre = splitter::preprocess(flat);
    match parser::read_function(pre.as_str(), 0) {
        parser::ParseOutcome::Found(n, _) => n,
        _ => Name::Identifier(x),
    }
}

/// Law: the pipeline is referentially transparent. Two runs over equal
/// inputs produce trees with one mirror, and rendering such trees gives
/// one text: `demangle` pins its result to `spec_demangle` and `render`
/// pins its result to `spec_render`, so repeated runs cannot differ.
pub proof fn lemma_round_trip_stability(x1: Seq<char>, x2: Seq<char>, n1: NameV, n2: NameV)
    requires
        x1 == x2,
        n1 == spec_demangle(x1),
        n2 == spec_demangle(x2),
    ensures
        n1 == n2,
        render::spec_render(n1) == render::spec_render(n2),
{
}

/// Law: when a stage fails, the fallback echoes the input: the result is
/// exactly the input wrapped as an opaque identifier, whose rendering is
/// the input text itself.
pub proof fn lemma_fallback_echoes_input(x: Seq<char>)
    requires
        match decompress::spec_decompress(x) {
            Some(flat) => !(grammar::spec_read_function(splitter::spec_preprocess(flat), 0)
                is Found),
            None => true,
        },
    ensures
        spec_demangle(x) == NameV::Identifier(x),
        render::spec_render(spec_demangle(x)) == x,
{
}

} // verus!
