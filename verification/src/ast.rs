//! What the host's parser reports about one module, as plain values: the
//! reference comments, the structural import descriptors with their text
//! ranges, and the diagnostic it raises for malformed source.

use vstd::prelude::*;

use crate::specifier::ModuleSpecifier;

verus! {

/// A zero-based line and column in a source file.
#[derive(Clone, Copy, PartialEq, Eq, Structural, Debug)]
pub struct Position {
    pub line: usize,
    pub character: usize,
}

/// A displayable source range.
#[derive(Clone, Copy, PartialEq, Eq, Structural, Debug)]
pub struct Range {
    pub start: Position,
    pub end: Position,
}

/// The zero range, used for edges that have no text of their own, such as a
/// header-declared type hint.
pub open spec fn zero_range() -> Range {
    Range {
        start: Position { line: 0, character: 0 },
        end: Position { line: 0, character: 0 },
    }
}

impl Default for Range {
    fn default() -> (r: Self)
        ensures
            r == zero_range(),
    {
        Range {
            start: Position { line: 0, character: 0 },
            end: Position { line: 0, character: 0 },
        }
    }
}

/// The provenance of one resolution: the referring module and the range of
/// the import text within it.
#[derive(Debug)]
pub struct Span {
    pub specifier: ModuleSpecifier,
    pub range: Range,
}

/// Structural equality of provenance, up to the specifier's abstract value.
pub open spec fn span_eq(a: Span, b: Span) -> bool {
    a.specifier@ == b.specifier@ && a.range == b.range
}

impl PartialEq for Span {
    fn eq(&self, other: &Self) -> bool {
        self.specifier == other.specifier && self.range == other.range
    }
}

impl vstd::std_specs::cmp::PartialEqSpecImpl for Span {
    open spec fn obeys_eq_spec() -> bool {
        true
    }

    open spec fn eq_spec(&self, other: &Self) -> bool {
        span_eq(*self, *other)
    }
}

/// A diagnostic the parser raises for source it cannot parse.
#[derive(Debug)]
pub struct Diagnostic {
    pub message: String,
}

/// A triple-slash reference comment: a path reference names code, a types
/// reference names a type declaration file.
#[derive(Debug)]
pub enum TypeScriptReference {
    Path(String, Range),
    Types(String, Range),
}

/// One structural import or export descriptor: the literal import string as
/// written, its range, whether the import is evaluated lazily at runtime, and
/// an inline type-hint comment attached to it, if any.
#[derive(Debug)]
pub struct DependencyDescriptor {
    pub specifier: String,
    pub range: Range,
    pub is_dynamic: bool,
    pub maybe_types: Option<(String, Range)>,
}

/// The parser's analysis of one module.
#[derive(Debug)]
pub struct ParsedModule {
    pub references: Vec<TypeScriptReference>,
    pub descriptors: Vec<DependencyDescriptor>,
}

} // verus!
