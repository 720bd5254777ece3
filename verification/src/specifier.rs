//! Absolute module specifiers.
//!
//! Parsing and normalising specifier text is the host's concern; the graph
//! only reads a specifier's scheme and treats the full text as an opaque key,
//! so a specifier is held here as those two plain values.

use vstd::prelude::*;

verus! {

/// The scheme of an absolute specifier, as far as the graph's policies read it.
#[derive(Clone, Copy, PartialEq, Eq, Structural, Debug)]
pub enum Scheme {
    /// A secure remote scheme (`https:`).
    Https,
    /// An insecure remote scheme (`http:`).
    Http,
    /// The local file scheme.
    File,
    /// Any other scheme (`data:`, `blob:`, ...).
    Other,
}

/// An absolute, normalized module identifier: the unique key throughout the
/// graph. Immutable once created.
#[derive(Debug)]
pub struct ModuleSpecifier {
    pub scheme: Scheme,
    pub text: String,
}

impl View for ModuleSpecifier {
    type V = (Scheme, Seq<char>);

    open spec fn view(&self) -> (Scheme, Seq<char>) {
        (self.scheme, self.text@)
    }
}

impl PartialEq for ModuleSpecifier {
    fn eq(&self, other: &Self) -> bool {
        self.scheme == other.scheme && self.text == other.text
    }
}

impl vstd::std_specs::cmp::PartialEqSpecImpl for ModuleSpecifier {
    open spec fn obeys_eq_spec() -> bool {
        true
    }

    open spec fn eq_spec(&self, other: &Self) -> bool {
        self@ == other@
    }
}

impl Clone for ModuleSpecifier {
    fn clone(&self) -> (r: Self)
        ensures
            r@ == self@,
    {
        ModuleSpecifier { scheme: self.scheme, text: self.text.clone() }
    }
}

/// Failure to parse an import string into an absolute specifier, reported by
/// the host's default resolution. Compared structurally.
#[derive(Clone, Copy, PartialEq, Eq, Structural, Debug)]
pub enum SpecifierError {
    /// The import string is not a valid absolute or relative identifier.
    InvalidUrl,
    /// A bare specifier was given where a prefixed one is required.
    ImportPrefixMissing,
}

} // verus!
