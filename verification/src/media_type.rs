//! The classification of a module's content. Classifying from an extension
//! or a declared content type is the host's concern; the graph only compares
//! the resulting kind.

use vstd::prelude::*;

verus! {

/// A module's content kind. Plain script and JSX cannot carry inline type
/// syntax, which is why a types reference in such a module becomes the
/// module's single borrowed types dependency.
#[derive(Clone, Copy, PartialEq, Eq, Structural, Debug)]
pub enum MediaType {
    JavaScript,
    Jsx,
    TypeScript,
    Tsx,
    Dts,
    Json,
    Unknown,
}

} // verus!
