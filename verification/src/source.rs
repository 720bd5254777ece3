//! The collaborator interfaces the builder consumes, and the plain load
//! request/response values exchanged with them. Real implementations may be
//! shared across concurrent call sites behind their own mutual exclusion;
//! nothing is promised here about what they return, and every contract in the
//! graph holds for every outcome.

use vstd::prelude::*;

use crate::ast::{Diagnostic, ParsedModule};
use crate::media_type::MediaType;
use crate::specifier::{ModuleSpecifier, SpecifierError};

verus! {

/// The response metadata the graph reads: the values behind the header map's
/// case-insensitive "content-type" and "x-typescript-types" lookups.
#[derive(Debug)]
pub struct ResponseHeaders {
    pub maybe_content_type: Option<String>,
    pub maybe_types: Option<String>,
}

/// The content type a response's metadata declares, if any.
pub open spec fn declared_content_type(maybe_headers: Option<ResponseHeaders>) -> Option<
    Seq<char>,
> {
    match maybe_headers {
        Option::Some(headers) => match headers.maybe_content_type {
            Option::Some(content_type) => Option::Some(content_type@),
            Option::None => Option::None,
        },
        Option::None => Option::None,
    }
}

/// The type hint a response's metadata declares out of band, if any.
pub open spec fn declared_types_header(maybe_headers: Option<ResponseHeaders>) -> Option<
    Seq<char>,
> {
    match maybe_headers {
        Option::Some(headers) => match headers.maybe_types {
            Option::Some(types) => Option::Some(types@),
            Option::None => Option::None,
        },
        Option::None => Option::None,
    }
}

/// The declared content type, to classify by; absent metadata behaves
/// exactly like metadata without a content type.
pub fn content_type_of(maybe_headers: &Option<ResponseHeaders>) -> (r: Option<&String>)
    ensures
        match r {
            Some(content_type) => declared_content_type(*maybe_headers) == Option::Some(
                content_type@,
            ),
            None => declared_content_type(*maybe_headers) is None,
        },
{
    match maybe_headers {
        Option::Some(headers) => match &headers.maybe_content_type {
            Option::Some(content_type) => Some(content_type),
            Option::None => None,
        },
        Option::None => None,
    }
}

/// The declared out-of-band type hint, to resolve from.
pub fn types_header_of(maybe_headers: &Option<ResponseHeaders>) -> (r: Option<&String>)
    ensures
        match r {
            Some(types) => declared_types_header(*maybe_headers) == Option::Some(types@),
            None => declared_types_header(*maybe_headers) is None,
        },
{
    match maybe_headers {
        Option::Some(headers) => match &headers.maybe_types {
            Option::Some(types) => Some(types),
            Option::None => None,
        },
        Option::None => None,
    }
}

/// A completed load: the effective specifier the content was served for
/// (after any redirect), optional response metadata, and the source text.
#[derive(Debug)]
pub struct LoadResponse {
    pub specifier: ModuleSpecifier,
    pub maybe_headers: Option<ResponseHeaders>,
    pub content: String,
}

/// A load the builder has issued and not yet seen completed.
#[derive(Debug)]
pub struct LoadRequest {
    pub specifier: ModuleSpecifier,
    pub is_dynamic: bool,
}

impl Clone for LoadRequest {
    fn clone(&self) -> (r: Self)
        ensures
            r.specifier@ == self.specifier@,
            r.is_dynamic == self.is_dynamic,
    {
        LoadRequest { specifier: self.specifier.clone(), is_dynamic: self.is_dynamic }
    }
}

/// Fetches source text for a specifier. `Ok(None)` means "not found"; `Err`
/// means the fetch itself failed.
pub trait Loader {
    fn load(&mut self, specifier: &ModuleSpecifier, is_dynamic: bool) -> Result<
        Option<LoadResponse>,
        anyhow::Error,
    >;
}

/// An optional pluggable import resolver; pure and synchronous from the
/// builder's perspective.
pub trait Resolver {
    fn resolve(&self, import: &String, referrer: &ModuleSpecifier) -> Result<
        ModuleSpecifier,
        anyhow::Error,
    >;
}

/// Persisted integrity verification: records a pair on first sight and
/// reports whether the source still matches afterwards.
pub trait Locker {
    fn check_or_insert(&mut self, specifier: &ModuleSpecifier, source: &String) -> bool;
}

/// The host capabilities the builder consults synchronously while visiting a
/// module: default import resolution, content classification, and parsing.
pub trait Host {
    /// Parse `import` relative to `referrer` by default resolution:
    /// relative-path joining, bare-specifier rejection.
    fn resolve_import(&self, import: &String, referrer: &ModuleSpecifier) -> Result<
        ModuleSpecifier,
        SpecifierError,
    >;

    /// Classify content from a declared content type.
    fn media_type_from_content_type(
        &self,
        specifier: &ModuleSpecifier,
        content_type: &String,
    ) -> MediaType;

    /// Classify content from the specifier's trailing extension.
    fn media_type_from_specifier(&self, specifier: &ModuleSpecifier) -> MediaType;

    /// Extract reference comments and import descriptors from source text.
    fn parse(&self, specifier: &ModuleSpecifier, source: &String, media_type: MediaType) -> Result<
        ParsedModule,
        Diagnostic,
    >;
}

} // verus!
