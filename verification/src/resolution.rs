//! The resolution engine: turning a collaborator's resolution outcome into a
//! resolved edge by applying the two security policies. Pure; it performs no
//! load and touches no graph state.

use vstd::prelude::*;

use crate::ast::{span_eq, Span};
use crate::specifier::{ModuleSpecifier, Scheme, SpecifierError};

verus! {

/// Why an import string failed to resolve. Equality ignores the wrapped
/// cause for the resolver's opaque failure, and compares the cause
/// structurally for an invalid specifier.
#[derive(Debug)]
pub enum ResolutionError {
    /// A secure-remote referrer tried to import an insecure-remote target.
    InvalidDowngrade,
    /// A remote referrer tried to import a non-remote target without a
    /// resolver remapping it.
    InvalidLocalImport,
    /// The pluggable resolver rejected the import.
    ResolverError(anyhow::Error),
    /// Default resolution could not parse the import string.
    InvalidSpecifier(SpecifierError),
}

/// Equality of resolution errors: same variant, with the cause compared only
/// for `InvalidSpecifier`.
pub open spec fn resolution_error_eq(a: ResolutionError, b: ResolutionError) -> bool {
    match (a, b) {
        (ResolutionError::InvalidDowngrade, ResolutionError::InvalidDowngrade) => true,
        (ResolutionError::InvalidLocalImport, ResolutionError::InvalidLocalImport) => true,
        (ResolutionError::ResolverError(_), ResolutionError::ResolverError(_)) => true,
        (ResolutionError::InvalidSpecifier(s), ResolutionError::InvalidSpecifier(o)) => s == o,
        _ => false,
    }
}

impl PartialEq for ResolutionError {
    fn eq(&self, other: &Self) -> bool {
        match (self, other) {
            (ResolutionError::InvalidDowngrade, ResolutionError::InvalidDowngrade) => true,
            (ResolutionError::InvalidLocalImport, ResolutionError::InvalidLocalImport) => true,
            (ResolutionError::ResolverError(_), ResolutionError::ResolverError(_)) => true,
            (ResolutionError::InvalidSpecifier(s), ResolutionError::InvalidSpecifier(o)) => *s
                == *o,
            _ => false,
        }
    }
}

impl vstd::std_specs::cmp::PartialEqSpecImpl for ResolutionError {
    open spec fn obeys_eq_spec() -> bool {
        true
    }

    open spec fn eq_spec(&self, other: &Self) -> bool {
        resolution_error_eq(*self, *other)
    }
}

/// The outcome of one resolution attempt for an edge.
#[derive(Debug)]
pub enum Resolved {
    /// A resolved target with its provenance.
    Specifier(ModuleSpecifier, Span),
    /// A typed resolution failure with its provenance.
    Failed(ResolutionError, Span),
    /// No attempt was made, or not applicable.
    NoAttempt,
}

/// Structural equality of resolved edges, up to `resolution_error_eq`.
pub open spec fn resolved_eq(a: Resolved, b: Resolved) -> bool {
    match (a, b) {
        (Resolved::Specifier(s1, sp1), Resolved::Specifier(s2, sp2)) => s1@ == s2@
            && span_eq(sp1, sp2),
        (Resolved::Failed(e1, sp1), Resolved::Failed(e2, sp2)) => resolution_error_eq(e1, e2)
            && span_eq(sp1, sp2),
        (Resolved::NoAttempt, Resolved::NoAttempt) => true,
        _ => false,
    }
}

impl PartialEq for Resolved {
    fn eq(&self, other: &Self) -> bool {
        match (self, other) {
            (Resolved::Specifier(s1, sp1), Resolved::Specifier(s2, sp2)) => *s1 == *s2 && *sp1
                == *sp2,
            (Resolved::Failed(e1, sp1), Resolved::Failed(e2, sp2)) => *e1 == *e2 && *sp1 == *sp2,
            (Resolved::NoAttempt, Resolved::NoAttempt) => true,
            _ => false,
        }
    }
}

impl vstd::std_specs::cmp::PartialEqSpecImpl for Resolved {
    open spec fn obeys_eq_spec() -> bool {
        true
    }

    open spec fn eq_spec(&self, other: &Self) -> bool {
        resolved_eq(*self, *other)
    }
}

impl Default for Resolved {
    fn default() -> (r: Self)
        ensures
            r is NoAttempt,
    {
        Resolved::NoAttempt
    }
}

impl Resolved {
    /// True only for the no-attempt variant; a failure is not "none".
    pub fn is_none(&self) -> (r: bool)
        ensures
            r == (self is NoAttempt),
    {
        matches!(self, Resolved::NoAttempt)
    }
}

/// The downgrade policy matches: a secure-remote referrer and an
/// insecure-remote target.
pub open spec fn is_downgrade(referrer: Scheme, target: Scheme) -> bool {
    referrer == Scheme::Https && target == Scheme::Http
}

/// The local-escape policy matches: a remote referrer, a non-remote target,
/// and no resolver remap.
pub open spec fn is_local_escape(referrer: Scheme, target: Scheme, remapped: bool) -> bool {
    (referrer == Scheme::Https || referrer == Scheme::Http) && !(target == Scheme::Https || target
        == Scheme::Http) && !remapped
}

/// What resolution returns once the collaborator's outcome is in hand: the
/// two policies applied in order, or the outcome's own failure.
pub open spec fn spec_finish_resolution(
    outcome: Result<ModuleSpecifier, ResolutionError>,
    remapped: bool,
    span: Span,
) -> Resolved {
    match outcome {
        Result::Ok(target) => if is_downgrade(span.specifier.scheme, target.scheme) {
            Resolved::Failed(ResolutionError::InvalidDowngrade, span)
        } else if is_local_escape(span.specifier.scheme, target.scheme, remapped) {
            Resolved::Failed(ResolutionError::InvalidLocalImport, span)
        } else {
            Resolved::Specifier(target, span)
        },
        Result::Err(e) => Resolved::Failed(e, span),
    }
}

/// Apply the two security policies, in order, to a successful outcome; pass a
/// failed outcome through with its provenance.
pub fn finish_resolution(
    outcome: Result<ModuleSpecifier, ResolutionError>,
    remapped: bool,
    span: Span,
) -> (r: Resolved)
    ensures
        r == spec_finish_resolution(outcome, remapped, span),
{
    match outcome {
        Result::Ok(target) => {
            if span.specifier.scheme == Scheme::Https && target.scheme == Scheme::Http {
                Resolved::Failed(ResolutionError::InvalidDowngrade, span)
            } else if (span.specifier.scheme == Scheme::Https || span.specifier.scheme
                == Scheme::Http) && !(target.scheme == Scheme::Https || target.scheme
                == Scheme::Http) && !remapped {
                Resolved::Failed(ResolutionError::InvalidLocalImport, span)
            } else {
                Resolved::Specifier(target, span)
            }
        },
        Result::Err(e) => Resolved::Failed(e, span),
    }
}

/// Downgrade rule: resolving from a secure-remote referrer to an
/// insecure-remote target always yields `InvalidDowngrade`, with or without a
/// custom resolver active.
pub proof fn lemma_downgrade_rule(target: ModuleSpecifier, remapped: bool, span: Span)
    requires
        span.specifier.scheme == Scheme::Https,
        target.scheme == Scheme::Http,
    ensures
        spec_finish_resolution(Result::Ok(target), remapped, span) == Resolved::Failed(
            ResolutionError::InvalidDowngrade,
            span,
        ),
{
}

/// Local-escape rule: resolving from a remote referrer to a non-remote
/// target yields `InvalidLocalImport`, unless a custom resolver remapped the
/// import, in which case it resolves to the target.
pub proof fn lemma_local_escape_rule(target: ModuleSpecifier, remapped: bool, span: Span)
    requires
        span.specifier.scheme == Scheme::Https || span.specifier.scheme == Scheme::Http,
        target.scheme != Scheme::Https,
        target.scheme != Scheme::Http,
    ensures
        !remapped ==> spec_finish_resolution(Result::Ok(target), remapped, span) == Resolved::Failed(
            ResolutionError::InvalidLocalImport,
            span,
        ),
        remapped ==> spec_finish_resolution(Result::Ok(target), remapped, span)
            == Resolved::Specifier(target, span),
{
}

} // verus!
