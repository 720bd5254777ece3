//! Modules and their dependency edges.

use vstd::prelude::*;

use crate::media_type::MediaType;
use crate::resolution::Resolved;
use crate::specifier::ModuleSpecifier;
use crate::vecmap::VecMap;

verus! {

/// One named import edge of a module: the runtime-executed target, the
/// type-only target, and whether the import is evaluated lazily at runtime.
/// Keyed within the module by the literal import string as written.
#[derive(Debug)]
pub struct Dependency {
    pub maybe_code: Resolved,
    pub maybe_type: Resolved,
    pub is_dynamic: bool,
}

impl Default for Dependency {
    fn default() -> (r: Self)
        ensures
            r.maybe_code is NoAttempt,
            r.maybe_type is NoAttempt,
            !r.is_dynamic,
    {
        Dependency {
            maybe_code: Resolved::NoAttempt,
            maybe_type: Resolved::NoAttempt,
            is_dynamic: false,
        }
    }
}

/// An edge that records neither a code nor a type attempt is a meaningless
/// placeholder; a persisted edge always holds one of the two.
pub open spec fn dependency_meaningful(d: Dependency) -> bool {
    !(d.maybe_code is NoAttempt && d.maybe_type is NoAttempt)
}

/// One successfully loaded and parsed module. The specifier is its own,
/// post-redirect canonical identifier.
#[derive(Debug)]
pub struct Module {
    pub dependencies: VecMap<String, Dependency>,
    pub maybe_types_dependency: Option<(String, Resolved)>,
    pub media_type: MediaType,
    pub source: String,
    pub specifier: ModuleSpecifier,
}

impl Module {
    /// Dependency keys are distinct and every persisted edge is meaningful.
    pub open spec fn wf(self) -> bool {
        &&& self.dependencies.wf()
        &&& forall|k: Seq<char>|
            self.dependencies@.contains_key(k) ==> dependency_meaningful(
                #[trigger] self.dependencies@[k],
            )
    }

    pub fn new(specifier: ModuleSpecifier, source: String) -> (m: Module)
        ensures
            m.wf(),
            m.dependencies@ == Map::<Seq<char>, Dependency>::empty(),
            m.maybe_types_dependency is None,
            m.media_type == MediaType::Unknown,
            m.source == source,
            m.specifier == specifier,
    {
        Module {
            dependencies: VecMap::new(),
            maybe_types_dependency: Option::None,
            media_type: MediaType::Unknown,
            source,
            specifier,
        }
    }
}

/// The dependency map after recording a code edge for a literal import
/// string: a fresh entry takes the target and the dynamic flag; an existing
/// entry gains the target only if its code edge was never attempted — the
/// first writer wins.
pub open spec fn spec_record_code(
    deps: Map<Seq<char>, Dependency>,
    key: Seq<char>,
    resolved: Resolved,
    is_dynamic: bool,
) -> Map<Seq<char>, Dependency> {
    if deps.contains_key(key) {
        if deps[key].maybe_code is NoAttempt {
            deps.insert(
                key,
                Dependency {
                    maybe_code: resolved,
                    maybe_type: deps[key].maybe_type,
                    is_dynamic: deps[key].is_dynamic,
                },
            )
        } else {
            deps
        }
    } else {
        deps.insert(
            key,
            Dependency { maybe_code: resolved, maybe_type: Resolved::NoAttempt, is_dynamic },
        )
    }
}

/// The dependency map after recording a type edge; the same first-writer-wins
/// rule, on the type-only side.
pub open spec fn spec_record_type(
    deps: Map<Seq<char>, Dependency>,
    key: Seq<char>,
    resolved: Resolved,
    is_dynamic: bool,
) -> Map<Seq<char>, Dependency> {
    if deps.contains_key(key) {
        if deps[key].maybe_type is NoAttempt {
            deps.insert(
                key,
                Dependency {
                    maybe_code: deps[key].maybe_code,
                    maybe_type: resolved,
                    is_dynamic: deps[key].is_dynamic,
                },
            )
        } else {
            deps
        }
    } else {
        deps.insert(
            key,
            Dependency { maybe_code: Resolved::NoAttempt, maybe_type: resolved, is_dynamic },
        )
    }
}

/// Record a resolved code edge under the literal import string.
pub fn record_code_edge(
    deps: &mut VecMap<String, Dependency>,
    key: &String,
    resolved: Resolved,
    is_dynamic: bool,
)
    requires
        old(deps).wf(),
        !(resolved is NoAttempt),
    ensures
        final(deps).wf(),
        final(deps)@ == spec_record_code(old(deps)@, key@, resolved, is_dynamic),
        (forall|k: Seq<char>|
            old(deps)@.contains_key(k) ==> dependency_meaningful(#[trigger] old(deps)@[k]))
            ==> (forall|k: Seq<char>|
            final(deps)@.contains_key(k) ==> dependency_meaningful(#[trigger] final(deps)@[k])),
{
    let ghost m0 = deps@;
    match deps.take(key) {
        Option::Some(pair) => {
            let (entry_key, dep) = pair;
            if dep.maybe_code.is_none() {
                deps.insert(
                    entry_key,
                    Dependency {
                        maybe_code: resolved,
                        maybe_type: dep.maybe_type,
                        is_dynamic: dep.is_dynamic,
                    },
                );
                proof {
                    assert(deps@ =~= spec_record_code(m0, key@, resolved, is_dynamic));
                }
            } else {
                deps.insert(entry_key, dep);
                proof {
                    assert(deps@ =~= spec_record_code(m0, key@, resolved, is_dynamic));
                }
            }
        },
        Option::None => {
            deps.insert(
                key.clone(),
                Dependency { maybe_code: resolved, maybe_type: Resolved::NoAttempt, is_dynamic },
            );
        },
    }
}

/// Record a resolved type-only edge under the literal import string.
pub fn record_type_edge(
    deps: &mut VecMap<String, Dependency>,
    key: &String,
    resolved: Resolved,
    is_dynamic: bool,
)
    requires
        old(deps).wf(),
        !(resolved is NoAttempt),
    ensures
        final(deps).wf(),
        final(deps)@ == spec_record_type(old(deps)@, key@, resolved, is_dynamic),
        (forall|k: Seq<char>|
            old(deps)@.contains_key(k) ==> dependency_meaningful(#[trigger] old(deps)@[k]))
            ==> (forall|k: Seq<char>|
            final(deps)@.contains_key(k) ==> dependency_meaningful(#[trigger] final(deps)@[k])),
{
    let ghost m0 = deps@;
    match deps.take(key) {
        Option::Some(pair) => {
            let (entry_key, dep) = pair;
            if dep.maybe_type.is_none() {
                deps.insert(
                    entry_key,
                    Dependency {
                        maybe_code: dep.maybe_code,
                        maybe_type: resolved,
                        is_dynamic: dep.is_dynamic,
                    },
                );
                proof {
                    assert(deps@ =~= spec_record_type(m0, key@, resolved, is_dynamic));
                }
            } else {
                deps.insert(entry_key, dep);
                proof {
                    assert(deps@ =~= spec_record_type(m0, key@, resolved, is_dynamic));
                }
            }
        },
        Option::None => {
            deps.insert(
                key.clone(),
                Dependency { maybe_code: Resolved::NoAttempt, maybe_type: resolved, is_dynamic },
            );
        },
    }
}

/// Idempotent dependency slots: once a type edge for a literal import string
/// is populated, recording another type hint for the same string changes
/// nothing — the first successful write wins.
pub proof fn lemma_type_edge_first_write_wins(
    deps: Map<Seq<char>, Dependency>,
    key: Seq<char>,
    r1: Resolved,
    d1: bool,
    r2: Resolved,
    d2: bool,
)
    requires
        !(r1 is NoAttempt),
    ensures
        spec_record_type(spec_record_type(deps, key, r1, d1), key, r2, d2) == spec_record_type(
            deps,
            key,
            r1,
            d1,
        ),
{
    let m1 = spec_record_type(deps, key, r1, d1);
    assert(m1.contains_key(key));
    assert(!(m1[key].maybe_type is NoAttempt));
}

} // verus!
