//! The module graph and its builder: the traversal engine that fans out load
//! requests without revisiting a specifier twice, applies scheme-aware
//! resolution and security rules to every import, tracks a four-state
//! lifecycle per module slot, merges code and type-only edges per import, and
//! records redirects and loader errors without aborting the whole build.

use vstd::prelude::*;

use crate::ast::{zero_range, DependencyDescriptor, Diagnostic, ParsedModule, Range, Span, TypeScriptReference};
use crate::media_type::MediaType;
use crate::error::ModuleGraphError;
use crate::module::{
    record_code_edge, record_type_edge, spec_record_code, spec_record_type, Dependency, Module,
};
use crate::resolution::{
    finish_resolution, is_downgrade, is_local_escape, Resolved, ResolutionError,
};
use crate::source::{
    content_type_of, declared_types_header, types_header_of, Host, LoadRequest, LoadResponse,
    Loader, Locker, Resolver, ResponseHeaders,
};
use crate::specifier::{ModuleSpecifier, Scheme};
use crate::vecmap::{MapKey, VecMap};

verus! {

impl MapKey for ModuleSpecifier {
    fn key_eq(&self, other: &Self) -> (r: bool) {
        self.scheme == other.scheme && String::eq(&self.text, &other.text)
    }
}

/// The per-specifier lifecycle record.
#[derive(Debug)]
pub enum ModuleSlot {
    /// The module loaded and parsed.
    Module(Module),
    /// The load or the parse failed.
    Error(ModuleGraphError),
    /// The loader reported "not found".
    Missing,
    /// A reservation placeholder, created the instant a load is enqueued and
    /// replaced by a terminal variant before the build finishes.
    Pending,
}

/// The graph: one slot per requested specifier, and the recorded redirects.
/// Populated exclusively by the builder during a single build pass and
/// read-only afterwards.
#[derive(Debug)]
pub struct ModuleGraph {
    pub root: ModuleSpecifier,
    pub modules: VecMap<ModuleSpecifier, ModuleSlot>,
    pub redirects: VecMap<ModuleSpecifier, ModuleSpecifier>,
}

impl ModuleGraph {
    /// Keys are distinct, and a module slot holds the module of its own key.
    pub open spec fn wf(self) -> bool {
        &&& self.modules.wf()
        &&& self.redirects.wf()
        &&& forall|k: (Scheme, Seq<char>)| #[trigger]
            self.modules@.contains_key(k) ==> match self.modules@[k] {
                ModuleSlot::Module(m) => m.specifier@ == k && m.wf(),
                _ => true,
            }
    }

    /// The specifiers known to the graph: those with a slot and those
    /// redirected away.
    pub open spec fn known(self) -> Set<(Scheme, Seq<char>)> {
        self.modules@.dom().union(self.redirects@.dom())
    }

    pub fn new(root: ModuleSpecifier) -> (g: ModuleGraph)
        ensures
            g.wf(),
            g.root == root,
            g.modules@ == Map::<(Scheme, Seq<char>), ModuleSlot>::empty(),
            g.redirects@ == Map::<(Scheme, Seq<char>), ModuleSpecifier>::empty(),
    {
        ModuleGraph { root, modules: VecMap::new(), redirects: VecMap::new() }
    }

    /// The slot for a specifier, if one exists.
    pub fn get<'a>(&'a self, specifier: &ModuleSpecifier) -> (r: Option<&'a ModuleSlot>)
        requires
            self.wf(),
        ensures
            match r {
                Some(slot) => self.modules@.contains_key(specifier@) && *slot
                    == self.modules@[specifier@],
                None => !self.modules@.contains_key(specifier@),
            },
    {
        self.modules.get(specifier)
    }

    /// Determine if the graph sources are valid by calling the passed
    /// locker: ask it to check or record every module's source, skipping the
    /// other slots. A caller with no locker configured has nothing to call
    /// and the sources count as valid. A failure names the first specifier
    /// whose integrity check failed, and that specifier holds a module.
    pub fn lock<L: Locker>(&self, locker: &mut L) -> (r: Result<(), ModuleGraphError>)
        requires
            self.wf(),
        ensures
            r matches Result::Err(e) ==> (e matches ModuleGraphError::InvalidSource(s)
                && self.modules@.contains_key(s@) && self.modules@[s@] is Module),
            (forall|k: (Scheme, Seq<char>)|
                self.modules@.contains_key(k) ==> !((#[trigger] self.modules@[k]) is Module))
                ==> r matches Result::Ok(_),
    {
        let n = self.modules.len();
        let mut i: usize = 0;
        while i < n
            invariant
                self.wf(),
                n == self.modules.entries@.len(),
                i <= n,
            decreases n - i,
        {
            match &self.modules.entries[i].1 {
                ModuleSlot::Module(module) => {
                    if !locker.check_or_insert(&module.specifier, &module.source) {
                        proof {
                            crate::vecmap::lemma_seq_to_map_index(self.modules.entries@, i as int);
                        }
                        return Result::Err(
                            ModuleGraphError::InvalidSource(module.specifier.clone()),
                        );
                    }
                },
                _ => {},
            }
            i = i + 1;
        }
        Result::Ok(())
    }
}


/// What holds of a resolution result whatever the collaborators returned:
/// it is an attempt, it carries the referrer and range as its provenance,
/// and no policy-violating target survives. A resolution is remapped
/// exactly when a pluggable resolver is configured.
pub open spec fn resolve_post(
    has_resolver: bool,
    referrer: (Scheme, Seq<char>),
    range: Range,
    r: Resolved,
) -> bool {
    &&& !(r is NoAttempt)
    &&& (r matches Resolved::Specifier(t, span) ==> span.specifier@ == referrer && span.range
        == range && !is_downgrade(referrer.0, t.scheme) && !is_local_escape(
        referrer.0,
        t.scheme,
        has_resolver,
    ))
    &&& (r matches Resolved::Failed(e, span) ==> span.specifier@ == referrer && span.range
        == range && (e is ResolverError ==> has_resolver) && (e is InvalidSpecifier
        ==> !has_resolver))
}

/// One reference comment processed, `m0` to `m1`: its literal resolved as a
/// non-dynamic edge under the policies; a path reference records a code
/// edge; a types reference becomes the module's single borrowed types
/// dependency when the module's kind cannot carry inline type syntax, and
/// its type edge otherwise.
pub open spec fn reference_step(
    has_resolver: bool,
    m0: Module,
    m1: Module,
    reference: TypeScriptReference,
) -> bool {
    &&& m1.specifier == m0.specifier
    &&& m1.source == m0.source
    &&& m1.media_type == m0.media_type
    &&& match reference {
        TypeScriptReference::Path(literal, range) => exists|rv: Resolved|
            #[trigger] resolve_post(has_resolver, m0.specifier@, range, rv)
                && m1.dependencies@ == spec_record_code(m0.dependencies@, literal@, rv, false)
                && m1.maybe_types_dependency == m0.maybe_types_dependency,
        TypeScriptReference::Types(literal, range) => exists|rv: Resolved|
            #[trigger] resolve_post(has_resolver, m0.specifier@, range, rv) && if m0.media_type
                == MediaType::JavaScript || m0.media_type == MediaType::Jsx {
                m1.dependencies@ == m0.dependencies@ && (m1.maybe_types_dependency
                    matches Option::Some(p) && p.0@ == literal@ && p.1 == rv)
            } else {
                m1.dependencies@ == spec_record_type(m0.dependencies@, literal@, rv, false)
                    && m1.maybe_types_dependency == m0.maybe_types_dependency
            },
    }
}

/// The reference comments processed in order, `m0` to `m1`.
pub open spec fn references_phase(
    has_resolver: bool,
    m0: Module,
    m1: Module,
    references: Seq<TypeScriptReference>,
) -> bool
    decreases references.len(),
{
    if references.len() == 0 {
        m1 == m0
    } else {
        exists|mid: Module|
            references_phase(has_resolver, m0, mid, references.drop_last()) && #[trigger]
            reference_step(has_resolver, mid, m1, references.last())
    }
}

pub proof fn lemma_references_phase_snoc(
    has_resolver: bool,
    m0: Module,
    mid: Module,
    m1: Module,
    references: Seq<TypeScriptReference>,
    i: int,
)
    requires
        0 <= i < references.len(),
        references_phase(has_resolver, m0, mid, references.take(i)),
        reference_step(has_resolver, mid, m1, references[i]),
    ensures
        references_phase(has_resolver, m0, m1, references.take(i + 1)),
{
    assert(references.take(i + 1).drop_last() =~= references.take(i));
    assert(references.take(i + 1).last() == references[i]);
    assert(reference_step(has_resolver, mid, m1, references.take(i + 1).last()));
}

/// The out-of-band type hint processed, `m0` to `m1`: consulted only when
/// no reference borrowed the types dependency, and then resolved as a
/// non-dynamic edge with no text range of its own.
pub open spec fn types_header_phase(
    has_resolver: bool,
    m0: Module,
    m1: Module,
    maybe_headers: Option<ResponseHeaders>,
) -> bool {
    &&& m1.specifier == m0.specifier
    &&& m1.source == m0.source
    &&& m1.media_type == m0.media_type
    &&& m1.dependencies@ == m0.dependencies@
    &&& if m0.maybe_types_dependency is Some {
        m1.maybe_types_dependency == m0.maybe_types_dependency
    } else {
        match declared_types_header(maybe_headers) {
            Option::Some(types_header) => exists|rv: Resolved|
                #[trigger] resolve_post(has_resolver, m0.specifier@, zero_range(), rv) && (
                m1.maybe_types_dependency matches Option::Some(p) && p.0@ == types_header && p.1
                    == rv),
            Option::None => m1.maybe_types_dependency == m0.maybe_types_dependency,
        }
    }
}

/// One import or export descriptor processed, `m0` to `m1`: its literal
/// resolved with its own range and dynamic flag and recorded as a code
/// edge, and an attached inline type hint resolved and recorded as the type
/// edge — each write first-writer-wins.
pub open spec fn descriptor_step(
    has_resolver: bool,
    m0: Module,
    m1: Module,
    descriptor: DependencyDescriptor,
) -> bool {
    &&& m1.specifier == m0.specifier
    &&& m1.source == m0.source
    &&& m1.media_type == m0.media_type
    &&& m1.maybe_types_dependency == m0.maybe_types_dependency
    &&& exists|rc: Resolved|
        #[trigger] resolve_post(has_resolver, m0.specifier@, descriptor.range, rc)
            && match descriptor.maybe_types {
            Option::None => m1.dependencies@ == spec_record_code(
                m0.dependencies@,
                descriptor.specifier@,
                rc,
                descriptor.is_dynamic,
            ),
            Option::Some(hint) => exists|rt: Resolved|
                #[trigger] resolve_post(has_resolver, m0.specifier@, hint.1, rt)
                    && m1.dependencies@ == spec_record_type(
                    spec_record_code(
                        m0.dependencies@,
                        descriptor.specifier@,
                        rc,
                        descriptor.is_dynamic,
                    ),
                    descriptor.specifier@,
                    rt,
                    descriptor.is_dynamic,
                ),
        }
}

/// The import and export descriptors processed in order, `m0` to `m1`.
pub open spec fn descriptors_phase(
    has_resolver: bool,
    m0: Module,
    m1: Module,
    descriptors: Seq<DependencyDescriptor>,
) -> bool
    decreases descriptors.len(),
{
    if descriptors.len() == 0 {
        m1 == m0
    } else {
        exists|mid: Module|
            descriptors_phase(has_resolver, m0, mid, descriptors.drop_last()) && #[trigger]
            descriptor_step(has_resolver, mid, m1, descriptors.last())
    }
}

pub proof fn lemma_descriptors_phase_snoc(
    has_resolver: bool,
    m0: Module,
    mid: Module,
    m1: Module,
    descriptors: Seq<DependencyDescriptor>,
    i: int,
)
    requires
        0 <= i < descriptors.len(),
        descriptors_phase(has_resolver, m0, mid, descriptors.take(i)),
        descriptor_step(has_resolver, mid, m1, descriptors[i]),
    ensures
        descriptors_phase(has_resolver, m0, m1, descriptors.take(i + 1)),
{
    assert(descriptors.take(i + 1).drop_last() =~= descriptors.take(i));
    assert(descriptors.take(i + 1).last() == descriptors[i]);
    assert(descriptor_step(has_resolver, mid, m1, descriptors.take(i + 1).last()));
}

/// What the analysis of one parsed module records, `m0` to `m3`: the
/// reference comments in order, then the header-declared type hint, then
/// the import and export descriptors in order, every edge resolved under
/// the policies for its own range and dynamic flag.
pub open spec fn module_analysis(
    has_resolver: bool,
    parsed: ParsedModule,
    maybe_headers: Option<ResponseHeaders>,
    m0: Module,
    m3: Module,
) -> bool {
    exists|m1: Module, m2: Module|
        references_phase(has_resolver, m0, m1, parsed.references@) && #[trigger]
        types_header_phase(has_resolver, m1, m2, maybe_headers) && descriptors_phase(
            has_resolver,
            m2,
            m3,
            parsed.descriptors@,
        )
}

/// Builds a module graph from one root. The builder owns the slot map, the
/// redirect map and the in-flight set; the loader completes requests between
/// calls, and every contract here holds whatever the collaborators return.
pub struct Builder<H: Host, R: Resolver> {
    pub is_dynamic_root: bool,
    pub graph: ModuleGraph,
    pub host: H,
    pub maybe_resolver: Option<R>,
    /// Loads issued and not yet completed.
    pub pending: Vec<LoadRequest>,
    /// How many further loads may still be enqueued; bounds traversal
    /// against a loader that reports ever-new specifiers. A specifier
    /// discovered after the budget is spent is skipped silently: it gets
    /// neither a slot nor any other marker.
    pub budget: usize,
    /// Every specifier a load was ever issued for, in order of issue.
    pub issued: Ghost<Seq<(Scheme, Seq<char>)>>,
}

impl<H: Host, R: Resolver> Builder<H, R> {
    /// A load is in flight for this specifier.
    pub open spec fn pending_contains(self, k: (Scheme, Seq<char>)) -> bool {
        exists|i: int|
            0 <= i < self.pending@.len() && (#[trigger] self.pending@[i]).specifier@ == k
    }

    /// The builder's invariant, with the keys in `except` exempt from the
    /// rule that a pending slot has a load in flight (while one completed
    /// load is being applied, its key is exempt).
    pub open spec fn inv_except(self, except: Set<(Scheme, Seq<char>)>) -> bool {
        &&& self.graph.wf()
        &&& forall|i: int, j: int|
            0 <= i < j < self.pending@.len() ==> (#[trigger] self.pending@[i]).specifier@ != (
            #[trigger] self.pending@[j]).specifier@
        &&& forall|i: int|
            0 <= i < self.pending@.len() ==> self.graph.modules@.contains_key(
                (#[trigger] self.pending@[i]).specifier@,
            )
        &&& forall|i: int|
            0 <= i < self.pending@.len() ==> !self.graph.redirects@.contains_key(
                (#[trigger] self.pending@[i]).specifier@,
            )
        &&& forall|k: (Scheme, Seq<char>)| #[trigger]
            self.graph.modules@.contains_key(k) ==> ((self.graph.modules@[k] is Pending) ==> (
            self.pending_contains(k) || except.contains(k)))
        &&& self.issued@.no_duplicates()
        &&& forall|i: int|
            0 <= i < self.issued@.len() ==> self.graph.known().contains(#[trigger] self.issued@[i])
    }

    pub open spec fn wf(self) -> bool {
        self.inv_except(Set::empty())
    }

    /// The specifiers for which loads were ever issued.
    pub open spec fn issued_loads(self) -> Seq<(Scheme, Seq<char>)> {
        self.issued@
    }

    /// The builder changed only by enqueueing fresh loads: every old slot is
    /// preserved, every new slot is a reservation for a specifier that was
    /// not known, nothing else moved, and the traversal measure is kept.
    pub open spec fn only_enqueued_from(self, old_b: Self) -> bool {
        &&& self.graph.root == old_b.graph.root
        &&& self.host == old_b.host
        &&& self.maybe_resolver == old_b.maybe_resolver
        &&& self.is_dynamic_root == old_b.is_dynamic_root
        &&& self.graph.redirects@ == old_b.graph.redirects@
        &&& forall|k: (Scheme, Seq<char>)| #[trigger]
            old_b.graph.modules@.contains_key(k) ==> self.graph.modules@.contains_key(k)
                && self.graph.modules@[k] == old_b.graph.modules@[k]
        &&& forall|k: (Scheme, Seq<char>)| #[trigger]
            self.graph.modules@.contains_key(k) && !old_b.graph.modules@.contains_key(k)
                ==> self.graph.modules@[k] is Pending && !old_b.graph.redirects@.contains_key(k)
        &&& self.pending@.len() + self.budget == old_b.pending@.len() + old_b.budget
        &&& old_b.pending@.len() <= self.pending@.len()
        &&& forall|i: int| 0 <= i < old_b.pending@.len() ==> self.pending@[i] == old_b.pending@[i]
        &&& old_b.issued@.is_prefix_of(self.issued@)
    }

    /// What enqueueing a load for `target` does: nothing at all, when the
    /// graph already knows the target or the budget is spent; else exactly
    /// one fresh reservation, one request and one log entry for it. Either
    /// way the target is known afterwards unless the budget ran out.
    pub open spec fn load_post(
        old_b: Self,
        new_b: Self,
        target: (Scheme, Seq<char>),
        is_dynamic: bool,
    ) -> bool {
        &&& (old_b.graph.known().contains(target) || old_b.budget == 0 ==> new_b == old_b)
        &&& (!old_b.graph.known().contains(target) && old_b.budget > 0 ==> {
            &&& new_b.graph.modules@ == old_b.graph.modules@.insert(target, ModuleSlot::Pending)
            &&& new_b.pending@.len() == old_b.pending@.len() + 1
            &&& new_b.pending@.last().specifier@ == target
            &&& new_b.pending@.last().is_dynamic == is_dynamic
            &&& new_b.budget == old_b.budget - 1
            &&& new_b.issued@ == old_b.issued@.push(target)
        })
        &&& (new_b.graph.known().contains(target) || new_b.budget == 0)
    }

    pub fn new(
        root_specifier: ModuleSpecifier,
        is_dynamic_root: bool,
        host: H,
        maybe_resolver: Option<R>,
        load_budget: usize,
    ) -> (b: Builder<H, R>)
        ensures
            b.wf(),
            b.graph.root == root_specifier,
            b.graph.modules@ == Map::<(Scheme, Seq<char>), ModuleSlot>::empty(),
            b.graph.redirects@ == Map::<(Scheme, Seq<char>), ModuleSpecifier>::empty(),
            b.pending@ == Seq::<LoadRequest>::empty(),
            b.budget == load_budget,
            b.is_dynamic_root == is_dynamic_root,
            b.host == host,
            b.maybe_resolver == maybe_resolver,
            b.issued_loads() == Seq::<(Scheme, Seq<char>)>::empty(),
    {
        Builder {
            is_dynamic_root,
            graph: ModuleGraph::new(root_specifier),
            host,
            maybe_resolver,
            pending: Vec::new(),
            budget: load_budget,
            issued: Ghost(Seq::empty()),
        }
    }

    /// Enqueue a load for the specifier via the loader, unless the graph
    /// already knows it or the budget is spent: the single deduplication
    /// point, guaranteeing at most one load per distinct specifier.
    fn load(
        &mut self,
        specifier: &ModuleSpecifier,
        is_dynamic: bool,
        Ghost(except): Ghost<Set<(Scheme, Seq<char>)>>,
    )
        requires
            old(self).inv_except(except),
        ensures
            final(self).inv_except(except),
            final(self).only_enqueued_from(*old(self)),
            Self::load_post(*old(self), *final(self), specifier@, is_dynamic),
    {
        let known = self.graph.modules.contains_key(specifier)
            || self.graph.redirects.contains_key(specifier);
        if !known && self.budget > 0 {
            self.budget = self.budget - 1;
            self.graph.modules.insert(specifier.clone(), ModuleSlot::Pending);
            self.pending.push(LoadRequest { specifier: specifier.clone(), is_dynamic });
            proof {
                self.issued@ = self.issued@.push(specifier@);
            }
            proof {
                let b0 = *old(self);
                let b1 = *self;
                assert forall|i: int, j: int| 0 <= i < j < b1.pending@.len()
                    implies (#[trigger] b1.pending@[i]).specifier@ != (
                #[trigger] b1.pending@[j]).specifier@ by {
                    if j == b1.pending@.len() - 1 {
                        assert(b0.graph.modules@.contains_key(b0.pending@[i].specifier@));
                    }
                }
                assert forall|k: (Scheme, Seq<char>)| #[trigger]
                    b1.graph.modules@.contains_key(k) && b1.graph.modules@[k] is Pending
                    implies (b1.pending_contains(k) || except.contains(k)) by {
                    if k == specifier@ {
                        assert(b1.pending@[b1.pending@.len() - 1].specifier@ == k);
                    } else {
                        assert(b0.graph.modules@.contains_key(k));
                        if b0.pending_contains(k) {
                            let i = choose|i: int|
                                0 <= i < b0.pending@.len() && (#[trigger] b0.pending@[i]).specifier@
                                    == k;
                            assert(b1.pending@[i].specifier@ == k);
                        }
                    }
                }
                assert forall|i: int, j: int| 0 <= i < j < b1.issued@.len()
                    implies b1.issued@[i] != b1.issued@[j] by {
                    if j == b1.issued@.len() - 1 && 0 <= i < b0.issued@.len() {
                        assert(b0.graph.known().contains(b0.issued@[i]));
                    }
                }
                assert(b1.issued@.no_duplicates());
                assert(b0.issued@.is_prefix_of(b1.issued@));
            }
        }
    }

    /// Resolve a string import from a referring module: delegate to the
    /// pluggable resolver when configured, marking the resolution remapped,
    /// else to the host's default resolution; then apply the two security
    /// policies.
    fn resolve(&self, specifier: &String, referrer: &ModuleSpecifier, range: &Range) -> (r:
        Resolved)
        ensures
            resolve_post(self.maybe_resolver is Some, referrer@, *range, r),
    {
        let remapped = self.maybe_resolver.is_some();
        let outcome: Result<ModuleSpecifier, ResolutionError> = match &self.maybe_resolver {
            Option::Some(resolver) => match resolver.resolve(specifier, referrer) {
                Result::Ok(s) => Result::Ok(s),
                Result::Err(e) => Result::Err(ResolutionError::ResolverError(e)),
            },
            Option::None => match self.host.resolve_import(specifier, referrer) {
                Result::Ok(s) => Result::Ok(s),
                Result::Err(e) => Result::Err(ResolutionError::InvalidSpecifier(e)),
            },
        };
        let span = Span { specifier: referrer.clone(), range: *range };
        finish_resolution(outcome, remapped, span)
    }

    /// Resolve a dependency of a module and enqueue a load for a resolved
    /// target, returning the resolved dependency.
    fn resolve_load(
        &mut self,
        specifier: &String,
        referrer: &ModuleSpecifier,
        range: &Range,
        is_dynamic: bool,
        Ghost(except): Ghost<Set<(Scheme, Seq<char>)>>,
    ) -> (r: Resolved)
        requires
            old(self).inv_except(except),
        ensures
            final(self).inv_except(except),
            final(self).only_enqueued_from(*old(self)),
            resolve_post(old(self).maybe_resolver is Some, referrer@, *range, r),
            match r {
                Resolved::Specifier(target, _) => Self::load_post(
                    *old(self),
                    *final(self),
                    target@,
                    is_dynamic,
                ),
                _ => *final(self) == *old(self),
            },
    {
        let resolved_import = self.resolve(specifier, referrer, range);
        match &resolved_import {
            Resolved::Specifier(target, _) => {
                self.load(target, is_dynamic, Ghost(except));
            },
            _ => {},
        }
        resolved_import
    }

    /// Nothing else moved and nothing was taken back.
    pub proof fn lemma_only_enqueued_refl(a: Self)
        ensures
            a.only_enqueued_from(a),
    {
        assert(a.issued@ =~= a.issued@.subrange(0, a.issued@.len() as int));
    }

    pub proof fn lemma_only_enqueued_trans(a: Self, b: Self, c: Self)
        requires
            b.only_enqueued_from(a),
            c.only_enqueued_from(b),
        ensures
            c.only_enqueued_from(a),
    {
        assert forall|k: (Scheme, Seq<char>)| #[trigger]
            c.graph.modules@.contains_key(k) && !a.graph.modules@.contains_key(k)
            implies c.graph.modules@[k] is Pending && !a.graph.redirects@.contains_key(k) by {
            if b.graph.modules@.contains_key(k) {
            }
        }
        assert(a.issued@.is_prefix_of(c.issued@)) by {
            assert forall|i: int| 0 <= i < a.issued@.len() implies a.issued@[i] == #[trigger] c.issued@[i] by {
                assert(a.issued@[i] == b.issued@.subrange(0, a.issued@.len() as int)[i]);
                assert(b.issued@[i] == c.issued@.subrange(0, b.issued@.len() as int)[i]);
            }
            assert(a.issued@ =~= c.issued@.subrange(0, a.issued@.len() as int));
        }
    }

    /// Enqueue the root module's load.
    pub fn start(&mut self)
        requires
            old(self).wf(),
        ensures
            final(self).wf(),
            final(self).only_enqueued_from(*old(self)),
            Self::load_post(
                *old(self),
                *final(self),
                old(self).graph.root@,
                old(self).is_dynamic_root,
            ),
            old(self).budget > 0 || old(self).graph.known().contains(old(self).graph.root@)
                ==> final(self).graph.known().contains(old(self).graph.root@),
    {
        let root = self.graph.root.clone();
        let is_dynamic = self.is_dynamic_root;
        self.load(&root, is_dynamic, Ghost(Set::empty()));
    }

    /// The index of the in-flight load for a specifier, if one is.
    fn pending_index(&self, specifier: &ModuleSpecifier) -> (r: Option<usize>)
        ensures
            match r {
                Some(i) => i < self.pending@.len() && self.pending@[i as int].specifier@
                    == specifier@,
                None => !self.pending_contains(specifier@),
            },
    {
        let mut i: usize = 0;
        while i < self.pending.len()
            invariant
                i <= self.pending@.len(),
                forall|j: int|
                    0 <= j < i ==> (#[trigger] self.pending@[j]).specifier@ != specifier@,
            decreases self.pending@.len() - i,
        {
            if self.pending[i].specifier.key_eq(specifier) {
                return Some(i);
            }
            i = i + 1;
        }
        None
    }

    /// A load for this specifier is in flight and may be completed.
    pub fn has_pending(&self, specifier: &ModuleSpecifier) -> (r: bool)
        ensures
            r == self.pending_contains(specifier@),
    {
        self.pending_index(specifier).is_some()
    }

    /// No load is in flight.
    pub fn is_idle(&self) -> (r: bool)
        ensures
            r == (self.pending@.len() == 0),
    {
        self.pending.len() == 0
    }

    /// The loads in flight, for a driver that performs them concurrently.
    pub fn pending_requests(&self) -> (r: Vec<LoadRequest>)
        ensures
            r@.len() == self.pending@.len(),
            forall|i: int|
                0 <= i < r@.len() ==> (#[trigger] r@[i]).specifier@
                    == self.pending@[i].specifier@ && r@[i].is_dynamic
                    == self.pending@[i].is_dynamic,
    {
        let mut out: Vec<LoadRequest> = Vec::new();
        let mut i: usize = 0;
        while i < self.pending.len()
            invariant
                out@.len() == i,
                i <= self.pending@.len(),
                forall|j: int|
                    0 <= j < i ==> (#[trigger] out@[j]).specifier@ == self.pending@[j].specifier@
                        && out@[j].is_dynamic == self.pending@[j].is_dynamic,
            decreases self.pending@.len() - i,
        {
            out.push(self.pending[i].clone());
            i = i + 1;
        }
        out
    }

    /// What visiting one load response did to the graph: the redirect is
    /// recorded and the requested specifier keeps no slot of its own when the
    /// response was served for another specifier; the effective specifier's
    /// slot holds the parsed module of that very specifier and source, or the
    /// parse failure; every other slot is preserved; and any slot that
    /// appeared is a reservation for a newly discovered import.
    pub open spec fn visit_post(
        old_b: Self,
        new_b: Self,
        requested: (Scheme, Seq<char>),
        response: LoadResponse,
    ) -> bool {
        let eff = response.specifier@;
        &&& new_b.graph.root == old_b.graph.root
        &&& new_b.host == old_b.host
        &&& new_b.maybe_resolver == old_b.maybe_resolver
        &&& new_b.is_dynamic_root == old_b.is_dynamic_root
        &&& (eff != requested ==> {
            &&& new_b.graph.redirects@.contains_key(requested)
            &&& new_b.graph.redirects@[requested]@ == eff
            &&& forall|k: (Scheme, Seq<char>)| #[trigger]
                old_b.graph.redirects@.contains_key(k) ==> new_b.graph.redirects@.contains_key(k)
                    && new_b.graph.redirects@[k] == old_b.graph.redirects@[k]
            &&& forall|k: (Scheme, Seq<char>)| #[trigger]
                new_b.graph.redirects@.contains_key(k) ==> k == requested
                    || old_b.graph.redirects@.contains_key(k)
            &&& !new_b.graph.modules@.contains_key(requested)
        })
        &&& (eff == requested ==> new_b.graph.redirects@ == old_b.graph.redirects@)
        &&& new_b.graph.modules@.contains_key(eff)
        &&& match new_b.graph.modules@[eff] {
            ModuleSlot::Module(m) => m.specifier@ == eff && m.source@ == response.content@
                && m.wf(),
            ModuleSlot::Error(e) => e is ParseErr,
            _ => false,
        }
        &&& forall|k: (Scheme, Seq<char>)| #[trigger]
            old_b.graph.modules@.contains_key(k) && k != requested && k != eff
                ==> new_b.graph.modules@.contains_key(k) && new_b.graph.modules@[k]
                == old_b.graph.modules@[k]
        &&& forall|k: (Scheme, Seq<char>)| #[trigger]
            new_b.graph.modules@.contains_key(k) && !old_b.graph.modules@.contains_key(k) && k
                != eff ==> new_b.graph.modules@[k] is Pending
    }

    /// Build the slot that one parse outcome yields for a freshly
    /// initialised module. The outcome is taken as an argument, so the
    /// contract is exact for each: a parsed module becomes a module slot
    /// whose edges are the analysis of exactly that parse; an unparseable
    /// module becomes the parser's own diagnostic, extracting nothing and
    /// enqueueing nothing.
    fn module_slot_from_parse(
        &mut self,
        module: Module,
        parse_result: Result<ParsedModule, Diagnostic>,
        maybe_headers: &Option<ResponseHeaders>,
        Ghost(except): Ghost<Set<(Scheme, Seq<char>)>>,
    ) -> (slot: ModuleSlot)
        requires
            old(self).inv_except(except),
            module.wf(),
            module.dependencies@ == Map::<Seq<char>, Dependency>::empty(),
            module.maybe_types_dependency is None,
        ensures
            final(self).inv_except(except),
            final(self).only_enqueued_from(*old(self)),
            match parse_result {
                Result::Ok(parsed) => slot matches ModuleSlot::Module(m) && m.wf()
                    && m.specifier == module.specifier && m.source == module.source
                    && m.media_type == module.media_type && module_analysis(
                    old(self).maybe_resolver is Some,
                    parsed,
                    *maybe_headers,
                    module,
                    m,
                ),
                Result::Err(diagnostic) => *final(self) == *old(self) && slot == (
                ModuleSlot::Error(ModuleGraphError::ParseErr(diagnostic))),
            },
    {
        let ghost b1 = *self;
        let ghost h = self.maybe_resolver is Some;
        let mut module = module;
        let ghost m_init = module;
        match parse_result {
            Result::Ok(parsed_module) => {
                // The triple-slash references, in order.
                let mut i: usize = 0;
                while i < parsed_module.references.len()
                    invariant
                        self.inv_except(except),
                        self.only_enqueued_from(b1),
                        h == (b1.maybe_resolver is Some),
                        module.wf(),
                        module.specifier == m_init.specifier,
                        module.source == m_init.source,
                        module.media_type == m_init.media_type,
                        i <= parsed_module.references@.len(),
                        references_phase(
                            h,
                            m_init,
                            module,
                            parsed_module.references@.take(i as int),
                        ),
                    decreases parsed_module.references@.len() - i,
                {
                    let ghost mid = *self;
                    let ghost module_mid = module;
                    match &parsed_module.references[i] {
                        TypeScriptReference::Path(reference_specifier, reference_range) => {
                            let resolved_dependency = self.resolve_load(
                                reference_specifier,
                                &module.specifier,
                                reference_range,
                                false,
                                Ghost(except),
                            );
                            let ghost rv = resolved_dependency;
                            record_code_edge(
                                &mut module.dependencies,
                                reference_specifier,
                                resolved_dependency,
                                false,
                            );
                            proof {
                                assert(resolve_post(h, module_mid.specifier@, *reference_range, rv));
                                assert(reference_step(
                                    h,
                                    module_mid,
                                    module,
                                    parsed_module.references@[i as int],
                                ));
                            }
                        },
                        TypeScriptReference::Types(reference_specifier, reference_range) => {
                            let resolved_dependency = self.resolve_load(
                                reference_specifier,
                                &module.specifier,
                                reference_range,
                                false,
                                Ghost(except),
                            );
                            let ghost rv = resolved_dependency;
                            if module.media_type == MediaType::JavaScript || module.media_type
                                == MediaType::Jsx {
                                module.maybe_types_dependency = Option::Some(
                                    (reference_specifier.clone(), resolved_dependency),
                                );
                            } else {
                                record_type_edge(
                                    &mut module.dependencies,
                                    reference_specifier,
                                    resolved_dependency,
                                    false,
                                );
                            }
                            proof {
                                assert(resolve_post(h, module_mid.specifier@, *reference_range, rv));
                                assert(reference_step(
                                    h,
                                    module_mid,
                                    module,
                                    parsed_module.references@[i as int],
                                ));
                            }
                        },
                    }
                    proof {
                        Self::lemma_only_enqueued_trans(b1, mid, *self);
                        lemma_references_phase_snoc(
                            h,
                            m_init,
                            module_mid,
                            module,
                            parsed_module.references@,
                            i as int,
                        );
                    }
                    i = i + 1;
                }
                proof {
                    assert(parsed_module.references@.take(
                        parsed_module.references@.len() as int,
                    ) =~= parsed_module.references@);
                }
                let ghost m1 = module;

                // The out-of-band type hint from the response metadata, only
                // when no reference already borrowed the types dependency.
                if module.maybe_types_dependency.is_none() {
                    match types_header_of(maybe_headers) {
                        Option::Some(types_header) => {
                            let ghost mid = *self;
                            let header_range = Range::default();
                            let resolved_dependency = self.resolve_load(
                                types_header,
                                &module.specifier,
                                &header_range,
                                false,
                                Ghost(except),
                            );
                            let ghost rv = resolved_dependency;
                            module.maybe_types_dependency = Option::Some(
                                (types_header.clone(), resolved_dependency),
                            );
                            proof {
                                Self::lemma_only_enqueued_trans(b1, mid, *self);
                                assert(resolve_post(h, m1.specifier@, zero_range(), rv));
                                assert(types_header_phase(h, m1, module, *maybe_headers));
                            }
                        },
                        Option::None => {
                            proof {
                                assert(types_header_phase(h, m1, module, *maybe_headers));
                            }
                        },
                    }
                } else {
                    proof {
                        assert(types_header_phase(h, m1, module, *maybe_headers));
                    }
                }
                let ghost m2 = module;

                // The structural import and export descriptors, in order.
                let mut j: usize = 0;
                while j < parsed_module.descriptors.len()
                    invariant
                        self.inv_except(except),
                        self.only_enqueued_from(b1),
                        h == (b1.maybe_resolver is Some),
                        module.wf(),
                        module.specifier == m_init.specifier,
                        module.source == m_init.source,
                        module.media_type == m_init.media_type,
                        j <= parsed_module.descriptors@.len(),
                        descriptors_phase(
                            h,
                            m2,
                            module,
                            parsed_module.descriptors@.take(j as int),
                        ),
                    decreases parsed_module.descriptors@.len() - j,
                {
                    let ghost mid = *self;
                    let ghost module_mid = module;
                    let descriptor = &parsed_module.descriptors[j];
                    let resolved_dependency = self.resolve_load(
                        &descriptor.specifier,
                        &module.specifier,
                        &descriptor.range,
                        descriptor.is_dynamic,
                        Ghost(except),
                    );
                    let ghost rc = resolved_dependency;
                    record_code_edge(
                        &mut module.dependencies,
                        &descriptor.specifier,
                        resolved_dependency,
                        descriptor.is_dynamic,
                    );
                    proof {
                        Self::lemma_only_enqueued_trans(b1, mid, *self);
                    }
                    match &descriptor.maybe_types {
                        Option::Some(types_hint) => {
                            let ghost mid2 = *self;
                            let resolved_types = self.resolve_load(
                                &types_hint.0,
                                &module.specifier,
                                &types_hint.1,
                                descriptor.is_dynamic,
                                Ghost(except),
                            );
                            let ghost rt = resolved_types;
                            record_type_edge(
                                &mut module.dependencies,
                                &descriptor.specifier,
                                resolved_types,
                                descriptor.is_dynamic,
                            );
                            proof {
                                Self::lemma_only_enqueued_trans(b1, mid2, *self);
                                assert(resolve_post(h, module_mid.specifier@, descriptor.range, rc));
                                assert(resolve_post(h, module_mid.specifier@, types_hint.1, rt));
                                assert(descriptor_step(
                                    h,
                                    module_mid,
                                    module,
                                    parsed_module.descriptors@[j as int],
                                ));
                            }
                        },
                        Option::None => {
                            proof {
                                assert(resolve_post(h, module_mid.specifier@, descriptor.range, rc));
                                assert(descriptor_step(
                                    h,
                                    module_mid,
                                    module,
                                    parsed_module.descriptors@[j as int],
                                ));
                            }
                        },
                    }
                    proof {
                        lemma_descriptors_phase_snoc(
                            h,
                            m2,
                            module_mid,
                            module,
                            parsed_module.descriptors@,
                            j as int,
                        );
                    }
                    j = j + 1;
                }
                proof {
                    assert(parsed_module.descriptors@.take(
                        parsed_module.descriptors@.len() as int,
                    ) =~= parsed_module.descriptors@);
                    assert(module_analysis(h, parsed_module, *maybe_headers, m_init, module));
                }
                ModuleSlot::Module(module)
            },
            Result::Err(diagnostic) => {
                proof {
                    Self::lemma_only_enqueued_refl(b1);
                }
                ModuleSlot::Error(ModuleGraphError::from(diagnostic))
            },
        }
    }

    /// Visit a module: record any redirect, classify and parse the content,
    /// resolve and record every dependency edge, and install the finished
    /// slot at the effective specifier.
    fn visit(&mut self, requested_specifier: &ModuleSpecifier, response: LoadResponse)
        requires
            old(self).inv_except(set![requested_specifier@]),
            !old(self).pending_contains(requested_specifier@),
            !old(self).graph.redirects@.contains_key(requested_specifier@),
        ensures
            final(self).wf(),
            Self::visit_post(*old(self), *final(self), requested_specifier@, response),
            final(self).pending@.len() + final(self).budget == old(self).pending@.len() + old(self).budget,
            old(self).issued@.is_prefix_of(final(self).issued@),
            old(self).pending@.len() <= final(self).pending@.len(),
            forall|i: int|
                0 <= i < old(self).pending@.len() ==> final(self).pending@[i] == old(self).pending@[i],
            forall|k: (Scheme, Seq<char>)|
                old(self).graph.known().contains(k) ==> final(self).graph.known().contains(k),
    {
        let ghost except = set![requested_specifier@];
        let ghost req = requested_specifier@;
        let ghost b0 = *self;
        let ghost resp = response;
        let LoadResponse { specifier: eff_spec, maybe_headers, content } = response;

        // A response served for another specifier than requested is a
        // redirect; the requested specifier keeps no slot of its own.
        let redirected = !requested_specifier.key_eq(&eff_spec);
        if redirected {
            self.graph.redirects.insert(requested_specifier.clone(), eff_spec.clone());
            self.graph.modules.remove(requested_specifier);
            proof {
                assert forall|i: int| 0 <= i < self.pending@.len()
                    implies (#[trigger] self.pending@[i]).specifier@ != req by {
                    if self.pending@[i].specifier@ == req {
                        assert(b0.pending_contains(req));
                    }
                }
            }
        }

        // Initialise the module and classify its media type, preferring an
        // explicitly declared content type over the specifier's extension.
        let mut module = Module::new(eff_spec, content);
        let media = match content_type_of(&maybe_headers) {
            Option::Some(content_type) => self.host.media_type_from_content_type(
                &module.specifier,
                content_type,
            ),
            Option::None => self.host.media_type_from_specifier(&module.specifier),
        };
        module.media_type = media;

        let ghost b1 = *self;
        let ghost eff = module.specifier@;
        let slot_key = module.specifier.clone();

        // Parse the module; the installed slot is the analysis of exactly
        // that outcome.
        let parse_result = self.host.parse(&module.specifier, &module.source, module.media_type);
        let module_slot = self.module_slot_from_parse(
            module,
            parse_result,
            &maybe_headers,
            Ghost(except),
        );

        let ghost b2 = *self;
        self.graph.modules.insert(slot_key, module_slot);

        proof {
            // The invariant holds with no exemption: the effective slot is
            // terminal, and when redirected the requested specifier has no
            // slot at all, the redirect map blocking any further load.
            assert forall|k: (Scheme, Seq<char>)| #[trigger]
                self.graph.modules@.contains_key(k) && self.graph.modules@[k] is Pending
                implies self.pending_contains(k) by {
                assert(k != eff);
                assert(b2.graph.modules@.contains_key(k));
                if k == req {
                    if redirected {
                        assert(!b1.graph.modules@.contains_key(req));
                        assert(b1.graph.redirects@.contains_key(req));
                        assert(false);
                    } else {
                        assert(false);
                    }
                } else {
                    assert(b2.pending_contains(k));
                    let w = choose|w: int|
                        0 <= w < b2.pending@.len() && (#[trigger] b2.pending@[w]).specifier@ == k;
                    assert(self.pending@[w].specifier@ == k);
                }
            }
            assert(self.inv_except(Set::empty()));
            // The visit's outcome, clause by clause.
            assert forall|k: (Scheme, Seq<char>)| #[trigger]
                b0.graph.modules@.contains_key(k) && k != req && k != eff
                implies self.graph.modules@.contains_key(k) && self.graph.modules@[k]
                == b0.graph.modules@[k] by {
                assert(b1.graph.modules@.contains_key(k));
                assert(b2.graph.modules@.contains_key(k));
            }
            assert forall|k: (Scheme, Seq<char>)| #[trigger]
                self.graph.modules@.contains_key(k) && !b0.graph.modules@.contains_key(k) && k
                != eff implies self.graph.modules@[k] is Pending by {
                assert(b2.graph.modules@.contains_key(k));
                assert(!b1.graph.modules@.contains_key(k));
            }
            assert forall|k: (Scheme, Seq<char>)| b0.graph.known().contains(k)
                implies self.graph.known().contains(k) by {
                if b0.graph.modules@.contains_key(k) {
                    if k == req && redirected {
                        assert(self.graph.redirects@.contains_key(k));
                    } else if k == eff {
                        assert(self.graph.modules@.contains_key(k));
                    } else {
                        assert(b1.graph.modules@.contains_key(k));
                        assert(b2.graph.modules@.contains_key(k));
                    }
                } else {
                    assert(b0.graph.redirects@.contains_key(k));
                }
            }
            assert(eff == resp.specifier@);
            assert(self.graph.root == b0.graph.root);
            assert(self.host == b0.host);
            assert(self.maybe_resolver == b0.maybe_resolver);
            assert(self.is_dynamic_root == b0.is_dynamic_root);
            assert(redirected == (eff != req));
            assert(eff != req ==> self.graph.redirects@.contains_key(req)
                && self.graph.redirects@[req]@ == eff);
            assert(eff != req ==> !self.graph.modules@.contains_key(req));
            assert(eff == req ==> self.graph.redirects@ == b0.graph.redirects@);
            assert(self.graph.modules@.contains_key(eff));
            assert(match self.graph.modules@[eff] {
                ModuleSlot::Module(m) => m.specifier@ == eff && m.source@ == resp.content@
                    && m.wf(),
                ModuleSlot::Error(e) => e is ParseErr,
                _ => false,
            });
        }
    }

    /// Apply one completed load: retire its in-flight record and dispatch on
    /// the outcome — visit a response, mark a "not found" missing, or record
    /// the loader's failure — installing a terminal slot either way.
    pub fn on_load(
        &mut self,
        requested_specifier: &ModuleSpecifier,
        result: Result<Option<LoadResponse>, anyhow::Error>,
    )
        requires
            old(self).wf(),
            old(self).pending_contains(requested_specifier@),
        ensures
            final(self).wf(),
            final(self).pending@.len() + final(self).budget + 1 == old(self).pending@.len() + old(self).budget,
            final(self).graph.root == old(self).graph.root,
            final(self).host == old(self).host,
            final(self).maybe_resolver == old(self).maybe_resolver,
            final(self).is_dynamic_root == old(self).is_dynamic_root,
            old(self).issued@.is_prefix_of(final(self).issued@),
            forall|k: (Scheme, Seq<char>)|
                old(self).graph.known().contains(k) ==> final(self).graph.known().contains(k),
            match result {
                Result::Ok(Option::Some(response)) => Self::visit_post(
                    *old(self),
                    *final(self),
                    requested_specifier@,
                    response,
                ),
                Result::Ok(Option::None) => final(self).graph.modules@ == old(self).graph.modules@.insert(requested_specifier@, ModuleSlot::Missing) && final(self).graph.redirects@ == old(self).graph.redirects@,
                Result::Err(e) => final(self).graph.modules@ == old(self).graph.modules@.insert(
                    requested_specifier@,
                    ModuleSlot::Error(ModuleGraphError::LoadingErr(e)),
                ) && final(self).graph.redirects@ == old(self).graph.redirects@,
            },
    {
        let ghost req = requested_specifier@;
        let ghost b0 = *self;
        let i = match self.pending_index(requested_specifier) {
            Option::Some(i) => i,
            Option::None => {
                proof {
                    assert(false);
                }
                0
            },
        };
        self.pending.remove(i);
        proof {
            let p0 = b0.pending@;
            let p1 = self.pending@;
            assert forall|a: int, b: int| 0 <= a < b < p1.len()
                implies (#[trigger] p1[a]).specifier@ != (#[trigger] p1[b]).specifier@ by {
                let a0: int = if a < i { a } else { a + 1 };
                let b0i: int = if b < i { b } else { b + 1 };
                assert(p1[a] == p0[a0]);
                assert(p1[b] == p0[b0i]);
            }
            assert forall|j: int| 0 <= j < p1.len() implies (#[trigger] p1[j]).specifier@ != req by {
                let j0: int = if j < i { j } else { j + 1 };
                assert(p1[j] == p0[j0]);
            }
            assert forall|j: int| 0 <= j < p1.len() implies self.graph.modules@.contains_key(
                (#[trigger] p1[j]).specifier@,
            ) && !self.graph.redirects@.contains_key((#[trigger] p1[j]).specifier@) by {
                let j0: int = if j < i { j } else { j + 1 };
                assert(p1[j] == p0[j0]);
            }
            assert forall|k: (Scheme, Seq<char>)| #[trigger]
                self.graph.modules@.contains_key(k) && self.graph.modules@[k] is Pending
                implies self.pending_contains(k) || set![req].contains(k) by {
                assert(b0.pending_contains(k));
                let w = choose|w: int|
                    0 <= w < p0.len() && (#[trigger] p0[w]).specifier@ == k;
                if w == i {
                    assert(k == req);
                } else {
                    let w1: int = if w < i { w } else { w - 1 };
                    assert(p1[w1] == p0[w]);
                }
            }
            assert(self.inv_except(set![req]));
            assert(!self.graph.redirects@.contains_key(req)) by {
                let w = choose|w: int|
                    0 <= w < p0.len() && (#[trigger] p0[w]).specifier@ == req;
                assert(!b0.graph.redirects@.contains_key(p0[w].specifier@));
            }
        }
        match result {
            Result::Ok(maybe_response) => match maybe_response {
                Option::Some(response) => {
                    let ghost resp = response;
                    self.visit(requested_specifier, response);
                    proof {
                        assert(Self::visit_post(b0, *self, req, resp));
                    }
                },
                Option::None => {
                    let ghost b1 = *self;
                    self.graph.modules.insert(requested_specifier.clone(), ModuleSlot::Missing);
                    proof {
                        assert forall|k: (Scheme, Seq<char>)| #[trigger]
                            self.graph.modules@.contains_key(k) && self.graph.modules@[k]
                                is Pending implies self.pending_contains(k) by {
                            assert(k != req);
                            assert(b1.graph.modules@.contains_key(k));
                        }
                        assert(self.inv_except(Set::empty()));
                    }
                },
            },
            Result::Err(err) => {
                let ghost b1 = *self;
                self.graph.modules.insert(
                    requested_specifier.clone(),
                    ModuleSlot::Error(ModuleGraphError::LoadingErr(err)),
                );
                proof {
                    assert forall|k: (Scheme, Seq<char>)| #[trigger]
                        self.graph.modules@.contains_key(k) && self.graph.modules@[k] is Pending
                        implies self.pending_contains(k) by {
                        assert(k != req);
                        assert(b1.graph.modules@.contains_key(k));
                    }
                    assert(self.inv_except(Set::empty()));
                }
            },
        }
    }

    /// Take the finished graph. Totality: once no load is in flight, every
    /// specifier that has a slot is in exactly one of the three terminal
    /// states — never pending.
    pub fn finish(self) -> (graph: ModuleGraph)
        requires
            self.wf(),
            self.pending@.len() == 0,
        ensures
            graph == self.graph,
            graph.wf(),
            forall|k: (Scheme, Seq<char>)|
                graph.modules@.contains_key(k) ==> !((#[trigger] graph.modules@[k]) is Pending),
    {
        proof {
            assert forall|k: (Scheme, Seq<char>)| self.graph.modules@.contains_key(k)
                implies !((#[trigger] self.graph.modules@[k]) is Pending) by {
                if self.graph.modules@[k] is Pending {
                    assert(self.pending_contains(k));
                }
            }
        }
        self.graph
    }

    /// Build the graph: enqueue the root, then complete loads until no work
    /// remains. Completion order is the loader's affair, and the outcome
    /// holds for any order; the load budget bounds the traversal against a
    /// loader that reports ever-new specifiers.
    pub fn build<L: Loader>(self, loader: &mut L) -> (graph: ModuleGraph)
        requires
            self.wf(),
        ensures
            graph.wf(),
            graph.root == self.graph.root,
            forall|k: (Scheme, Seq<char>)|
                graph.modules@.contains_key(k) ==> !((#[trigger] graph.modules@[k]) is Pending),
            self.budget > 0 ==> graph.known().contains(self.graph.root@),
    {
        let ghost b0 = self;
        let mut builder = self;
        builder.start();
        while builder.pending.len() > 0
            invariant
                builder.wf(),
                builder.graph.root == b0.graph.root,
                b0.budget > 0 || b0.graph.known().contains(b0.graph.root@)
                    ==> builder.graph.known().contains(b0.graph.root@),
            decreases builder.pending@.len() + builder.budget,
        {
            let last = builder.pending.len() - 1;
            let request = builder.pending[last].clone();
            let result = loader.load(&request.specifier, request.is_dynamic);
            proof {
                assert(builder.pending@[last as int].specifier@ == request.specifier@);
            }
            builder.on_load(&request.specifier, result);
        }
        builder.finish()
    }

    /// Deduplication: the loads ever issued are pairwise distinct, so their
    /// number equals the number of distinct specifiers they were issued for,
    /// however many times a specifier is imported — and each is a specifier
    /// the graph knows.
    pub proof fn lemma_loads_deduplicated(self)
        requires
            self.wf(),
        ensures
            self.issued_loads().no_duplicates(),
            self.issued_loads().len() == self.issued_loads().to_set().len(),
            forall|i: int|
                0 <= i < self.issued_loads().len() ==> self.graph.known().contains(
                    #[trigger] self.issued_loads()[i],
                ),
    {
        self.issued_loads().unique_seq_to_set();
    }
}

} // verus!
