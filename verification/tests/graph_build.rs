use module_graph::ast::{
    DependencyDescriptor, Diagnostic, ParsedModule, Position, Range, TypeScriptReference,
};
use module_graph::graph::{Builder, ModuleGraph, ModuleSlot};
use module_graph::error::ModuleGraphError;
use module_graph::media_type::MediaType;
use module_graph::module::Module;
use module_graph::resolution::{ResolutionError, Resolved};
use module_graph::source::{Host, LoadResponse, Loader, Locker, Resolver, ResponseHeaders};
use module_graph::specifier::{ModuleSpecifier, Scheme, SpecifierError};

fn spec(scheme: Scheme, text: &str) -> ModuleSpecifier {
    ModuleSpecifier { scheme, text: text.to_string() }
}

fn parse_absolute(text: &str) -> Option<ModuleSpecifier> {
    if text.starts_with("https://") {
        Some(spec(Scheme::Https, text))
    } else if text.starts_with("http://") {
        Some(spec(Scheme::Http, text))
    } else if text.starts_with("file:///") {
        Some(spec(Scheme::File, text))
    } else {
        None
    }
}

/// A host with a toy module syntax, one directive per line:
/// `import S`, `dynimport S`, `types S` (inline hint for the latest import),
/// `refpath S`, `reftypes S`, and `fail MSG` (a parse error).
struct TestHost;

impl Host for TestHost {
    fn resolve_import(
        &self,
        import: &String,
        referrer: &ModuleSpecifier,
    ) -> Result<ModuleSpecifier, SpecifierError> {
        if let Some(absolute) = parse_absolute(import) {
            return Ok(absolute);
        }
        if let Some(rest) = import.strip_prefix("./") {
            let base = match referrer.text.rfind('/') {
                Some(i) => &referrer.text[..i + 1],
                None => return Err(SpecifierError::InvalidUrl),
            };
            return Ok(ModuleSpecifier {
                scheme: referrer.scheme,
                text: format!("{}{}", base, rest),
            });
        }
        Err(SpecifierError::ImportPrefixMissing)
    }

    fn media_type_from_content_type(
        &self,
        _specifier: &ModuleSpecifier,
        content_type: &String,
    ) -> MediaType {
        match content_type.as_str() {
            "application/typescript" => MediaType::TypeScript,
            "application/javascript" => MediaType::JavaScript,
            "text/jsx" => MediaType::Jsx,
            _ => MediaType::Unknown,
        }
    }

    fn media_type_from_specifier(&self, specifier: &ModuleSpecifier) -> MediaType {
        let t = &specifier.text;
        if t.ends_with(".d.ts") {
            MediaType::Dts
        } else if t.ends_with(".ts") {
            MediaType::TypeScript
        } else if t.ends_with(".tsx") {
            MediaType::Tsx
        } else if t.ends_with(".js") {
            MediaType::JavaScript
        } else if t.ends_with(".jsx") {
            MediaType::Jsx
        } else {
            MediaType::Unknown
        }
    }

    fn parse(
        &self,
        _specifier: &ModuleSpecifier,
        source: &String,
        _media_type: MediaType,
    ) -> Result<ParsedModule, Diagnostic> {
        let mut references = Vec::new();
        let mut descriptors: Vec<DependencyDescriptor> = Vec::new();
        for (line_index, line) in source.lines().enumerate() {
            let range = Range {
                start: Position { line: line_index, character: 0 },
                end: Position { line: line_index, character: line.len() },
            };
            if let Some(s) = line.strip_prefix("import ") {
                descriptors.push(DependencyDescriptor {
                    specifier: s.to_string(),
                    range,
                    is_dynamic: false,
                    maybe_types: None,
                });
            } else if let Some(s) = line.strip_prefix("dynimport ") {
                descriptors.push(DependencyDescriptor {
                    specifier: s.to_string(),
                    range,
                    is_dynamic: true,
                    maybe_types: None,
                });
            } else if let Some(s) = line.strip_prefix("types ") {
                if let Some(last) = descriptors.last_mut() {
                    last.maybe_types = Some((s.to_string(), range));
                }
            } else if let Some(s) = line.strip_prefix("refpath ") {
                references.push(TypeScriptReference::Path(s.to_string(), range));
            } else if let Some(s) = line.strip_prefix("reftypes ") {
                references.push(TypeScriptReference::Types(s.to_string(), range));
            } else if let Some(msg) = line.strip_prefix("fail ") {
                return Err(Diagnostic { message: msg.to_string() });
            }
        }
        Ok(ParsedModule { references, descriptors })
    }
}

enum TestEntry {
    Found(String),
    FoundAs(String, String),
    FoundWithHeaders(String, Option<String>, Option<String>),
    NotFound,
    Fail(String),
}

/// A loader backed by a table from specifier text to an outcome; it records
/// every call it receives.
struct TestLoader {
    entries: Vec<(String, TestEntry)>,
    calls: Vec<String>,
}

impl TestLoader {
    fn new(entries: Vec<(&str, TestEntry)>) -> TestLoader {
        TestLoader {
            entries: entries.into_iter().map(|(k, v)| (k.to_string(), v)).collect(),
            calls: Vec::new(),
        }
    }
}

impl Loader for TestLoader {
    fn load(
        &mut self,
        specifier: &ModuleSpecifier,
        _is_dynamic: bool,
    ) -> Result<Option<LoadResponse>, anyhow::Error> {
        self.calls.push(specifier.text.clone());
        for (key, entry) in &self.entries {
            if key == &specifier.text {
                return match entry {
                    TestEntry::Found(content) => Ok(Some(LoadResponse {
                        specifier: specifier.clone(),
                        maybe_headers: None,
                        content: content.clone(),
                    })),
                    TestEntry::FoundAs(effective, content) => Ok(Some(LoadResponse {
                        specifier: parse_absolute(effective).unwrap(),
                        maybe_headers: None,
                        content: content.clone(),
                    })),
                    TestEntry::FoundWithHeaders(content, content_type, types) => {
                        Ok(Some(LoadResponse {
                            specifier: specifier.clone(),
                            maybe_headers: Some(ResponseHeaders {
                                maybe_content_type: content_type.clone(),
                                maybe_types: types.clone(),
                            }),
                            content: content.clone(),
                        }))
                    },
                    TestEntry::NotFound => Ok(None),
                    TestEntry::Fail(msg) => Err(anyhow::Error::msg(msg.clone())),
                };
            }
        }
        Ok(None)
    }
}

struct NoResolver;

impl Resolver for NoResolver {
    fn resolve(
        &self,
        _import: &String,
        _referrer: &ModuleSpecifier,
    ) -> Result<ModuleSpecifier, anyhow::Error> {
        Err(anyhow::Error::msg("unused"))
    }
}

/// A resolver backed by a table from import string to target.
struct MappingResolver {
    map: Vec<(String, ModuleSpecifier)>,
}

impl Resolver for MappingResolver {
    fn resolve(
        &self,
        import: &String,
        _referrer: &ModuleSpecifier,
    ) -> Result<ModuleSpecifier, anyhow::Error> {
        for (key, target) in &self.map {
            if key == import {
                return Ok(target.clone());
            }
        }
        Err(anyhow::Error::msg(format!("no mapping for {}", import)))
    }
}

struct TestLocker {
    records: Vec<(String, String)>,
}

impl Locker for TestLocker {
    fn check_or_insert(&mut self, specifier: &ModuleSpecifier, source: &String) -> bool {
        for (key, recorded) in &self.records {
            if key == &specifier.text {
                return recorded == source;
            }
        }
        self.records.push((specifier.text.clone(), source.clone()));
        true
    }
}

fn build_graph(root: &str, loader: &mut TestLoader) -> ModuleGraph {
    let builder = Builder::new(
        parse_absolute(root).unwrap(),
        false,
        TestHost,
        None::<NoResolver>,
        100,
    );
    builder.build(loader)
}

fn module_at<'a>(graph: &'a ModuleGraph, text: &str) -> &'a Module {
    let specifier = parse_absolute(text).unwrap();
    match graph.get(&specifier) {
        Some(ModuleSlot::Module(m)) => m,
        other => panic!("no module slot for {}: {:?}", text, other.is_some()),
    }
}

#[test]
fn static_and_dynamic_imports_build_three_slots() {
    let mut loader = TestLoader::new(vec![
        ("https://a/mod.ts", TestEntry::Found("import ./b.ts\ndynimport ./c.ts".to_string())),
        ("https://a/b.ts", TestEntry::Found(String::new())),
        ("https://a/c.ts", TestEntry::Found(String::new())),
    ]);
    let graph = build_graph("https://a/mod.ts", &mut loader);
    assert_eq!(graph.modules.len(), 3);
    let root = module_at(&graph, "https://a/mod.ts");
    assert_eq!(root.dependencies.len(), 2);
    let b = root.dependencies.get(&"./b.ts".to_string()).unwrap();
    assert!(!b.is_dynamic);
    assert!(matches!(&b.maybe_code, Resolved::Specifier(s, _) if s.text == "https://a/b.ts"));
    assert!(b.maybe_type.is_none());
    let c = root.dependencies.get(&"./c.ts".to_string()).unwrap();
    assert!(c.is_dynamic);
    assert!(matches!(&c.maybe_code, Resolved::Specifier(s, _) if s.text == "https://a/c.ts"));
}

#[test]
fn downgrade_breaks_the_edge_and_creates_no_slot() {
    let mut loader = TestLoader::new(vec![
        ("https://a/mod.ts", TestEntry::Found("import http://insecure/x.ts".to_string())),
        ("http://insecure/x.ts", TestEntry::Found(String::new())),
    ]);
    let graph = build_graph("https://a/mod.ts", &mut loader);
    assert_eq!(graph.modules.len(), 1);
    let root = module_at(&graph, "https://a/mod.ts");
    let dep = root.dependencies.get(&"http://insecure/x.ts".to_string()).unwrap();
    assert!(matches!(&dep.maybe_code,
        Resolved::Failed(ResolutionError::InvalidDowngrade, _)));
    assert!(graph.get(&spec(Scheme::Http, "http://insecure/x.ts")).is_none());
    assert_eq!(loader.calls, vec!["https://a/mod.ts".to_string()]);
}

#[test]
fn a_missing_target_keeps_a_resolved_edge() {
    let mut loader = TestLoader::new(vec![
        ("https://a/mod.ts", TestEntry::Found("import ./b.ts".to_string())),
        ("https://a/b.ts", TestEntry::NotFound),
    ]);
    let graph = build_graph("https://a/mod.ts", &mut loader);
    let root = module_at(&graph, "https://a/mod.ts");
    let dep = root.dependencies.get(&"./b.ts".to_string()).unwrap();
    assert!(matches!(&dep.maybe_code, Resolved::Specifier(s, _) if s.text == "https://a/b.ts"));
    assert!(matches!(
        graph.get(&spec(Scheme::Https, "https://a/b.ts")),
        Some(ModuleSlot::Missing)
    ));
}

#[test]
fn a_loader_failure_is_recorded_in_the_slot() {
    let mut loader = TestLoader::new(vec![
        ("https://a/mod.ts", TestEntry::Found("import ./b.ts".to_string())),
        ("https://a/b.ts", TestEntry::Fail("connection reset".to_string())),
    ]);
    let graph = build_graph("https://a/mod.ts", &mut loader);
    match graph.get(&spec(Scheme::Https, "https://a/b.ts")) {
        Some(ModuleSlot::Error(ModuleGraphError::LoadingErr(e))) => {
            assert_eq!(format!("{}", e), "connection reset");
        },
        _ => panic!("expected a loading error slot"),
    }
}

#[test]
fn a_parse_failure_is_recorded_and_extracts_nothing() {
    let mut loader = TestLoader::new(vec![
        ("https://a/mod.ts", TestEntry::Found("import ./bad.ts".to_string())),
        ("https://a/bad.ts", TestEntry::Found("fail unexpected token".to_string())),
    ]);
    let graph = build_graph("https://a/mod.ts", &mut loader);
    match graph.get(&spec(Scheme::Https, "https://a/bad.ts")) {
        Some(ModuleSlot::Error(ModuleGraphError::ParseErr(d))) => {
            assert_eq!(d.message, "unexpected token");
        },
        _ => panic!("expected a parse error slot"),
    }
    // The referrer still holds a resolved edge to the broken module.
    let root = module_at(&graph, "https://a/mod.ts");
    let dep = root.dependencies.get(&"./bad.ts".to_string()).unwrap();
    assert!(matches!(&dep.maybe_code, Resolved::Specifier(_, _)));
}

#[test]
fn a_parse_failure_enqueues_no_further_loads() {
    let mut loader = TestLoader::new(vec![
        ("https://a/mod.ts", TestEntry::Found("import ./bad.ts".to_string())),
        ("https://a/bad.ts", TestEntry::Found("fail boom\nimport ./never.ts".to_string())),
        ("https://a/never.ts", TestEntry::Found(String::new())),
    ]);
    let graph = build_graph("https://a/mod.ts", &mut loader);
    assert!(matches!(
        graph.get(&spec(Scheme::Https, "https://a/bad.ts")),
        Some(ModuleSlot::Error(ModuleGraphError::ParseErr(_)))
    ));
    assert!(graph.get(&spec(Scheme::Https, "https://a/never.ts")).is_none());
    assert!(!loader.calls.contains(&"https://a/never.ts".to_string()));
}

#[test]
fn the_locker_is_not_consulted_for_slots_without_a_module() {
    let mut loader = TestLoader::new(vec![("https://a/mod.ts", TestEntry::NotFound)]);
    let graph = build_graph("https://a/mod.ts", &mut loader);
    assert!(matches!(
        graph.get(&spec(Scheme::Https, "https://a/mod.ts")),
        Some(ModuleSlot::Missing)
    ));
    // A locker that would reject the root's text is never asked: no slot
    // holds a module.
    let mut stale = TestLocker {
        records: vec![("https://a/mod.ts".to_string(), "mismatch".to_string())],
    };
    assert!(graph.lock(&mut stale).is_ok());
}

#[test]
fn each_discovered_specifier_is_loaded_once() {
    let mut loader = TestLoader::new(vec![
        ("https://a/mod.ts", TestEntry::Found("import ./b.ts\nimport ./c.ts".to_string())),
        ("https://a/b.ts", TestEntry::Found("import ./d.ts".to_string())),
        ("https://a/c.ts", TestEntry::Found("import ./d.ts\nimport ./b.ts".to_string())),
        ("https://a/d.ts", TestEntry::Found("import ./b.ts".to_string())),
    ]);
    let graph = build_graph("https://a/mod.ts", &mut loader);
    assert_eq!(graph.modules.len(), 4);
    let mut calls = loader.calls.clone();
    calls.sort();
    let total = calls.len();
    calls.dedup();
    assert_eq!(total, 4, "every load is for a distinct specifier: {:?}", loader.calls);
    assert_eq!(calls.len(), 4);
}

#[test]
fn no_slot_is_pending_at_the_end() {
    let mut loader = TestLoader::new(vec![
        ("https://a/mod.ts", TestEntry::Found("import ./b.ts\ndynimport ./c.ts".to_string())),
        ("https://a/b.ts", TestEntry::NotFound),
        ("https://a/c.ts", TestEntry::Fail("boom".to_string())),
    ]);
    let graph = build_graph("https://a/mod.ts", &mut loader);
    for (_, slot) in graph.modules.entries.iter() {
        assert!(!matches!(slot, ModuleSlot::Pending));
    }
}

#[test]
fn a_redirect_is_recorded_and_the_module_lives_at_the_target() {
    let mut loader = TestLoader::new(vec![
        ("https://a/mod.ts", TestEntry::Found("import ./old.ts".to_string())),
        ("https://a/old.ts", TestEntry::FoundAs("https://a/new.ts".to_string(), String::new())),
    ]);
    let graph = build_graph("https://a/mod.ts", &mut loader);
    let old = spec(Scheme::Https, "https://a/old.ts");
    let new = spec(Scheme::Https, "https://a/new.ts");
    assert_eq!(graph.redirects.get(&old).unwrap().text, "https://a/new.ts");
    assert!(graph.get(&old).is_none());
    assert!(matches!(graph.get(&new), Some(ModuleSlot::Module(_))));
    // The referrer's edge still names the originally resolved specifier.
    let root = module_at(&graph, "https://a/mod.ts");
    let dep = root.dependencies.get(&"./old.ts".to_string()).unwrap();
    assert!(matches!(&dep.maybe_code, Resolved::Specifier(s, _) if s.text == "https://a/old.ts"));
}

#[test]
fn the_content_type_header_wins_over_the_extension() {
    let mut loader = TestLoader::new(vec![(
        "https://a/mod.ts",
        TestEntry::FoundWithHeaders(
            String::new(),
            Some("application/javascript".to_string()),
            None,
        ),
    )]);
    let graph = build_graph("https://a/mod.ts", &mut loader);
    let root = module_at(&graph, "https://a/mod.ts");
    assert_eq!(root.media_type, MediaType::JavaScript);
}

#[test]
fn the_types_header_fills_the_types_dependency() {
    let mut loader = TestLoader::new(vec![
        (
            "https://a/mod.js",
            TestEntry::FoundWithHeaders(String::new(), None, Some("./types.d.ts".to_string())),
        ),
        ("https://a/types.d.ts", TestEntry::Found(String::new())),
    ]);
    let graph = build_graph("https://a/mod.js", &mut loader);
    let root = module_at(&graph, "https://a/mod.js");
    match &root.maybe_types_dependency {
        Some((text, Resolved::Specifier(s, _))) => {
            assert_eq!(text, "./types.d.ts");
            assert_eq!(s.text, "https://a/types.d.ts");
        },
        other => panic!("expected a types dependency, got {:?}", other),
    }
    assert!(matches!(
        graph.get(&spec(Scheme::Https, "https://a/types.d.ts")),
        Some(ModuleSlot::Module(_))
    ));
}

#[test]
fn a_types_reference_in_plain_script_beats_the_header() {
    let mut loader = TestLoader::new(vec![
        (
            "https://a/mod.js",
            TestEntry::FoundWithHeaders(
                "reftypes ./t1.d.ts".to_string(),
                Some("application/javascript".to_string()),
                Some("./t2.d.ts".to_string()),
            ),
        ),
        ("https://a/t1.d.ts", TestEntry::Found(String::new())),
        ("https://a/t2.d.ts", TestEntry::Found(String::new())),
    ]);
    let graph = build_graph("https://a/mod.js", &mut loader);
    let root = module_at(&graph, "https://a/mod.js");
    match &root.maybe_types_dependency {
        Some((text, _)) => assert_eq!(text, "./t1.d.ts"),
        None => panic!("expected a types dependency"),
    }
    // The out-of-band hint was not consulted, so its target was never loaded.
    assert!(graph.get(&spec(Scheme::Https, "https://a/t2.d.ts")).is_none());
}

#[test]
fn the_first_type_edge_for_a_literal_wins() {
    let mut loader = TestLoader::new(vec![
        (
            "https://a/mod.ts",
            TestEntry::Found("reftypes ./t.ts\nimport ./t.ts\ntypes ./other.d.ts".to_string()),
        ),
        ("https://a/t.ts", TestEntry::Found(String::new())),
        ("https://a/other.d.ts", TestEntry::Found(String::new())),
    ]);
    let graph = build_graph("https://a/mod.ts", &mut loader);
    let root = module_at(&graph, "https://a/mod.ts");
    let dep = root.dependencies.get(&"./t.ts".to_string()).unwrap();
    // The reference wrote the type edge first; the inline hint must not
    // overwrite it.
    assert!(matches!(&dep.maybe_type, Resolved::Specifier(s, _) if s.text == "https://a/t.ts"));
    assert!(matches!(&dep.maybe_code, Resolved::Specifier(s, _) if s.text == "https://a/t.ts"));
}

#[test]
fn an_inline_type_hint_fills_an_empty_type_edge() {
    let mut loader = TestLoader::new(vec![
        ("https://a/mod.ts", TestEntry::Found("import ./b.js\ntypes ./b.d.ts".to_string())),
        ("https://a/b.js", TestEntry::Found(String::new())),
        ("https://a/b.d.ts", TestEntry::Found(String::new())),
    ]);
    let graph = build_graph("https://a/mod.ts", &mut loader);
    let root = module_at(&graph, "https://a/mod.ts");
    let dep = root.dependencies.get(&"./b.js".to_string()).unwrap();
    assert!(matches!(&dep.maybe_code, Resolved::Specifier(s, _) if s.text == "https://a/b.js"));
    assert!(matches!(&dep.maybe_type, Resolved::Specifier(s, _) if s.text == "https://a/b.d.ts"));
}

#[test]
fn a_path_reference_is_a_code_edge() {
    let mut loader = TestLoader::new(vec![
        ("https://a/mod.ts", TestEntry::Found("refpath ./p.ts".to_string())),
        ("https://a/p.ts", TestEntry::Found(String::new())),
    ]);
    let graph = build_graph("https://a/mod.ts", &mut loader);
    let root = module_at(&graph, "https://a/mod.ts");
    let dep = root.dependencies.get(&"./p.ts".to_string()).unwrap();
    assert!(matches!(&dep.maybe_code, Resolved::Specifier(s, _) if s.text == "https://a/p.ts"));
    assert!(!dep.is_dynamic);
}

#[test]
fn a_resolver_waives_the_local_escape_rule() {
    let mut loader = TestLoader::new(vec![
        ("https://a/mod.ts", TestEntry::Found("import ./local.ts".to_string())),
        ("file:///local.ts", TestEntry::Found(String::new())),
    ]);
    let resolver = MappingResolver {
        map: vec![("./local.ts".to_string(), spec(Scheme::File, "file:///local.ts"))],
    };
    let builder = Builder::new(
        spec(Scheme::Https, "https://a/mod.ts"),
        false,
        TestHost,
        Some(resolver),
        100,
    );
    let graph = builder.build(&mut loader);
    let root = module_at(&graph, "https://a/mod.ts");
    let dep = root.dependencies.get(&"./local.ts".to_string()).unwrap();
    assert!(matches!(&dep.maybe_code, Resolved::Specifier(s, _) if s.text == "file:///local.ts"));
}

#[test]
fn without_a_resolver_a_local_import_from_remote_is_rejected() {
    let mut loader = TestLoader::new(vec![
        ("https://a/mod.ts", TestEntry::Found("import file:///local.ts".to_string())),
        ("file:///local.ts", TestEntry::Found(String::new())),
    ]);
    let graph = build_graph("https://a/mod.ts", &mut loader);
    let root = module_at(&graph, "https://a/mod.ts");
    let dep = root.dependencies.get(&"file:///local.ts".to_string()).unwrap();
    assert!(matches!(&dep.maybe_code,
        Resolved::Failed(ResolutionError::InvalidLocalImport, _)));
    assert!(graph.get(&spec(Scheme::File, "file:///local.ts")).is_none());
}

#[test]
fn a_resolver_rejection_becomes_a_resolver_error_edge() {
    let mut loader = TestLoader::new(vec![
        ("https://a/mod.ts", TestEntry::Found("import ./unmapped.ts".to_string())),
    ]);
    let resolver = MappingResolver { map: vec![] };
    let builder = Builder::new(
        spec(Scheme::Https, "https://a/mod.ts"),
        false,
        TestHost,
        Some(resolver),
        100,
    );
    let graph = builder.build(&mut loader);
    let root = module_at(&graph, "https://a/mod.ts");
    let dep = root.dependencies.get(&"./unmapped.ts".to_string()).unwrap();
    assert!(matches!(&dep.maybe_code,
        Resolved::Failed(ResolutionError::ResolverError(_), _)));
}

#[test]
fn the_lock_pass_accepts_consistent_sources_and_names_the_first_mismatch() {
    let mut loader = TestLoader::new(vec![
        ("https://a/mod.ts", TestEntry::Found("import ./b.ts".to_string())),
        ("https://a/b.ts", TestEntry::Found("export {};".to_string())),
    ]);
    let graph = build_graph("https://a/mod.ts", &mut loader);

    let mut fresh = TestLocker { records: vec![] };
    assert!(graph.lock(&mut fresh).is_ok());
    // A second pass over the same recorded sources still agrees.
    assert!(graph.lock(&mut fresh).is_ok());

    let mut stale = TestLocker {
        records: vec![
            ("https://a/b.ts".to_string(), "something else".to_string()),
        ],
    };
    match graph.lock(&mut stale) {
        Err(ModuleGraphError::InvalidSource(s)) => assert_eq!(s.text, "https://a/b.ts"),
        _ => panic!("expected an invalid source error"),
    }
}

#[test]
fn the_load_budget_bounds_discovery() {
    let mut loader = TestLoader::new(vec![
        ("https://a/mod.ts", TestEntry::Found("import ./b.ts".to_string())),
        ("https://a/b.ts", TestEntry::Found(String::new())),
    ]);
    let builder = Builder::new(
        spec(Scheme::Https, "https://a/mod.ts"),
        false,
        TestHost,
        None::<NoResolver>,
        1,
    );
    let graph = builder.build(&mut loader);
    // Only the root fit in the budget; the discovered import got no slot,
    // and nothing is left pending.
    assert_eq!(graph.modules.len(), 1);
    assert!(graph.get(&spec(Scheme::Https, "https://a/b.ts")).is_none());
}

#[test]
fn a_dynamic_root_is_requested_dynamically() {
    let root = spec(Scheme::Https, "https://a/mod.ts");
    let mut builder = Builder::new(root.clone(), true, TestHost, None::<NoResolver>, 100);
    builder.start();
    let requests = builder.pending_requests();
    assert_eq!(requests.len(), 1);
    assert!(requests[0].is_dynamic);
}

#[test]
fn loads_can_be_driven_one_event_at_a_time() {
    let root = spec(Scheme::Https, "https://a/mod.ts");
    let mut builder = Builder::new(root.clone(), false, TestHost, None::<NoResolver>, 100);
    builder.start();
    let requests = builder.pending_requests();
    assert_eq!(requests.len(), 1);
    assert_eq!(requests[0].specifier.text, "https://a/mod.ts");
    assert!(!requests[0].is_dynamic);
    assert!(builder.has_pending(&root));
    builder.on_load(&root, Ok(None));
    assert!(builder.is_idle());
    let graph = builder.finish();
    assert!(matches!(graph.get(&root), Some(ModuleSlot::Missing)));
}
