use scriptor::error::ResolveError;
use scriptor::esm::loader::ScriptLoader;
use scriptor::esm::module::{Bundle, EsmModule, IntoEsmModule, ModuleSource, NativeModule};
use scriptor::esm::modules::{EsmModules, EsmModulesBuilder, LoadHost, Probe, Resolution};
use scriptor::paths::{candidate, path_like, starts_with_dot};

struct Util;

fn registry() -> EsmModules {
    EsmModulesBuilder::default()
        .with_module(NativeModule::new::<Util>("util"))
        .with_module(Bundle(vec!["tasks".to_string(), "pipe".to_string()]))
        .with_cwd("/work")
        .with_loader(&ScriptLoader::default())
        .build("/elsewhere")
}

#[test]
fn registered_native_name_resolves_to_itself() {
    let r = registry();
    assert_eq!(r.resolve("/project/main.js", "util"), Resolution::Resolved("util".to_string()));
    assert_eq!(r.resolve("", "util"), Resolution::Resolved("util".to_string()));
}

#[test]
fn registered_bundled_name_resolves_to_itself() {
    let r = registry();
    assert_eq!(r.resolve("/project/main.js", "pipe"), Resolution::Resolved("pipe".to_string()));
    assert_eq!(r.resolve("/project/main.js", "tasks"), Resolution::Resolved("tasks".to_string()));
}

#[test]
fn unregistered_bare_name_is_not_found() {
    let r = registry();
    assert_eq!(
        r.resolve("/project/main.js", "nothing"),
        Resolution::Failed(ResolveError::NotFound {
            base: "/project/main.js".to_string(),
            specifier: "nothing".to_string(),
        })
    );
}

#[test]
fn bare_names_are_compared_exactly() {
    let r = registry();
    assert!(matches!(r.resolve("/a.js", "Util"), Resolution::Failed(_)));
    assert!(matches!(r.resolve("/a.js", "util "), Resolution::Failed(_)));
    assert!(matches!(r.resolve("/a.js", "uti"), Resolution::Failed(_)));
}

#[test]
fn relative_specifier_is_joined_onto_parent_of_absolute_base() {
    let r = registry();
    assert_eq!(
        r.resolve("/project/main.js", "./util.js"),
        Resolution::Probe("/project/util.js".to_string())
    );
}

#[test]
fn existing_file_resolves_to_exactly_its_path() {
    let r = registry();
    let found = match r.resolve("/project/main.js", "./util.js") {
        Resolution::Probe(path) => Probe::Found(Some(path)),
        other => panic!("not a file: {:?}", other),
    };
    assert_eq!(
        EsmModules::conclude("/project/main.js", "./util.js", found),
        Ok("/project/util.js".to_string())
    );
}

#[test]
fn missing_file_is_not_found_with_base_and_specifier() {
    assert_eq!(
        EsmModules::conclude("/project/main.js", "./util.js", Probe::Missing),
        Err(ResolveError::NotFound {
            base: "/project/main.js".to_string(),
            specifier: "./util.js".to_string(),
        })
    );
}

#[test]
fn path_without_text_is_invalid() {
    assert_eq!(
        EsmModules::conclude("/project/main.js", "./util.js", Probe::Found(None)),
        Err(ResolveError::InvalidPath { specifier: "./util.js".to_string() })
    );
}

#[test]
fn relative_base_falls_back_to_working_directory() {
    let r = registry();
    assert_eq!(r.resolve("main.js", "./util.js"), Resolution::Probe("/work/util.js".to_string()));
    assert_eq!(r.resolve("", "./util.js"), Resolution::Probe("/work/util.js".to_string()));
    assert_eq!(
        r.resolve("lib/main.js", "./util.js"),
        Resolution::Probe("/work/util.js".to_string())
    );
}

#[test]
fn parent_components_are_resolved_logically() {
    let r = registry();
    assert_eq!(
        r.resolve("/project/src/main.js", "../lib/util.js"),
        Resolution::Probe("/project/lib/util.js".to_string())
    );
    assert_eq!(
        r.resolve("/project/src/main.js", "./a/./b.js"),
        Resolution::Probe("/project/src/a/b.js".to_string())
    );
}

#[test]
fn specifier_with_extension_is_a_file_even_without_dot() {
    let r = registry();
    assert_eq!(
        r.resolve("/project/main.js", "util.js"),
        Resolution::Probe("/project/util.js".to_string())
    );
}

#[test]
fn working_directory_defaults_to_current_directory() {
    let r = EsmModulesBuilder::default().build("/elsewhere");
    assert_eq!(r.working_dir(), "/elsewhere");
    assert_eq!(r.resolve("x", "./a.js"), Resolution::Probe("/elsewhere/a.js".to_string()));
    assert_eq!(registry().working_dir(), "/work");
}

#[test]
fn path_like_specifiers() {
    assert!(path_like("./a"));
    assert!(path_like("../a"));
    assert!(path_like("."));
    assert!(path_like("a.js"));
    assert!(path_like("dir/a.ts"));
    assert!(!path_like("util"));
    assert!(!path_like(""));
    assert!(!path_like("dir/util"));
    assert!(starts_with_dot(".hidden"));
    assert!(!starts_with_dot("a.b"));
    assert!(!starts_with_dot(""));
}

#[test]
fn candidate_uses_parent_only_when_absolute() {
    assert_eq!(candidate("/a/b/c.js", "/cwd", "./d.js"), "/a/b/d.js");
    assert_eq!(candidate("a/b/c.js", "/cwd", "./d.js"), "/cwd/d.js");
    assert_eq!(candidate("/", "/cwd", "./d.js"), "/cwd/d.js");
    assert_eq!(candidate("/c.js", "/cwd", "./d.js"), "//d.js");
}

#[test]
fn sources_answer_for_their_own_names() {
    let native = NativeModule::new::<Util>("util".to_string());
    assert_eq!(native.name(), "util");
    assert!(native.claims("util"));
    assert!(!native.claims("pipe"));
    assert_eq!(native.resolve("/b.js", "util"), Ok("util".to_string()));
    assert_eq!(
        native.resolve("/b.js", "pipe"),
        Err(ResolveError::NotFound { base: "/b.js".to_string(), specifier: "pipe".to_string() })
    );
    assert_eq!(native.to_source(), ModuleSource::Native("util".to_string()));
    let bundle = Bundle(vec!["a".to_string(), "b".to_string()]);
    assert!(bundle.claims("b"));
    assert!(!bundle.claims("c"));
    assert_eq!(bundle.to_source(), ModuleSource::Bundled(vec!["a".to_string(), "b".to_string()]));
    let from_pair = ("pair", Util).into_module();
    assert_eq!(from_pair.name(), "pair");
}

#[test]
fn list_of_sources_resolves_what_any_of_them_holds() {
    let sources = vec![
        ModuleSource::Native("fs".to_string()),
        ModuleSource::Bundled(vec!["util".to_string(), "fs".to_string()]),
    ];
    assert_eq!(sources.resolve("/m.js", "util"), Ok("util".to_string()));
    assert_eq!(sources.resolve("/m.js", "fs"), Ok("fs".to_string()));
    assert!(sources.resolve("/m.js", "os").is_err());
    assert_eq!(
        sources.to_source(),
        ModuleSource::Bundled(vec!["fs".to_string(), "util".to_string(), "fs".to_string()])
    );
    let none: Vec<ModuleSource> = Vec::new();
    assert_eq!(
        none.resolve("/m.js", "fs"),
        Err(ResolveError::NotFound { base: "/m.js".to_string(), specifier: "fs".to_string() })
    );
}

#[test]
fn resolve_error_messages() {
    let e = ResolveError::NotFound { base: "/m.js".to_string(), specifier: "./x.js".to_string() };
    assert_eq!(e.message(), "Error resolving module './x.js' from '/m.js': path does not exist");
    let e = ResolveError::InvalidPath { specifier: "./x.js".to_string() };
    assert_eq!(e.message(), "Error resolving module './x.js': invalid path format");
}

/// A disk that answers every probe the same way and notes what it was asked for.
struct Disk {
    answer: Probe,
    probed: Vec<String>,
}

impl LoadHost for Disk {
    type Unit = ();

    fn probe(&mut self, path: &str) -> Probe {
        self.probed.push(path.to_string());
        self.answer.clone()
    }

    fn ask_source(&mut self, _source: usize, _name: &str) -> Result<(), String> {
        Err("no engine".to_string())
    }

    fn read_file(&mut self, _path: &str) -> Result<Vec<u8>, String> {
        Err("no disk".to_string())
    }

    fn run_loader(&mut self, _loader: usize, _name: &str, _bytes: &[u8]) -> Result<(), String> {
        Err("no engine".to_string())
    }

    fn canonicalize(&mut self, _path: &str) -> Result<String, String> {
        Err("no disk".to_string())
    }
}

#[test]
fn found_file_resolves_to_the_computed_path_whatever_the_host_calls_it() {
    let r = registry();
    let mut disk = Disk { answer: Probe::Found(Some("somewhere else".to_string())), probed: Vec::new() };
    assert_eq!(
        r.resolve_with("/project/main.js", "./util.js", &mut disk),
        Ok("/project/util.js".to_string())
    );
    assert_eq!(disk.probed, vec!["/project/util.js".to_string()]);
}

#[test]
fn host_decides_between_found_missing_and_invalid() {
    let r = registry();
    let mut missing = Disk { answer: Probe::Missing, probed: Vec::new() };
    assert_eq!(
        r.resolve_with("/project/main.js", "./util.js", &mut missing),
        Err(ResolveError::NotFound {
            base: "/project/main.js".to_string(),
            specifier: "./util.js".to_string(),
        })
    );
    let mut invalid = Disk { answer: Probe::Found(None), probed: Vec::new() };
    assert_eq!(
        r.resolve_with("/project/main.js", "./util.js", &mut invalid),
        Err(ResolveError::InvalidPath { specifier: "./util.js".to_string() })
    );
}

#[test]
fn bare_names_are_resolved_without_the_host() {
    let r = registry();
    let mut disk = Disk { answer: Probe::Found(Some("x".to_string())), probed: Vec::new() };
    assert_eq!(r.resolve_with("/project/main.js", "util", &mut disk), Ok("util".to_string()));
    assert!(r.resolve_with("/project/main.js", "nothing", &mut disk).is_err());
    assert!(disk.probed.is_empty());
}
