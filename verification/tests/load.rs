use scriptor::error::LoadError;
use scriptor::esm::chain::{Attempts, Standing};
use scriptor::esm::loader::{claiming, EsmLoader, LoaderEntry, LoaderKind, ScriptLoader};
use scriptor::esm::module::{all_holders, first_holder, Bundle, ModuleSource, NativeModule};
use scriptor::esm::modules::{
    CompileStart, EsmModules, EsmModulesBuilder, LoadAction, LoadEvent, LoadedBy,
};

struct Def;

fn transform(extensions: &[&str]) -> LoaderEntry {
    LoaderEntry {
        extensions: extensions.iter().map(|e| e.to_string()).collect(),
        kind: LoaderKind::Transform,
    }
}

fn registry() -> EsmModules {
    EsmModulesBuilder::default()
        .with_module(NativeModule::new::<Def>("fs"))
        .with_module(Bundle(vec!["util".to_string(), "fs".to_string()]))
        .with_loader(&ScriptLoader::default())
        .with_loader(&transform(&["ts", "tsx"]))
        .with_loader(&transform(&["ts"]))
        .build("/work")
}

#[test]
fn registered_name_is_loaded_by_its_source() {
    let r = registry();
    let mut s = r.load("util");
    assert_eq!(s.name(), "util");
    assert_eq!(s.action(), LoadAction::AskSource(1));
    assert!(!s.finished());
    assert_eq!(s.step(LoadEvent::Loaded), LoadAction::Finish(Ok(LoadedBy::Source(1))));
    assert!(s.finished());
}

#[test]
fn first_source_that_holds_the_name_is_asked_first() {
    let r = registry();
    let mut s = r.load("fs");
    assert_eq!(s.action(), LoadAction::AskSource(0));
    assert_eq!(s.step(LoadEvent::Failed("no".to_string())), LoadAction::AskSource(1));
    assert_eq!(s.step(LoadEvent::Loaded), LoadAction::Finish(Ok(LoadedBy::Source(1))));
}

#[test]
fn name_without_source_and_extension_is_invalid() {
    let r = registry();
    let s = r.load("nothing");
    assert_eq!(
        s.action(),
        LoadAction::Finish(Err(LoadError::InvalidPath { path: "nothing".to_string() }))
    );
}

#[test]
fn failing_sources_fall_through_to_the_file() {
    let r = registry();
    let mut s = r.load("util");
    assert_eq!(
        s.step(LoadEvent::Failed("broken".to_string())),
        LoadAction::Finish(Err(LoadError::InvalidPath { path: "util".to_string() }))
    );
}

#[test]
fn file_is_read_before_any_loader_runs() {
    let r = registry();
    let mut s = r.load("/project/main.js");
    assert_eq!(s.action(), LoadAction::ReadFile("/project/main.js".to_string()));
    assert_eq!(s.step(LoadEvent::Loaded), LoadAction::ReadFile("/project/main.js".to_string()));
    assert_eq!(s.step(LoadEvent::FileRead), LoadAction::RunLoader(0));
    assert_eq!(s.step(LoadEvent::Loaded), LoadAction::Finish(Ok(LoadedBy::Loader(0))));
}

#[test]
fn unreadable_file_fails_with_cause() {
    let r = registry();
    let mut s = r.load("/project/main.js");
    assert_eq!(
        s.step(LoadEvent::FileUnreadable("permission denied".to_string())),
        LoadAction::Finish(Err(LoadError::Io {
            path: "/project/main.js".to_string(),
            cause: "permission denied".to_string(),
        }))
    );
}

#[test]
fn unreadable_file_fails_even_when_no_loader_claims_it() {
    let r = registry();
    let mut s = r.load("/project/data.bin");
    assert_eq!(s.action(), LoadAction::ReadFile("/project/data.bin".to_string()));
    assert!(matches!(
        s.step(LoadEvent::FileUnreadable("gone".to_string())),
        LoadAction::Finish(Err(LoadError::Io { .. }))
    ));
}

#[test]
fn first_registered_loader_wins_when_it_succeeds() {
    let r = registry();
    let mut s = r.load("/project/a.ts");
    assert_eq!(s.step(LoadEvent::FileRead), LoadAction::RunLoader(1));
    assert_eq!(s.step(LoadEvent::Loaded), LoadAction::Finish(Ok(LoadedBy::Loader(1))));
    assert_eq!(s.step(LoadEvent::Loaded), LoadAction::Finish(Ok(LoadedBy::Loader(1))));
    assert_eq!(
        s.step(LoadEvent::Failed("late".to_string())),
        LoadAction::Finish(Ok(LoadedBy::Loader(1)))
    );
}

#[test]
fn second_loader_is_tried_after_the_first_failed() {
    let r = registry();
    let mut s = r.load("/project/a.ts");
    s.step(LoadEvent::FileRead);
    assert_eq!(s.step(LoadEvent::Failed("syntax".to_string())), LoadAction::RunLoader(2));
    assert_eq!(s.step(LoadEvent::Loaded), LoadAction::Finish(Ok(LoadedBy::Loader(2))));
}

#[test]
fn invalid_source_yields_transform_failure_with_message_verbatim() {
    let r = registry();
    let mut s = r.load("/project/a.ts");
    s.step(LoadEvent::FileRead);
    s.step(LoadEvent::Failed("first plugin: unexpected token".to_string()));
    assert_eq!(
        s.step(LoadEvent::Failed("x Expected ';', got 'let' at 1:7".to_string())),
        LoadAction::Finish(Err(LoadError::TransformFailure {
            path: "/project/a.ts".to_string(),
            diagnostic: "x Expected ';', got 'let' at 1:7".to_string(),
        }))
    );
}

#[test]
fn pass_through_failure_is_a_decode_failure() {
    let r = registry();
    let mut s = r.load("/project/a.js");
    s.step(LoadEvent::FileRead);
    assert_eq!(
        s.step(LoadEvent::Failed("SyntaxError: bad".to_string())),
        LoadAction::Finish(Err(LoadError::DecodeFailure {
            path: "/project/a.js".to_string(),
            cause: "SyntaxError: bad".to_string(),
        }))
    );
}

#[test]
fn unclaimed_extension_is_unsupported() {
    let r = registry();
    let mut s = r.load("/project/a.py");
    assert_eq!(
        s.step(LoadEvent::FileRead),
        LoadAction::Finish(Err(LoadError::ExtensionUnsupported {
            path: "/project/a.py".to_string(),
        }))
    );
}

#[test]
fn only_claiming_loaders_are_candidates() {
    let r = registry();
    let mut s = r.load("/project/a.tsx");
    assert_eq!(s.step(LoadEvent::FileRead), LoadAction::RunLoader(1));
    assert_eq!(
        s.step(LoadEvent::Failed("no".to_string())),
        LoadAction::Finish(Err(LoadError::TransformFailure {
            path: "/project/a.tsx".to_string(),
            diagnostic: "no".to_string(),
        }))
    );
}

#[test]
fn extension_is_that_of_the_file_name() {
    let r = registry();
    assert_eq!(r.load("/p.d/main").action(), LoadAction::Finish(Err(LoadError::InvalidPath {
        path: "/p.d/main".to_string(),
    })));
    assert_eq!(r.load("/p/.js").action(), LoadAction::Finish(Err(LoadError::InvalidPath {
        path: "/p/.js".to_string(),
    })));
    let mut s = r.load("/p/a.b.js");
    assert_eq!(s.step(LoadEvent::FileRead), LoadAction::RunLoader(0));
}

#[test]
fn compile_asks_for_an_absolute_path_first() {
    let r = registry();
    match r.compile("main.js") {
        CompileStart::Canonicalize(p) => assert_eq!(p, "main.js"),
        CompileStart::Load(_) => panic!("relative path was loaded"),
    }
}

#[test]
fn compile_skips_the_sources() {
    let r = EsmModulesBuilder::default()
        .with_module(NativeModule::new::<Def>("/abs/fs.js"))
        .with_loader(&ScriptLoader::default())
        .build("/work");
    match r.compile("/abs/fs.js") {
        CompileStart::Load(mut s) => {
            assert_eq!(s.action(), LoadAction::ReadFile("/abs/fs.js".to_string()));
            assert_eq!(s.step(LoadEvent::FileRead), LoadAction::RunLoader(0));
        }
        CompileStart::Canonicalize(_) => panic!("absolute path was not loaded"),
    }
    assert_eq!(r.load("/abs/fs.js").action(), LoadAction::AskSource(0));
    match r.compile("/abs/noext") {
        CompileStart::Load(s) => assert_eq!(
            s.action(),
            LoadAction::Finish(Err(LoadError::InvalidPath { path: "/abs/noext".to_string() }))
        ),
        CompileStart::Canonicalize(_) => panic!("absolute path was not loaded"),
    }
}

#[test]
fn registrations_keep_their_order() {
    let r = registry();
    assert_eq!(
        r.registered_sources(),
        &vec![
            ModuleSource::Native("fs".to_string()),
            ModuleSource::Bundled(vec!["util".to_string(), "fs".to_string()]),
        ]
    );
    assert_eq!(r.registered_loaders().len(), 3);
    assert_eq!(r.registered_loaders()[0].kind, LoaderKind::PassThrough);
    assert_eq!(r.registered_loaders()[0].extensions, vec!["js".to_string()]);
    assert_eq!(r.registered_loaders()[1].extensions, vec!["ts".to_string(), "tsx".to_string()]);
}

#[test]
fn builder_adds_in_place() {
    let mut b = EsmModulesBuilder::default();
    b.add_module(Bundle(vec!["a".to_string()])).set_cwd("/x").add_loader(&ScriptLoader::default());
    assert_eq!(b.modules, vec![ModuleSource::Bundled(vec!["a".to_string()])]);
    assert_eq!(b.loaders.len(), 1);
    assert_eq!(b.cwd, Some("/x".to_string()));
}

#[test]
fn script_loader_claims_js() {
    let l = ScriptLoader::default();
    assert_eq!(l.extensions(), &["js".to_string()]);
    assert_eq!(l.entry(), LoaderEntry { extensions: vec!["js".to_string()], kind: LoaderKind::PassThrough });
}

#[test]
fn candidates_are_picked_in_registration_order() {
    let loaders = vec![transform(&["ts"]), transform(&["js"]), transform(&["tsx", "ts"])];
    assert_eq!(claiming(&loaders, "ts"), vec![0, 2]);
    assert_eq!(claiming(&loaders, "js"), vec![1]);
    assert_eq!(claiming(&loaders, "tsx"), vec![2]);
    assert_eq!(claiming(&loaders, "py"), Vec::<usize>::new());
    let sources = vec![
        ModuleSource::Native("a".to_string()),
        ModuleSource::Bundled(vec!["b".to_string(), "a".to_string()]),
        ModuleSource::Native("b".to_string()),
    ];
    assert_eq!(all_holders(&sources, "a"), vec![0, 1]);
    assert_eq!(all_holders(&sources, "b"), vec![1, 2]);
    assert_eq!(first_holder(&sources, "b"), Some(1));
    assert_eq!(first_holder(&sources, "c"), None);
}

#[test]
fn chain_surfaces_last_failure() {
    let mut c = Attempts::new(vec![4, 7]);
    assert_eq!(c.current(), Some(4));
    assert_eq!(c.standing(), Standing::Pending(4));
    assert_eq!(c.last_tried(), None);
    c.report_failure("one".to_string());
    assert_eq!(c.current(), Some(7));
    assert_eq!(c.last_tried(), Some(4));
    c.report_failure("two".to_string());
    assert_eq!(c.current(), None);
    assert_eq!(c.standing(), Standing::Failed(Some("two".to_string())));
    assert_eq!(c.last_tried(), Some(7));
    c.report_success();
    c.report_failure("three".to_string());
    assert_eq!(c.standing(), Standing::Failed(Some("two".to_string())));
}

#[test]
fn chain_first_success_wins() {
    let mut c = Attempts::new(vec![4, 7, 9]);
    c.report_failure("one".to_string());
    c.report_success();
    assert_eq!(c.standing(), Standing::Won(7));
    assert_eq!(c.current(), None);
    c.report_failure("late".to_string());
    c.report_success();
    assert_eq!(c.standing(), Standing::Won(7));
}

#[test]
fn empty_chain_fails_without_diagnostic() {
    let mut c = Attempts::new(Vec::new());
    assert_eq!(c.standing(), Standing::Failed(None));
    assert_eq!(c.current(), None);
    c.report_success();
    assert_eq!(c.standing(), Standing::Failed(None));
}

#[test]
fn load_error_messages() {
    let e = LoadError::TransformFailure { path: "/a.ts".to_string(), diagnostic: "bad".to_string() };
    assert_eq!(e.message(), "Error loading module '/a.ts': bad");
    assert_eq!(e.path(), "/a.ts");
    assert_eq!(e.diagnostic(), "bad");
    let e = LoadError::ExtensionUnsupported { path: "/a.py".to_string() };
    assert_eq!(e.message(), "Error loading module '/a.py': no loader for file type");
    let e = LoadError::InvalidPath { path: "x".to_string() };
    assert_eq!(e.message(), "Error loading module 'x': invalid path");
    let e = LoadError::Io { path: "/a.js".to_string(), cause: "gone".to_string() };
    assert_eq!(e.message(), "Error loading module '/a.js': gone");
    let e = LoadError::DecodeFailure { path: "/a.js".to_string(), cause: "syntax".to_string() };
    assert_eq!(e.message(), "Error loading module '/a.js': syntax");
}
