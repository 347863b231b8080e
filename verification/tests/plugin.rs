use scriptor::error::{LoadError, PluginInitError};
use scriptor::esm::loader::{EsmLoader, LoaderKind};
use scriptor::esm::modules::{EsmModulesBuilder, LoadAction, LoadEvent};
use scriptor::wasm::plugin::{
    is_plugin_binary, select_plugins, source_text, Compilation, PluginHost, TransformAction,
    TransformEvent, WasmLoaderPlugin, WasmPluginLoader,
};
use scriptor::wasm::util::{default_wasi, Grants};
use scriptor::wasm_loader::{cache_layout, ensure_cache_config, WasmConfig, WasmLoaders};

fn plugin(path: &str, exts: &[&str]) -> WasmLoaderPlugin {
    WasmLoaderPlugin { path: path.to_string(), exts: exts.iter().map(|e| e.to_string()).collect() }
}

fn loader() -> WasmPluginLoader {
    WasmPluginLoader::new(vec![
        Ok(plugin("/p/ts.wasm", &["ts", "tsx"])),
        Ok(plugin("/p/coffee.wasm", &["coffee"])),
        Ok(plugin("/p/ts2.wasm", &["ts"])),
    ])
    .unwrap()
}

#[test]
fn plugin_binaries_are_told_by_extension() {
    assert!(is_plugin_binary("/plugins/typescript.wasm"));
    assert!(is_plugin_binary("a.b.wasm"));
    assert!(!is_plugin_binary("/plugins/readme.md"));
    assert!(!is_plugin_binary("/plugins/wasm"));
    assert!(!is_plugin_binary("/plugins/.wasm"));
    assert!(!is_plugin_binary("/plugins/a.WASM"));
    assert!(!is_plugin_binary("/plugins.wasm/a"));
    assert!(!is_plugin_binary(""));
}

#[test]
fn discovery_keeps_directory_order() {
    let entries = vec![
        "/p/z.wasm".to_string(),
        "/p/notes.txt".to_string(),
        "/p/a.wasm".to_string(),
        "/p/sub".to_string(),
        "/p/m.wasm".to_string(),
    ];
    assert_eq!(
        select_plugins(&entries),
        vec!["/p/z.wasm".to_string(), "/p/a.wasm".to_string(), "/p/m.wasm".to_string()]
    );
    assert_eq!(select_plugins(&Vec::new()), Vec::<String>::new());
}

#[test]
fn loader_reports_union_of_declared_extensions_with_duplicates() {
    let l = loader();
    assert_eq!(
        l.extensions(),
        &["ts".to_string(), "tsx".to_string(), "coffee".to_string(), "ts".to_string()]
    );
    assert_eq!(l.len(), 3);
    assert_eq!(l.plugin(1), Some(&plugin("/p/coffee.wasm", &["coffee"])));
    assert_eq!(l.plugin(3), None);
    assert_eq!(l.entry().kind, LoaderKind::Transform);
    assert_eq!(l.entry().extensions.len(), 4);
}

#[test]
fn loader_over_no_plugin_claims_nothing() {
    let l = WasmPluginLoader::new(Vec::new()).unwrap();
    assert!(l.extensions().is_empty());
    assert_eq!(l.len(), 0);
    let s = l.load("/a.ts", b"let a = 1");
    assert_eq!(
        s.action(),
        TransformAction::Finish(Err(LoadError::ExtensionUnsupported { path: "/a.ts".to_string() }))
    );
}

#[test]
fn one_bad_plugin_fails_the_whole_loader() {
    let bad = PluginInitError { path: "/p/bad.wasm".to_string(), cause: "magic".to_string() };
    let worse = PluginInitError { path: "/p/worse.wasm".to_string(), cause: "link".to_string() };
    let r = WasmPluginLoader::new(vec![
        Ok(plugin("/p/ts.wasm", &["ts"])),
        Err(bad.clone()),
        Ok(plugin("/p/x.wasm", &["x"])),
        Err(worse),
    ]);
    assert_eq!(r.err(), Some(bad));
}

#[test]
fn plugins_are_tried_in_discovery_order_and_first_success_stands() {
    let l = loader();
    let mut s = l.load("/src/a.ts", "let a: number = 1".as_bytes());
    assert_eq!(s.path(), "/src/a.ts");
    assert_eq!(s.text(), Some("let a: number = 1"));
    assert_eq!(s.code(), None);
    assert_eq!(s.action(), TransformAction::Transform(0));
    assert_eq!(
        s.step(TransformEvent::Transformed(Compilation::Failure("not mine".to_string()))),
        TransformAction::Transform(1)
    );
    assert_eq!(
        s.step(TransformEvent::Transformed(Compilation::Success("let a = 1".to_string()))),
        TransformAction::Compile(1)
    );
    assert_eq!(s.code(), Some("let a = 1"));
    assert_eq!(s.step(TransformEvent::Compiled), TransformAction::Finish(Ok(1)));
    assert_eq!(s.code(), None);
    assert_eq!(
        s.step(TransformEvent::Transformed(Compilation::Failure("late".to_string()))),
        TransformAction::Finish(Ok(1))
    );
}

#[test]
fn failing_plugins_surface_the_last_message_with_the_path() {
    let l = loader();
    let mut s = l.load("/src/a.ts", b"let a = ");
    s.step(TransformEvent::Transformed(Compilation::Failure("one".to_string())));
    s.step(TransformEvent::Trapped("out of fuel".to_string()));
    assert_eq!(
        s.step(TransformEvent::Transformed(Compilation::Failure(
            "x Unexpected eof\n  at 1:9".to_string()
        ))),
        TransformAction::Finish(Err(LoadError::TransformFailure {
            path: "/src/a.ts".to_string(),
            diagnostic: "x Unexpected eof\n  at 1:9".to_string(),
        }))
    );
}

#[test]
fn code_that_the_engine_rejects_counts_as_that_plugins_failure() {
    let l = loader();
    let mut s = l.load("/src/a.ts", b"x");
    s.step(TransformEvent::Transformed(Compilation::Success("}{".to_string())));
    assert_eq!(s.step(TransformEvent::Rejected("SyntaxError".to_string())), TransformAction::Transform(1));
    assert_eq!(s.code(), None);
    s.step(TransformEvent::Trapped("t".to_string()));
    s.step(TransformEvent::Transformed(Compilation::Success("x".to_string())));
    assert_eq!(
        s.step(TransformEvent::Rejected("last".to_string())),
        TransformAction::Finish(Err(LoadError::TransformFailure {
            path: "/src/a.ts".to_string(),
            diagnostic: "last".to_string(),
        }))
    );
}

#[test]
fn reports_that_answer_no_action_are_ignored() {
    let l = loader();
    let mut s = l.load("/src/a.ts", b"x");
    assert_eq!(s.step(TransformEvent::Compiled), TransformAction::Transform(0));
    assert_eq!(s.step(TransformEvent::Rejected("r".to_string())), TransformAction::Transform(0));
    s.step(TransformEvent::Transformed(Compilation::Success("y".to_string())));
    assert_eq!(
        s.step(TransformEvent::Transformed(Compilation::Success("z".to_string()))),
        TransformAction::Compile(0)
    );
    assert_eq!(s.code(), Some("y"));
}

#[test]
fn source_that_is_not_text_fails_without_calling_a_plugin() {
    let l = loader();
    let mut s = l.load("/src/a.ts", &[0x66, 0xff, 0x6f]);
    assert_eq!(s.text(), None);
    match s.action() {
        TransformAction::Finish(Err(LoadError::TransformFailure { path, diagnostic })) => {
            assert_eq!(path, "/src/a.ts");
            assert!(diagnostic.contains("invalid utf-8"));
        }
        other => panic!("{:?}", other),
    }
    assert!(matches!(
        s.step(TransformEvent::Transformed(Compilation::Success("x".to_string()))),
        TransformAction::Finish(Err(_))
    ));
}

#[test]
fn plugin_loader_registers_as_transforming_loader() {
    let l = loader();
    let r = EsmModulesBuilder::default().with_loader(&l).build("/w");
    let mut s = r.load("/src/a.coffee");
    assert_eq!(s.step(LoadEvent::FileRead), LoadAction::RunLoader(0));
    assert_eq!(
        s.step(LoadEvent::Failed("plugin said no".to_string())),
        LoadAction::Finish(Err(LoadError::TransformFailure {
            path: "/src/a.coffee".to_string(),
            diagnostic: "plugin said no".to_string(),
        }))
    );
}

#[test]
fn wasm_config_holds_paths() {
    let c = WasmConfig { loaders: "/p", config: "/c", cache: None };
    assert_eq!(c.loaders, "/p");
    assert_eq!(c.cache, None);
}

#[test]
fn plugin_reads_its_input_as_text_first() {
    assert_eq!(source_text("let a = 1".as_bytes()), Ok("let a = 1".to_string()));
    assert_eq!(
        source_text(&[0xc3, 0x28]),
        Err(Compilation::Failure("invalid utf-8 sequence of 1 bytes from index 0".to_string()))
    );
    assert_eq!(Compilation::from_result(Ok("x".to_string())), Compilation::Success("x".to_string()));
    assert_eq!(Compilation::from_result(Err("m".to_string())), Compilation::Failure("m".to_string()));
}

#[test]
fn cache_is_laid_out_below_its_root() {
    let layout = cache_layout("/var/cache/host");
    assert_eq!(layout.config_path, "/var/cache/host/wasm-config.toml");
    assert_eq!(layout.cache_path, "/var/cache/host/wasm-cache");
    let at_root = cache_layout("/");
    assert_eq!(at_root.cache_path, "/wasm-cache");
}

#[test]
fn cache_config_is_written_only_where_missing() {
    let layout = cache_layout("/c");
    let plan = ensure_cache_config(&layout, false, false);
    assert!(plan.create_cache_dir);
    assert_eq!(
        plan.write_config,
        Some(
            "\n[cache]\nenabled = true\ndirectory = \"/c/wasm-cache\"\ncleanup-interval = \"1d\"\nfiles-total-size-soft-limit = \"1Gi\"\n"
                .to_string()
        )
    );
    let again = ensure_cache_config(&layout, true, true);
    assert!(!again.create_cache_dir);
    assert_eq!(again.write_config, None);
    let half = ensure_cache_config(&layout, true, false);
    assert!(!half.create_cache_dir);
    assert!(half.write_config.is_some());
}

#[test]
fn cache_path_is_written_quoted_and_escaped() {
    let layout = cache_layout("/c \"x\"");
    let text = ensure_cache_config(&layout, true, false).write_config.unwrap();
    assert!(text.contains("directory = \"/c \\\"x\\\"/wasm-cache\"\n"));
}

fn older() -> WasmLoaders {
    WasmLoaders {
        loaders: vec![
            plugin("/p/a.wasm", &["coffee"]),
            plugin("/p/b.wasm", &["ts", "tsx"]),
            plugin("/p/c.wasm", &["ts", ""]),
        ],
    }
}

#[test]
fn file_goes_to_the_plugins_that_declared_its_extension() {
    let l = older();
    assert_eq!(l.load("/src/x.ts", b"x").action(), TransformAction::Transform(1));
    assert_eq!(l.load("/src/x.tsx", b"x").action(), TransformAction::Transform(1));
    assert_eq!(l.load("/src/x.coffee", b"x").action(), TransformAction::Transform(0));
    assert_eq!(l.load("/src/noext", b"x").action(), TransformAction::Transform(2));
    assert_eq!(
        l.load("/src/x.py", b"x").action(),
        TransformAction::Finish(Err(LoadError::ExtensionUnsupported {
            path: "/src/x.py".to_string(),
        }))
    );
    assert_eq!(
        l.extensions(),
        vec!["coffee".to_string(), "ts".to_string(), "tsx".to_string(), "ts".to_string(), "".to_string()]
    );
}

#[test]
fn second_declaring_plugin_is_asked_when_the_first_fails() {
    let l = older();
    let mut s = l.load("/src/x.ts", b"let a: number = 1");
    assert_eq!(
        s.step(TransformEvent::Transformed(Compilation::Failure("not mine".to_string()))),
        TransformAction::Transform(2)
    );
    assert_eq!(
        s.step(TransformEvent::Transformed(Compilation::Success("let a = 1".to_string()))),
        TransformAction::Compile(2)
    );
    assert_eq!(s.step(TransformEvent::Compiled), TransformAction::Finish(Ok(2)));
    let mut host = Scripted {
        answers: vec![
            Err("never asked".to_string()),
            Ok(Compilation::Failure("not mine".to_string())),
            Ok(Compilation::Success("t".to_string())),
        ],
        calls: Vec::new(),
    };
    assert_eq!(l.load_with("/src/x.ts", b"s", &mut host), Ok("T".to_string()));
    assert_eq!(
        host.calls,
        vec!["transform 1 s".to_string(), "transform 2 s".to_string(), "compile /src/x.ts t".to_string()]
    );
}

#[test]
fn first_declaring_plugin_stands_when_it_succeeds() {
    let l = older();
    let mut host = Scripted {
        answers: vec![
            Err("never asked".to_string()),
            Ok(Compilation::Success("one".to_string())),
            Ok(Compilation::Success("two".to_string())),
        ],
        calls: Vec::new(),
    };
    assert_eq!(l.load_with("/src/x.ts", b"s", &mut host), Ok("ONE".to_string()));
    assert_eq!(host.calls.len(), 2);
}

#[test]
fn declaring_plugins_that_all_fail_surface_the_last_failure() {
    let l = older();
    let mut host = Scripted {
        answers: vec![
            Ok(Compilation::Success("never asked".to_string())),
            Ok(Compilation::Failure("first".to_string())),
            Err("trap in the last".to_string()),
        ],
        calls: Vec::new(),
    };
    assert_eq!(
        l.load_with("/src/x.ts", b"s", &mut host),
        Err(LoadError::TransformFailure {
            path: "/src/x.ts".to_string(),
            diagnostic: "trap in the last".to_string(),
        })
    );
}

#[test]
fn sandbox_is_granted_the_standard_streams_only() {
    assert_eq!(default_wasi(), Grants { stdio: true, filesystem: false, network: false });
}

#[test]
fn plugin_init_error_names_the_plugin() {
    let e = PluginInitError { path: "/p/bad.wasm".to_string(), cause: "bad magic".to_string() };
    assert_eq!(e.message(), "Error opening plugin '/p/bad.wasm': bad magic");
}

/// Plugins that answer from a script, and an engine that accepts code without a closing brace
/// only.
struct Scripted {
    answers: Vec<Result<Compilation, String>>,
    calls: Vec<String>,
}

impl PluginHost for Scripted {
    type Unit = String;

    fn transform(&mut self, plugin: usize, text: &str) -> Result<Compilation, String> {
        self.calls.push(format!("transform {} {}", plugin, text));
        self.answers[plugin].clone()
    }

    fn compile(&mut self, name: &str, code: &str) -> Result<String, String> {
        self.calls.push(format!("compile {} {}", name, code));
        if code.contains('}') {
            Err(format!("unexpected brace in {}", name))
        } else {
            Ok(code.to_uppercase())
        }
    }
}

#[test]
fn host_is_asked_plugin_by_plugin_until_code_compiles() {
    let l = loader();
    let mut host = Scripted {
        answers: vec![
            Err("trap".to_string()),
            Ok(Compilation::Success("a }".to_string())),
            Ok(Compilation::Success("let a".to_string())),
        ],
        calls: Vec::new(),
    };
    assert_eq!(l.load_with("/s/a.ts", b"let a: x", &mut host), Ok("LET A".to_string()));
    assert_eq!(
        host.calls,
        vec![
            "transform 0 let a: x".to_string(),
            "transform 1 let a: x".to_string(),
            "compile /s/a.ts a }".to_string(),
            "transform 2 let a: x".to_string(),
            "compile /s/a.ts let a".to_string(),
        ]
    );
}

#[test]
fn host_is_not_asked_after_a_success() {
    let l = loader();
    let mut host = Scripted {
        answers: vec![Ok(Compilation::Success("ok".to_string())), Err("never".to_string())],
        calls: Vec::new(),
    };
    assert_eq!(l.load_with("/s/a.ts", b"x", &mut host), Ok("OK".to_string()));
    assert_eq!(host.calls.len(), 2);
}

#[test]
fn host_failures_end_in_the_last_message() {
    let l = loader();
    let mut host = Scripted {
        answers: vec![
            Ok(Compilation::Failure("one".to_string())),
            Ok(Compilation::Success("}".to_string())),
            Ok(Compilation::Failure("three".to_string())),
        ],
        calls: Vec::new(),
    };
    assert_eq!(
        l.load_with("/s/a.ts", b"x", &mut host),
        Err(LoadError::TransformFailure {
            path: "/s/a.ts".to_string(),
            diagnostic: "three".to_string(),
        })
    );
    let mut none = Scripted { answers: Vec::new(), calls: Vec::new() };
    assert!(matches!(
        l.load_with("/s/a.ts", &[0xff], &mut none),
        Err(LoadError::TransformFailure { .. })
    ));
    assert!(none.calls.is_empty());
}
