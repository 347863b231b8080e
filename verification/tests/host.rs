use scriptor::esm::loader::{EsmLoader, LoaderEntry, LoaderKind, ScriptLoader};
use scriptor::esm::module::{Bundle, EsmModule, NativeModule};
use scriptor::modules::fs::{open_flags, OpenFlags};
use scriptor::modules::http::{less, Headers, Request, ResponseError, ResponseState};
use scriptor::modules::bundle::{pipe, tasks, util};
use scriptor::modules::{fs, http, os};
use scriptor::runtime::file_desc::{File, Named, Stderr, Stdin, Stdout};
use scriptor::runtime::global::{TextDecoder, TextEncoder};
use scriptor::runtime::process::Process;
use scriptor::runtime::stream::Next;
use scriptor::text::{contains, position, str_eq};
use scriptor::user_module::{IntoUserModule, UserModuleImpl};
use scriptor::utils::Either;

fn pair(k: &str, v: &str) -> (String, String) {
    (k.to_string(), v.to_string())
}

#[test]
fn headers_set_replaces_and_keeps_names_in_order() {
    let mut h = Headers::new();
    assert_eq!(h.len(), 0);
    h.set("content-type".to_string(), "text/plain".to_string());
    h.set("accept".to_string(), "*/*".to_string());
    h.set("x-b".to_string(), "2".to_string());
    h.set("content-length".to_string(), "3".to_string());
    h.set("accept".to_string(), "text/html".to_string());
    assert_eq!(
        h.iter(),
        &[
            pair("accept", "text/html"),
            pair("content-length", "3"),
            pair("content-type", "text/plain"),
            pair("x-b", "2"),
        ]
    );
    assert_eq!(h.len(), 4);
    assert_eq!(h.get("accept"), Some(&"text/html".to_string()));
    assert_eq!(h.get("x-b"), Some(&"2".to_string()));
    assert_eq!(h.get("x-c"), None);
}

#[test]
fn header_names_are_ordered_by_bytes() {
    let mut h = Headers::default();
    h.set("b".to_string(), "1".to_string());
    h.set("B".to_string(), "2".to_string());
    h.set("".to_string(), "3".to_string());
    h.set("ab".to_string(), "4".to_string());
    h.set("a".to_string(), "5".to_string());
    h.set("é".to_string(), "6".to_string());
    let names: Vec<&str> = h.iter().iter().map(|e| e.0.as_str()).collect();
    assert_eq!(names, vec!["", "B", "a", "ab", "b", "é"]);
    assert!(less("a", "ab"));
    assert!(!less("ab", "a"));
    assert!(!less("a", "a"));
    assert!(less("", "a"));
    assert!(!less("", ""));
    assert!(less("Z", "a"));
    assert_eq!(less("é", "z"), "é" < "z");
}

#[test]
fn open_mode_letters_set_flags() {
    assert_eq!(
        open_flags("rw"),
        OpenFlags { read: true, write: true, append: false, truncate: false, create: false }
    );
    assert_eq!(
        open_flags("catx"),
        OpenFlags { read: false, write: false, append: true, truncate: true, create: true }
    );
    assert_eq!(
        open_flags(""),
        OpenFlags { read: false, write: false, append: false, truncate: false, create: false }
    );
    assert_eq!(open_flags("rr").read, true);
    assert_eq!(open_flags("R").read, false);
}

#[test]
fn host_modules_declare_their_exports() {
    assert_eq!(fs::Module::exports(), vec!["File", "open", "readFile", "writeFile", "readDir"]);
    assert_eq!(http::Module::exports(), vec!["Url", "Headers", "Request", "Response", "Client"]);
    assert_eq!(os::Module::exports(), vec!["stdout", "stderr", "stdin"]);
    assert_eq!(fs::fs().name(), "fs");
    assert_eq!(http::http().name(), "http");
    assert_eq!(os::os().name(), "os");
    assert!(fs::fs().claims("fs"));
}

#[test]
fn text_codec_round_trips() {
    let bytes = TextEncoder.encode("héllo ✓");
    assert_eq!(bytes, "héllo ✓".as_bytes().to_vec());
    assert_eq!(TextDecoder.decode(&bytes), Ok("héllo ✓".to_string()));
    assert_eq!(TextDecoder.decode(&[]), Ok(String::new()));
}

#[test]
fn decoder_refuses_bytes_that_are_not_text() {
    let r = TextDecoder.decode(&[0x68, 0x80]);
    assert_eq!(r, Err("invalid utf-8 sequence of 1 bytes from index 1".to_string()));
    assert!(TextDecoder.decode(&[0xe2, 0x9c]).is_err());
}

#[test]
fn descriptors_have_class_names() {
    assert_eq!(File::NAME, "File");
    assert_eq!(Stdout::NAME, "Stdout");
    assert_eq!(Stderr::NAME, "Stderr");
    assert_eq!(Stdin::NAME, "Stdin");
}

#[test]
fn stream_step_follows_the_item() {
    assert_eq!(Next::new(Some(3)), Next { done: false, value: Some(3) });
    assert_eq!(Next::<u8>::new(None), Next { done: true, value: None });
}

#[test]
fn process_holds_arguments_and_environment() {
    let p = Process { argv: vec!["main.js".to_string()], env: vec![pair("HOME", "/root")] };
    assert_eq!(p.argv.len(), 1);
    assert_eq!(p.env[0].1, "/root");
}

#[test]
fn user_module_registers_once() {
    let mut m = UserModuleImpl::new("mine", 42u32);
    assert!(m.is_pending());
    let mut names = vec!["other".to_string()];
    assert_eq!(m.register(&mut names), 42);
    assert_eq!(names, vec!["other".to_string(), "mine".to_string()]);
    assert!(!m.is_pending());
    let again = ("pair".to_string(), 1u8).into_module();
    assert_eq!(again.name, "pair");
    assert_eq!(again.module, Some(1));
}

#[test]
fn either_behaves_as_what_it_holds() {
    type Src = Either<NativeModule<(), &'static str>, Bundle>;
    let left: Src = Either::Left(NativeModule::new("a"));
    let right: Src = Either::Right(Bundle(vec!["b".to_string()]));
    assert!(left.claims("a"));
    assert!(!left.claims("b"));
    assert!(right.claims("b"));
    assert_eq!(right.resolve("/m", "b"), Ok("b".to_string()));
    assert!(left.resolve("/m", "b").is_err());
    type Ld = Either<ScriptLoader, LoaderEntry>;
    let l: Ld = Either::Left(ScriptLoader::default());
    let r: Ld = Either::Right(LoaderEntry { extensions: vec!["ts".to_string()], kind: LoaderKind::Transform });
    assert_eq!(l.extensions(), &["js".to_string()]);
    assert_eq!(r.entry().kind, LoaderKind::Transform);
}

#[test]
fn text_helpers() {
    assert!(str_eq("abc", "abc"));
    assert!(!str_eq("abc", "abd"));
    assert!(!str_eq("abc", "ab"));
    assert!(str_eq("", ""));
    let list = vec!["a".to_string(), "b".to_string(), "a".to_string()];
    assert_eq!(position(&list, "a"), Some(0));
    assert_eq!(position(&list, "b"), Some(1));
    assert_eq!(position(&list, "c"), None);
    assert!(contains(&list, "b"));
    assert!(!contains(&list, ""));
}

#[test]
fn request_method_is_normalised() {
    let mut r = Request::new("https://example.org/".to_string());
    assert_eq!(r.get_method(), "GET");
    assert_eq!(r.headers.len(), 0);
    assert!(r.try_set_method("post"));
    assert_eq!(r.get_method(), "POST");
    assert!(r.try_set_method("PUT"));
    assert_eq!(r.get_method(), "PUT");
    assert!(r.try_set_method("put"));
    assert_eq!(r.get_method(), "PUT");
    assert!(r.try_set_method("get"));
    assert_eq!(r.get_method(), "GET");
    assert!(r.try_set_method("DELETE"));
    assert_eq!(r.get_method(), "DELETE");
    assert!(r.try_set_method("delete"));
    assert_eq!(r.get_method(), "delete");
    assert!(r.try_set_method("PROPFIND"));
    assert_eq!(r.get_method(), "PROPFIND");
    r.set_method("POST");
    assert_eq!(r.get_method(), "POST");
    assert_eq!(r.url, "https://example.org/");
}

#[test]
fn text_that_names_no_method_leaves_the_request_alone() {
    let mut r = Request::new("https://example.org/".to_string());
    r.set_method("post");
    assert!(!r.try_set_method(""));
    assert!(!r.try_set_method("GE T"));
    assert!(!r.try_set_method("GET\n"));
    assert!(!r.try_set_method("mé"));
    assert_eq!(r.get_method(), "POST");
}

#[test]
fn response_body_is_handed_out_once() {
    let fresh: ResponseState<&str> = ResponseState::Uninit("body");
    assert_eq!(fresh.status(), Err(ResponseError::InvalidState));
    assert!(matches!(fresh.headers(), Err(ResponseError::InvalidState)));
    let mut fresh = fresh;
    assert_eq!(fresh.take(), Err(ResponseError::NotInitialized));
    let mut headers = Headers::new();
    headers.set("content-type".to_string(), "text/plain".to_string());
    let mut seen = fresh.init(404, headers);
    assert_eq!(seen.status(), Ok(404));
    assert_eq!(seen.headers().unwrap().get("content-type"), Some(&"text/plain".to_string()));
    assert_eq!(seen.take(), Ok("body"));
    assert_eq!(seen.take(), Err(ResponseError::BodyTaken));
    assert_eq!(seen.status(), Ok(404));
    assert_eq!(ResponseError::BodyTaken.message(), "body already taken");
    assert_eq!(ResponseError::NotInitialized.message(), "not initialized");
    assert_eq!(ResponseError::InvalidState.message(), "invalid state");
}

#[test]
fn host_bundles_hold_one_module_each() {
    assert_eq!(util(), Bundle(vec!["util".to_string()]));
    assert_eq!(pipe(), Bundle(vec!["pipe".to_string()]));
    assert_eq!(tasks(), Bundle(vec!["tasks".to_string()]));
}
