//! The module that gives scripts files and directories.

use crate::esm::module::NativeModule;
use crate::text::names;
use vstd::prelude::*;
use vstd::string::StrSliceExecFns;

verus! {

/// The definition of the module.
#[derive(Debug, Clone, Copy, PartialEq, Eq)]
pub struct Module;

impl Module {
    /// The names that the module exports, in the order of their declaration.
    pub fn exports() -> (r: Vec<String>)
        ensures
            names(r@) == seq!["File"@, "open"@, "readFile"@, "writeFile"@, "readDir"@],
    {
        let mut out: Vec<String> = Vec::new();
        out.push("File".to_owned());
        out.push("open".to_owned());
        out.push("readFile".to_owned());
        out.push("writeFile".to_owned());
        out.push("readDir".to_owned());
        proof {
            assert(names(out@) =~= seq![
                "File"@,
                "open"@,
                "readFile"@,
                "writeFile"@,
                "readDir"@,
            ]);
        }
        out
    }
}

/// The module under the name by which scripts import it.
pub fn fs() -> (r: NativeModule<Module, &'static str>)
    ensures
        r.0@ == "fs"@,
{
    NativeModule::new("fs")
}

/// How a file is to be opened.
#[derive(Debug, Clone, Copy, PartialEq, Eq)]
pub struct OpenFlags {
    pub read: bool,
    pub write: bool,
    pub append: bool,
    pub truncate: bool,
    pub create: bool,
}

/// The flags that the letters of `mode` ask for: `r` to read, `w` to write,
/// `a` to append, `t` to truncate, `c` to create. Any other character asks
/// for nothing.
pub open spec fn flags_of(mode: Seq<char>) -> OpenFlags {
    OpenFlags {
        read: mode.contains('r'),
        write: mode.contains('w'),
        append: mode.contains('a'),
        truncate: mode.contains('t'),
        create: mode.contains('c'),
    }
}

/// Reads the mode with which a script opens a file.
pub fn open_flags(mode: &str) -> (r: OpenFlags)
    ensures
        r == flags_of(mode@),
{
    let mut flags = OpenFlags {
        read: false,
        write: false,
        append: false,
        truncate: false,
        create: false,
    };
    let n = mode.unicode_len();
    let mut i: usize = 0;
    while i < n
        invariant
            i <= n,
            n == mode@.len(),
            flags == flags_of(mode@.take(i as int)),
        decreases n - i,
    {
        let c = mode.get_char(i);
        proof {
            let before = mode@.take(i as int);
            let now = mode@.take(i + 1);
            assert(now == before.push(c));
            assert forall|x: char| now.contains(x) == (before.contains(x) || x == c) by {
                if before.contains(x) {
                    let k = choose|k: int| 0 <= k < before.len() && before[k] == x;
                    assert(now[k] == x);
                }
                if x == c {
                    assert(now[i as int] == x);
                }
            }
        }
        if c == 'r' {
            flags.read = true;
        } else if c == 'w' {
            flags.write = true;
        } else if c == 'a' {
            flags.append = true;
        } else if c == 't' {
            flags.truncate = true;
        } else if c == 'c' {
            flags.create = true;
        }
        i += 1;
    }
    proof {
        assert(mode@.take(n as int) == mode@);
    }
    flags
}

} // verus!
