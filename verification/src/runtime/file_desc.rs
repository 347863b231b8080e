//! Names under which the host's descriptors appear to scripts.

use vstd::prelude::*;

verus! {

/// A kind of descriptor with a fixed class name.
pub trait Named {
    /// The class name that scripts see.
    const NAME: &'static str;
}

/// An open file.
#[derive(Debug, Clone, Copy, PartialEq, Eq)]
pub struct File;

/// The standard output of the host.
#[derive(Debug, Clone, Copy, PartialEq, Eq)]
pub struct Stdout;

/// The standard error of the host.
#[derive(Debug, Clone, Copy, PartialEq, Eq)]
pub struct Stderr;

/// The standard input of the host.
#[derive(Debug, Clone, Copy, PartialEq, Eq)]
pub struct Stdin;

impl Named for File {
    const NAME: &'static str = "File";
}

impl Named for Stdout {
    const NAME: &'static str = "Stdout";
}

impl Named for Stderr {
    const NAME: &'static str = "Stderr";
}

impl Named for Stdin {
    const NAME: &'static str = "Stdin";
}

} // verus!
