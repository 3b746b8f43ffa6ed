//! Data carried by the console and gutter widgets.  How these are painted
//! is the presentation layer's business; the values they carry are built
//! and checked here.

use vstd::prelude::*;

verus! {

/// A piece of console text that may hold ANSI escape sequences, as the
/// engine's disassembly output does.
pub struct AnsiString<'a> {
    pub text: &'a str,
}

impl<'a> AnsiString<'a> {
    pub fn new(text: &'a str) -> (r: AnsiString<'a>)
        ensures
            r.text@ == text@,
    {
        AnsiString { text }
    }
}

/// The gutter marker for one source line: filled when a breakpoint
/// location resolved to that line.
pub struct IconBreakpoint {
    pub enabled: bool,
}

impl IconBreakpoint {
    pub fn new(enabled: bool) -> (r: IconBreakpoint)
        ensures
            r.enabled == enabled,
    {
        IconBreakpoint { enabled }
    }
}

} // verus!
