//! The immutable configuration that every component reads: a set of boolean
//! switches, constructed once upstream and never mutated during a run.

use vstd::prelude::*;

verus! {

/// A boolean switch in its historical enabled/disabled form. It carries no
/// more information than a `bool`; `Flags` keeps plain booleans instead.
#[derive(Debug, Clone, Copy, PartialEq, Eq, Structural)]
pub enum OptionState {
    Disabled,
    Enabled,
}

impl OptionState {
    pub fn is_enabled(&self) -> (r: bool)
        ensures
            r == (*self is Enabled),
    {
        matches!(self, OptionState::Enabled)
    }

    pub fn set_enabled(&mut self, enabled: bool)
        ensures
            *final(self) is Enabled == enabled,
    {
        *self = if enabled {
            OptionState::Enabled
        } else {
            OptionState::Disabled
        }
    }
}

impl Default for OptionState {
    fn default() -> (r: Self)
        ensures
            r is Disabled,
    {
        OptionState::Disabled
    }
}

/// The recognized options, read by every component.
#[derive(Debug, Clone, Copy, PartialEq, Eq, Structural)]
pub struct Flags {
    /// Scan the files concurrently instead of one after another.
    pub parallel: bool,
    /// Descend into subdirectories instead of stopping at depth one.
    pub recursive: bool,
    /// Report per-file or aggregate counts instead of the lines themselves.
    pub count: bool,
    /// Prefix each reported line with its 1-based line number.
    pub show_lines: bool,
    /// Prefix each reported line (or count) with the file name.
    pub show_names: bool,
    /// Interpret the needle case-insensitively.
    pub ignore_case: bool,
    /// Report the lines that do not match instead of the lines that do.
    pub invert_match: bool,
    /// Include hidden entries when walking directories.
    pub hidden: bool,
}

impl Default for Flags {
    fn default() -> (r: Self)
        ensures
            !r.parallel,
            !r.recursive,
            !r.count,
            !r.show_lines,
            !r.show_names,
            !r.ignore_case,
            !r.invert_match,
            !r.hidden,
    {
        Flags {
            parallel: false,
            recursive: false,
            count: false,
            show_lines: false,
            show_names: false,
            ignore_case: false,
            invert_match: false,
            hidden: false,
        }
    }
}

/// How much detail the surrounding application prints alongside results.
#[derive(Debug, Clone, Copy, PartialEq, Eq, Structural)]
pub enum Verbosity {
    Quiet,
    Normal,
    Verbose,
}

/// A full invocation as the argument parser hands it over: the needle, the
/// roots, and the switches, already validated and typed.
#[derive(Debug, Clone)]
pub struct Config {
    /// The pattern to search for.
    pub pattern: Vec<u8>,
    /// The caller-supplied file or directory roots.
    pub files: Vec<Vec<u8>>,
    pub verbosity: Verbosity,
    pub flags: Flags,
}

} // verus!
