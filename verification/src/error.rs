//! What can go wrong while a process is traced.

use vstd::prelude::*;

verus! {

/// A numeric field that the kernel's text reports for a process.
#[derive(Clone, Copy, Debug, PartialEq, Eq)]
pub enum Field {
    Pss,
    VmRss,
    RssAnon,
    RssFile,
    RssShmem,
    VmSwap,
    VoluntaryCtxtSwitches,
    NonvoluntaryCtxtSwitches,
    Minflt,
    Majflt,
    Utime,
    Stime,
    GlobalUtime,
    GlobalStime,
    Priority,
    Nice,
    NumThreads,
    StartTime,
}

/// A text that every snapshot of a process needs.
#[derive(Clone, Copy, Debug, PartialEq, Eq)]
pub enum Source {
    /// The host's CPU accounting.
    GlobalStat,
    /// The memory map summary of the process.
    Smaps,
    /// The stat record of the process itself.
    ProcessStat,
    /// The list of the threads of the process.
    TaskList,
}

/// Why a trace stopped.
#[derive(Clone, Copy, Debug, PartialEq, Eq)]
pub enum TraceError {
    /// The process name did not resolve to one process id.
    Resolution,
    /// A text that every snapshot needs could not be read.
    Read(Source),
    /// A field that is present does not hold a number of its type, or a
    /// positional record is too short to hold the field.
    Parse(Field),
    /// The sum of a field over threads or lines does not fit the field's type.
    Overflow(Field),
}

} // verus!
