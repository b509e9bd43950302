//! The fields of the kernel's process texts: labelled lines of a status
//! text and positional fields of a stat record.
//!
//! A label that is absent leaves its field at zero. A label that is present
//! makes its field mandatory: text after it that is no number of the field's
//! type is an error.

use crate::error::{Field, TraceError};
use crate::number::{i64_value, parse_i64, parse_u64, u64_value};
use crate::text::{
    all_fit, chars_of, drop_suffixes, field_spans, fields, has_prefix, line_spans, lines, pieces,
    skip_prefixes, starts_with, strip_prefixes, strip_suffixes, trim, trim_span, Span,
};
use vstd::prelude::*;

verus! {

/// The text that opens the line of a labelled field; empty for a field that
/// has no label. The two host CPU times share the line that opens with `cpu`
/// and a blank.
pub open spec fn label(f: Field) -> Seq<char> {
    match f {
        Field::Pss => "Pss:\t"@,
        Field::VmRss => "VmRSS:\t"@,
        Field::RssAnon => "RssAnon:\t"@,
        Field::RssFile => "RssFile:\t"@,
        Field::RssShmem => "RssShmem:\t"@,
        Field::VmSwap => "VmSwap:\t"@,
        Field::VoluntaryCtxtSwitches => "voluntary_ctxt_switches:\t"@,
        Field::NonvoluntaryCtxtSwitches => "nonvoluntary_ctxt_switches:\t"@,
        Field::GlobalUtime | Field::GlobalStime => "cpu "@,
        _ => Seq::empty(),
    }
}

/// The unit that may close the line of a labelled field; empty for a field
/// that is a plain count.
pub open spec fn unit(f: Field) -> Seq<char> {
    match f {
        Field::Pss | Field::VmRss | Field::RssAnon | Field::RssFile | Field::RssShmem
        | Field::VmSwap => " kB"@,
        _ => Seq::empty(),
    }
}

/// The text of the number on the line of field `f`: the line without its
/// label, without its unit, and without white space around what is left.
pub open spec fn value_text(line: Seq<char>, f: Field) -> Seq<char> {
    trim(strip_suffixes(strip_prefixes(line, label(f)), unit(f)))
}

/// The memory sizes and switch counts that one status text reports.
#[derive(Clone, Copy, Debug, PartialEq, Eq)]
pub struct StatusValues {
    pub vm_rss: i64,
    pub vm_anon: i64,
    pub vm_file: i64,
    pub vm_shmem: i64,
    pub vm_swap: i64,
    pub voluntary_ctxt_switches: u64,
    pub nonvoluntary_ctxt_switches: u64,
}

impl StatusValues {
    /// Every field at zero.
    pub open spec fn zero() -> StatusValues {
        StatusValues {
            vm_rss: 0,
            vm_anon: 0,
            vm_file: 0,
            vm_shmem: 0,
            vm_swap: 0,
            voluntary_ctxt_switches: 0,
            nonvoluntary_ctxt_switches: 0,
        }
    }

    /// These values with the memory size `f` set to `v`.
    pub open spec fn with_size(self, f: Field, v: i64) -> StatusValues {
        match f {
            Field::VmRss => StatusValues { vm_rss: v, ..self },
            Field::RssAnon => StatusValues { vm_anon: v, ..self },
            Field::RssFile => StatusValues { vm_file: v, ..self },
            Field::RssShmem => StatusValues { vm_shmem: v, ..self },
            Field::VmSwap => StatusValues { vm_swap: v, ..self },
            _ => self,
        }
    }

    /// These values with the count `f` set to `v`.
    pub open spec fn with_count(self, f: Field, v: u64) -> StatusValues {
        match f {
            Field::VoluntaryCtxtSwitches => StatusValues { voluntary_ctxt_switches: v, ..self },
            Field::NonvoluntaryCtxtSwitches => StatusValues {
                nonvoluntary_ctxt_switches: v,
                ..self
            },
            _ => self,
        }
    }
}

/// The field whose label opens a line of a status text, if any.
pub open spec fn status_field(line: Seq<char>) -> Option<Field> {
    if has_prefix(line, label(Field::RssAnon)) {
        Some(Field::RssAnon)
    } else if has_prefix(line, label(Field::VmRss)) {
        Some(Field::VmRss)
    } else if has_prefix(line, label(Field::RssFile)) {
        Some(Field::RssFile)
    } else if has_prefix(line, label(Field::RssShmem)) {
        Some(Field::RssShmem)
    } else if has_prefix(line, label(Field::VmSwap)) {
        Some(Field::VmSwap)
    } else if has_prefix(line, label(Field::NonvoluntaryCtxtSwitches)) {
        Some(Field::NonvoluntaryCtxtSwitches)
    } else if has_prefix(line, label(Field::VoluntaryCtxtSwitches)) {
        Some(Field::VoluntaryCtxtSwitches)
    } else {
        None
    }
}

/// The field is one of the two switch counts.
pub open spec fn is_count(f: Field) -> bool {
    f == Field::VoluntaryCtxtSwitches || f == Field::NonvoluntaryCtxtSwitches
}

/// What one line of a status text does to the values read so far: a line
/// without a known label leaves them as they are, a line with one sets its
/// field or fails.
pub open spec fn status_line(acc: StatusValues, line: Seq<char>) -> Result<StatusValues, TraceError> {
    match status_field(line) {
        None => Ok(acc),
        Some(f) => if is_count(f) {
            match u64_value(value_text(line, f)) {
                Some(v) => Ok(acc.with_count(f, v)),
                None => Err(TraceError::Parse(f)),
            }
        } else {
            match i64_value(value_text(line, f)) {
                Some(v) => Ok(acc.with_size(f, v)),
                None => Err(TraceError::Parse(f)),
            }
        },
    }
}

/// What the lines `ls` of a status text amount to, read in order after the
/// values `acc`. The first line that fails decides.
pub open spec fn status_from(ls: Seq<Seq<char>>, acc: StatusValues) -> Result<
    StatusValues,
    TraceError,
>
    decreases ls.len(),
{
    if ls.len() == 0 {
        Ok(acc)
    } else {
        match status_line(acc, ls[0]) {
            Ok(next) => status_from(ls.skip(1), next),
            Err(e) => Err(e),
        }
    }
}

/// The values that a status text reports.
pub open spec fn status_values(text: Seq<char>) -> Result<StatusValues, TraceError> {
    status_from(lines(text), StatusValues::zero())
}

/// The field has a label in a status text.
pub open spec fn is_status_field(f: Field) -> bool {
    f == Field::VmRss || f == Field::RssAnon || f == Field::RssFile || f == Field::RssShmem || f
        == Field::VmSwap || is_count(f)
}

/// What status values hold for a field of a status text.
pub open spec fn status_value(v: StatusValues, f: Field) -> int {
    match f {
        Field::VmRss => v.vm_rss as int,
        Field::RssAnon => v.vm_anon as int,
        Field::RssFile => v.vm_file as int,
        Field::RssShmem => v.vm_shmem as int,
        Field::VmSwap => v.vm_swap as int,
        Field::VoluntaryCtxtSwitches => v.voluntary_ctxt_switches as int,
        Field::NonvoluntaryCtxtSwitches => v.nonvoluntary_ctxt_switches as int,
        _ => 0,
    }
}

/// The text after the label of `f` on `line` is a number of the field's type.
pub open spec fn well_formed(line: Seq<char>, f: Field) -> bool {
    if is_count(f) {
        u64_value(value_text(line, f)) is Some
    } else {
        i64_value(value_text(line, f)) is Some
    }
}

/// A text that begins with `p` holds the characters of `p` at its start.
pub proof fn lemma_prefix_char(s: Seq<char>, p: Seq<char>, k: int)
    requires
        has_prefix(s, p),
        0 <= k < p.len(),
    ensures
        s[k] == p[k],
{
}

/// No line opens with the labels of two fields of a status text, since any
/// two labels differ in their first, third or fourth character: a line that
/// opens with the label of a field is a line of that field.
pub proof fn lemma_label_decides(line: Seq<char>, f: Field)
    requires
        is_status_field(f),
        has_prefix(line, label(f)),
    ensures
        status_field(line) == Some(f),
{
    reveal_strlit("VmRSS:\t");
    reveal_strlit("RssAnon:\t");
    reveal_strlit("RssFile:\t");
    reveal_strlit("RssShmem:\t");
    reveal_strlit("VmSwap:\t");
    reveal_strlit("voluntary_ctxt_switches:\t");
    reveal_strlit("nonvoluntary_ctxt_switches:\t");
    lemma_prefix_char(line, label(f), 0);
    lemma_prefix_char(line, label(f), 2);
    lemma_prefix_char(line, label(f), 3);
    assert forall|g: Field| is_status_field(g) && g != f implies !has_prefix(line, label(g)) by {
        if has_prefix(line, label(g)) {
            lemma_prefix_char(line, label(g), 0);
            lemma_prefix_char(line, label(g), 2);
            lemma_prefix_char(line, label(g), 3);
        }
    }
}

/// A line sets no field but its own.
pub proof fn lemma_line_keeps_others(acc: StatusValues, line: Seq<char>, f: Field)
    requires
        is_status_field(f),
        status_field(line) != Some(f),
    ensures
        match status_line(acc, line) {
            Ok(v) => status_value(v, f) == status_value(acc, f),
            Err(e) => e != TraceError::Parse(f),
        },
{
}

/// Lines of which none opens with the label of `f` leave the field as it
/// was, and do not fail on its account.
pub proof fn lemma_absent_label_keeps(ls: Seq<Seq<char>>, acc: StatusValues, f: Field)
    requires
        is_status_field(f),
        forall|i: int| 0 <= i < ls.len() ==> !has_prefix(#[trigger] ls[i], label(f)),
    ensures
        match status_from(ls, acc) {
            Ok(v) => status_value(v, f) == status_value(acc, f),
            Err(e) => e != TraceError::Parse(f),
        },
    decreases ls.len(),
{
    if ls.len() > 0 {
        lemma_line_keeps_others(acc, ls[0], f);
        match status_line(acc, ls[0]) {
            Ok(next) => {
                lemma_absent_label_keeps(ls.skip(1), next, f);
            },
            Err(e) => {},
        }
    }
}

/// A status text without the label of a field reads the field as zero, and
/// is not refused on account of the field.
pub proof fn lemma_missing_label_reads_zero(text: Seq<char>, f: Field)
    requires
        is_status_field(f),
        forall|i: int|
            0 <= i < lines(text).len() ==> !has_prefix(#[trigger] lines(text)[i], label(f)),
    ensures
        match status_values(text) {
            Ok(v) => status_value(v, f) == 0,
            Err(e) => e != TraceError::Parse(f),
        },
{
    lemma_absent_label_keeps(lines(text), StatusValues::zero(), f);
}

/// Lines of which one opens with the label of a field and holds no number
/// of the field's type after it are refused.
pub proof fn lemma_malformed_line_fails(ls: Seq<Seq<char>>, acc: StatusValues, i: int, f: Field)
    requires
        0 <= i < ls.len(),
        is_status_field(f),
        has_prefix(ls[i], label(f)),
        !well_formed(ls[i], f),
    ensures
        status_from(ls, acc) is Err,
    decreases ls.len(),
{
    if i == 0 {
        lemma_label_decides(ls[0], f);
    } else {
        match status_line(acc, ls[0]) {
            Ok(next) => {
                lemma_malformed_line_fails(ls.skip(1), next, i - 1, f);
            },
            Err(e) => {},
        }
    }
}

/// A status text in which a line opens with the label of a field and holds
/// no number of the field's type after it is refused.
pub proof fn lemma_malformed_label_fails(text: Seq<char>, i: int, f: Field)
    requires
        0 <= i < lines(text).len(),
        is_status_field(f),
        has_prefix(lines(text)[i], label(f)),
        !well_formed(lines(text)[i], f),
    ensures
        status_values(text) is Err,
{
    lemma_malformed_line_fails(lines(text), StatusValues::zero(), i, f);
}

/// Lines of which every one that opens with a label holds a number of the
/// field's type after it are accepted.
pub proof fn lemma_well_formed_lines_read(ls: Seq<Seq<char>>, acc: StatusValues)
    requires
        forall|i: int, f: Field|
            0 <= i < ls.len() && status_field(#[trigger] ls[i]) == Some(f) ==> #[trigger] well_formed(
                ls[i],
                f,
            ),
    ensures
        status_from(ls, acc) is Ok,
    decreases ls.len(),
{
    if ls.len() > 0 {
        match status_field(ls[0]) {
            Some(f) => {
                assert(well_formed(ls[0], f));
            },
            None => {},
        }
        match status_line(acc, ls[0]) {
            Ok(next) => {
                let rest = ls.skip(1);
                assert forall|i: int, f: Field|
                    0 <= i < rest.len() && status_field(#[trigger] rest[i]) == Some(
                        f,
                    ) implies #[trigger] well_formed(rest[i], f) by {
                    assert(rest[i] == ls[i + 1]);
                }
                lemma_well_formed_lines_read(rest, next);
            },
            Err(e) => {},
        }
    }
}

/// A status text is accepted if every line of it that opens with a label
/// holds a number of the field's type after it; with the law before, if and
/// only if.
pub proof fn lemma_well_formed_status_reads(text: Seq<char>)
    requires
        forall|i: int, f: Field|
            0 <= i < lines(text).len() && status_field(#[trigger] lines(text)[i]) == Some(f)
                ==> #[trigger] well_formed(lines(text)[i], f),
    ensures
        status_values(text) is Ok,
{
    lemma_well_formed_lines_read(lines(text), StatusValues::zero());
}

/// What the lines `ls` of a memory map summary add to the sum `acc`: the
/// number on every line that opens with the proportional set size's label.
pub open spec fn pss_from(ls: Seq<Seq<char>>, acc: int) -> Result<int, TraceError>
    decreases ls.len(),
{
    if ls.len() == 0 {
        Ok(acc)
    } else if has_prefix(ls[0], label(Field::Pss)) {
        match i64_value(value_text(ls[0], Field::Pss)) {
            Some(v) => pss_from(ls.skip(1), acc + v),
            None => Err(TraceError::Parse(Field::Pss)),
        }
    } else {
        pss_from(ls.skip(1), acc)
    }
}

/// The proportional set size that a memory map summary reports: the sum
/// over its labelled lines.
pub open spec fn pss_value(text: Seq<char>) -> Result<i64, TraceError> {
    match pss_from(lines(text), 0) {
        Ok(total) => if i64::MIN <= total <= i64::MAX {
            Ok(total as i64)
        } else {
            Err(TraceError::Overflow(Field::Pss))
        },
        Err(e) => Err(e),
    }
}

/// The unsigned number at position `index` of a positional record. The
/// field is mandatory: a record without it is an error as much as a field
/// that is no number.
pub open spec fn positional_u64(fs: Seq<Seq<char>>, index: int, f: Field) -> Result<
    u64,
    TraceError,
> {
    if 0 <= index < fs.len() {
        match u64_value(fs[index]) {
            Some(v) => Ok(v),
            None => Err(TraceError::Parse(f)),
        }
    } else {
        Err(TraceError::Parse(f))
    }
}

/// The signed number at position `index` of a positional record.
pub open spec fn positional_i64(fs: Seq<Seq<char>>, index: int, f: Field) -> Result<
    i64,
    TraceError,
> {
    if 0 <= index < fs.len() {
        match i64_value(fs[index]) {
            Some(v) => Ok(v),
            None => Err(TraceError::Parse(f)),
        }
    } else {
        Err(TraceError::Parse(f))
    }
}

/// Host CPU times, in clock ticks.
#[derive(Clone, Copy, Debug, PartialEq, Eq)]
pub struct CpuTimes {
    pub user: u64,
    pub system: u64,
}

/// Where the user time stands among the numbers of the host's CPU line.
pub const HOST_USER_INDEX: usize = 0;

/// Where the system time stands among the numbers of the host's CPU line.
pub const HOST_SYSTEM_INDEX: usize = 2;

/// The numbers that follow the label on the host's CPU line.
pub open spec fn cpu_fields(line: Seq<char>) -> Seq<Seq<char>> {
    fields(trim(strip_prefixes(line, label(Field::GlobalUtime))))
}

/// The user and system time on the host's CPU line.
pub open spec fn cpu_line(line: Seq<char>) -> Result<CpuTimes, TraceError> {
    match positional_u64(cpu_fields(line), HOST_USER_INDEX as int, Field::GlobalUtime) {
        Ok(user) => match positional_u64(
            cpu_fields(line),
            HOST_SYSTEM_INDEX as int,
            Field::GlobalStime,
        ) {
            Ok(system) => Ok(CpuTimes { user, system }),
            Err(e) => Err(e),
        },
        Err(e) => Err(e),
    }
}

/// What the lines `ls` of the host's CPU accounting add to the sums `user`
/// and `system`.
pub open spec fn cpu_from(ls: Seq<Seq<char>>, user: int, system: int) -> Result<
    (int, int),
    TraceError,
>
    decreases ls.len(),
{
    if ls.len() == 0 {
        Ok((user, system))
    } else if has_prefix(ls[0], label(Field::GlobalUtime)) {
        match cpu_line(ls[0]) {
            Ok(t) => cpu_from(ls.skip(1), user + t.user, system + t.system),
            Err(e) => Err(e),
        }
    } else {
        cpu_from(ls.skip(1), user, system)
    }
}

/// The host's CPU times that its accounting text reports.
pub open spec fn cpu_times(text: Seq<char>) -> Result<CpuTimes, TraceError> {
    match cpu_from(lines(text), 0, 0) {
        Ok((user, system)) => if user > u64::MAX {
            Err(TraceError::Overflow(Field::GlobalUtime))
        } else if system > u64::MAX {
            Err(TraceError::Overflow(Field::GlobalStime))
        } else {
            Ok(CpuTimes { user: user as u64, system: system as u64 })
        },
        Err(e) => Err(e),
    }
}

/// Where the minor fault count stands in a stat record.
pub const MINFLT_INDEX: usize = 9;

/// Where the major fault count stands in a stat record.
pub const MAJFLT_INDEX: usize = 11;

/// Where the user time stands in a stat record.
pub const UTIME_INDEX: usize = 13;

/// Where the system time stands in a stat record.
pub const STIME_INDEX: usize = 14;

/// Where the priority stands in a stat record.
pub const PRIORITY_INDEX: usize = 17;

/// Where the nice value stands in a stat record.
pub const NICE_INDEX: usize = 18;

/// Where the number of threads stands in a stat record.
pub const NUM_THREADS_INDEX: usize = 19;

/// Where the start time stands in a stat record.
pub const START_TIME_INDEX: usize = 21;

/// The fault counts and CPU times of one stat record; times in clock ticks.
#[derive(Clone, Copy, Debug, PartialEq, Eq)]
pub struct StatCounters {
    pub minflt: u64,
    pub majflt: u64,
    pub utime: u64,
    pub stime: u64,
}

/// The attributes of a process that its stat record holds.
#[derive(Clone, Copy, Debug, PartialEq, Eq)]
pub struct ProcessAttributes {
    pub priority: i64,
    pub nice: i64,
    pub num_threads: i64,
    pub start_time: i64,
}

/// The record reaches beyond the system time, so that it counts.
pub open spec fn holds_times(fs: Seq<Seq<char>>) -> bool {
    fs.len() > STIME_INDEX
}

/// The counters that a stat record with the fields `fs` reports. A record
/// that does not reach beyond the system time reports nothing.
pub open spec fn counters_of(fs: Seq<Seq<char>>) -> Result<StatCounters, TraceError> {
    if holds_times(fs) {
        match positional_u64(fs, MINFLT_INDEX as int, Field::Minflt) {
            Ok(minflt) => match positional_u64(fs, MAJFLT_INDEX as int, Field::Majflt) {
                Ok(majflt) => match positional_u64(fs, UTIME_INDEX as int, Field::Utime) {
                    Ok(utime) => match positional_u64(fs, STIME_INDEX as int, Field::Stime) {
                        Ok(stime) => Ok(StatCounters { minflt, majflt, utime, stime }),
                        Err(e) => Err(e),
                    },
                    Err(e) => Err(e),
                },
                Err(e) => Err(e),
            },
            Err(e) => Err(e),
        }
    } else {
        Ok(StatCounters { minflt: 0, majflt: 0, utime: 0, stime: 0 })
    }
}

/// The counters that the stat text of a thread reports.
pub open spec fn stat_counters(text: Seq<char>) -> Result<StatCounters, TraceError> {
    counters_of(fields(text))
}

/// The attributes that a stat record with the fields `fs` reports. A record
/// that does not reach beyond the system time reports nothing; one that
/// does must hold all four attributes.
pub open spec fn attributes_of(fs: Seq<Seq<char>>) -> Result<ProcessAttributes, TraceError> {
    if holds_times(fs) {
        match positional_i64(fs, PRIORITY_INDEX as int, Field::Priority) {
            Ok(priority) => match positional_i64(fs, NICE_INDEX as int, Field::Nice) {
                Ok(nice) => match positional_i64(
                    fs,
                    NUM_THREADS_INDEX as int,
                    Field::NumThreads,
                ) {
                    Ok(num_threads) => match positional_i64(
                        fs,
                        START_TIME_INDEX as int,
                        Field::StartTime,
                    ) {
                        Ok(start_time) => Ok(
                            ProcessAttributes { priority, nice, num_threads, start_time },
                        ),
                        Err(e) => Err(e),
                    },
                    Err(e) => Err(e),
                },
                Err(e) => Err(e),
            },
            Err(e) => Err(e),
        }
    } else {
        Ok(ProcessAttributes { priority: 0, nice: 0, num_threads: 0, start_time: 0 })
    }
}

/// The attributes that the stat text of a process reports.
pub open spec fn process_attributes(text: Seq<char>) -> Result<ProcessAttributes, TraceError> {
    attributes_of(fields(text))
}

/// The characters of the label of `f`.
pub fn label_chars(f: Field) -> (v: Vec<char>)
    ensures
        v@ == label(f),
{
    match f {
        Field::Pss => chars_of("Pss:\t"),
        Field::VmRss => chars_of("VmRSS:\t"),
        Field::RssAnon => chars_of("RssAnon:\t"),
        Field::RssFile => chars_of("RssFile:\t"),
        Field::RssShmem => chars_of("RssShmem:\t"),
        Field::VmSwap => chars_of("VmSwap:\t"),
        Field::VoluntaryCtxtSwitches => chars_of("voluntary_ctxt_switches:\t"),
        Field::NonvoluntaryCtxtSwitches => chars_of("nonvoluntary_ctxt_switches:\t"),
        Field::GlobalUtime | Field::GlobalStime => chars_of("cpu "),
        _ => Vec::new(),
    }
}

/// The characters of the unit of `f`.
pub fn unit_chars(f: Field) -> (v: Vec<char>)
    ensures
        v@ == unit(f),
{
    match f {
        Field::Pss | Field::VmRss | Field::RssAnon | Field::RssFile | Field::RssShmem
        | Field::VmSwap => chars_of(" kB"),
        _ => Vec::new(),
    }
}

/// The labels and units of the labelled fields, as characters.
struct LabelTable {
    pss: Vec<char>,
    vm_rss: Vec<char>,
    vm_anon: Vec<char>,
    vm_file: Vec<char>,
    vm_shmem: Vec<char>,
    vm_swap: Vec<char>,
    voluntary: Vec<char>,
    nonvoluntary: Vec<char>,
    cpu: Vec<char>,
    kilobytes: Vec<char>,
    nothing: Vec<char>,
}

impl LabelTable {
    /// The table holds the label of every labelled field, the unit of the
    /// sizes, and an empty text for what has no label or no unit.
    spec fn holds_labels(&self) -> bool {
        &&& self.pss@ == label(Field::Pss)
        &&& self.vm_rss@ == label(Field::VmRss)
        &&& self.vm_anon@ == label(Field::RssAnon)
        &&& self.vm_file@ == label(Field::RssFile)
        &&& self.vm_shmem@ == label(Field::RssShmem)
        &&& self.vm_swap@ == label(Field::VmSwap)
        &&& self.voluntary@ == label(Field::VoluntaryCtxtSwitches)
        &&& self.nonvoluntary@ == label(Field::NonvoluntaryCtxtSwitches)
        &&& self.cpu@ == label(Field::GlobalUtime)
        &&& self.kilobytes@ == unit(Field::Pss)
        &&& self.nothing@ == Seq::<char>::empty()
    }

    /// Every table holds the labels and units.
    #[verifier::type_invariant]
    spec fn wf(&self) -> bool {
        self.holds_labels()
    }

    /// The table of the labels and units of the kernel's texts.
    fn new() -> (t: LabelTable)
        ensures
            t.holds_labels(),
    {
        LabelTable {
            pss: label_chars(Field::Pss),
            vm_rss: label_chars(Field::VmRss),
            vm_anon: label_chars(Field::RssAnon),
            vm_file: label_chars(Field::RssFile),
            vm_shmem: label_chars(Field::RssShmem),
            vm_swap: label_chars(Field::VmSwap),
            voluntary: label_chars(Field::VoluntaryCtxtSwitches),
            nonvoluntary: label_chars(Field::NonvoluntaryCtxtSwitches),
            cpu: label_chars(Field::GlobalUtime),
            kilobytes: unit_chars(Field::Pss),
            nothing: Vec::new(),
        }
    }

    /// The label of `f`.
    fn label_of(&self, f: Field) -> (p: &Vec<char>)
        ensures
            p@ == label(f),
    {
        proof {
            use_type_invariant(self);
        }
        match f {
            Field::Pss => &self.pss,
            Field::VmRss => &self.vm_rss,
            Field::RssAnon => &self.vm_anon,
            Field::RssFile => &self.vm_file,
            Field::RssShmem => &self.vm_shmem,
            Field::VmSwap => &self.vm_swap,
            Field::VoluntaryCtxtSwitches => &self.voluntary,
            Field::NonvoluntaryCtxtSwitches => &self.nonvoluntary,
            Field::GlobalUtime | Field::GlobalStime => &self.cpu,
            _ => &self.nothing,
        }
    }

    /// The unit of `f`.
    fn unit_of(&self, f: Field) -> (p: &Vec<char>)
        ensures
            p@ == unit(f),
    {
        proof {
            use_type_invariant(self);
        }
        match f {
            Field::Pss | Field::VmRss | Field::RssAnon | Field::RssFile | Field::RssShmem
            | Field::VmSwap => &self.kilobytes,
            _ => &self.nothing,
        }
    }
}

/// Where the number on the line of field `f` stands.
fn value_span(s: &[char], line: Span, f: Field, table: &LabelTable) -> (r: Span)
    requires
        line.fits(s@.len()),
    ensures
        r.fits(s@.len()),
        r.of(s@) == value_text(line.of(s@), f),
{
    let a = skip_prefixes(s, line.lo, line.hi, table.label_of(f).as_slice());
    let b = drop_suffixes(s, a, line.hi, table.unit_of(f).as_slice());
    trim_span(s, a, b)
}

/// Tells whether the line opens with the label of `f`.
fn has_label(s: &[char], line: Span, f: Field, table: &LabelTable) -> (b: bool)
    requires
        line.fits(s@.len()),
    ensures
        b == has_prefix(line.of(s@), label(f)),
{
    starts_with(s, line.lo, line.hi, table.label_of(f).as_slice())
}

/// The field whose label opens a line of a status text.
fn status_field_of(s: &[char], line: Span, table: &LabelTable) -> (r: Option<Field>)
    requires
        line.fits(s@.len()),
    ensures
        r == status_field(line.of(s@)),
{
    if has_label(s, line, Field::RssAnon, table) {
        Some(Field::RssAnon)
    } else if has_label(s, line, Field::VmRss, table) {
        Some(Field::VmRss)
    } else if has_label(s, line, Field::RssFile, table) {
        Some(Field::RssFile)
    } else if has_label(s, line, Field::RssShmem, table) {
        Some(Field::RssShmem)
    } else if has_label(s, line, Field::VmSwap, table) {
        Some(Field::VmSwap)
    } else if has_label(s, line, Field::NonvoluntaryCtxtSwitches, table) {
        Some(Field::NonvoluntaryCtxtSwitches)
    } else if has_label(s, line, Field::VoluntaryCtxtSwitches, table) {
        Some(Field::VoluntaryCtxtSwitches)
    } else {
        None
    }
}

/// Takes one line of a status text into the values read so far.
fn read_status_line(acc: StatusValues, s: &[char], line: Span, table: &LabelTable) -> (r:
    Result<StatusValues, TraceError>)
    requires
        line.fits(s@.len()),
    ensures
        r == status_line(acc, line.of(s@)),
{
    let mut next = acc;
    match status_field_of(s, line, table) {
        None => {},
        Some(f) => {
            let v = value_span(s, line, f, table);
            match f {
                Field::VoluntaryCtxtSwitches => match parse_u64(s, v.lo, v.hi) {
                    Some(n) => {
                        next.voluntary_ctxt_switches = n;
                    },
                    None => {
                        return Err(TraceError::Parse(f));
                    },
                },
                Field::NonvoluntaryCtxtSwitches => match parse_u64(s, v.lo, v.hi) {
                    Some(n) => {
                        next.nonvoluntary_ctxt_switches = n;
                    },
                    None => {
                        return Err(TraceError::Parse(f));
                    },
                },
                _ => match parse_i64(s, v.lo, v.hi) {
                    Some(n) => match f {
                        Field::VmRss => {
                            next.vm_rss = n;
                        },
                        Field::RssAnon => {
                            next.vm_anon = n;
                        },
                        Field::RssFile => {
                            next.vm_file = n;
                        },
                        Field::RssShmem => {
                            next.vm_shmem = n;
                        },
                        Field::VmSwap => {
                            next.vm_swap = n;
                        },
                        _ => {},
                    },
                    None => {
                        return Err(TraceError::Parse(f));
                    },
                },
            }
        },
    }
    Ok(next)
}

/// Reads a status text: the memory sizes and switch counts of one thread.
/// A label that the text does not hold leaves its field at zero; of a label
/// that occurs more than once the last line counts.
pub fn parse_status(text: &str) -> (r: Result<StatusValues, TraceError>)
    ensures
        r == status_values(text@),
{
    let s = chars_of(text);
    let spans = line_spans(s.as_slice());
    let table = LabelTable::new();
    let ghost ls = lines(text@);
    let mut acc = StatusValues {
        vm_rss: 0,
        vm_anon: 0,
        vm_file: 0,
        vm_shmem: 0,
        vm_swap: 0,
        voluntary_ctxt_switches: 0,
        nonvoluntary_ctxt_switches: 0,
    };
    let mut i: usize = 0;
    proof {
        assert(ls.skip(0) =~= ls);
    }
    while i < spans.len()
        invariant
            i <= spans.len(),
            s@ == text@,
            all_fit(spans@, s@.len()),
            ls == pieces(s@, spans@),
            status_values(text@) == status_from(ls.skip(i as int), acc),
        decreases spans.len() - i,
    {
        let line = spans[i];
        proof {
            assert(ls.skip(i as int).skip(1) =~= ls.skip(i + 1));
        }
        match read_status_line(acc, s.as_slice(), line, &table) {
            Ok(next) => {
                acc = next;
            },
            Err(e) => {
                return Err(e);
            },
        }
        i = i + 1;
    }
    Ok(acc)
}

/// Reads a memory map summary: the proportional set size of the process,
/// summed over the lines that carry its label.
pub fn parse_pss(text: &str) -> (r: Result<i64, TraceError>)
    ensures
        r == pss_value(text@),
{
    let s = chars_of(text);
    let spans = line_spans(s.as_slice());
    let table = LabelTable::new();
    let ghost ls = lines(text@);
    let mut acc: i128 = 0;
    let mut i: usize = 0;
    proof {
        assert(ls.skip(0) =~= ls);
    }
    while i < spans.len()
        invariant
            i <= spans.len(),
            s@ == text@,
            all_fit(spans@, s@.len()),
            ls == pieces(s@, spans@),
            -(i * 0x8000_0000_0000_0000) <= acc <= i * 0x8000_0000_0000_0000,
            pss_from(lines(text@), 0) == pss_from(ls.skip(i as int), acc as int),
        decreases spans.len() - i,
    {
        let line = spans[i];
        proof {
            assert(ls.skip(i as int).skip(1) =~= ls.skip(i + 1));
        }
        if has_label(s.as_slice(), line, Field::Pss, &table) {
            let v = value_span(s.as_slice(), line, Field::Pss, &table);
            match parse_i64(s.as_slice(), v.lo, v.hi) {
                Some(n) => {
                    acc = acc + n as i128;
                },
                None => {
                    return Err(TraceError::Parse(Field::Pss));
                },
            }
        }
        i = i + 1;
    }
    if acc < i64::MIN as i128 || acc > i64::MAX as i128 {
        Err(TraceError::Overflow(Field::Pss))
    } else {
        Ok(acc as i64)
    }
}

/// Reads the unsigned number at position `index` of a positional record.
fn read_u64_at(s: &[char], spans: &Vec<Span>, index: usize, f: Field) -> (r: Result<
    u64,
    TraceError,
>)
    requires
        all_fit(spans@, s@.len()),
    ensures
        r == positional_u64(pieces(s@, spans@), index as int, f),
{
    if index < spans.len() {
        let sp = spans[index];
        match parse_u64(s, sp.lo, sp.hi) {
            Some(v) => Ok(v),
            None => Err(TraceError::Parse(f)),
        }
    } else {
        Err(TraceError::Parse(f))
    }
}

/// Reads the signed number at position `index` of a positional record.
fn read_i64_at(s: &[char], spans: &Vec<Span>, index: usize, f: Field) -> (r: Result<
    i64,
    TraceError,
>)
    requires
        all_fit(spans@, s@.len()),
    ensures
        r == positional_i64(pieces(s@, spans@), index as int, f),
{
    if index < spans.len() {
        let sp = spans[index];
        match parse_i64(s, sp.lo, sp.hi) {
            Some(v) => Ok(v),
            None => Err(TraceError::Parse(f)),
        }
    } else {
        Err(TraceError::Parse(f))
    }
}

/// Reads the user and system time off the host's CPU line.
fn read_cpu_line(s: &[char], line: Span, table: &LabelTable) -> (r: Result<
    CpuTimes,
    TraceError,
>)
    requires
        line.fits(s@.len()),
    ensures
        r == cpu_line(line.of(s@)),
{
    let a = skip_prefixes(s, line.lo, line.hi, table.label_of(Field::GlobalUtime).as_slice());
    let t = trim_span(s, a, line.hi);
    let spans = field_spans(s, t.lo, t.hi);
    let user = match read_u64_at(s, &spans, HOST_USER_INDEX, Field::GlobalUtime) {
        Ok(v) => v,
        Err(e) => {
            return Err(e);
        },
    };
    let system = match read_u64_at(s, &spans, HOST_SYSTEM_INDEX, Field::GlobalStime) {
        Ok(v) => v,
        Err(e) => {
            return Err(e);
        },
    };
    Ok(CpuTimes { user, system })
}

/// Reads the host's CPU accounting: user and system time in clock ticks,
/// summed over the lines that open with the label of the whole host.
pub fn parse_cpu_times(text: &str) -> (r: Result<CpuTimes, TraceError>)
    ensures
        r == cpu_times(text@),
{
    let s = chars_of(text);
    let spans = line_spans(s.as_slice());
    let table = LabelTable::new();
    let ghost ls = lines(text@);
    let mut user: u128 = 0;
    let mut system: u128 = 0;
    let mut i: usize = 0;
    proof {
        assert(ls.skip(0) =~= ls);
    }
    while i < spans.len()
        invariant
            i <= spans.len(),
            s@ == text@,
            all_fit(spans@, s@.len()),
            ls == pieces(s@, spans@),
            user <= i * 0xffff_ffff_ffff_ffff,
            system <= i * 0xffff_ffff_ffff_ffff,
            cpu_from(lines(text@), 0, 0) == cpu_from(ls.skip(i as int), user as int, system as int),
        decreases spans.len() - i,
    {
        let line = spans[i];
        proof {
            assert(ls.skip(i as int).skip(1) =~= ls.skip(i + 1));
        }
        if has_label(s.as_slice(), line, Field::GlobalUtime, &table) {
            match read_cpu_line(s.as_slice(), line, &table) {
                Ok(t) => {
                    user = user + t.user as u128;
                    system = system + t.system as u128;
                },
                Err(e) => {
                    return Err(e);
                },
            }
        }
        i = i + 1;
    }
    if user > u64::MAX as u128 {
        Err(TraceError::Overflow(Field::GlobalUtime))
    } else if system > u64::MAX as u128 {
        Err(TraceError::Overflow(Field::GlobalStime))
    } else {
        Ok(CpuTimes { user: user as u64, system: system as u64 })
    }
}

/// Reads the stat text of a thread: its fault counts and CPU times.
pub fn parse_stat_counters(text: &str) -> (r: Result<StatCounters, TraceError>)
    ensures
        r == stat_counters(text@),
{
    let s = chars_of(text);
    assert(s@.subrange(0, s@.len() as int) =~= s@);
    let spans = field_spans(s.as_slice(), 0, s.len());
    if spans.len() > STIME_INDEX {
        let minflt = match read_u64_at(s.as_slice(), &spans, MINFLT_INDEX, Field::Minflt) {
            Ok(v) => v,
            Err(e) => {
                return Err(e);
            },
        };
        let majflt = match read_u64_at(s.as_slice(), &spans, MAJFLT_INDEX, Field::Majflt) {
            Ok(v) => v,
            Err(e) => {
                return Err(e);
            },
        };
        let utime = match read_u64_at(s.as_slice(), &spans, UTIME_INDEX, Field::Utime) {
            Ok(v) => v,
            Err(e) => {
                return Err(e);
            },
        };
        let stime = match read_u64_at(s.as_slice(), &spans, STIME_INDEX, Field::Stime) {
            Ok(v) => v,
            Err(e) => {
                return Err(e);
            },
        };
        Ok(StatCounters { minflt, majflt, utime, stime })
    } else {
        Ok(StatCounters { minflt: 0, majflt: 0, utime: 0, stime: 0 })
    }
}

/// Reads the stat text of a process: priority, nice value, number of
/// threads and start time.
pub fn parse_process_attributes(text: &str) -> (r: Result<ProcessAttributes, TraceError>)
    ensures
        r == process_attributes(text@),
{
    let s = chars_of(text);
    assert(s@.subrange(0, s@.len() as int) =~= s@);
    let spans = field_spans(s.as_slice(), 0, s.len());
    if spans.len() > STIME_INDEX {
        let priority = match read_i64_at(s.as_slice(), &spans, PRIORITY_INDEX, Field::Priority) {
            Ok(v) => v,
            Err(e) => {
                return Err(e);
            },
        };
        let nice = match read_i64_at(s.as_slice(), &spans, NICE_INDEX, Field::Nice) {
            Ok(v) => v,
            Err(e) => {
                return Err(e);
            },
        };
        let num_threads = match read_i64_at(
            s.as_slice(),
            &spans,
            NUM_THREADS_INDEX,
            Field::NumThreads,
        ) {
            Ok(v) => v,
            Err(e) => {
                return Err(e);
            },
        };
        let start_time = match read_i64_at(
            s.as_slice(),
            &spans,
            START_TIME_INDEX,
            Field::StartTime,
        ) {
            Ok(v) => v,
            Err(e) => {
                return Err(e);
            },
        };
        Ok(ProcessAttributes { priority, nice, num_threads, start_time })
    } else {
        Ok(ProcessAttributes { priority: 0, nice: 0, num_threads: 0, start_time: 0 })
    }
}

} // verus!
