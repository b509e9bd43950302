//! Where the texts of a process are found, and where its report goes.

use crate::number::{int_text, push_int};
use vstd::prelude::*;
use vstd::string::StringExecFns;

verus! {

/// The path of the host's CPU accounting.
pub open spec fn global_stat_text() -> Seq<char> {
    "/proc/stat"@
}

/// The path of the stat record of the process `pid`.
pub open spec fn process_stat_text(pid: int) -> Seq<char> {
    "/proc/"@ + int_text(pid) + "/stat"@
}

/// The path of the status text of the process `pid`.
pub open spec fn process_status_text(pid: int) -> Seq<char> {
    "/proc/"@ + int_text(pid) + "/status"@
}

/// The path of the memory map summary of the process `pid`.
pub open spec fn smaps_text(pid: int) -> Seq<char> {
    "/proc/"@ + int_text(pid) + "/smaps"@
}

/// The path of the directory that lists the threads of the process `pid`.
pub open spec fn task_dir_text(pid: int) -> Seq<char> {
    "/proc/"@ + int_text(pid) + "/task"@
}

/// The path of the status text of the thread `tid` of the process `pid`.
pub open spec fn thread_status_text(pid: int, tid: Seq<char>) -> Seq<char> {
    "/proc/"@ + int_text(pid) + "/task/"@ + tid + "/status"@
}

/// The path of the stat record of the thread `tid` of the process `pid`.
pub open spec fn thread_stat_text(pid: int, tid: Seq<char>) -> Seq<char> {
    "/proc/"@ + int_text(pid) + "/task/"@ + tid + "/stat"@
}

/// The name of the report file of the process called `name`.
pub open spec fn report_file_text(name: Seq<char>) -> Seq<char> {
    "resource_trace_"@ + name + ".csv"@
}

/// The text "/proc/", the process id, and `tail`.
fn process_path(pid: i32, tail: &str) -> (path: String)
    ensures
        path@ == "/proc/"@ + int_text(pid as int) + tail@,
{
    let mut path = String::from_str("/proc/");
    push_int(&mut path, pid as i128);
    path.append(tail);
    path
}

/// The text "/proc/", the process id, "/task/", the thread id, and `tail`.
fn thread_path(pid: i32, tid: &str, tail: &str) -> (path: String)
    ensures
        path@ == "/proc/"@ + int_text(pid as int) + "/task/"@ + tid@ + tail@,
{
    let mut path = process_path(pid, "/task/");
    path.append(tid);
    path.append(tail);
    path
}

/// The path of the host's CPU accounting.
pub fn global_stat_path() -> (path: String)
    ensures
        path@ == global_stat_text(),
{
    String::from_str("/proc/stat")
}

/// The path of the stat record of the process `pid`.
pub fn process_stat_path(pid: i32) -> (path: String)
    ensures
        path@ == process_stat_text(pid as int),
{
    process_path(pid, "/stat")
}

/// The path of the status text of the process `pid`.
pub fn process_status_path(pid: i32) -> (path: String)
    ensures
        path@ == process_status_text(pid as int),
{
    process_path(pid, "/status")
}

/// The path of the memory map summary of the process `pid`.
pub fn smaps_path(pid: i32) -> (path: String)
    ensures
        path@ == smaps_text(pid as int),
{
    process_path(pid, "/smaps")
}

/// The path of the directory that lists the threads of the process `pid`.
pub fn task_dir_path(pid: i32) -> (path: String)
    ensures
        path@ == task_dir_text(pid as int),
{
    process_path(pid, "/task")
}

/// The path of the status text of the thread `tid` of the process `pid`.
pub fn thread_status_path(pid: i32, tid: &str) -> (path: String)
    ensures
        path@ == thread_status_text(pid as int, tid@),
{
    thread_path(pid, tid, "/status")
}

/// The path of the stat record of the thread `tid` of the process `pid`.
pub fn thread_stat_path(pid: i32, tid: &str) -> (path: String)
    ensures
        path@ == thread_stat_text(pid as int, tid@),
{
    thread_path(pid, tid, "/stat")
}

/// The name of the report file of the process called `name`.
pub fn report_file_name(name: &str) -> (file: String)
    ensures
        file@ == report_file_text(name@),
{
    let mut file = String::from_str("resource_trace_");
    file.append(name);
    file.append(".csv");
    file
}

} // verus!
