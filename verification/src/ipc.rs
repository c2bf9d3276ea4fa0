//! The single-open guard and file requests between cheat-sheet processes.
//!
//! COSMIC may run several applet instances (one per panel/output). Protocol:
//! - `*.open` marker: PID of the process that currently owns the sheet
//! - `*.request.open`: one-shot; the first applet to claim opens (with marker)
//! - `*.request.close`: sticky; every applet with an open sheet closes
//!
//! The application reads and writes the files and probes processes; the
//! rules deciding what the observations mean stand here.

use vstd::prelude::*;
use vstd::string::*;

use crate::text::{contains, contains_seq, parse_u32, parse_u32_spec, replace, replace_spec, trim, trim_spec};

verus! {

/// The directory the request files live in: `$XDG_RUNTIME_DIR`, else `/tmp`.
pub open spec fn runtime_dir_spec(xdg: Option<Seq<char>>) -> Seq<char> {
    match xdg {
        Some(d) => d,
        None => "/tmp"@,
    }
}

pub fn runtime_dir(xdg: Option<&str>) -> (r: String)
    ensures
        r@ == runtime_dir_spec(
            match xdg {
                Some(d) => Some(d@),
                None => None,
            },
        ),
{
    match xdg {
        Some(d) => String::from_str(d),
        None => String::from_str("/tmp"),
    }
}

/// A relative file name joined onto a directory (`Path::join`): a `/` is
/// put between them unless the directory is empty or already ends in one.
pub open spec fn join_path_spec(dir: Seq<char>, name: Seq<char>) -> Seq<char> {
    if dir.len() == 0 {
        name
    } else if dir.last() == '/' {
        dir + name
    } else {
        dir + "/"@ + name
    }
}

fn join_path(dir: &str, name: &str) -> (r: String)
    ensures
        r@ == join_path_spec(dir@, name@),
{
    let n = dir.unicode_len();
    if n == 0 {
        return String::from_str(name);
    }
    let mut s = String::from_str(dir);
    if dir.get_char(n - 1) != '/' {
        s.append("/");
    }
    s.append(name);
    s
}

/// Where a panel applet records its PID.
pub fn applet_pid_path(dir: &str) -> (r: String)
    ensures
        r@ == join_path_spec(dir@, "cosmic-ext-cheatsheet-applet.pid"@),
{
    join_path(dir, "cosmic-ext-cheatsheet-applet.pid")
}

/// The one-shot open request.
pub fn open_request_path(dir: &str) -> (r: String)
    ensures
        r@ == join_path_spec(dir@, "cosmic-ext-cheatsheet.request.open"@),
{
    join_path(dir, "cosmic-ext-cheatsheet.request.open")
}

/// The sticky close request.
pub fn close_request_path(dir: &str) -> (r: String)
    ensures
        r@ == join_path_spec(dir@, "cosmic-ext-cheatsheet.request.close"@),
{
    join_path(dir, "cosmic-ext-cheatsheet.request.close")
}

/// The marker naming the process that owns the open sheet.
pub fn open_marker_path(dir: &str) -> (r: String)
    ensures
        r@ == join_path_spec(dir@, "cosmic-ext-cheatsheet.open"@),
{
    join_path(dir, "cosmic-ext-cheatsheet.open")
}

/// The PID a PID file holds: its trimmed text as a `u32`.
pub open spec fn parse_pid_spec(text: Seq<char>) -> Option<u32> {
    parse_u32_spec(trim_spec(text))
}

pub fn parse_pid(text: &str) -> (r: Option<u32>)
    ensures
        r == parse_pid_spec(text@),
{
    parse_u32(trim(text))
}

/// Whether a PID file names the given process.
pub fn names_pid(text: &str, pid: u32) -> (r: bool)
    ensures
        r == (parse_pid_spec(text@) == Some(pid)),
{
    match parse_pid(text) {
        Some(p) => p == pid,
        None => false,
    }
}

/// A process command line as text: the NUL separators become spaces.
pub open spec fn cmdline_spec(raw: Seq<char>) -> Seq<char> {
    replace_spec(raw, "\0"@, " "@)
}

pub fn cmdline(raw: &str) -> (r: String)
    ensures
        r@ == cmdline_spec(raw@),
{
    proof {
        reveal_strlit("\0");
    }
    replace(raw, "\0", " ")
}

pub open spec fn mentions_binary(cmd: Seq<char>) -> bool {
    contains_seq(cmd, "cosmic-ext-applet-cheatsheet"@)
}

pub open spec fn mentions_window_flag(cmd: Seq<char>) -> bool {
    contains_seq(cmd, "--window"@)
}

pub open spec fn opt_text(o: Option<&str>) -> Option<Seq<char>> {
    match o {
        Some(s) => Some(s@),
        None => None,
    }
}

/// A command line (if it could be read) is one of this program's processes.
pub fn is_our_binary(cmd: Option<&str>) -> (r: bool)
    ensures
        r == (opt_text(cmd) is Some && mentions_binary(opt_text(cmd).unwrap())),
{
    match cmd {
        Some(c) => contains(c, "cosmic-ext-applet-cheatsheet"),
        None => false,
    }
}

/// ... and a panel applet (not a standalone `--window` sheet).
pub fn is_our_applet(cmd: Option<&str>) -> (r: bool)
    ensures
        r == (opt_text(cmd) is Some && mentions_binary(opt_text(cmd).unwrap())
            && !mentions_window_flag(opt_text(cmd).unwrap())),
{
    match cmd {
        Some(c) => contains(c, "cosmic-ext-applet-cheatsheet") && !contains(c, "--window"),
        None => false,
    }
}

/// ... and a standalone `--window` sheet.
pub fn is_our_window(cmd: Option<&str>) -> (r: bool)
    ensures
        r == (opt_text(cmd) is Some && mentions_binary(opt_text(cmd).unwrap())
            && mentions_window_flag(opt_text(cmd).unwrap())),
{
    match cmd {
        Some(c) => contains(c, "cosmic-ext-applet-cheatsheet") && contains(c, "--window"),
        None => false,
    }
}

/// What was found out about the process a PID file names.
pub struct ProcessProbe {
    pub pid: u32,
    /// `/proc/<pid>` exists.
    pub alive: bool,
    /// Its command line, when it could be read.
    pub cmdline: Option<String>,
}

pub open spec fn probe_cmd(p: ProcessProbe) -> Option<Seq<char>> {
    match p.cmdline {
        Some(c) => Some(c@),
        None => None,
    }
}

/// The process is alive and one of this program's.
pub open spec fn live_ours(p: ProcessProbe) -> bool {
    p.alive && probe_cmd(p) is Some && mentions_binary(probe_cmd(p).unwrap())
}

fn probe_cmd_str(p: &ProcessProbe) -> (r: Option<&str>)
    ensures
        opt_text(r) == probe_cmd(*p),
{
    match &p.cmdline {
        Some(c) => Some(c.as_str()),
        None => None,
    }
}

/// The owner of the open sheet: the marker's process when it is alive and
/// ours (otherwise the marker is stale and is to be removed).
pub fn open_owner(marker: Option<&ProcessProbe>) -> (r: Option<u32>)
    ensures
        r == match marker {
            Some(p) => if live_ours(*p) {
                Some(p.pid)
            } else {
                None
            },
            None => None,
        },
{
    match marker {
        Some(p) => {
            if p.alive && is_our_binary(probe_cmd_str(p)) {
                Some(p.pid)
            } else {
                None
            }
        },
        None => None,
    }
}

/// True when a live process of ours owns the sheet marker.
pub fn open_marker_alive(marker: Option<&ProcessProbe>) -> (r: bool)
    ensures
        r == (marker is Some && live_ours(*marker.unwrap())),
{
    match open_owner(marker) {
        Some(_) => true,
        None => false,
    }
}

/// A registered panel applet is live: its process is alive and is an
/// applet of ours (otherwise the registration is stale and is removed).
pub fn applet_is_registered(registered: Option<&ProcessProbe>) -> (r: bool)
    ensures
        r == match registered {
            Some(p) => p.alive && probe_cmd(*p) is Some && mentions_binary(probe_cmd(*p).unwrap())
                && !mentions_window_flag(probe_cmd(*p).unwrap()),
            None => false,
        },
{
    match registered {
        Some(p) => p.alive && is_our_applet(probe_cmd_str(p)),
        None => false,
    }
}

/// Is anything showing? The marker's owner, or a standalone sheet.
pub fn anything_open(marker_alive: bool, windowed_running: bool) -> (r: bool)
    ensures
        r == (marker_alive || windowed_running),
{
    marker_alive || windowed_running
}

/// A `/proc` entry naming another process: its PID.
pub fn proc_entry_pid(name: &str, self_pid: u32) -> (r: Option<u32>)
    ensures
        r == match parse_u32_spec(name@) {
            Some(p) => if p == self_pid {
                None
            } else {
                Some(p)
            },
            None => None,
        },
{
    match parse_u32(name) {
        Some(p) => {
            if p == self_pid {
                None
            } else {
                Some(p)
            }
        },
        None => None,
    }
}

/// The first step of claiming the sheet, given the marker's live owner.
pub enum ClaimStep {
    /// Decided without touching the marker: claimed or refused.
    Decided(bool),
    /// No live owner: remove any stale marker and create a new one.
    Create,
}

/// The first claiming step for a process, given the marker's live owner.
pub open spec fn claim_decision(owner: Option<u32>, self_pid: u32) -> ClaimStep {
    match owner {
        Some(o) => ClaimStep::Decided(o == self_pid),
        None => ClaimStep::Create,
    }
}

/// Claiming the sheet: a live owner decides (we hold it only if we are the
/// owner); without one, the marker is created anew.
pub fn claim_step(owner: Option<u32>, self_pid: u32) -> (r: ClaimStep)
    ensures
        r == claim_decision(owner, self_pid),
{
    match owner {
        Some(o) => ClaimStep::Decided(o == self_pid),
        None => ClaimStep::Create,
    }
}

/// After a lost race to create the marker: claimed only if we own it now.
pub fn claimed_after_race(owner: Option<u32>, self_pid: u32) -> (r: bool)
    ensures
        r == (owner == Some(self_pid)),
{
    match owner {
        Some(o) => o == self_pid,
        None => false,
    }
}

/// Releasing the marker removes it when it names us, or when no live
/// process owns it.
pub fn release_removes(marker_text: &str, self_pid: u32, owner: Option<u32>) -> (r: bool)
    ensures
        r == (parse_pid_spec(marker_text@) == Some(self_pid) || owner is None),
{
    names_pid(marker_text, self_pid) || owner.is_none()
}

} // verus!
