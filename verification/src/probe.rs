//! One probe of one target: the command that makes it, and what its end
//! means for the statistics.
//!
//! The probe itself is a process that the caller starts and waits for, for
//! no longer than [`PING_TIMEOUT_MS`]. A probe counts as a success when its
//! process ended by itself, in time, with a success status; only such a
//! probe can carry a latency, read from what the process printed.

use vstd::prelude::*;
use vstd::string::*;
use crate::latency::{first_reading, parse_time};
use crate::text::{append_decimal, decimal, views_of};

verus! {

/// The longest that one probe may take, in milliseconds.
pub const PING_TIMEOUT_MS: u64 = 1900;

/// The kinds of `ping` program, by the way they take their timeout.
#[derive(Clone, Copy, Debug, PartialEq, Eq, Structural)]
pub enum Platform {
    /// `-n <count> -w <milliseconds>`.
    Windows,
    /// `-c <count> -W <milliseconds>`.
    MacOs,
    /// `-c <count> -W <seconds>`.
    Other,
}

/// A program and its arguments.
#[derive(Debug)]
pub struct ProbeCommand {
    pub program: String,
    pub args: Vec<String>,
}

/// How the process of a probe ended.
#[derive(Debug)]
pub enum ProbeOutcome {
    /// The process could not be started.
    SpawnFailed,
    /// Waiting for the process failed.
    WaitFailed,
    /// The process was still running at the timeout and was stopped.
    TimedOut,
    /// The process ended, and what it printed could not be collected.
    OutputFailed,
    /// The process ended by itself, with a success status or not, and
    /// printed `stdout`.
    Exited { success: bool, stdout: Vec<u8> },
}

/// `ms` milliseconds in whole seconds, rounded up, and at least one.
pub open spec fn whole_seconds(ms: nat) -> nat {
    let up = (ms + 999) / 1000;
    if up < 1 {
        1
    } else {
        up
    }
}

/// The arguments of `ping` for one probe of `target` on `platform`.
pub open spec fn ping_args(platform: Platform, target: Seq<char>) -> Seq<Seq<char>> {
    match platform {
        Platform::Windows => seq![
            "-n"@,
            "1"@,
            "-w"@,
            decimal(PING_TIMEOUT_MS as nat),
            target,
        ],
        Platform::MacOs => seq![
            "-c"@,
            "1"@,
            "-W"@,
            decimal(PING_TIMEOUT_MS as nat),
            target,
        ],
        Platform::Other => seq![
            "-c"@,
            "1"@,
            "-W"@,
            decimal(whole_seconds(PING_TIMEOUT_MS as nat)),
            target,
        ],
    }
}

/// What a probe that ended as `outcome` means: whether it succeeded, and
/// the latency in microseconds that it reported.
pub open spec fn reading_of(outcome: ProbeOutcome) -> (bool, Option<u64>) {
    match outcome {
        ProbeOutcome::Exited { success, stdout } => if success {
            (true, first_reading(stdout@))
        } else {
            (false, None)
        },
        _ => (false, None),
    }
}

/// `ms` milliseconds in whole seconds, rounded up, and at least one.
pub fn timeout_seconds(ms: u64) -> (secs: u64)
    ensures
        secs == whole_seconds(ms as nat),
{
    let up: u64 = ms / 1000 + if ms % 1000 == 0 {
        0
    } else {
        1
    };
    if up < 1 {
        1
    } else {
        up
    }
}

/// `n` in base ten.
fn number_text(n: u64) -> (text: String)
    ensures
        text@ == decimal(n as nat),
{
    let mut text = String::new();
    append_decimal(&mut text, n);
    assert(text@ =~= decimal(n as nat));
    text
}

/// The command for one probe of `target`.
///
/// With a stand-in program `mock`, that program with the target as its one
/// argument; else `ping` with one echo request and the timeout in the unit
/// that `platform` takes.
pub fn probe_command(mock: Option<String>, platform: Platform, target: &str) -> (command:
    ProbeCommand)
    ensures
        match mock {
            Some(program) => command.program@ == program@ && views_of(command.args@) == seq![
                target@,
            ],
            None => command.program@ == "ping"@ && views_of(command.args@) == ping_args(
                platform,
                target@,
            ),
        },
{
    let mut args: Vec<String> = Vec::new();
    match mock {
        Some(program) => {
            args.push(target.to_owned());
            assert(views_of(args@) =~= seq![target@]);
            ProbeCommand { program, args }
        },
        None => {
            match platform {
                Platform::Windows => {
                    args.push("-n".to_owned());
                    args.push("1".to_owned());
                    args.push("-w".to_owned());
                    args.push(number_text(PING_TIMEOUT_MS));
                },
                Platform::MacOs => {
                    args.push("-c".to_owned());
                    args.push("1".to_owned());
                    args.push("-W".to_owned());
                    args.push(number_text(PING_TIMEOUT_MS));
                },
                Platform::Other => {
                    args.push("-c".to_owned());
                    args.push("1".to_owned());
                    args.push("-W".to_owned());
                    args.push(number_text(timeout_seconds(PING_TIMEOUT_MS)));
                },
            }
            args.push(target.to_owned());
            assert(views_of(args@) =~= ping_args(platform, target@));
            ProbeCommand { program: "ping".to_owned(), args }
        },
    }
}

/// What a probe that ended as `outcome` means for the statistics.
///
/// Only a process that ended by itself with a success status is a success,
/// and only a success carries a latency: the one its output reports, if it
/// reports one. A timeout, a failed start, a failed wait and a lost output
/// are failures without a latency.
pub fn probe_reading(outcome: &ProbeOutcome) -> (reading: (bool, Option<u64>))
    ensures
        reading == reading_of(*outcome),
        !(*outcome is Exited) ==> reading == (false, None::<u64>),
{
    match outcome {
        ProbeOutcome::Exited { success, stdout } => {
            if *success {
                (true, parse_time(stdout.as_slice()))
            } else {
                (false, None)
            }
        },
        _ => (false, None),
    }
}

} // verus!
