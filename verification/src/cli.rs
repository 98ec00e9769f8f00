//! What the command line must satisfy.
//!
//! Durations are real numbers of seconds; they travel as the bit patterns of
//! IEEE 754 doubles.

use vstd::prelude::*;

verus! {

/// Options of `unpair`.
#[derive(Clone, Debug)]
pub struct UnpairArgs {
    /// Only remove these Bluetooth addresses; all where empty.
    pub address: Vec<String>,
    /// List matching Siri Remotes but do not remove them.
    pub dry_run: bool,
}

/// Whether a double with this bit pattern is below zero: its sign is set, and
/// it is neither zero nor no number.
pub open spec fn is_negative(bits: u64) -> bool {
    0x8000_0000_0000_0000 < bits <= 0xFFF0_0000_0000_0000
}

/// The complaint about a negative duration.
pub open spec fn negative_text(flag: Seq<char>) -> Seq<char> {
    "--"@ + flag + " must be non-negative"@
}

fn check_duration(flag: &str, bits: u64) -> (r: Result<(), String>)
    ensures
        match r {
            Ok(()) => !is_negative(bits),
            Err(message) => is_negative(bits) && message@ == negative_text(flag@),
        },
{
    if 0x8000_0000_0000_0000 < bits && bits <= 0xFFF0_0000_0000_0000 {
        let mut message = "--".to_owned();
        message.append(flag);
        message.append(" must be non-negative");
        return Err(message);
    }
    Ok(())
}

/// Check two durations; the first complaint counts.
fn check_two(first_flag: &str, first: u64, second_flag: &str, second: u64) -> (r: Result<
    (),
    String,
>)
    ensures
        match r {
            Ok(()) => !is_negative(first) && !is_negative(second),
            Err(message) => message@ == if is_negative(first) {
                negative_text(first_flag@)
            } else {
                negative_text(second_flag@)
            } && (is_negative(first) || is_negative(second)),
        },
{
    match check_duration(first_flag, first) {
        Ok(()) => check_duration(second_flag, second),
        Err(message) => Err(message),
    }
}

/// Check the durations of a command that keeps a link.
pub fn check_link_args(scan_seconds: u64, reconnect_delay: u64) -> (r: Result<(), String>)
    ensures
        match r {
            Ok(()) => !is_negative(scan_seconds) && !is_negative(reconnect_delay),
            Err(message) => message@ == if is_negative(scan_seconds) {
                negative_text("scan-seconds"@)
            } else {
                negative_text("reconnect-delay"@)
            } && (is_negative(scan_seconds) || is_negative(reconnect_delay)),
        },
{
    check_two("scan-seconds", scan_seconds, "reconnect-delay", reconnect_delay)
}

/// Check the durations of `pair`.
pub fn check_pair_args(scan_seconds: u64, hold_seconds: u64) -> (r: Result<(), String>)
    ensures
        match r {
            Ok(()) => !is_negative(scan_seconds) && !is_negative(hold_seconds),
            Err(message) => message@ == if is_negative(scan_seconds) {
                negative_text("scan-seconds"@)
            } else {
                negative_text("hold-seconds"@)
            } && (is_negative(scan_seconds) || is_negative(hold_seconds)),
        },
{
    check_two("scan-seconds", scan_seconds, "hold-seconds", hold_seconds)
}

/// Check the options of `mic`: the durations, and that the node has a name.
pub fn check_mic_args(scan_seconds: u64, reconnect_delay: u64, node_name: &str) -> (r: Result<
    (),
    String,
>)
    ensures
        match r {
            Ok(()) => !is_negative(scan_seconds) && !is_negative(reconnect_delay)
                && node_name@.len() > 0,
            Err(message) => if is_negative(scan_seconds) {
                message@ == negative_text("scan-seconds"@)
            } else if is_negative(reconnect_delay) {
                message@ == negative_text("reconnect-delay"@)
            } else {
                node_name@.len() == 0 && message@ == "--node-name must be non-empty"@
            },
        },
{
    match check_link_args(scan_seconds, reconnect_delay) {
        Ok(()) => {
            if node_name.is_empty() {
                Err("--node-name must be non-empty".to_owned())
            } else {
                Ok(())
            }
        },
        Err(message) => Err(message),
    }
}

// -- Laws ---------------------------------------------------------------------

/// A duration is negative where its sign bit is set and it is neither zero nor
/// no number at all.
pub proof fn law_negative_durations(bits: u64)
    ensures
        is_negative(bits) <==> bits / 0x8000_0000_0000_0000 == 1 && bits % 0x8000_0000_0000_0000
            != 0 && bits % 0x8000_0000_0000_0000 <= 0x7FF0_0000_0000_0000,
        negative_text("scan-seconds"@) == "--"@ + "scan-seconds"@ + " must be non-negative"@,
{
}

} // verus!
