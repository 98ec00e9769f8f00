//! Removing bonded remotes: which, with what words, and how the command ends.

use vstd::prelude::*;

use crate::bluez::device::{address_key, shown_name, wanted_keys, RemoteDevice, RemoteView};
use crate::cli::UnpairArgs;
use crate::text::{debug_quoted, debug_text, join, join_text, texts, trim_text};

verus! {

/// A word that is listed where a flag is set.
pub open spec fn word_if(flag: bool, word: Seq<char>) -> Seq<Seq<char>> {
    if flag {
        seq![word]
    } else {
        seq![]
    }
}

/// What the daemon says of its relation to a device.
pub open spec fn state_words(device: RemoteView) -> Seq<Seq<char>> {
    word_if(device.paired, "paired"@) + word_if(device.bonded, "bonded"@) + word_if(
        device.trusted,
        "trusted"@,
    )
}

/// The line of a matched device.
pub open spec fn remote_text(device: RemoteView) -> Seq<char> {
    device.address + " "@ + debug_quoted(shown_name(device)) + " ["@ + (if state_words(device).len()
        == 0 {
        "known"@
    } else {
        join(state_words(device), "/"@)
    }) + "] path="@ + device.path + " match="@ + join(device.reasons, ", "@)
}

/// Describe a matched device.
pub fn format_remote(device: &RemoteDevice) -> (line: String)
    ensures
        line@ == remote_text(device@),
{
    let mut states: Vec<String> = Vec::new();
    if device.paired {
        states.push("paired".to_owned());
    }
    if device.bonded {
        states.push("bonded".to_owned());
    }
    if device.trusted {
        states.push("trusted".to_owned());
    }
    assert(texts(states@) =~= state_words(device@));
    let mut line = device.address.clone();
    line.append(" ");
    line.append(debug_text(device.display_name().as_str()).as_str());
    line.append(" [");
    if states.len() == 0 {
        line.append("known");
    } else {
        line.append(join_text(&states, "/").as_str());
    }
    line.append("] path=");
    line.append(device.path.as_str());
    line.append(" match=");
    line.append(join_text(&device.reasons, ", ").as_str());
    line
}

/// The addresses that the user named, in the form in which they are compared;
/// `None` where all remotes are meant.
pub fn wanted_addresses(args: &UnpairArgs) -> (wanted: Option<Vec<String>>)
    ensures
        match wanted {
            Some(w) => args.address@.len() > 0 && texts(w@) == wanted_keys(args.address@),
            None => args.address@.len() == 0,
        },
{
    if args.address.len() == 0 {
        return None;
    }
    let mut out: Vec<String> = Vec::new();
    let mut i: usize = 0;
    while i < args.address.len()
        invariant
            i <= args.address.len(),
            out@.len() == i,
            forall|j: int| 0 <= j < i ==> (#[trigger] out@[j])@ == address_key(args.address@[j]@),
        decreases args.address.len() - i,
    {
        out.push(trim_text(args.address[i].as_str()).as_str().to_uppercase());
        i = i + 1;
    }
    assert(texts(out@) =~= wanted_keys(args.address@));
    Some(out)
}

/// What to do about the remotes that were found: print lines, and go on to
/// remove them or not.
pub struct UnpairPlan {
    pub lines: Vec<String>,
    pub remove: bool,
}

/// The lines that list the first `n` devices.
pub open spec fn listing(remotes: Seq<RemoteDevice>, n: int) -> Seq<Seq<char>>
    decreases n,
{
    if n <= 0 {
        seq!["Matched Siri Remote device(s):"@]
    } else {
        listing(remotes, n - 1).push("  "@ + remote_text(remotes[n - 1]@))
    }
}

/// Decide about the remotes that were found.
pub fn unpair_plan(args: &UnpairArgs, remotes: &Vec<RemoteDevice>) -> (plan: UnpairPlan)
    ensures
        plan.remove == (remotes@.len() > 0 && !args.dry_run),
        texts(plan.lines@) == if remotes@.len() == 0 {
            seq![
                if args.address@.len() > 0 {
                    "No paired/bonded Siri Remote matching requested address found."@
                } else {
                    "No paired/bonded Siri Remote found."@
                },
            ]
        } else if args.dry_run {
            listing(remotes@, remotes@.len() as int).push("Dry run: no devices removed."@)
        } else {
            listing(remotes@, remotes@.len() as int)
        },
{
    let mut lines: Vec<String> = Vec::new();
    if remotes.len() == 0 {
        if args.address.len() > 0 {
            lines.push("No paired/bonded Siri Remote matching requested address found.".to_owned());
        } else {
            lines.push("No paired/bonded Siri Remote found.".to_owned());
        }
        assert(texts(lines@) =~= seq![lines@[0]@]);
        return UnpairPlan { lines, remove: false };
    }
    lines.push("Matched Siri Remote device(s):".to_owned());
    assert(texts(lines@) =~= listing(remotes@, 0));
    let mut i: usize = 0;
    while i < remotes.len()
        invariant
            i <= remotes.len(),
            texts(lines@) == listing(remotes@, i as int),
        decreases remotes.len() - i,
    {
        let mut line = "  ".to_owned();
        line.append(format_remote(&remotes[i]).as_str());
        let ghost before = lines@;
        let ghost added = line@;
        lines.push(line);
        assert(texts(lines@) =~= texts(before).push(added));
        i = i + 1;
    }
    if args.dry_run {
        let ghost before = lines@;
        lines.push("Dry run: no devices removed.".to_owned());
        assert(texts(lines@) =~= texts(before).push("Dry run: no devices removed."@));
        return UnpairPlan { lines, remove: false };
    }
    UnpairPlan { lines, remove: true }
}

/// Report one removal. A failure carries the daemon's words.
pub fn removal_line(device: &RemoteDevice, failure: &Option<String>) -> (line: String)
    ensures
        line@ == match failure {
            None => "Unpaired "@ + device@.address + " "@ + debug_quoted(shown_name(device@))
                + "."@,
            Some(e) => "Failed to unpair "@ + device@.address + " "@ + debug_quoted(
                shown_name(device@),
            ) + ": "@ + e@,
        },
{
    let shown = debug_text(device.display_name().as_str());
    match failure {
        None => {
            let mut line = "Unpaired ".to_owned();
            line.append(device.address.as_str());
            line.append(" ");
            line.append(shown.as_str());
            line.append(".");
            line
        },
        Some(e) => {
            let mut line = "Failed to unpair ".to_owned();
            line.append(device.address.as_str());
            line.append(" ");
            line.append(shown.as_str());
            line.append(": ");
            line.append(e.as_str());
            line
        },
    }
}

/// How the command ends: with code 2 if any removal failed.
pub fn exit_code(failures: &Vec<Option<String>>) -> (code: u8)
    ensures
        code == if exists|i: int| 0 <= i < failures@.len() && (#[trigger] failures@[i]) is Some {
            2u8
        } else {
            0u8
        },
{
    let mut i: usize = 0;
    while i < failures.len()
        invariant
            i <= failures.len(),
            forall|j: int| 0 <= j < i ==> (#[trigger] failures@[j]) is None,
        decreases failures.len() - i,
    {
        if failures[i].is_some() {
            return 2;
        }
        i = i + 1;
    }
    0
}

// -- Laws ---------------------------------------------------------------------

/// The line of a device: its address and name, what is known of its bond, its
/// path and the reasons it was matched for.
pub proof fn law_device_line(device: RemoteView)
    ensures
        state_words(device) == word_if(device.paired, "paired"@) + word_if(
            device.bonded,
            "bonded"@,
        ) + word_if(device.trusted, "trusted"@),
        !device.paired && !device.bonded && !device.trusted ==> remote_text(device)
            == device.address + " "@ + debug_quoted(shown_name(device)) + " ["@ + "known"@
            + "] path="@ + device.path + " match="@ + join(device.reasons, ", "@),
        device.paired || device.bonded || device.trusted ==> remote_text(device) == device.address
            + " "@ + debug_quoted(shown_name(device)) + " ["@ + join(state_words(device), "/"@)
            + "] path="@ + device.path + " match="@ + join(device.reasons, ", "@),
{
}

/// The listing has a heading and one line per device, in order.
pub proof fn law_listing_lines(remotes: Seq<RemoteDevice>, n: int)
    requires
        0 <= n < remotes.len(),
    ensures
        listing(remotes, 0) == seq!["Matched Siri Remote device(s):"@],
        listing(remotes, n + 1) == listing(remotes, n).push("  "@ + remote_text(remotes[n]@)),
{
}

} // verus!
