//! Bonding a remote: what each step leads to, and the words for it.

use vstd::prelude::*;

use crate::bluez::device::{device_path_from_address, has_address, DeviceObject};
use crate::events::{describe_properties, property_names, CharacteristicInfo, ServiceInfo};
use crate::hid::{uuid_form, uuid_text};
use crate::scan::ScanError;
use crate::text::{join, texts};

verus! {

/// How long the scan of `pair` may take in all: 60 s.
pub const OVERALL_SCAN_TIMEOUT: u64 = 60_000_000_000;

/// The words about a failed attempt to pair.
pub open spec fn retry_text(detail: Seq<char>) -> Seq<char> {
    "\nPair failed: "@ + detail
        + "\n\nThis is a known BlueZ flake with Apple HID peripherals. Once a pair\nattempt fails on Linux, BlueZ removes the device entry and the BLE\naddress has likely also rotated, so an in-process retry can't recover.\n\nTo recover:\n  1. Put the remote back in pairing mode (hold MENU + Volume Up ~5s).\n  2. Re-run: siri-remote pair\n\nIf this keeps happening, restart bluetoothd to clear any stuck\nsession state:  systemctl restart bluetooth"@
}

/// Explain a failed attempt to pair.
pub fn retry_message(detail: &str) -> (message: String)
    ensures
        message@ == retry_text(detail@),
{
    let mut message = "\nPair failed: ".to_owned();
    message.append(detail);
    message.append(
        "\n\nThis is a known BlueZ flake with Apple HID peripherals. Once a pair\nattempt fails on Linux, BlueZ removes the device entry and the BLE\naddress has likely also rotated, so an in-process retry can't recover.\n\nTo recover:\n  1. Put the remote back in pairing mode (hold MENU + Volume Up ~5s).\n  2. Re-run: siri-remote pair\n\nIf this keeps happening, restart bluetoothd to clear any stuck\nsession state:  systemctl restart bluetooth",
    );
    message
}

/// How `pair` ends when its scan found nothing: with a code and words, or with
/// the error itself.
pub fn scan_failure(err: ScanError) -> (exit: Result<(u8, String), String>)
    ensures
        match err {
            ScanError::Timeout => {
                &&& exit matches Ok((code, say))
                &&& code == 1
                &&& say@
                    == "Timed out waiting for a Siri Remote. Make sure it's in pairing mode (MENU + Volume Up held for ~5s) and within reach (RSSI >= -55)."@
            },
            ScanError::Other(e) => exit == Err::<(u8, String), String>(e),
        },
{
    match err {
        ScanError::Timeout => Ok(
            (
                1,
                "Timed out waiting for a Siri Remote. Make sure it's in pairing mode (MENU + Volume Up held for ~5s) and within reach (RSSI >= -55).".to_owned(),
            ),
        ),
        ScanError::Other(e) => Err(e),
    }
}

/// The object path of a remote after pairing: under its advertised address, or
/// else under its identity address, since BlueZ re-keys a device under its
/// resolved identity.
pub fn paired_path(objects: &Vec<DeviceObject>, advertised: &str, identity: &str) -> (path: Result<
    String,
    String,
>)
    ensures
        ({
            let known = exists|i: int|
                0 <= i < objects@.len() && has_address(#[trigger] objects@[i], advertised@);
            let address = if known {
                advertised@
            } else {
                identity@
            };
            match path {
                Ok(path) => exists|i: int|
                    #![trigger objects@[i]]
                    {
                        &&& 0 <= i < objects@.len()
                        &&& has_address(objects@[i], address)
                        &&& path@ == objects@[i].path@
                        &&& forall|j: int|
                            0 <= j < i ==> !has_address(#[trigger] objects@[j], address)
                    },
                Err(message) => {
                    &&& !known
                    &&& forall|i: int|
                        0 <= i < objects@.len() ==> !has_address(#[trigger] objects@[i], identity@)
                    &&& message@ == "could not find BlueZ device path for address "@ + identity@
                },
            }
        }),
{
    match device_path_from_address(objects, advertised) {
        Ok(path) => Ok(path),
        Err(_) => device_path_from_address(objects, identity),
    }
}

/// The words about a remote that paired but was not bonded.
pub fn not_bonded_message(identity: &str) -> (message: String)
    ensures
        message@ == retry_text(
            "connect+pair reported success but BlueZ does not list "@ + identity@ + " as bonded"@,
        ),
{
    let mut detail = "connect+pair reported success but BlueZ does not list ".to_owned();
    detail.append(identity);
    detail.append(" as bonded");
    retry_message(detail.as_str())
}

// -- The service tree ---------------------------------------------------------

/// The lines of the first `n` descriptors of a characteristic.
pub open spec fn descriptor_lines(descriptors: Seq<u128>, n: int) -> Seq<Seq<char>>
    decreases n,
{
    if n <= 0 {
        seq![]
    } else {
        descriptor_lines(descriptors, n - 1).push("    Desc  "@ + uuid_form(descriptors[n - 1]))
    }
}

/// The lines of the first `n` characteristics of a service.
pub open spec fn characteristic_lines(characteristics: Seq<CharacteristicInfo>, n: int) -> Seq<
    Seq<char>,
>
    decreases n,
{
    if n <= 0 {
        seq![]
    } else {
        let c = characteristics[n - 1];
        characteristic_lines(characteristics, n - 1).push(
            "  Char  "@ + uuid_form(c.uuid) + "  ["@ + join(property_names(c.properties), ","@)
                + "]"@,
        ) + descriptor_lines(c.descriptors@, c.descriptors@.len() as int)
    }
}

/// The lines of the first `n` services.
pub open spec fn service_lines(services: Seq<ServiceInfo>, n: int) -> Seq<Seq<char>>
    decreases n,
{
    if n <= 0 {
        seq![]
    } else {
        let s = services[n - 1];
        service_lines(services, n - 1).push("Service "@ + uuid_form(s.uuid))
            + characteristic_lines(s.characteristics@, s.characteristics@.len() as int)
    }
}

fn push_characteristic(lines: &mut Vec<String>, c: &CharacteristicInfo)
    ensures
        texts(final(lines)@) == texts(old(lines)@).push(
            "  Char  "@ + uuid_form(c.uuid) + "  ["@ + join(property_names(c.properties), ","@)
                + "]"@,
        ) + descriptor_lines(c.descriptors@, c.descriptors@.len() as int),
{
    let mut line = "  Char  ".to_owned();
    line.append(uuid_text(c.uuid).as_str());
    line.append("  [");
    line.append(describe_properties(c.properties).as_str());
    line.append("]");
    let ghost head = texts(old(lines)@).push(line@);
    lines.push(line);
    assert(texts(lines@) =~= head);
    let mut i: usize = 0;
    while i < c.descriptors.len()
        invariant
            i <= c.descriptors.len(),
            texts(lines@) == head + descriptor_lines(c.descriptors@, i as int),
        decreases c.descriptors.len() - i,
    {
        let mut line = "    Desc  ".to_owned();
        line.append(uuid_text(c.descriptors[i]).as_str());
        let ghost before = lines@;
        let ghost added = line@;
        lines.push(line);
        assert(texts(lines@) =~= texts(before).push(added));
        assert(texts(lines@) =~= head + descriptor_lines(c.descriptors@, i + 1));
        i = i + 1;
    }
}

fn push_service(lines: &mut Vec<String>, service: &ServiceInfo)
    ensures
        texts(final(lines)@) == texts(old(lines)@).push("Service "@ + uuid_form(service.uuid))
            + characteristic_lines(
            service.characteristics@,
            service.characteristics@.len() as int,
        ),
{
    let mut line = "Service ".to_owned();
    line.append(uuid_text(service.uuid).as_str());
    let ghost head = texts(old(lines)@).push(line@);
    lines.push(line);
    assert(texts(lines@) =~= head);
    let mut i: usize = 0;
    while i < service.characteristics.len()
        invariant
            i <= service.characteristics.len(),
            texts(lines@) == head + characteristic_lines(service.characteristics@, i as int),
        decreases service.characteristics.len() - i,
    {
        push_characteristic(lines, &service.characteristics[i]);
        assert(texts(lines@) =~= head + characteristic_lines(service.characteristics@, i + 1));
        i = i + 1;
    }
}

/// List services, characteristics and descriptors.
pub fn gatt_lines(services: &Vec<ServiceInfo>) -> (lines: Vec<String>)
    ensures
        texts(lines@) == seq!["\nGATT services:"@] + service_lines(
            services@,
            services@.len() as int,
        ),
{
    let mut lines: Vec<String> = Vec::new();
    lines.push("\nGATT services:".to_owned());
    assert(texts(lines@) =~= seq!["\nGATT services:"@]);
    let ghost head = texts(lines@);
    let mut i: usize = 0;
    while i < services.len()
        invariant
            i <= services.len(),
            texts(lines@) == head + service_lines(services@, i as int),
        decreases services.len() - i,
    {
        push_service(&mut lines, &services[i]);
        assert(texts(lines@) =~= head + service_lines(services@, i + 1));
        i = i + 1;
    }
    lines
}

// -- Laws ---------------------------------------------------------------------

/// The tree lists each service, below it each characteristic with its
/// properties, and below that each descriptor, in order.
pub proof fn law_tree_lines(
    services: Seq<ServiceInfo>,
    characteristics: Seq<CharacteristicInfo>,
    descriptors: Seq<u128>,
    n: int,
    k: int,
    d: int,
)
    requires
        0 <= n < services.len(),
        0 <= k < characteristics.len(),
        0 <= d < descriptors.len(),
    ensures
        service_lines(services, n + 1) == service_lines(services, n).push(
            "Service "@ + uuid_form(services[n].uuid),
        ) + characteristic_lines(
            services[n].characteristics@,
            services[n].characteristics@.len() as int,
        ),
        characteristic_lines(characteristics, k + 1) == characteristic_lines(
            characteristics,
            k,
        ).push(
            "  Char  "@ + uuid_form(characteristics[k].uuid) + "  ["@ + join(
                property_names(characteristics[k].properties),
                ","@,
            ) + "]"@,
        ) + descriptor_lines(
            characteristics[k].descriptors@,
            characteristics[k].descriptors@.len() as int,
        ),
        descriptor_lines(descriptors, d + 1) == descriptor_lines(descriptors, d).push(
            "    Desc  "@ + uuid_form(descriptors[d]),
        ),
        service_lines(services, 0).len() == 0,
        characteristic_lines(characteristics, 0).len() == 0,
        descriptor_lines(descriptors, 0).len() == 0,
{
}

} // verus!
