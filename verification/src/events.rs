//! Rendering of the event stream and of what is known about a connected device.

use vstd::prelude::*;
use vstd::utf8::{encode_utf8, valid_utf8};

use crate::decoder::{
    battery_text, button_list, button_list_text, format_battery, format_power, input_text,
    is_stamp, law_transition, le16, now_stamp, power_text, raw_hex, raw_hex_text, touch_text,
};
use crate::hid::{
    uuid_form, uuid_text, BATTERY_LEVEL_UUID, BATTERY_POWER_UUID, PROP_AUTHENTICATED_SIGNED_WRITES,
    PROP_BROADCAST, PROP_EXTENDED_PROPERTIES, PROP_INDICATE, PROP_NOTIFY, PROP_READ, PROP_WRITE,
    PROP_WRITE_WITHOUT_RESPONSE,
};
use crate::session::{report_event, DeviceEvent, Selection, SelectionView};
use crate::text::{dec, hex2_upper, join, join_text, push_dec, push_hex2_upper, texts};

verus! {

/// Characteristics of the Device Information service, with their labels.
pub const DEVICE_INFO_CHARS: [(&'static str, u128); 5] = [
    ("serial", 0x0000_2a25_0000_1000_8000_0080_5f9b_34fb),
    ("hardware", 0x0000_2a27_0000_1000_8000_0080_5f9b_34fb),
    ("firmware", 0x0000_2a26_0000_1000_8000_0080_5f9b_34fb),
    ("manufacturer", 0x0000_2a29_0000_1000_8000_0080_5f9b_34fb),
    ("pnp_id", 0x0000_2a50_0000_1000_8000_0080_5f9b_34fb),
];

// -- Events -------------------------------------------------------------------

/// The description of an event, where it has one.
pub open spec fn described(ev: DeviceEvent) -> Option<Seq<char>> {
    match ev {
        DeviceEvent::Battery { raw, .. } => Some(battery_text(raw@)),
        DeviceEvent::Power { raw, .. } => Some(power_text(raw@)),
        DeviceEvent::UnknownOther { payload, .. } => Some("len="@ + dec(payload@.len())),
        DeviceEvent::Buttons { mask, pressed, released, raw, .. } => Some(
            if pressed == 0 && released == 0 {
                "unknown HID packet len=2"@
            } else {
                "buttons="@ + button_list_text(mask) + " pressed="@ + button_list_text(pressed)
                    + " released="@ + button_list_text(released)
            },
        ),
        DeviceEvent::Touch { event, .. } => Some(touch_text(event)),
        DeviceEvent::UnknownInput { .. } => None,
    }
}

/// Where an event comes from.
pub open spec fn origin_text(ev: DeviceEvent) -> Seq<char> {
    match ev {
        DeviceEvent::Battery { .. } => "battery uuid="@ + uuid_form(BATTERY_LEVEL_UUID),
        DeviceEvent::Power { .. } => "power uuid="@ + uuid_form(BATTERY_POWER_UUID),
        DeviceEvent::UnknownOther { uuid, .. } => "other uuid="@ + uuid_form(uuid),
        DeviceEvent::Buttons { report_id, .. } => "input report_id=0x"@ + hex2_upper(report_id),
        DeviceEvent::Touch { report_id, .. } => "input report_id=0x"@ + hex2_upper(report_id),
        DeviceEvent::UnknownInput { report_id, .. } => "input report_id=0x"@ + hex2_upper(
            report_id,
        ),
    }
}

/// The bytes that an event carries.
pub open spec fn raw_bytes(ev: DeviceEvent) -> Seq<u8> {
    match ev {
        DeviceEvent::Battery { raw, .. } => raw@,
        DeviceEvent::Power { raw, .. } => raw@,
        DeviceEvent::UnknownOther { payload, .. } => payload@,
        DeviceEvent::Buttons { raw, .. } => raw@,
        DeviceEvent::Touch { raw, .. } => raw@,
        DeviceEvent::UnknownInput { payload, .. } => payload@,
    }
}

/// The line of an event at the time that `stamp` names.
pub open spec fn event_text(stamp: Seq<char>, ev: DeviceEvent) -> Seq<char> {
    stamp + " "@ + origin_text(ev) + " raw="@ + raw_hex_text(raw_bytes(ev)) + (match described(ev) {
        Some(d) => " | "@ + d,
        None => seq![],
    })
}

fn push_origin(out: &mut String, ev: &DeviceEvent)
    ensures
        final(out)@ == old(out)@ + origin_text(*ev),
{
    match ev {
        DeviceEvent::Battery { .. } => {
            out.append("battery uuid=");
            out.append(uuid_text(BATTERY_LEVEL_UUID).as_str());
        },
        DeviceEvent::Power { .. } => {
            out.append("power uuid=");
            out.append(uuid_text(BATTERY_POWER_UUID).as_str());
        },
        DeviceEvent::UnknownOther { uuid, .. } => {
            out.append("other uuid=");
            out.append(uuid_text(*uuid).as_str());
        },
        DeviceEvent::Buttons { report_id, .. } => {
            out.append("input report_id=0x");
            push_hex2_upper(out, *report_id);
        },
        DeviceEvent::Touch { report_id, .. } => {
            out.append("input report_id=0x");
            push_hex2_upper(out, *report_id);
        },
        DeviceEvent::UnknownInput { report_id, .. } => {
            out.append("input report_id=0x");
            push_hex2_upper(out, *report_id);
        },
    }
    assert(out@ =~= old(out)@ + origin_text(*ev));
}

fn describe(ev: &DeviceEvent) -> (out: Option<String>)
    ensures
        out is Some == described(*ev) is Some,
        out matches Some(s) ==> s@ == described(*ev)->0,
{
    match ev {
        DeviceEvent::Battery { raw, .. } => Some(format_battery(raw.as_slice())),
        DeviceEvent::Power { raw, .. } => Some(format_power(raw.as_slice())),
        DeviceEvent::UnknownOther { payload, .. } => {
            let mut out = "len=".to_owned();
            push_dec(&mut out, payload.len() as u64);
            Some(out)
        },
        DeviceEvent::Buttons { mask, pressed, released, .. } => {
            if *pressed == 0 && *released == 0 {
                return Some("unknown HID packet len=2".to_owned());
            }
            let mut out = "buttons=".to_owned();
            out.append(button_list(*mask).as_str());
            out.append(" pressed=");
            out.append(button_list(*pressed).as_str());
            out.append(" released=");
            out.append(button_list(*released).as_str());
            Some(out)
        },
        DeviceEvent::Touch { event, .. } => Some(event.format()),
        DeviceEvent::UnknownInput { .. } => None,
    }
}

fn hex_of(ev: &DeviceEvent) -> (out: String)
    ensures
        out@ == raw_hex_text(raw_bytes(*ev)),
{
    match ev {
        DeviceEvent::Battery { raw, .. } => raw_hex(raw.as_slice()),
        DeviceEvent::Power { raw, .. } => raw_hex(raw.as_slice()),
        DeviceEvent::UnknownOther { payload, .. } => raw_hex(payload.as_slice()),
        DeviceEvent::Buttons { raw, .. } => raw_hex(raw.as_slice()),
        DeviceEvent::Touch { raw, .. } => raw_hex(raw.as_slice()),
        DeviceEvent::UnknownInput { payload, .. } => raw_hex(payload.as_slice()),
    }
}

/// Render one event at a known time.
pub fn event_line(stamp: &str, ev: &DeviceEvent) -> (out: String)
    ensures
        out@ == event_text(stamp@, *ev),
{
    let mut out = stamp.to_owned();
    out.append(" ");
    push_origin(&mut out, ev);
    out.append(" raw=");
    out.append(hex_of(ev).as_str());
    if let Some(d) = describe(ev) {
        out.append(" | ");
        out.append(d.as_str());
    }
    assert(out@ =~= event_text(stamp@, *ev));
    out
}

/// Render one event with the current time.
pub fn format_event(ev: &DeviceEvent) -> (out: String)
    ensures
        exists|stamp: Seq<char>| is_stamp(stamp) && out@ == #[trigger] event_text(stamp, *ev),
{
    event_line(now_stamp().as_str(), ev)
}

// -- Device information -------------------------------------------------------

/// A property name that is listed where its bit is set.
pub open spec fn named_if(properties: u8, bit: u8, name: Seq<char>) -> Seq<Seq<char>> {
    if properties & bit != 0 {
        seq![name]
    } else {
        seq![]
    }
}

/// The names of a characteristic's properties.
pub open spec fn property_names(p: u8) -> Seq<Seq<char>> {
    named_if(p, PROP_BROADCAST, "broadcast"@) + named_if(p, PROP_READ, "read"@) + named_if(
        p,
        PROP_WRITE_WITHOUT_RESPONSE,
        "write-without-response"@,
    ) + named_if(p, PROP_WRITE, "write"@) + named_if(p, PROP_NOTIFY, "notify"@) + named_if(
        p,
        PROP_INDICATE,
        "indicate"@,
    ) + named_if(p, PROP_AUTHENTICATED_SIGNED_WRITES, "authenticated-signed-writes"@) + named_if(
        p,
        PROP_EXTENDED_PROPERTIES,
        "extended-properties"@,
    )
}

fn name_if(parts: &mut Vec<String>, properties: u8, bit: u8, name: &str)
    ensures
        texts(final(parts)@) == texts(old(parts)@) + named_if(properties, bit, name@),
{
    if properties & bit != 0 {
        parts.push(name.to_owned());
    }
    assert(texts(parts@) =~= texts(old(parts)@) + named_if(properties, bit, name@));
}

/// List the properties of a characteristic.
pub fn describe_properties(p: u8) -> (out: String)
    ensures
        out@ == join(property_names(p), ","@),
{
    let mut parts: Vec<String> = Vec::new();
    name_if(&mut parts, p, PROP_BROADCAST, "broadcast");
    name_if(&mut parts, p, PROP_READ, "read");
    name_if(&mut parts, p, PROP_WRITE_WITHOUT_RESPONSE, "write-without-response");
    name_if(&mut parts, p, PROP_WRITE, "write");
    name_if(&mut parts, p, PROP_NOTIFY, "notify");
    name_if(&mut parts, p, PROP_INDICATE, "indicate");
    name_if(&mut parts, p, PROP_AUTHENTICATED_SIGNED_WRITES, "authenticated-signed-writes");
    name_if(&mut parts, p, PROP_EXTENDED_PROPERTIES, "extended-properties");
    assert(texts(parts@) =~= property_names(p));
    join_text(&parts, ",")
}

/// `std::str::from_utf8`: a byte string that is valid UTF-8 becomes the text
/// that it encodes, any other is refused.
#[verifier::external_body]
fn text_from_utf8(bytes: &[u8]) -> (text: Option<String>)
    ensures
        text is Some <==> valid_utf8(bytes@),
        text matches Some(s) ==> encode_utf8(s@) == bytes@,
{
    std::str::from_utf8(bytes).ok().map(str::to_string)
}

/// The data without trailing zero bytes.
pub open spec fn without_padding(data: Seq<u8>) -> Seq<u8>
    decreases data.len(),
{
    if data.len() > 0 && data.last() == 0 {
        without_padding(data.drop_last())
    } else {
        data
    }
}

/// Render the value of an information characteristic: as text where it is valid
/// UTF-8 and not empty once the padding is off, else in hexadecimal.
pub fn decode_text_or_hex(data: &[u8]) -> (out: String)
    ensures
        if without_padding(data@).len() > 0 && valid_utf8(without_padding(data@)) {
            encode_utf8(out@) == without_padding(data@)
        } else {
            out@ == raw_hex_text(data@)
        },
{
    let mut end: usize = data.len();
    assert(data@.take(end as int) =~= data@);
    while end > 0 && data[end - 1] == 0
        invariant
            end <= data.len(),
            without_padding(data@) == without_padding(data@.take(end as int)),
        decreases end,
    {
        assert(data@.take(end as int).drop_last() =~= data@.take(end - 1));
        end = end - 1;
    }
    assert(without_padding(data@) == data@.take(end as int));
    if end == 0 {
        return raw_hex(data);
    }
    let bare = vstd::slice::slice_subrange(data, 0, end);
    assert(bare@ =~= data@.take(end as int));
    match text_from_utf8(bare) {
        Some(s) => s,
        None => raw_hex(data),
    }
}

/// A characteristic of a connected device.
#[derive(Clone, Debug)]
pub struct CharacteristicInfo {
    pub uuid: u128,
    pub properties: u8,
    pub descriptors: Vec<u128>,
}

/// A service of a connected device.
#[derive(Clone, Debug)]
pub struct ServiceInfo {
    pub uuid: u128,
    pub characteristics: Vec<CharacteristicInfo>,
}

/// How many characteristics the first `n` services have.
pub open spec fn characteristic_count(services: Seq<ServiceInfo>, n: int) -> nat
    decreases n,
{
    if n <= 0 {
        0
    } else {
        characteristic_count(services, n - 1) + services[n - 1].characteristics@.len()
    }
}

/// How many descriptors the first `n` characteristics have.
pub open spec fn descriptor_sum(characteristics: Seq<CharacteristicInfo>, n: int) -> nat
    decreases n,
{
    if n <= 0 {
        0
    } else {
        descriptor_sum(characteristics, n - 1) + characteristics[n - 1].descriptors@.len()
    }
}

/// How many descriptors the first `n` services have.
pub open spec fn descriptor_count(services: Seq<ServiceInfo>, n: int) -> nat
    decreases n,
{
    if n <= 0 {
        0
    } else {
        descriptor_count(services, n - 1) + descriptor_sum(
            services[n - 1].characteristics@,
            services[n - 1].characteristics@.len() as int,
        )
    }
}

/// The lines of the first `n` characteristics of a service.
pub open spec fn characteristic_lines(characteristics: Seq<CharacteristicInfo>, n: int) -> Seq<
    Seq<char>,
>
    decreases n,
{
    if n <= 0 {
        seq![]
    } else {
        let c = characteristics[n - 1];
        characteristic_lines(characteristics, n - 1).push(
            "    Char "@ + uuid_form(c.uuid) + " ["@ + join(property_names(c.properties), ","@)
                + "]"@,
        )
    }
}

/// The lines of the first `n` services.
pub open spec fn service_lines(services: Seq<ServiceInfo>, n: int) -> Seq<Seq<char>>
    decreases n,
{
    if n <= 0 {
        seq![]
    } else {
        let s = services[n - 1];
        service_lines(services, n - 1).push("  Service "@ + uuid_form(s.uuid))
            + characteristic_lines(s.characteristics@, s.characteristics@.len() as int)
    }
}

/// The lines about the selected remote.
pub open spec fn selection_lines(selection: SelectionView) -> Seq<Seq<char>> {
    seq!["\nConnected Siri Remote"@, "  selected_address: "@ + selection.address] + (
    match selection.identity_address {
        Some(id) => seq!["  identity_address: "@ + id],
        None => seq![],
    }) + seq!["  selected_name: "@ + selection.name, "  backend: btleplug"@]
}

fn push_service_lines(lines: &mut Vec<String>, service: &ServiceInfo)
    ensures
        texts(final(lines)@) == texts(old(lines)@).push("  Service "@ + uuid_form(service.uuid))
            + characteristic_lines(
            service.characteristics@,
            service.characteristics@.len() as int,
        ),
{
    let mut line = "  Service ".to_owned();
    line.append(uuid_text(service.uuid).as_str());
    lines.push(line);
    let ghost head = texts(old(lines)@).push("  Service "@ + uuid_form(service.uuid));
    assert(texts(lines@) =~= head);
    let mut i: usize = 0;
    while i < service.characteristics.len()
        invariant
            i <= service.characteristics.len(),
            texts(lines@) == head + characteristic_lines(service.characteristics@, i as int),
        decreases service.characteristics.len() - i,
    {
        let c = &service.characteristics[i];
        let mut line = "    Char ".to_owned();
        line.append(uuid_text(c.uuid).as_str());
        line.append(" [");
        line.append(describe_properties(c.properties).as_str());
        line.append("]");
        let ghost before = lines@;
        let ghost added = line@;
        lines.push(line);
        assert(texts(lines@) =~= texts(before).push(added));
        assert(texts(lines@) =~= head + characteristic_lines(service.characteristics@, i + 1));
        i = i + 1;
    }
}

/// Say what is known about a connected device.
pub fn print_device_info(selection: &Selection, services: &Vec<ServiceInfo>) -> (lines: Vec<String>)
    requires
        characteristic_count(services@, services@.len() as int) <= usize::MAX,
        descriptor_count(services@, services@.len() as int) <= usize::MAX,
    ensures
        texts(lines@) == selection_lines(selection@).push(
            "  services: "@ + dec(services@.len()) + " chars: "@ + dec(
                characteristic_count(services@, services@.len() as int),
            ) + " descriptors: "@ + dec(descriptor_count(services@, services@.len() as int)),
        ) + service_lines(services@, services@.len() as int),
{
    let mut lines: Vec<String> = Vec::new();
    lines.push("\nConnected Siri Remote".to_owned());
    let mut line = "  selected_address: ".to_owned();
    line.append(selection.address.as_str());
    lines.push(line);
    if let Some(id) = &selection.identity_address {
        let mut line = "  identity_address: ".to_owned();
        line.append(id.as_str());
        lines.push(line);
    }
    let mut line = "  selected_name: ".to_owned();
    line.append(selection.name.as_str());
    lines.push(line);
    lines.push("  backend: btleplug".to_owned());
    assert(texts(lines@) =~= selection_lines(selection@));
    let ghost head = selection_lines(selection@);
    let counts = count_parts(services);
    let mut line = "  services: ".to_owned();
    push_dec(&mut line, services.len() as u64);
    line.append(" chars: ");
    push_dec(&mut line, counts.0 as u64);
    line.append(" descriptors: ");
    push_dec(&mut line, counts.1 as u64);
    let ghost totals = line@;
    let ghost before = lines@;
    lines.push(line);
    assert(texts(lines@) =~= head.push(totals));
    let mut i: usize = 0;
    while i < services.len()
        invariant
            i <= services.len(),
            texts(lines@) == head.push(totals) + service_lines(services@, i as int),
        decreases services.len() - i,
    {
        push_service_lines(&mut lines, &services[i]);
        assert(texts(lines@) =~= head.push(totals) + service_lines(services@, i + 1));
        i = i + 1;
    }
    lines
}

fn count_parts(services: &Vec<ServiceInfo>) -> (counts: (usize, usize))
    requires
        characteristic_count(services@, services@.len() as int) <= usize::MAX,
        descriptor_count(services@, services@.len() as int) <= usize::MAX,
    ensures
        counts.0 == characteristic_count(services@, services@.len() as int),
        counts.1 == descriptor_count(services@, services@.len() as int),
{
    let ghost total = services@.len() as int;
    let mut chars: usize = 0;
    let mut descriptors: usize = 0;
    let mut i: usize = 0;
    while i < services.len()
        invariant
            i <= services.len(),
            total == services@.len(),
            characteristic_count(services@, total) <= usize::MAX,
            descriptor_count(services@, total) <= usize::MAX,
            chars == characteristic_count(services@, i as int),
            descriptors == descriptor_count(services@, i as int),
        decreases services.len() - i,
    {
        let service = &services[i];
        proof {
            lemma_counts_grow(services@, i + 1, total);
        }
        chars = chars + service.characteristics.len();
        let ghost n = service.characteristics@.len() as int;
        let mut j: usize = 0;
        while j < service.characteristics.len()
            invariant
                j <= service.characteristics.len(),
                i < services.len(),
                *service == services@[i as int],
                n == service.characteristics@.len(),
                descriptors == descriptor_count(services@, i as int) + descriptor_sum(
                    service.characteristics@,
                    j as int,
                ),
                descriptor_count(services@, i + 1) <= usize::MAX,
            decreases service.characteristics.len() - j,
        {
            proof {
                lemma_sums_grow(service.characteristics@, j + 1, n);
            }
            descriptors = descriptors + service.characteristics[j].descriptors.len();
            j = j + 1;
        }
        i = i + 1;
    }
    (chars, descriptors)
}

proof fn lemma_counts_grow(services: Seq<ServiceInfo>, n: int, m: int)
    requires
        0 <= n <= m,
    ensures
        characteristic_count(services, n) <= characteristic_count(services, m),
        descriptor_count(services, n) <= descriptor_count(services, m),
    decreases m - n,
{
    if n < m {
        lemma_counts_grow(services, n, m - 1);
    }
}

proof fn lemma_sums_grow(characteristics: Seq<CharacteristicInfo>, n: int, m: int)
    requires
        0 <= n <= m,
    ensures
        descriptor_sum(characteristics, n) <= descriptor_sum(characteristics, m),
    decreases m - n,
{
    if n < m {
        lemma_sums_grow(characteristics, n, m - 1);
    }
}

// -- Laws ---------------------------------------------------------------------

/// The stream describes a button report just as the decoder does, whatever the
/// state before it.
pub proof fn law_stream_agrees_with_decoder(report_id: u8, value: Vec<u8>, before: u16)
    requires
        value@.len() == 2,
    ensures
        described(report_event(report_id, value, before)) == Some(input_text(before, value@)),
{
    let now = le16(value@[0], value@[1]);
    law_transition(before, now);
    reveal_strlit("unknown HID packet len=2");
    reveal_strlit("unknown HID packet len=");
    assert("unknown HID packet len=2"@ =~= "unknown HID packet len="@ + dec(2));
}

/// Data of zero bytes alone, and empty data, are shown in hexadecimal.
pub proof fn law_padding_alone_is_empty(data: Seq<u8>)
    requires
        forall|i: int| 0 <= i < data.len() ==> data[i] == 0,
    ensures
        without_padding(data).len() == 0,
    decreases data.len(),
{
    if data.len() > 0 {
        law_padding_alone_is_empty(data.drop_last());
    }
}

/// The line of an event: the time, where it comes from, its bytes in full, and
/// what they say, where that is known.
pub proof fn law_event_line(stamp: Seq<char>, ev: DeviceEvent)
    ensures
        ev matches DeviceEvent::Battery { raw, .. } ==> event_text(stamp, ev) == stamp + " "@ + (
        "battery uuid="@ + uuid_form(BATTERY_LEVEL_UUID)) + " raw="@ + raw_hex_text(raw@) + (" | "@
            + battery_text(raw@)),
        ev matches DeviceEvent::Power { raw, .. } ==> event_text(stamp, ev) == stamp + " "@ + (
        "power uuid="@ + uuid_form(BATTERY_POWER_UUID)) + " raw="@ + raw_hex_text(raw@) + (" | "@
            + power_text(raw@)),
        ev matches DeviceEvent::UnknownOther { uuid, payload } ==> event_text(stamp, ev) == stamp
            + " "@ + ("other uuid="@ + uuid_form(uuid)) + " raw="@ + raw_hex_text(payload@) + (
        " | "@ + ("len="@ + dec(payload@.len()))),
        ev matches DeviceEvent::Buttons { report_id, mask, pressed, released, raw } ==> event_text(
            stamp,
            ev,
        ) == stamp + " "@ + ("input report_id=0x"@ + hex2_upper(report_id)) + " raw="@
            + raw_hex_text(raw@) + (" | "@ + (if pressed == 0 && released == 0 {
            "unknown HID packet len=2"@
        } else {
            "buttons="@ + button_list_text(mask) + " pressed="@ + button_list_text(pressed)
                + " released="@ + button_list_text(released)
        })),
        ev matches DeviceEvent::Touch { report_id, event, raw } ==> event_text(stamp, ev) == stamp
            + " "@ + ("input report_id=0x"@ + hex2_upper(report_id)) + " raw="@ + raw_hex_text(raw@)
            + (" | "@ + touch_text(event)),
        ev matches DeviceEvent::UnknownInput { report_id, payload } ==> event_text(stamp, ev)
            == stamp + " "@ + ("input report_id=0x"@ + hex2_upper(report_id)) + " raw="@
            + raw_hex_text(payload@),
{
    if let DeviceEvent::UnknownInput { report_id, payload } = ev {
        let line = stamp + " "@ + ("input report_id=0x"@ + hex2_upper(report_id)) + " raw="@
            + raw_hex_text(payload@);
        assert(line + Seq::<char>::empty() =~= line);
    }
}

/// A property is named exactly where its bit is set; the names go from the
/// lowest bit up.
pub proof fn law_property_names(p: u8)
    ensures
        property_names(p) == named_if(p, 0x01, "broadcast"@) + named_if(p, 0x02, "read"@)
            + named_if(p, 0x04, "write-without-response"@) + named_if(p, 0x08, "write"@) + named_if(
            p,
            0x10,
            "notify"@,
        ) + named_if(p, 0x20, "indicate"@) + named_if(p, 0x40, "authenticated-signed-writes"@)
            + named_if(p, 0x80, "extended-properties"@),
        forall|bit: u8, name: Seq<char>|
            #![trigger named_if(p, bit, name)]
            (p & bit != 0 ==> named_if(p, bit, name) == seq![name]) && (p & bit == 0 ==> named_if(
                p,
                bit,
                name,
            ).len() == 0),
{
}

/// Padding is zeros at the end and nothing else: what is left of a value does
/// not end in a zero, stands at its front, and only zeros were taken.
pub proof fn law_padding_is_zeros(data: Seq<u8>, i: int)
    ensures
        without_padding(data).len() <= data.len(),
        without_padding(data) == data.take(without_padding(data).len() as int),
        without_padding(data).len() > 0 ==> without_padding(data).last() != 0,
        without_padding(data).len() <= i < data.len() ==> data[i] == 0,
    decreases data.len(),
{
    if data.len() > 0 && data.last() == 0 {
        let shorter = data.drop_last();
        law_padding_is_zeros(shorter, i);
        assert(shorter.take(without_padding(data).len() as int) =~= data.take(
            without_padding(data).len() as int,
        ));
    } else {
        assert(data.take(data.len() as int) =~= data);
    }
}

/// Characteristics and descriptors are counted service by service.
pub proof fn law_attributes_are_counted(
    services: Seq<ServiceInfo>,
    characteristics: Seq<CharacteristicInfo>,
    n: int,
    k: int,
)
    requires
        0 <= n < services.len(),
        0 <= k < characteristics.len(),
    ensures
        characteristic_count(services, 0) == 0 && descriptor_count(services, 0) == 0,
        characteristic_count(services, n + 1) == characteristic_count(services, n)
            + services[n].characteristics@.len(),
        descriptor_count(services, n + 1) == descriptor_count(services, n) + descriptor_sum(
            services[n].characteristics@,
            services[n].characteristics@.len() as int,
        ),
        descriptor_sum(characteristics, 0) == 0,
        descriptor_sum(characteristics, k + 1) == descriptor_sum(characteristics, k)
            + characteristics[k].descriptors@.len(),
{
}

/// What is said of a connected device: its addresses and name, then each
/// service with its characteristics.
pub proof fn law_device_lines(
    selection: SelectionView,
    services: Seq<ServiceInfo>,
    characteristics: Seq<CharacteristicInfo>,
    n: int,
    k: int,
)
    requires
        0 <= n < services.len(),
        0 <= k < characteristics.len(),
    ensures
        selection.identity_address matches Some(id) ==> selection_lines(selection) == seq![
            "\nConnected Siri Remote"@,
            "  selected_address: "@ + selection.address,
            "  identity_address: "@ + id,
            "  selected_name: "@ + selection.name,
            "  backend: btleplug"@,
        ],
        selection.identity_address is None ==> selection_lines(selection) == seq![
            "\nConnected Siri Remote"@,
            "  selected_address: "@ + selection.address,
            "  selected_name: "@ + selection.name,
            "  backend: btleplug"@,
        ],
        service_lines(services, n + 1) == service_lines(services, n).push(
            "  Service "@ + uuid_form(services[n].uuid),
        ) + characteristic_lines(
            services[n].characteristics@,
            services[n].characteristics@.len() as int,
        ),
        characteristic_lines(characteristics, k + 1) == characteristic_lines(
            characteristics,
            k,
        ).push(
            "    Char "@ + uuid_form(characteristics[k].uuid) + " ["@ + join(
                property_names(characteristics[k].properties),
                ","@,
            ) + "]"@,
        ),
        service_lines(services, 0).len() == 0,
        characteristic_lines(characteristics, 0).len() == 0,
{
    if let Some(id) = selection.identity_address {
        assert(selection_lines(selection) =~= seq![
            "\nConnected Siri Remote"@,
            "  selected_address: "@ + selection.address,
            "  identity_address: "@ + id,
            "  selected_name: "@ + selection.name,
            "  backend: btleplug"@,
        ]);
    } else {
        assert(selection_lines(selection) =~= seq![
            "\nConnected Siri Remote"@,
            "  selected_address: "@ + selection.address,
            "  selected_name: "@ + selection.name,
            "  backend: btleplug"@,
        ]);
    }
}

} // verus!
