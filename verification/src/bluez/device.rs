//! Recognising bonded Siri Remotes among the devices that BlueZ lists.
//!
//! A device is given by its object path and the properties of its `Device1`
//! interface as plain values; a property that is absent, or of another type
//! than expected, is `None` or empty.

use vstd::prelude::*;

use crate::decoder::APPLE_COMPANY_ID;
use crate::order::{is_stable_sort, law_sort_is_reproducible, no_ties, stable_sort, Ranked};
use crate::scan::{company_data, find_company, has_hid_prefix, starts_with_hid_prefix};
use crate::text::{
    chars_of, contains_seq, contains_text, le_text, lemma_text_le_total, lemma_text_le_transitive,
    lists_text, lowercased, same_text, starts_with_seq, starts_with_text, text_le, text_of, texts,
    trim_text, trimmed, uppercased,
};

verus! {

/// The HID service in the textual form that BlueZ uses.
pub const HID_SERVICE_UUID_LOWER: &'static str = "00001812-0000-1000-8000-00805f9b34fb";

/// Parts of a name that mark a remote.
pub const REMOTE_NAME_KEYWORDS: [&'static str; 3] = [
    "siri remote",
    "apple tv remote",
    "apple remote",
];

/// The properties of a `Device1` object.
#[derive(Clone, Debug)]
pub struct DeviceProps {
    pub address: Option<String>,
    pub name: Option<String>,
    pub alias: Option<String>,
    pub paired: Option<bool>,
    pub bonded: Option<bool>,
    pub trusted: Option<bool>,
    pub connected: Option<bool>,
    pub uuids: Vec<String>,
    pub modalias: Option<String>,
    /// Payloads by company identifier.
    pub manufacturer_data: Vec<(u16, Vec<u8>)>,
}

/// A device of the object tree.
#[derive(Clone, Debug)]
pub struct DeviceObject {
    pub path: String,
    pub props: DeviceProps,
}

/// Snapshot of a paired/bonded BlueZ device that matched our Siri Remote
/// fingerprint.
#[derive(Clone, Debug)]
pub struct RemoteDevice {
    pub path: String,
    pub adapter_path: String,
    pub address: String,
    pub name: String,
    pub alias: String,
    pub paired: bool,
    pub bonded: bool,
    pub trusted: bool,
    pub connected: bool,
    pub uuids: Vec<String>,
    pub modalias: String,
    pub manufacturer_data: Vec<(u16, Vec<u8>)>,
    pub reasons: Vec<String>,
}

/// What a [`RemoteDevice`] says.
pub struct RemoteView {
    pub path: Seq<char>,
    pub adapter_path: Seq<char>,
    pub address: Seq<char>,
    pub name: Seq<char>,
    pub alias: Seq<char>,
    pub paired: bool,
    pub bonded: bool,
    pub trusted: bool,
    pub connected: bool,
    pub uuids: Seq<Seq<char>>,
    pub modalias: Seq<char>,
    pub manufacturer_data: Seq<(u16, Vec<u8>)>,
    pub reasons: Seq<Seq<char>>,
}

impl View for RemoteDevice {
    type V = RemoteView;

    open spec fn view(&self) -> RemoteView {
        RemoteView {
            path: self.path@,
            adapter_path: self.adapter_path@,
            address: self.address@,
            name: self.name@,
            alias: self.alias@,
            paired: self.paired,
            bonded: self.bonded,
            trusted: self.trusted,
            connected: self.connected,
            uuids: texts(self.uuids@),
            modalias: self.modalias@,
            manufacturer_data: self.manufacturer_data@,
            reasons: texts(self.reasons@),
        }
    }
}

/// The name to show: the device's own, else its alias, else its address.
pub open spec fn shown_name(device: RemoteView) -> Seq<char> {
    if device.name.len() > 0 {
        device.name
    } else if device.alias.len() > 0 {
        device.alias
    } else {
        device.address
    }
}

impl RemoteDevice {
    /// The name to show for the device.
    pub fn display_name(&self) -> (name: String)
        ensures
            name@ == shown_name(self@),
    {
        if !self.name.as_str().is_empty() {
            self.name.clone()
        } else if !self.alias.as_str().is_empty() {
            self.alias.clone()
        } else {
            self.address.clone()
        }
    }
}

// -- Paths --------------------------------------------------------------------

/// The last position, not beyond `from`, at which `needle` stands in `hay`;
/// -1 where there is none.
pub open spec fn last_index(hay: Seq<char>, needle: Seq<char>, from: int) -> int
    decreases from + 1,
{
    if from < 0 {
        -1
    } else if from + needle.len() <= hay.len() && hay.subrange(from, from + needle.len())
        == needle {
        from
    } else {
        last_index(hay, needle, from - 1)
    }
}

/// The adapter of a device path: all that comes before the last `/dev_`.
pub open spec fn adapter_of(path: Seq<char>) -> Option<Seq<char>> {
    let i = last_index(path, "/dev_"@, path.len() as int);
    if i < 0 {
        None
    } else {
        Some(path.take(i))
    }
}

/// The adapter path of a device path, or an error where it is malformed.
pub fn adapter_path_for_device(path: &str) -> (adapter: Result<String, String>)
    ensures
        match adapter {
            Ok(a) => adapter_of(path@) == Some(a@),
            Err(message) => {
                &&& adapter_of(path@) is None
                &&& message@ == "malformed BlueZ device path: "@ + path@
            },
        },
{
    let chars = chars_of(path);
    proof {
        reveal_strlit("/dev_");
        lemma_last_index_short(path@, "/dev_"@, path@.len() as int);
    }
    let mut i: usize = chars.len();
    while i > 0
        invariant
            chars@ == path@,
            i <= chars.len(),
            "/dev_"@ =~= seq!['/', 'd', 'e', 'v', '_'],
            last_index(path@, "/dev_"@, path@.len() as int) == last_index(
                path@,
                "/dev_"@,
                i as int,
            ),
            i + 5 > chars.len() || path@.subrange(i as int, i + 5) != "/dev_"@,
        decreases i,
    {
        i = i - 1;
        let ghost here = if i + 5 <= path@.len() {
            path@.subrange(i as int, i + 5)
        } else {
            seq![]
        };
        if chars.len() >= 5 && i <= chars.len() - 5 && chars[i] == '/' && chars[i + 1] == 'd'
            && chars[i + 2] == 'e' && chars[i + 3] == 'v' && chars[i + 4] == '_' {
            assert(here =~= "/dev_"@);
            assert(last_index(path@, "/dev_"@, i as int) == i);
            assert(path@.take(i as int) =~= path@.subrange(0, i as int));
            return Ok(text_of(&chars, 0, i));
        }
        proof {
            if i + 5 <= path@.len() && here == "/dev_"@ {
                assert(here[0] == '/' && here[1] == 'd' && here[2] == 'e' && here[3] == 'v'
                    && here[4] == '_');
            }
        }
    }
    proof {
        reveal_with_fuel(last_index, 2);
    }
    let mut message = "malformed BlueZ device path: ".to_owned();
    message.append(path);
    Err(message)
}

proof fn lemma_last_index_short(hay: Seq<char>, needle: Seq<char>, from: int)
    requires
        needle.len() > 0,
        from == hay.len(),
    ensures
        from > 0 ==> last_index(hay, needle, from) == last_index(hay, needle, from - 1),
        from == 0 ==> last_index(hay, needle, from) == -1,
{
    reveal_with_fuel(last_index, 2);
}

// -- Building a snapshot ------------------------------------------------------

/// The text of an optional property, empty where it is absent.
pub open spec fn text_or_empty(text: Option<String>) -> Seq<char> {
    match text {
        Some(s) => s@,
        None => seq![],
    }
}

/// The flag of an optional property, unset where it is absent.
pub open spec fn is_set(flag: Option<bool>) -> bool {
    flag == Some(true)
}

/// An address in the form in which addresses are compared.
pub open spec fn address_key(address: Seq<char>) -> Seq<char> {
    uppercased(trimmed(address))
}

/// Each text in lower case.
pub open spec fn lowercased_all(parts: Seq<String>) -> Seq<Seq<char>> {
    Seq::new(parts.len(), |i: int| lowercased(parts[i]@))
}

/// The snapshot of a device, without reasons. Only a device with an address
/// and a well-formed path has one.
pub open spec fn remote_of(object: DeviceObject) -> Option<RemoteView> {
    let props = object.props;
    if props.address is Some && address_key(props.address->0@).len() > 0 && adapter_of(
        object.path@,
    ) is Some {
        Some(
            RemoteView {
                path: object.path@,
                adapter_path: adapter_of(object.path@)->0,
                address: address_key(props.address->0@),
                name: text_or_empty(props.name),
                alias: text_or_empty(props.alias),
                paired: is_set(props.paired),
                bonded: is_set(props.bonded),
                trusted: is_set(props.trusted),
                connected: is_set(props.connected),
                uuids: lowercased_all(props.uuids@),
                modalias: text_or_empty(props.modalias),
                manufacturer_data: props.manufacturer_data@,
                reasons: seq![],
            },
        )
    } else {
        None
    }
}

fn or_empty(text: Option<String>) -> (s: String)
    ensures
        s@ == text_or_empty(text),
{
    match text {
        Some(s) => s,
        None => String::new(),
    }
}

fn lower_all(parts: &Vec<String>) -> (out: Vec<String>)
    ensures
        texts(out@) == lowercased_all(parts@),
{
    let mut out: Vec<String> = Vec::new();
    let mut i: usize = 0;
    while i < parts.len()
        invariant
            i <= parts.len(),
            out@.len() == i,
            forall|j: int| 0 <= j < i ==> (#[trigger] out@[j])@ == lowercased(parts@[j]@),
        decreases parts.len() - i,
    {
        out.push(parts[i].as_str().to_lowercase());
        i = i + 1;
    }
    assert(texts(out@) =~= lowercased_all(parts@));
    out
}

/// Take the snapshot of a device.
pub fn build_remote(object: DeviceObject) -> (device: Option<RemoteDevice>)
    ensures
        match device {
            Some(device) => remote_of(object) == Some(device@),
            None => remote_of(object) is None,
        },
{
    let DeviceObject { path, props } = object;
    let address = match &props.address {
        Some(address) => trim_text(address.as_str()).as_str().to_uppercase(),
        None => {
            return None;
        },
    };
    if address.as_str().is_empty() {
        return None;
    }
    let adapter_path = match adapter_path_for_device(path.as_str()) {
        Ok(adapter_path) => adapter_path,
        Err(_) => {
            return None;
        },
    };
    let uuids = lower_all(&props.uuids);
    let reasons: Vec<String> = Vec::new();
    assert(texts(reasons@) =~= seq![]);
    Some(
        RemoteDevice {
            path,
            adapter_path,
            address,
            name: or_empty(props.name),
            alias: or_empty(props.alias),
            paired: props.paired == Some(true),
            bonded: props.bonded == Some(true),
            trusted: props.trusted == Some(true),
            connected: props.connected == Some(true),
            uuids,
            modalias: or_empty(props.modalias),
            manufacturer_data: props.manufacturer_data,
            reasons,
        },
    )
}

// -- Recognising a remote -----------------------------------------------------

/// Whether name and alias read like a remote's.
pub open spec fn has_remote_name(device: RemoteView) -> bool {
    exists|k: int|
        0 <= k < 3 && contains_seq(
            lowercased(device.name + " "@ + device.alias),
            (#[trigger] REMOTE_NAME_KEYWORDS@[k])@,
        )
}

/// Whether the device offers the HID service.
pub open spec fn has_hid_service(device: RemoteView) -> bool {
    device.uuids.contains(HID_SERVICE_UUID_LOWER@)
}

/// Whether the modalias names Apple as the vendor.
pub open spec fn has_apple_modalias(device: RemoteView) -> bool {
    starts_with_seq(lowercased(device.modalias), "bluetooth:v004c"@)
}

/// The Apple manufacturer data of the device, where it has any.
pub open spec fn apple_data(device: RemoteView) -> Option<Seq<u8>> {
    company_data(device.manufacturer_data, APPLE_COMPANY_ID)
}

/// Whether the device counts as a Siri Remote: it offers the HID service, and
/// either its name or Apple's mark speaks for it.
pub open spec fn is_remote(device: RemoteView) -> bool {
    has_hid_service(device) && (has_remote_name(device) || has_apple_modalias(device)
        || apple_data(device) is Some)
}

/// A text that is listed where a condition holds.
pub open spec fn listed_if(condition: bool, reason: Seq<char>) -> Seq<Seq<char>> {
    if condition {
        seq![reason]
    } else {
        seq![]
    }
}

/// Why the device counts as a Siri Remote; empty where it does not.
pub open spec fn reasons_for(device: RemoteView) -> Seq<Seq<char>> {
    if is_remote(device) {
        listed_if(has_remote_name(device), "remote-like name"@) + listed_if(
            true,
            "HID service"@,
        ) + listed_if(has_apple_modalias(device), "Apple modalias"@) + listed_if(
            apple_data(device) is Some,
            "Apple manufacturer data"@,
        ) + listed_if(
            apple_data(device) is Some && has_hid_prefix(apple_data(device)->0),
            "Apple HID manufacturer prefix"@,
        )
    } else {
        seq![]
    }
}

fn names_a_remote(name: &str, alias: &str) -> (r: bool)
    ensures
        r == exists|k: int|
            0 <= k < 3 && contains_seq(
                lowercased(name@ + " "@ + alias@),
                (#[trigger] REMOTE_NAME_KEYWORDS@[k])@,
            ),
{
    let mut both = name.to_owned();
    both.append(" ");
    both.append(alias);
    let combined = chars_of(both.as_str().to_lowercase().as_str());
    let mut k: usize = 0;
    while k < 3
        invariant
            k <= 3,
            combined@ == lowercased(name@ + " "@ + alias@),
            forall|j: int|
                0 <= j < k ==> !contains_seq(combined@, (#[trigger] REMOTE_NAME_KEYWORDS@[j])@),
        decreases 3 - k,
    {
        if contains_text(&combined, &chars_of(REMOTE_NAME_KEYWORDS[k])) {
            assert(contains_seq(combined@, REMOTE_NAME_KEYWORDS@[k as int]@));
            return true;
        }
        k = k + 1;
    }
    false
}

/// Why a device counts as a Siri Remote; empty where it does not.
pub fn match_reasons(device: &RemoteDevice) -> (reasons: Vec<String>)
    ensures
        texts(reasons@) == reasons_for(device@),
{
    let has_name = names_a_remote(device.name.as_str(), device.alias.as_str());
    let has_hid = lists_text(&device.uuids, HID_SERVICE_UUID_LOWER);
    let has_modalias = starts_with_text(
        device.modalias.as_str().to_lowercase().as_str(),
        "bluetooth:v004c",
    );
    let apple = find_company(&device.manufacturer_data, APPLE_COMPANY_ID);
    let mut reasons: Vec<String> = Vec::new();
    if !(has_hid && (has_name || has_modalias || apple.is_some())) {
        assert(texts(reasons@) =~= reasons_for(device@));
        return reasons;
    }
    if has_name {
        reasons.push("remote-like name".to_owned());
    }
    reasons.push("HID service".to_owned());
    if has_modalias {
        reasons.push("Apple modalias".to_owned());
    }
    if let Some(i) = apple {
        reasons.push("Apple manufacturer data".to_owned());
        if starts_with_hid_prefix(device.manufacturer_data[i].1.as_slice()) {
            reasons.push("Apple HID manufacturer prefix".to_owned());
        }
    }
    assert(texts(reasons@) =~= reasons_for(device@));
    reasons
}

// -- Listing ------------------------------------------------------------------

/// The order of listed devices: by address, then by path.
pub open spec fn remote_le(a: RemoteView, b: RemoteView) -> bool {
    if a.address == b.address {
        text_le(a.path, b.path)
    } else {
        text_le(a.address, b.address)
    }
}

impl Ranked for RemoteDevice {
    open spec fn ranks_le(&self, other: &Self) -> bool {
        remote_le(self@, other@)
    }

    proof fn ranks_total(&self, other: &Self) {
        lemma_text_le_total(self.address@, other.address@);
        lemma_text_le_total(self.path@, other.path@);
    }

    proof fn ranks_transitive(&self, middle: &Self, last: &Self) {
        if self.address@ == middle.address@ && middle.address@ == last.address@ {
            lemma_text_le_transitive(self.path@, middle.path@, last.path@);
        } else {
            lemma_text_le_total(self.address@, middle.address@);
            lemma_text_le_total(middle.address@, last.address@);
            lemma_text_le_transitive(self.address@, middle.address@, last.address@);
        }
    }

    fn goes_before(&self, other: &Self) -> bool {
        if same_text(self.address.as_str(), other.address.as_str()) {
            le_text(self.path.as_str(), other.path.as_str())
        } else {
            le_text(self.address.as_str(), other.address.as_str())
        }
    }
}

/// The addresses of an allow-list, in the form in which they are compared.
pub open spec fn wanted_keys(addresses: Seq<String>) -> Seq<Seq<char>> {
    Seq::new(addresses.len(), |i: int| address_key(addresses[i]@))
}

/// Whether a snapshot is to be listed: on the allow-list where there is one,
/// paired or bonded, and recognised as a Siri Remote.
pub open spec fn is_listed(device: RemoteView, wanted: Option<Seq<Seq<char>>>) -> bool {
    &&& wanted matches Some(keys) ==> keys.contains(device.address)
    &&& device.paired || device.bonded
    &&& is_remote(device)
}

/// The listed snapshots, with their reasons, in the order of the objects.
pub open spec fn listed(objects: Seq<DeviceObject>, wanted: Option<Seq<Seq<char>>>) -> Seq<
    RemoteView,
>
    decreases objects.len(),
{
    if objects.len() == 0 {
        seq![]
    } else {
        let before = listed(objects.drop_last(), wanted);
        match remote_of(objects.last()) {
            Some(device) if is_listed(device, wanted) => before.push(
                RemoteView { reasons: reasons_for(device), ..device },
            ),
            _ => before,
        }
    }
}

/// What each snapshot says.
pub open spec fn remote_views(devices: Seq<RemoteDevice>) -> Seq<RemoteView> {
    Seq::new(devices.len(), |i: int| devices[i]@)
}

/// Whether a device is to be listed; fills in its reasons if so.
fn keep_if_listed(device: RemoteDevice, wanted: &Option<Vec<String>>) -> (kept: Option<RemoteDevice>)
    ensures
        ({
            let keys = match wanted {
                Some(w) => Some(texts(w@)),
                None => None,
            };
            match kept {
                Some(k) => is_listed(device@, keys) && k@ == (RemoteView {
                    reasons: reasons_for(device@),
                    ..device@
                }),
                None => !is_listed(device@, keys),
            }
        }),
{
    if let Some(keys) = wanted {
        if !lists_text(keys, device.address.as_str()) {
            return None;
        }
    }
    if !device.paired && !device.bonded {
        return None;
    }
    let reasons = match_reasons(&device);
    if reasons.len() == 0 {
        proof {
            if is_remote(device@) {
                let all = reasons_for(device@);
                let n = listed_if(has_remote_name(device@), "remote-like name"@).len() as int;
                assert(all.len() > n);
            }
            assert(texts(reasons@).len() == 0);
        }
        return None;
    }
    assert(texts(reasons@).len() > 0);
    let mut kept = device;
    kept.reasons = reasons;
    Some(kept)
}

/// Enumerate every paired/bonded device whose fingerprint matches a Siri
/// Remote, ordered by address and then path. Optionally filtered to an address
/// allow-list.
pub fn list_siri_remotes(
    objects: Vec<DeviceObject>,
    addresses: Option<&Vec<String>>,
) -> (remotes: Vec<RemoteDevice>)
    ensures
        ({
            let keys = match addresses {
                Some(a) => Some(wanted_keys(a@)),
                None => None,
            };
            exists|found: Seq<RemoteDevice>|
                remote_views(found) == listed(objects@, keys) && #[trigger] is_stable_sort(
                    found,
                    remotes@,
                )
        }),
{
    let ghost keys = match addresses {
        Some(a) => Some(wanted_keys(a@)),
        None => None,
    };
    let wanted: Option<Vec<String>> = match addresses {
        Some(addresses) => {
            let mut out: Vec<String> = Vec::new();
            let mut i: usize = 0;
            while i < addresses.len()
                invariant
                    i <= addresses.len(),
                    out@.len() == i,
                    forall|j: int|
                        0 <= j < i ==> (#[trigger] out@[j])@ == address_key(addresses@[j]@),
                decreases addresses.len() - i,
            {
                out.push(trim_text(addresses[i].as_str()).as_str().to_uppercase());
                i = i + 1;
            }
            assert(texts(out@) =~= wanted_keys(addresses@));
            Some(out)
        },
        None => None,
    };
    let mut found: Vec<RemoteDevice> = Vec::new();
    for object in it: objects
        invariant
            remote_views(found@) == listed(it.seq().take(it.index()), keys),
            keys == match wanted {
                Some(w) => Some(texts(w@)),
                None => None,
            },
    {
        let ghost before = found@;
        let ghost upto = it.seq().take(it.index() + 1);
        assert(upto.drop_last() =~= it.seq().take(it.index()));
        assert(upto.last() == object);
        if let Some(device) = build_remote(object) {
            if let Some(kept) = keep_if_listed(device, &wanted) {
                found.push(kept);
                assert(remote_views(found@) =~= remote_views(before).push(kept@));
            }
        }
    }
    assert(objects@.take(objects@.len() as int) =~= objects@);
    stable_sort(found)
}

/// Whether a device has the given address.
pub open spec fn has_address(object: DeviceObject, address: Seq<char>) -> bool {
    object.props.address is Some && address_key(object.props.address->0@) == address_key(address)
}

/// The object path of the first device with the given address.
pub fn device_path_from_address(objects: &Vec<DeviceObject>, address: &str) -> (path: Result<
    String,
    String,
>)
    ensures
        match path {
            Ok(path) => exists|i: int|
                #![trigger objects@[i]]
                {
                    &&& 0 <= i < objects@.len()
                    &&& has_address(objects@[i], address@)
                    &&& path@ == objects@[i].path@
                    &&& forall|j: int| 0 <= j < i ==> !has_address(#[trigger] objects@[j], address@)
                },
            Err(message) => {
                &&& forall|i: int|
                    0 <= i < objects@.len() ==> !has_address(#[trigger] objects@[i], address@)
                &&& message@ == "could not find BlueZ device path for address "@ + address@
            },
        },
{
    let needle = trim_text(address).as_str().to_uppercase();
    let mut i: usize = 0;
    while i < objects.len()
        invariant
            i <= objects.len(),
            needle@ == address_key(address@),
            forall|j: int| 0 <= j < i ==> !has_address(#[trigger] objects@[j], address@),
        decreases objects.len() - i,
    {
        if let Some(found) = &objects[i].props.address {
            let known = trim_text(found.as_str()).as_str().to_uppercase();
            if same_text(known.as_str(), needle.as_str()) {
                return Ok(objects[i].path.clone());
            }
        }
        i = i + 1;
    }
    let mut message = "could not find BlueZ device path for address ".to_owned();
    message.append(address);
    Err(message)
}

// -- Laws ---------------------------------------------------------------------

/// A device that is listed is paired or bonded, offers the HID service, and has
/// a reason to be listed.
pub proof fn law_listed_is_a_remote(device: RemoteView, wanted: Option<Seq<Seq<char>>>)
    requires
        is_listed(device, wanted),
    ensures
        device.paired || device.bonded,
        has_hid_service(device),
        reasons_for(device).contains("HID service"@),
        wanted matches Some(keys) ==> keys.contains(device.address),
{
    let all = reasons_for(device);
    let n = listed_if(has_remote_name(device), "remote-like name"@).len() as int;
    assert(all[n] == "HID service"@);
}

/// What a device adds to the listing, if anything.
pub open spec fn entry_of(object: DeviceObject, wanted: Option<Seq<Seq<char>>>) -> Option<
    RemoteView,
> {
    match remote_of(object) {
        Some(device) if is_listed(device, wanted) => Some(
            RemoteView { reasons: reasons_for(device), ..device },
        ),
        _ => None,
    }
}

proof fn lemma_listed_contains(
    objects: Seq<DeviceObject>,
    wanted: Option<Seq<Seq<char>>>,
    v: RemoteView,
)
    ensures
        listed(objects, wanted).contains(v) <==> exists|i: int|
            0 <= i < objects.len() && #[trigger] entry_of(objects[i], wanted) == Some(v),
    decreases objects.len(),
{
    if objects.len() > 0 {
        let rest = objects.drop_last();
        let n = objects.len() - 1;
        lemma_listed_contains(rest, wanted, v);
        let before = listed(rest, wanted);
        let all = listed(objects, wanted);
        assert(entry_of(objects[n], wanted) == entry_of(objects.last(), wanted));
        if before.contains(v) {
            let i = choose|i: int|
                0 <= i < rest.len() && #[trigger] entry_of(rest[i], wanted) == Some(v);
            assert(entry_of(objects[i], wanted) == Some(v));
            let k = choose|k: int| 0 <= k < before.len() && before[k] == v;
            assert(all[k] == v);
        }
        if entry_of(objects[n], wanted) == Some(v) {
            assert(all.last() == v);
        }
        if all.contains(v) {
            let k = choose|k: int| 0 <= k < all.len() && all[k] == v;
            if k < before.len() {
                assert(before[k] == v);
            }
        }
        if exists|i: int|
            0 <= i < objects.len() && #[trigger] entry_of(objects[i], wanted) == Some(v) {
            let i = choose|i: int|
                0 <= i < objects.len() && #[trigger] entry_of(objects[i], wanted) == Some(v);
            if i < n {
                assert(entry_of(rest[i], wanted) == Some(v));
            }
        }
    }
}

/// Whether no two devices share a path.
pub open spec fn distinct_paths(objects: Seq<DeviceObject>) -> bool {
    forall|i: int, j: int|
        0 <= i < j < objects.len() ==> (#[trigger] objects[i]).path@ != (
        #[trigger] objects[j]).path@
}

proof fn lemma_listed_distinct(objects: Seq<DeviceObject>, wanted: Option<Seq<Seq<char>>>)
    requires
        distinct_paths(objects),
    ensures
        forall|i: int, j: int|
            0 <= i < j < listed(objects, wanted).len() ==> (#[trigger] listed(
                objects,
                wanted,
            )[i]).path != (#[trigger] listed(objects, wanted)[j]).path,
    decreases objects.len(),
{
    if objects.len() > 0 {
        let rest = objects.drop_last();
        let n = objects.len() - 1;
        lemma_listed_distinct(rest, wanted);
        let before = listed(rest, wanted);
        let all = listed(objects, wanted);
        assert forall|i: int, j: int| 0 <= i < j < all.len() implies (#[trigger] all[i]).path != (
        #[trigger] all[j]).path by {
            if j < before.len() {
                assert(before[i].path != before[j].path);
            } else {
                assert(before.contains(before[i]));
                lemma_listed_contains(rest, wanted, before[i]);
                let k = choose|k: int|
                    0 <= k < rest.len() && #[trigger] entry_of(rest[k], wanted) == Some(before[i]);
                assert(objects[k].path@ != objects[n].path@);
            }
        }
    }
}

/// The listing does not depend on the order in which the devices are walked:
/// the same devices, none sharing a path, give the same listing.
pub proof fn law_listing_is_reproducible(
    objects_a: Seq<DeviceObject>,
    objects_b: Seq<DeviceObject>,
    wanted: Option<Seq<Seq<char>>>,
    found_a: Seq<RemoteDevice>,
    found_b: Seq<RemoteDevice>,
    remotes_a: Seq<RemoteDevice>,
    remotes_b: Seq<RemoteDevice>,
)
    requires
        forall|o: DeviceObject| #[trigger] objects_a.contains(o) <==> objects_b.contains(o),
        distinct_paths(objects_a),
        distinct_paths(objects_b),
        remote_views(found_a) == listed(objects_a, wanted),
        remote_views(found_b) == listed(objects_b, wanted),
        is_stable_sort(found_a, remotes_a),
        is_stable_sort(found_b, remotes_b),
    ensures
        remote_views(remotes_a) == remote_views(remotes_b),
{
    let shown = |r: RemoteDevice| r@;
    let before = |a: RemoteView, b: RemoteView| remote_le(a, b);
    assert(found_a.map_values(shown) =~= remote_views(found_a));
    assert(found_b.map_values(shown) =~= remote_views(found_b));
    assert(remotes_a.map_values(shown) =~= remote_views(remotes_a));
    assert(remotes_b.map_values(shown) =~= remote_views(remotes_b));
    lemma_no_remote_ties(objects_a, wanted, found_a);
    lemma_no_remote_ties(objects_b, wanted, found_b);
    assert forall|v: RemoteView| #[trigger]
        found_a.map_values(shown).contains(v) <==> found_b.map_values(shown).contains(v) by {
        lemma_listed_contains(objects_a, wanted, v);
        lemma_listed_contains(objects_b, wanted, v);
        if listed(objects_a, wanted).contains(v) {
            let i = choose|i: int|
                0 <= i < objects_a.len() && #[trigger] entry_of(objects_a[i], wanted) == Some(v);
            assert(objects_a.contains(objects_a[i]));
            assert(objects_b.contains(objects_a[i]));
            let k = choose|k: int| 0 <= k < objects_b.len() && objects_b[k] == objects_a[i];
            assert(entry_of(objects_b[k], wanted) == Some(v));
        }
        if listed(objects_b, wanted).contains(v) {
            let i = choose|i: int|
                0 <= i < objects_b.len() && #[trigger] entry_of(objects_b[i], wanted) == Some(v);
            assert(objects_b.contains(objects_b[i]));
            assert(objects_a.contains(objects_b[i]));
            let k = choose|k: int| 0 <= k < objects_a.len() && objects_a[k] == objects_b[i];
            assert(entry_of(objects_a[k], wanted) == Some(v));
        }
    }
    law_sort_is_reproducible(found_a, remotes_a, found_b, remotes_b, shown, before);
}

proof fn lemma_no_remote_ties(
    objects: Seq<DeviceObject>,
    wanted: Option<Seq<Seq<char>>>,
    found: Seq<RemoteDevice>,
)
    requires
        distinct_paths(objects),
        remote_views(found) == listed(objects, wanted),
    ensures
        no_ties(
            found,
            |r: RemoteDevice| r@,
            |a: RemoteView, b: RemoteView| remote_le(a, b),
        ),
{
    lemma_listed_distinct(objects, wanted);
    let views = listed(objects, wanted);
    assert forall|i: int, j: int|
        0 <= i < found.len() && 0 <= j < found.len() && i != j implies !(remote_le(
        (#[trigger] found[i])@,
        (#[trigger] found[j])@,
    ) && remote_le(found[j]@, found[i]@)) by {
        assert(views[i] == found[i]@ && views[j] == found[j]@);
        if i < j {
            assert(views[i].path != views[j].path);
        } else {
            assert(views[j].path != views[i].path);
        }
        lemma_text_le_total(views[i].path, views[j].path);
        lemma_text_le_total(views[i].address, views[j].address);
    }
}

/// A device goes by its own name, without one by its alias, without either by
/// its address.
pub proof fn law_shown_name(device: RemoteView)
    ensures
        device.name.len() > 0 ==> shown_name(device) == device.name,
        device.name.len() == 0 && device.alias.len() > 0 ==> shown_name(device) == device.alias,
        device.name.len() == 0 && device.alias.len() == 0 ==> shown_name(device) == device.address,
{
}

/// The adapter of a device path is what comes before its last `/dev_`.
pub proof fn law_adapter_comes_before_the_device(adapter: Seq<char>, rest: Seq<char>)
    requires
        forall|i: int|
            0 < i && i + 5 <= rest.len() + 5 ==> #[trigger] ("/dev_"@ + rest).subrange(i, i + 5)
                != "/dev_"@,
    ensures
        adapter_of(adapter + "/dev_"@ + rest) == Some(adapter),
{
    reveal_strlit("/dev_");
    let path = adapter + "/dev_"@ + rest;
    let n = adapter.len() as int;
    assert(path.subrange(n, n + 5) =~= "/dev_"@);
    assert forall|i: int| n < i <= path.len() implies !(i + "/dev_"@.len() <= path.len()
        && #[trigger] path.subrange(i, i + "/dev_"@.len()) == "/dev_"@) by {
        if i + 5 <= path.len() {
            assert(path.subrange(i, i + 5) =~= ("/dev_"@ + rest).subrange(i - n, i - n + 5));
        }
    }
    lemma_last_index_found(path, "/dev_"@, path.len() as int, n);
    assert(path.take(n) =~= adapter);
}

proof fn lemma_last_index_found(hay: Seq<char>, needle: Seq<char>, from: int, at: int)
    requires
        0 <= at <= from,
        at + needle.len() <= hay.len(),
        hay.subrange(at, at + needle.len()) == needle,
        forall|i: int|
            at < i <= from ==> !(i + needle.len() <= hay.len() && #[trigger] hay.subrange(
                i,
                i + needle.len(),
            ) == needle),
    ensures
        last_index(hay, needle, from) == at,
    decreases from - at,
{
    if from > at {
        assert(!(from + needle.len() <= hay.len() && hay.subrange(from, from + needle.len())
            == needle));
        lemma_last_index_found(hay, needle, from - 1, at);
    }
}

/// A path without `/dev_` has no adapter.
pub proof fn law_no_device_no_adapter(path: Seq<char>)
    requires
        forall|i: int|
            0 <= i && i + 5 <= path.len() ==> #[trigger] path.subrange(i, i + 5) != "/dev_"@,
    ensures
        adapter_of(path) is None,
{
    reveal_strlit("/dev_");
    lemma_last_index_missing(path, path.len() as int);
}

proof fn lemma_last_index_missing(path: Seq<char>, from: int)
    requires
        "/dev_"@.len() == 5,
        -1 <= from,
        forall|i: int|
            0 <= i && i + 5 <= path.len() ==> #[trigger] path.subrange(i, i + 5) != "/dev_"@,
    ensures
        last_index(path, "/dev_"@, from) == -1,
    decreases from + 1,
{
    if from >= 0 {
        if from + 5 <= path.len() {
            assert(path.subrange(from, from + 5) != "/dev_"@);
        }
        lemma_last_index_missing(path, from - 1);
    }
}

/// A snapshot holds what the object's properties say: the address trimmed and
/// raised, UUIDs lowered, absent texts empty and absent flags unset.
pub proof fn law_snapshot_keeps_properties(object: DeviceObject, i: int)
    requires
        remote_of(object) is Some,
    ensures
        ({
            let r = remote_of(object)->0;
            let p = object.props;
            &&& r.path == object.path@
            &&& adapter_of(object.path@) == Some(r.adapter_path)
            &&& p.address is Some && r.address == uppercased(trimmed(p.address->0@))
            &&& r.address.len() > 0
            &&& p.name matches Some(n) ==> r.name == n@
            &&& p.name is None ==> r.name.len() == 0
            &&& p.alias matches Some(a) ==> r.alias == a@
            &&& p.alias is None ==> r.alias.len() == 0
            &&& p.modalias matches Some(m) ==> r.modalias == m@
            &&& p.modalias is None ==> r.modalias.len() == 0
            &&& r.paired <==> p.paired == Some(true)
            &&& r.bonded <==> p.bonded == Some(true)
            &&& r.trusted <==> p.trusted == Some(true)
            &&& r.connected <==> p.connected == Some(true)
            &&& r.uuids.len() == p.uuids@.len()
            &&& 0 <= i < p.uuids@.len() ==> r.uuids[i] == lowercased(p.uuids@[i]@)
            &&& r.manufacturer_data == p.manufacturer_data@
            &&& r.reasons.len() == 0
        }),
{
}

/// A device has a snapshot exactly where it has an address and its path names
/// an adapter.
pub proof fn law_snapshot_exists(object: DeviceObject)
    ensures
        remote_of(object) is Some <==> object.props.address is Some && uppercased(
            trimmed(object.props.address->0@),
        ).len() > 0 && adapter_of(object.path@) is Some,
{
}

/// A device is a Siri Remote where it offers the HID service and is marked by
/// its name, by Apple's modalias or by Apple's data.
pub proof fn law_remote_marks(device: RemoteView)
    ensures
        ({
            let names = lowercased(device.name + " "@ + device.alias);
            is_remote(device) <==> {
                &&& device.uuids.contains("00001812-0000-1000-8000-00805f9b34fb"@)
                &&& {
                    ||| contains_seq(names, "siri remote"@)
                    ||| contains_seq(names, "apple tv remote"@)
                    ||| contains_seq(names, "apple remote"@)
                    ||| starts_with_seq(lowercased(device.modalias), "bluetooth:v004c"@)
                    ||| company_data(device.manufacturer_data, 0x004C) is Some
                }
            }
        }),
{
    let names = lowercased(device.name + " "@ + device.alias);
    let k = REMOTE_NAME_KEYWORDS@;
    assert(k[0]@ == "siri remote"@ && k[1]@ == "apple tv remote"@ && k[2]@ == "apple remote"@);
    if contains_seq(names, "siri remote"@) {
        assert(contains_seq(names, k[0]@));
    }
    if contains_seq(names, "apple tv remote"@) {
        assert(contains_seq(names, k[1]@));
    }
    if contains_seq(names, "apple remote"@) {
        assert(contains_seq(names, k[2]@));
    }
}

/// The reasons name each mark that the device bears, and none that it does not.
pub proof fn law_reasons_are_the_marks(device: RemoteView)
    ensures
        !is_remote(device) ==> reasons_for(device).len() == 0,
        is_remote(device) ==> {
            let apple = company_data(device.manufacturer_data, 0x004C);
            reasons_for(device) == listed_if(has_remote_name(device), "remote-like name"@) + seq![
                "HID service"@,
            ] + listed_if(
                starts_with_seq(lowercased(device.modalias), "bluetooth:v004c"@),
                "Apple modalias"@,
            ) + listed_if(apple is Some, "Apple manufacturer data"@) + listed_if(
                apple is Some && apple->0.len() >= 2 && apple->0[0] == 0x07 && apple->0[1] == 0x0D,
                "Apple HID manufacturer prefix"@,
            )
        },
{
    if is_remote(device) {
        assert(listed_if(true, "HID service"@) =~= seq!["HID service"@]);
    }
}

/// An object joins the listing exactly where it has a snapshot that is paired or
/// bonded, wanted, and a Siri Remote's; it brings its reasons along.
pub proof fn law_listing_grows(objects: Seq<DeviceObject>, wanted: Option<Seq<Seq<char>>>)
    requires
        objects.len() > 0,
    ensures
        ({
            let before = listed(objects.drop_last(), wanted);
            let r = remote_of(objects.last());
            let joins = r is Some && (r->0.paired || r->0.bonded) && is_remote(r->0) && (
            wanted is None || wanted->0.contains(r->0.address));
            &&& !joins ==> listed(objects, wanted) == before
            &&& joins ==> {
                let all = listed(objects, wanted);
                &&& all.len() == before.len() + 1
                &&& all.drop_last() == before
                &&& all.last().reasons == reasons_for(r->0)
                &&& all.last().address == r->0.address
                &&& all.last().path == r->0.path
                &&& all.last().adapter_path == r->0.adapter_path
                &&& all.last().name == r->0.name && all.last().alias == r->0.alias
                &&& all.last().paired == r->0.paired && all.last().bonded == r->0.bonded
                &&& all.last().trusted == r->0.trusted && all.last().connected == r->0.connected
            }
        }),
        listed(Seq::<DeviceObject>::empty(), wanted).len() == 0,
{
    let before = listed(objects.drop_last(), wanted);
    let all = listed(objects, wanted);
    if all.len() > before.len() {
        assert(all.drop_last() =~= before);
    }
}

/// Listed devices go by address, and under one address by path.
pub proof fn law_listing_order(a: RemoteView, b: RemoteView)
    ensures
        a.address == b.address ==> (remote_le(a, b) <==> text_le(a.path, b.path)),
        a.address != b.address ==> (remote_le(a, b) <==> text_le(a.address, b.address)),
{
}

/// Addresses are compared without the white space around them and in upper
/// case.
pub proof fn law_addresses_compare(object: DeviceObject, address: Seq<char>)
    ensures
        has_address(object, address) <==> object.props.address is Some && uppercased(
            trimmed(object.props.address->0@),
        ) == uppercased(trimmed(address)),
{
}

/// An allow-list is compared entry by entry, each trimmed and raised.
pub proof fn law_allow_list(addresses: Seq<String>, i: int)
    requires
        0 <= i < addresses.len(),
    ensures
        wanted_keys(addresses).len() == addresses.len(),
        wanted_keys(addresses)[i] == uppercased(trimmed(addresses[i]@)),
{
}

} // verus!
