//! HID Report characteristics as a BLE stack presents them: finding them,
//! ranking them for the input-enable byte, and choosing how to write it.
//!
//! A characteristic is known here by its UUID as a 128-bit number and by its
//! property bits; positions in the given list stand for the characteristics.

use vstd::arithmetic::power::pow;
use vstd::prelude::*;

use crate::decoder::{raw_hex, raw_hex_text};
use crate::order::{is_stable_sort, law_sort_ascends, law_sort_keeps_items, stable_sort, Ranked};
use crate::text::digit;

verus! {

pub const HID_REPORT_UUID: u128 = 0x0000_2a4d_0000_1000_8000_0080_5f9b_34fb;

pub const BATTERY_LEVEL_UUID: u128 = 0x0000_2a19_0000_1000_8000_0080_5f9b_34fb;

pub const BATTERY_POWER_UUID: u128 = 0x0000_2a1a_0000_1000_8000_0080_5f9b_34fb;

pub const REPORT_REFERENCE_UUID: u128 = 0x0000_2908_0000_1000_8000_0080_5f9b_34fb;

/// Byte the Siri Remote expects on any HID report characteristic before it
/// will start streaming input notifications.
pub const INPUT_ENABLE_BYTE: u8 = 0xAF;

// -- Property bits ------------------------------------------------------------

pub const PROP_BROADCAST: u8 = 0x01;

pub const PROP_READ: u8 = 0x02;

pub const PROP_WRITE_WITHOUT_RESPONSE: u8 = 0x04;

pub const PROP_WRITE: u8 = 0x08;

pub const PROP_NOTIFY: u8 = 0x10;

pub const PROP_INDICATE: u8 = 0x20;

pub const PROP_AUTHENTICATED_SIGNED_WRITES: u8 = 0x40;

pub const PROP_EXTENDED_PROPERTIES: u8 = 0x80;

/// Whether a characteristic can be written in either way.
pub open spec fn is_writable(properties: u8) -> bool {
    properties & PROP_WRITE != 0 || properties & PROP_WRITE_WITHOUT_RESPONSE != 0
}

/// Whether a characteristic can be written in either way.
pub fn writable(properties: u8) -> (r: bool)
    ensures
        r == is_writable(properties),
{
    properties & PROP_WRITE != 0 || properties & PROP_WRITE_WITHOUT_RESPONSE != 0
}

/// Whether a characteristic offers notifications or indications.
pub open spec fn is_notifiable(properties: u8) -> bool {
    properties & PROP_NOTIFY != 0 || properties & PROP_INDICATE != 0
}

/// Whether a characteristic offers notifications or indications.
pub fn notifiable(properties: u8) -> (r: bool)
    ensures
        r == is_notifiable(properties),
{
    properties & PROP_NOTIFY != 0 || properties & PROP_INDICATE != 0
}

// -- UUID text ----------------------------------------------------------------

/// The hexadecimal digit of `v` at position `k`, counted from the right.
pub open spec fn nibble(v: u128, k: int) -> nat {
    ((v as int / pow(16, k as nat)) % 16) as nat
}

/// The hyphenated lowercase form of a UUID: groups of 8, 4, 4, 4 and 12 digits.
pub open spec fn uuid_form(v: u128) -> Seq<char> {
    Seq::new(
        36,
        |i: int|
            if i == 8 || i == 13 || i == 18 || i == 23 {
                '-'
            } else {
                let hyphens: int = if i < 8 {
                    0
                } else if i < 13 {
                    1
                } else if i < 18 {
                    2
                } else if i < 23 {
                    3
                } else {
                    4
                };
                digit(nibble(v, 31 - (i - hyphens)))
            },
    )
}

/// Render a UUID.
///
/// Calls `uuid::Uuid::from_u128` and the `Display` form of the result, which
/// is the hyphenated lowercase form.
#[verifier::external_body]
pub(crate) fn uuid_text(v: u128) -> (s: String)
    ensures
        s@ == uuid_form(v),
{
    uuid::Uuid::from_u128(v).to_string()
}

// -- Finding characteristics --------------------------------------------------

/// What a characteristic offers.
#[derive(Clone, Copy, Debug, PartialEq, Eq, Structural)]
pub struct Characteristic {
    pub uuid: u128,
    pub properties: u8,
}

/// Position of the first characteristic with the given UUID.
pub fn find_by_uuid(characteristics: &[Characteristic], uuid: u128) -> (found: Option<usize>)
    ensures
        match found {
            Some(i) => {
                &&& i < characteristics@.len()
                &&& characteristics@[i as int].uuid == uuid
                &&& forall|j: int| 0 <= j < i ==> (#[trigger] characteristics@[j]).uuid != uuid
            },
            None => forall|j: int|
                0 <= j < characteristics@.len() ==> (#[trigger] characteristics@[j]).uuid != uuid,
        },
{
    let mut i: usize = 0;
    while i < characteristics.len()
        invariant
            i <= characteristics.len(),
            forall|j: int| 0 <= j < i ==> (#[trigger] characteristics@[j]).uuid != uuid,
        decreases characteristics.len() - i,
    {
        if characteristics[i].uuid == uuid {
            return Some(i);
        }
        i = i + 1;
    }
    None
}

/// The positions, in order, of the HID Report characteristics among the first
/// `n`.
pub open spec fn report_positions(characteristics: Seq<Characteristic>, n: int) -> Seq<usize>
    decreases n,
{
    if n <= 0 {
        seq![]
    } else {
        let before = report_positions(characteristics, n - 1);
        if characteristics[n - 1].uuid == HID_REPORT_UUID {
            before.push((n - 1) as usize)
        } else {
            before
        }
    }
}

/// Positions of the HID Report characteristics, in order.
pub fn hid_reports(characteristics: &[Characteristic]) -> (positions: Vec<usize>)
    ensures
        positions@ == report_positions(characteristics@, characteristics@.len() as int),
{
    let mut positions: Vec<usize> = Vec::new();
    let mut i: usize = 0;
    while i < characteristics.len()
        invariant
            i <= characteristics.len(),
            positions@ == report_positions(characteristics@, i as int),
        decreases characteristics.len() - i,
    {
        if characteristics[i].uuid == HID_REPORT_UUID {
            positions.push(i);
        }
        i = i + 1;
    }
    positions
}

/// Position of a characteristic's Report Reference descriptor, if it has one.
pub fn report_reference(descriptors: &[u128]) -> (found: Option<usize>)
    ensures
        match found {
            Some(i) => {
                &&& i < descriptors@.len()
                &&& descriptors@[i as int] == REPORT_REFERENCE_UUID
                &&& forall|j: int|
                    0 <= j < i ==> #[trigger] descriptors@[j] != REPORT_REFERENCE_UUID
            },
            None => forall|j: int|
                0 <= j < descriptors@.len() ==> #[trigger] descriptors@[j]
                    != REPORT_REFERENCE_UUID,
        },
{
    let mut i: usize = 0;
    while i < descriptors.len()
        invariant
            i <= descriptors.len(),
            forall|j: int| 0 <= j < i ==> #[trigger] descriptors@[j] != REPORT_REFERENCE_UUID,
        decreases descriptors.len() - i,
    {
        if descriptors[i] == REPORT_REFERENCE_UUID {
            return Some(i);
        }
        i = i + 1;
    }
    None
}

// -- Ranking for the input-enable byte ----------------------------------------

/// A report characteristic together with what its Report Reference descriptor
/// read as, where that read succeeded.
pub struct ReportState {
    pub uuid: u128,
    pub properties: u8,
    pub reference: Option<Vec<u8>>,
}

/// The rank of a writable report: 0 where the Report Reference calls it an
/// Output report, 2 where it is not notifiable (some Output reports lack
/// NOTIFY), 3 otherwise.
pub open spec fn enable_rank(report: ReportState) -> u8 {
    if report.reference is Some && report.reference->0@.len() > 1 && report.reference->0@[1] == 2 {
        0
    } else if report.properties & PROP_NOTIFY == 0 {
        2
    } else {
        3
    }
}

/// One writable report, placed by rank and then by UUID.
#[derive(Clone, Copy, Debug, PartialEq, Eq, Structural)]
pub struct EnableCandidate {
    pub rank: u8,
    pub uuid: u128,
    /// Position in the list of reports.
    pub position: usize,
}

impl Ranked for EnableCandidate {
    open spec fn ranks_le(&self, other: &Self) -> bool {
        self.rank < other.rank || (self.rank == other.rank && self.uuid <= other.uuid)
    }

    proof fn ranks_total(&self, other: &Self) {
    }

    proof fn ranks_transitive(&self, middle: &Self, last: &Self) {
    }

    fn goes_before(&self, other: &Self) -> bool {
        self.rank < other.rank || (self.rank == other.rank && self.uuid <= other.uuid)
    }
}

/// The writable reports among the first `n`, in list order.
pub open spec fn enable_candidates(reports: Seq<ReportState>, n: int) -> Seq<EnableCandidate>
    decreases n,
{
    if n <= 0 {
        seq![]
    } else {
        let before = enable_candidates(reports, n - 1);
        let report = reports[n - 1];
        if is_writable(report.properties) {
            before.push(
                EnableCandidate {
                    rank: enable_rank(report),
                    uuid: report.uuid,
                    position: (n - 1) as usize,
                },
            )
        } else {
            before
        }
    }
}

/// The reports to send the input-enable byte to, best first: writable ones
/// only, by rank and then by UUID, equals in list order.
pub fn enable_order(reports: &Vec<ReportState>) -> (order: Result<Vec<EnableCandidate>, String>)
    ensures
        match order {
            Ok(order) => {
                &&& enable_candidates(reports@, reports@.len() as int).len() > 0
                &&& is_stable_sort(enable_candidates(reports@, reports@.len() as int), order@)
            },
            Err(message) => {
                &&& enable_candidates(reports@, reports@.len() as int).len() == 0
                &&& message@ == "no writable HID report characteristic found"@
            },
        },
{
    let mut candidates: Vec<EnableCandidate> = Vec::new();
    let mut i: usize = 0;
    while i < reports.len()
        invariant
            i <= reports.len(),
            candidates@ == enable_candidates(reports@, i as int),
        decreases reports.len() - i,
    {
        let report = &reports[i];
        if writable(report.properties) {
            let is_output = match &report.reference {
                Some(bytes) => bytes.len() > 1 && bytes[1] == 2,
                None => false,
            };
            let rank: u8 = if is_output {
                0
            } else if report.properties & PROP_NOTIFY == 0 {
                2
            } else {
                3
            };
            candidates.push(EnableCandidate { rank, uuid: report.uuid, position: i });
        }
        i = i + 1;
    }
    if candidates.len() == 0 {
        return Err("no writable HID report characteristic found".to_owned());
    }
    Ok(stable_sort(candidates))
}

/// The announcement of an attempt on one report.
pub open spec fn enable_text(report: ReportState) -> Seq<char> {
    "Sending input-enable byte to report uuid="@ + uuid_form(report.uuid) + " report_ref="@ + (
    match report.reference {
        Some(bytes) => raw_hex_text(bytes@),
        None => "unknown"@,
    }) + "."@
}

/// Announce an attempt on one report.
pub fn enable_line(report: &ReportState) -> (out: String)
    ensures
        out@ == enable_text(*report),
{
    let mut out = "Sending input-enable byte to report uuid=".to_owned();
    out.append(uuid_text(report.uuid).as_str());
    out.append(" report_ref=");
    match &report.reference {
        Some(bytes) => out.append(raw_hex(bytes.as_slice()).as_str()),
        None => out.append("unknown"),
    }
    out.append(".");
    out
}

/// How a value is written to a characteristic.
#[derive(Clone, Copy, Debug, PartialEq, Eq, Structural)]
pub enum WriteType {
    WithoutResponse,
    WithResponse,
}

/// The ways to try a write, in order: without response first where the
/// characteristic has it, then with response.
pub open spec fn write_attempts(properties: u8) -> Seq<WriteType> {
    (if properties & PROP_WRITE_WITHOUT_RESPONSE != 0 {
        seq![WriteType::WithoutResponse]
    } else {
        seq![]
    }) + (if properties & PROP_WRITE != 0 {
        seq![WriteType::WithResponse]
    } else {
        seq![]
    })
}

/// The ways to try a write, in order.
pub fn write_order(properties: u8) -> (attempts: Vec<WriteType>)
    ensures
        attempts@ == write_attempts(properties),
{
    let mut attempts: Vec<WriteType> = Vec::new();
    if properties & PROP_WRITE_WITHOUT_RESPONSE != 0 {
        attempts.push(WriteType::WithoutResponse);
    }
    if properties & PROP_WRITE != 0 {
        attempts.push(WriteType::WithResponse);
    }
    attempts
}

/// One write of the input-enable byte to try.
#[derive(Clone, Copy, Debug, PartialEq, Eq, Structural)]
pub struct EnableAttempt {
    /// Position in the list of reports.
    pub position: usize,
    pub how: WriteType,
    /// Whether this is the first attempt on its report, to be announced.
    pub first: bool,
}

/// The attempts on one report, in order.
pub open spec fn report_attempts(position: usize, properties: u8) -> Seq<EnableAttempt> {
    Seq::new(
        write_attempts(properties).len(),
        |i: int| EnableAttempt { position, how: write_attempts(properties)[i], first: i == 0 },
    )
}

/// The attempts on the first `n` candidates, in order.
pub open spec fn all_attempts(
    reports: Seq<ReportState>,
    order: Seq<EnableCandidate>,
    n: int,
) -> Seq<EnableAttempt>
    decreases n,
{
    if n <= 0 {
        seq![]
    } else {
        let position = order[n - 1].position;
        all_attempts(reports, order, n - 1) + report_attempts(
            position,
            reports[position as int].properties,
        )
    }
}

/// The writes of the input-enable byte to try, in order: report by report as
/// [`enable_order`] ranks them, each in the ways of [`write_order`].
pub fn enable_plan(reports: &Vec<ReportState>) -> (plan: Result<Vec<EnableAttempt>, String>)
    ensures
        match plan {
            Ok(plan) => {
                &&& enable_candidates(reports@, reports@.len() as int).len() > 0
                &&& exists|order: Seq<EnableCandidate>|
                    #[trigger] is_stable_sort(
                        enable_candidates(reports@, reports@.len() as int),
                        order,
                    ) && plan@ == all_attempts(reports@, order, order.len() as int)
            },
            Err(message) => {
                &&& enable_candidates(reports@, reports@.len() as int).len() == 0
                &&& message@ == "no writable HID report characteristic found"@
            },
        },
{
    let order = match enable_order(reports) {
        Ok(order) => order,
        Err(message) => {
            return Err(message);
        },
    };
    let ghost candidates = enable_candidates(reports@, reports@.len() as int);
    proof {
        assert(reports.len() == reports@.len());
        law_candidates_are_the_writable_reports(reports@, reports@.len() as int);
        law_sort_keeps_items(candidates, order@);
        assert forall|k: int| 0 <= k < order@.len() implies (#[trigger] order@[k]).position
            < reports@.len() by {
            assert(order@.contains(order@[k]));
            assert(candidates.contains(order@[k]));
        }
    }
    let mut plan: Vec<EnableAttempt> = Vec::new();
    let mut n: usize = 0;
    while n < order.len()
        invariant
            n <= order.len(),
            forall|k: int|
                0 <= k < order@.len() ==> (#[trigger] order@[k]).position < reports@.len(),
            plan@ == all_attempts(reports@, order@, n as int),
        decreases order.len() - n,
    {
        let position: usize = order[n].position;
        let properties: u8 = reports[position].properties;
        let ways = write_order(properties);
        let ghost before = plan@;
        let ghost here = report_attempts(position, properties);
        let mut i: usize = 0;
        while i < ways.len()
            invariant
                i <= ways.len(),
                ways@ == write_attempts(properties),
                here == report_attempts(position, properties),
                plan@ == before + here.take(i as int),
            decreases ways.len() - i,
        {
            plan.push(EnableAttempt { position, how: ways[i], first: i == 0 });
            assert(plan@ =~= before + here.take(i + 1));
            i = i + 1;
        }
        assert(here.take(i as int) =~= here);
        n = n + 1;
    }
    assert(is_stable_sort(candidates, order@));
    Ok(plan)
}

/// What to do about the input-enable byte next.
pub enum EnableStep {
    /// Write the byte in this way.
    Write(EnableAttempt),
    /// A report has accepted the byte.
    Done,
    Fail(String),
}

/// Go on with the plan when `tried` of its attempts have been made: the first
/// write that is accepted ends it, and so does the last that is refused.
pub fn enable_step(plan: &Vec<EnableAttempt>, tried: usize, accepted: bool) -> (step: EnableStep)
    ensures
        if accepted {
            step is Done
        } else if tried < plan@.len() {
            step == EnableStep::Write(plan@[tried as int])
        } else {
            &&& step matches EnableStep::Fail(message)
            &&& message@ == "could not send Siri Remote input-enable byte to any HID report"@
        },
{
    if accepted {
        EnableStep::Done
    } else if tried < plan.len() {
        EnableStep::Write(plan[tried])
    } else {
        EnableStep::Fail(
            "could not send Siri Remote input-enable byte to any HID report".to_owned(),
        )
    }
}

// -- Laws ---------------------------------------------------------------------

/// Before the byte is given up, every report of the order is tried in every way
/// that it offers.
pub proof fn law_plan_leaves_nothing_untried(
    reports: Seq<ReportState>,
    order: Seq<EnableCandidate>,
    n: int,
    k: int,
    i: int,
)
    requires
        0 <= k < n <= order.len(),
        0 <= i < write_attempts(reports[order[k].position as int].properties).len(),
    ensures
        all_attempts(reports, order, n).contains(
            EnableAttempt {
                position: order[k].position,
                how: write_attempts(reports[order[k].position as int].properties)[i],
                first: i == 0,
            },
        ),
    decreases n,
{
    let before = all_attempts(reports, order, n - 1);
    let position = order[n - 1].position;
    let here = report_attempts(position, reports[position as int].properties);
    let all = all_attempts(reports, order, n);
    let wanted = EnableAttempt {
        position: order[k].position,
        how: write_attempts(reports[order[k].position as int].properties)[i],
        first: i == 0,
    };
    if k == n - 1 {
        assert(all[before.len() + i] == wanted);
    } else {
        law_plan_leaves_nothing_untried(reports, order, n - 1, k, i);
        let at = choose|at: int| 0 <= at < before.len() && before[at] == wanted;
        assert(all[at] == wanted);
    }
}

/// Every candidate stands for a writable report of the list, with the rank and
/// UUID of that report, and every writable report has a candidate.
pub proof fn law_candidates_are_the_writable_reports(reports: Seq<ReportState>, n: int)
    requires
        0 <= n <= reports.len() <= usize::MAX,
    ensures
        forall|k: int|
            0 <= k < enable_candidates(reports, n).len() ==> {
                let c = #[trigger] enable_candidates(reports, n)[k];
                &&& c.position < n
                &&& is_writable(reports[c.position as int].properties)
                &&& c.rank == enable_rank(reports[c.position as int])
                &&& c.uuid == reports[c.position as int].uuid
            },
        forall|i: int|
            0 <= i < n && is_writable((#[trigger] reports[i]).properties) ==> exists|k: int|
                0 <= k < enable_candidates(reports, n).len() && (#[trigger] enable_candidates(
                    reports,
                    n,
                )[k]).position == i,
    decreases n,
{
    if n > 0 {
        law_candidates_are_the_writable_reports(reports, n - 1);
        let before = enable_candidates(reports, n - 1);
        let all = enable_candidates(reports, n);
        assert forall|i: int| 0 <= i < n && is_writable(
            (#[trigger] reports[i]).properties,
        ) implies exists|k: int|
            0 <= k < all.len() && (#[trigger] all[k]).position == i by {
            if i < n - 1 {
                let k = choose|k: int|
                    0 <= k < before.len() && (#[trigger] before[k]).position == i;
                assert(all[k].position == i);
            } else {
                assert(all[all.len() - 1].position == i);
            }
        }
    }
}

/// A report can be tried in some way exactly when it is writable.
pub proof fn law_attempts_exist_iff_writable(properties: u8)
    ensures
        write_attempts(properties).len() > 0 <==> is_writable(properties),
{
}

/// The property bits that allow a write, with response or without, and those
/// that allow notifications or indications.
pub proof fn law_property_bits(properties: u8)
    ensures
        is_writable(properties) <==> properties / 8 % 2 == 1 || properties / 4 % 2 == 1,
        is_notifiable(properties) <==> properties / 16 % 2 == 1 || properties / 32 % 2 == 1,
{
    assert((properties & 0x08 != 0) == (properties / 8 % 2 == 1)) by (bit_vector);
    assert((properties & 0x04 != 0) == (properties / 4 % 2 == 1)) by (bit_vector);
    assert((properties & 0x10 != 0) == (properties / 16 % 2 == 1)) by (bit_vector);
    assert((properties & 0x20 != 0) == (properties / 32 % 2 == 1)) by (bit_vector);
}

/// The HID Report characteristics are those with its UUID: each is listed, in
/// order, and nothing else is.
pub proof fn law_reports_by_uuid(characteristics: Seq<Characteristic>, n: int)
    requires
        0 <= n < characteristics.len() <= usize::MAX,
    ensures
        report_positions(characteristics, 0) == Seq::<usize>::empty(),
        characteristics[n].uuid == 0x00002a4d_0000_1000_8000_00805f9b34fb ==> report_positions(
            characteristics,
            n + 1,
        ) == report_positions(characteristics, n).push(n as usize),
        characteristics[n].uuid != 0x00002a4d_0000_1000_8000_00805f9b34fb ==> report_positions(
            characteristics,
            n + 1,
        ) == report_positions(characteristics, n),
{
}

/// A report whose reference calls it an Output comes first, one without
/// notifications second, any other last.
pub proof fn law_enable_ranks(report: ReportState)
    ensures
        report.reference matches Some(b) && b@.len() >= 2 && b@[1] == 2 ==> enable_rank(report)
            == 0,
        !(report.reference matches Some(b) && b@.len() >= 2 && b@[1] == 2) && report.properties / 16
            % 2 == 0 ==> enable_rank(report) == 2,
        !(report.reference matches Some(b) && b@.len() >= 2 && b@[1] == 2) && report.properties / 16
            % 2 == 1 ==> enable_rank(report) == 3,
{
    let p = report.properties;
    assert((p & 0x10 == 0) == (p / 16 % 2 == 0)) by (bit_vector);
}

/// The byte goes to reports of lower rank first, and within a rank by UUID.
pub proof fn law_enable_order(
    reports: Seq<ReportState>,
    order: Seq<EnableCandidate>,
    i: int,
    j: int,
)
    requires
        is_stable_sort(enable_candidates(reports, reports.len() as int), order),
        0 <= i < j < order.len(),
    ensures
        order[i].rank <= order[j].rank,
        order[i].rank == order[j].rank ==> order[i].uuid <= order[j].uuid,
{
    law_sort_ascends(enable_candidates(reports, reports.len() as int), order, i, j);
}

/// A write goes without response where that is offered, and with response
/// after that where it is.
pub proof fn law_write_ways(properties: u8)
    ensures
        properties / 4 % 2 == 1 && properties / 8 % 2 == 1 ==> write_attempts(properties) == seq![
            WriteType::WithoutResponse,
            WriteType::WithResponse,
        ],
        properties / 4 % 2 == 1 && properties / 8 % 2 == 0 ==> write_attempts(properties) == seq![
            WriteType::WithoutResponse,
        ],
        properties / 4 % 2 == 0 && properties / 8 % 2 == 1 ==> write_attempts(properties) == seq![
            WriteType::WithResponse,
        ],
        properties / 4 % 2 == 0 && properties / 8 % 2 == 0 ==> write_attempts(properties)
            == Seq::<WriteType>::empty(),
{
    assert((properties & 0x08 != 0) == (properties / 8 % 2 == 1)) by (bit_vector);
    assert((properties & 0x04 != 0) == (properties / 4 % 2 == 1)) by (bit_vector);
    let none = Seq::<WriteType>::empty();
    assert(write_attempts(properties).len() <= 2);
    if properties / 4 % 2 == 1 && properties / 8 % 2 == 1 {
        assert(write_attempts(properties) =~= seq![
            WriteType::WithoutResponse,
            WriteType::WithResponse,
        ]);
    } else if properties / 4 % 2 == 1 {
        assert(write_attempts(properties) =~= seq![WriteType::WithoutResponse]);
    } else if properties / 8 % 2 == 1 {
        assert(write_attempts(properties) =~= seq![WriteType::WithResponse]);
    } else {
        assert(write_attempts(properties) =~= none);
    }
}

/// The attempts go report by report: those on one candidate follow those on the
/// ones before it, the first of them announced.
pub proof fn law_attempts_in_order(
    reports: Seq<ReportState>,
    order: Seq<EnableCandidate>,
    n: int,
    i: int,
)
    requires
        0 <= n < order.len(),
        0 <= i < write_attempts(reports[order[n].position as int].properties).len(),
    ensures
        ({
            let before = all_attempts(reports, order, n);
            let all = all_attempts(reports, order, n + 1);
            let ways = write_attempts(reports[order[n].position as int].properties);
            &&& all.len() == before.len() + ways.len()
            &&& all.take(before.len() as int) == before
            &&& all[before.len() + i].position == order[n].position
            &&& all[before.len() + i].how == ways[i]
            &&& all[before.len() + i].first <==> i == 0
        }),
        all_attempts(reports, order, 0) == Seq::<EnableAttempt>::empty(),
{
    let before = all_attempts(reports, order, n);
    let all = all_attempts(reports, order, n + 1);
    assert(all.take(before.len() as int) =~= before);
}

/// The announcement of an attempt names the report and its reference bytes,
/// where they are known.
pub proof fn law_enable_line(report: ReportState)
    ensures
        report.reference matches Some(b) ==> enable_text(report)
            == "Sending input-enable byte to report uuid="@ + uuid_form(report.uuid)
            + " report_ref="@ + raw_hex_text(b@) + "."@,
        report.reference is None ==> enable_text(report)
            == "Sending input-enable byte to report uuid="@ + uuid_form(report.uuid)
            + " report_ref="@ + "unknown"@ + "."@,
{
}

} // verus!
