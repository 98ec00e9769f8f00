//! Ranking of advertisements and extraction of the Apple HID identity.
//!
//! Times are nanoseconds on one monotonic clock. A peripheral is known by a
//! number under which its owner finds it again.

use vstd::prelude::*;

use crate::decoder::{APPLE_COMPANY_ID, APPLE_HID_MFR_PREFIX};
use crate::text::{
    debug_quoted, debug_text, dec, dec_signed, hex2_upper, hex_value, join, law_hex_reads_back,
    push_dec, push_dec_signed, push_hex2_upper, same_text, uppercased,
};

verus! {

/// HID Service UUID (GATT short form `0x1812`, expanded to the BT base UUID).
pub const HID_SERVICE_UUID: u128 = 0x0000_1812_0000_1000_8000_0080_5f9b_34fb;

/// Minimum RSSI for a Siri Remote to be considered close enough to be the
/// user's intended device.
pub const MIN_RSSI: i16 = -55;

/// One second.
pub const SECOND: u64 = 1_000_000_000;

/// Drop candidates whose last advertisement is older than this. Apple rotates
/// the BLE address every ~20s; once it rotates, the old address stops being
/// advertised and a connect attempt would time out.
pub const STALE_AFTER: u64 = 5_000_000_000;

/// Longest wait between two rankings of a scan.
pub const SCAN_PAUSE: u64 = 2_000_000_000;

// -- Advertisements -----------------------------------------------------------

/// What a BLE stack knows of a peripheral from its advertisements.
#[derive(Clone, Debug)]
pub struct Advertisement {
    pub peripheral_id: u64,
    pub address: String,
    pub local_name: Option<String>,
    pub rssi: Option<i16>,
    pub services: Vec<u128>,
    /// Payloads by company identifier.
    pub manufacturer_data: Vec<(u16, Vec<u8>)>,
}

/// The payload of a company, the first one where several are listed.
pub open spec fn company_data(data: Seq<(u16, Vec<u8>)>, company: u16) -> Option<Seq<u8>>
    decreases data.len(),
{
    if data.len() == 0 {
        None
    } else if data[0].0 == company {
        Some(data[0].1@)
    } else {
        company_data(data.drop_first(), company)
    }
}

/// Position of the payload of a company.
pub fn find_company(data: &Vec<(u16, Vec<u8>)>, company: u16) -> (found: Option<usize>)
    ensures
        match found {
            Some(i) => i < data@.len() && company_data(data@, company) == Some(data@[i as int].1@),
            None => company_data(data@, company) is None,
        },
{
    let mut i: usize = 0;
    assert(data@.skip(0) =~= data@);
    while i < data.len()
        invariant
            i <= data.len(),
            company_data(data@, company) == company_data(data@.skip(i as int), company),
        decreases data.len() - i,
    {
        if data[i].0 == company {
            return Some(i);
        }
        assert(data@.skip(i as int).drop_first() =~= data@.skip(i + 1));
        i = i + 1;
    }
    None
}

/// Whether a payload starts with the Apple HID prefix.
pub open spec fn has_hid_prefix(mfr: Seq<u8>) -> bool {
    mfr.len() >= 2 && mfr[0] == APPLE_HID_MFR_PREFIX@[0] && mfr[1] == APPLE_HID_MFR_PREFIX@[1]
}

/// Whether a payload starts with the Apple HID prefix.
pub fn starts_with_hid_prefix(mfr: &[u8]) -> (r: bool)
    ensures
        r == has_hid_prefix(mfr@),
{
    mfr.len() >= 2 && mfr[0] == APPLE_HID_MFR_PREFIX[0] && mfr[1] == APPLE_HID_MFR_PREFIX[1]
}

/// Whether an advertisement matches a Siri Remote in pairing mode: HID service
/// present, Apple manufacturer data with the HID prefix, and an RSSI strong
/// enough that the device must be the one the user is holding.
pub open spec fn looks_like_remote(adv: Advertisement) -> bool {
    &&& adv.rssi is Some && adv.rssi->0 >= MIN_RSSI
    &&& adv.services@.contains(HID_SERVICE_UUID)
    &&& company_data(adv.manufacturer_data@, APPLE_COMPANY_ID) is Some
    &&& has_hid_prefix(company_data(adv.manufacturer_data@, APPLE_COMPANY_ID)->0)
}

/// Whether an advertisement matches a Siri Remote in pairing mode.
pub fn is_siri_remote(adv: &Advertisement) -> (r: bool)
    ensures
        r == looks_like_remote(*adv),
{
    match adv.rssi {
        Some(rssi) => {
            if rssi < MIN_RSSI {
                return false;
            }
        },
        None => {
            return false;
        },
    }
    if !lists_service(&adv.services, HID_SERVICE_UUID) {
        return false;
    }
    match find_company(&adv.manufacturer_data, APPLE_COMPANY_ID) {
        Some(i) => starts_with_hid_prefix(adv.manufacturer_data[i].1.as_slice()),
        None => false,
    }
}

fn lists_service(services: &Vec<u128>, wanted: u128) -> (r: bool)
    ensures
        r == services@.contains(wanted),
{
    let mut i: usize = 0;
    while i < services.len()
        invariant
            i <= services.len(),
            forall|j: int| 0 <= j < i ==> services@[j] != wanted,
        decreases services.len() - i,
    {
        if services[i] == wanted {
            return true;
        }
        i = i + 1;
    }
    false
}

/// The identity address in an Apple payload: bytes 6 to 11 as uppercase pairs
/// with colons between them. Observed layout in pairing mode:
///
/// ```text
/// 07 0d 02 15 03 02 | <6-byte identity address> | 4f 50 50
/// ```
pub open spec fn identity_in(mfr: Seq<u8>) -> Option<Seq<char>> {
    if mfr.len() >= 12 && has_hid_prefix(mfr) {
        Some(join(Seq::new(6, |i: int| hex2_upper(mfr[6 + i])), ":"@))
    } else {
        None
    }
}

/// Pull the Siri Remote's identity address out of the Apple manufacturer
/// payload. Returns `None` if the buffer is too short or doesn't carry the HID
/// prefix.
pub fn extract_identity_address(mfr: &[u8]) -> (address: Option<String>)
    ensures
        address is Some == identity_in(mfr@) is Some,
        address matches Some(s) ==> s@ == identity_in(mfr@)->0,
{
    if mfr.len() < 12 || !starts_with_hid_prefix(mfr) {
        return None;
    }
    let ghost pairs = Seq::new(6, |i: int| hex2_upper(mfr@[6 + i]));
    let mut s = String::new();
    let mut i: usize = 0;
    while i < 6
        invariant
            i <= 6,
            mfr@.len() >= 12,
            pairs == Seq::new(6, |i: int| hex2_upper(mfr@[6 + i])),
            s@ == join(pairs.take(i as int), ":"@),
        decreases 6 - i,
    {
        if i > 0 {
            s.append(":");
        }
        push_hex2_upper(&mut s, mfr[6 + i]);
        assert(pairs.take(i + 1).drop_last() =~= pairs.take(i as int));
        assert(s@ =~= join(pairs.take(i + 1), ":"@));
        i = i + 1;
    }
    assert(pairs.take(i as int) =~= pairs);
    Some(s)
}

/// The identity under which an advertisement is tracked, where it is.
pub open spec fn tracked_identity(adv: Advertisement) -> Option<Seq<char>> {
    if looks_like_remote(adv) {
        identity_in(company_data(adv.manufacturer_data@, APPLE_COMPANY_ID)->0)
    } else {
        None
    }
}

// -- Candidates ---------------------------------------------------------------

/// The sum of signal readings.
pub open spec fn total(rssis: Seq<i16>) -> int
    decreases rssis.len(),
{
    if rssis.len() == 0 {
        0
    } else {
        total(rssis.drop_last()) + rssis.last()
    }
}

/// Whether the mean of `a` is above the mean of `b`. Both hold readings.
pub open spec fn stronger(a: Seq<i16>, b: Seq<i16>) -> bool {
    total(a) * b.len() > total(b) * a.len()
}

/// Final selection from a scan, identified by Apple identity address. Its mean
/// signal strength is `rssi_total` over `hits`.
#[derive(Clone, Debug)]
pub struct Candidate {
    pub identity_address: String,
    pub peripheral_id: u64,
    pub last_address: String,
    pub last_rssi: i16,
    pub hits: usize,
    pub rssi_total: i128,
    pub last_name: Option<String>,
}

/// One identity address and the advertisements seen from it.
pub struct Sighted {
    pub identity: String,
    pub rssis: Vec<i16>,
    pub last_id: u64,
    pub last_address: String,
    pub last_name: Option<String>,
    pub last_seen: u64,
}

/// The name to show for a tracked remote: its own, or its identity address.
pub open spec fn shown_name(name: Option<String>, identity: Seq<char>) -> Seq<char> {
    match name {
        Some(n) => n@,
        None => identity,
    }
}

/// What a tracked remote becomes with one more advertisement.
pub open spec fn seen_again(
    before: Sighted,
    after: Sighted,
    adv: Advertisement,
    now: u64,
) -> bool {
    &&& after.identity@ == before.identity@
    &&& after.rssis@ == before.rssis@.push(adv.rssi->0)
    &&& is_last_seen(after, adv, now)
}

/// What a remote is tracked as after its first advertisement.
pub open spec fn seen_first(after: Sighted, adv: Advertisement, now: u64) -> bool {
    &&& after.identity@ == tracked_identity(adv)->0
    &&& after.rssis@ == seq![adv.rssi->0]
    &&& is_last_seen(after, adv, now)
}

/// Whether the last sighting of a tracked remote is this advertisement.
pub open spec fn is_last_seen(t: Sighted, adv: Advertisement, now: u64) -> bool {
    &&& t.last_id == adv.peripheral_id
    &&& t.last_address@ == uppercased(adv.address@)
    &&& t.last_name is Some == adv.local_name is Some
    &&& t.last_name is Some ==> t.last_name->0@ == adv.local_name->0@
    &&& t.last_seen == now
}

/// Whether a tracked remote counts: enough advertisements, the last one within
/// the window.
pub open spec fn is_fresh(t: Sighted, now: u64, window: u64, min_hits: usize) -> bool {
    t.rssis@.len() >= min_hits && now - t.last_seen <= window
}

/// Whether `best` is the position of the pick: a fresh remote with no stronger
/// one beside it, the first of those.
pub open spec fn is_pick(
    inner: Seq<Sighted>,
    now: u64,
    window: u64,
    min_hits: usize,
    best: int,
) -> bool {
    &&& 0 <= best < inner.len()
    &&& is_fresh(inner[best], now, window, min_hits)
    &&& forall|j: int|
        0 <= j < inner.len() && is_fresh(#[trigger] inner[j], now, window, min_hits)
            ==> !stronger(inner[j].rssis@, inner[best].rssis@)
    &&& forall|j: int|
        0 <= j < best && is_fresh(#[trigger] inner[j], now, window, min_hits) ==> stronger(
            inner[best].rssis@,
            inner[j].rssis@,
        )
}

/// How many of the first `n` tracked remotes are fresh.
pub open spec fn fresh_count(
    inner: Seq<Sighted>,
    now: u64,
    window: u64,
    min_hits: usize,
    n: int,
) -> nat
    decreases n,
{
    if n <= 0 {
        0
    } else {
        fresh_count(inner, now, window, min_hits, n - 1) + if is_fresh(
            inner[n - 1],
            now,
            window,
            min_hits,
        ) {
            1nat
        } else {
            0nat
        }
    }
}

/// The candidate that a tracked remote gives.
pub open spec fn describes(c: Candidate, t: Sighted) -> bool {
    &&& c.identity_address@ == t.identity@
    &&& c.peripheral_id == t.last_id
    &&& c.last_address@ == t.last_address@
    &&& c.last_rssi == t.rssis@.last()
    &&& c.hits == t.rssis@.len()
    &&& c.rssi_total == total(t.rssis@)
    &&& c.last_name is Some == t.last_name is Some
    &&& c.last_name is Some ==> c.last_name->0@ == t.last_name->0@
}

/// What one advertisement adds to the log of a scan.
pub open spec fn sighting_text(t: Sighted) -> Seq<char> {
    "  identity="@ + t.identity@ + " addr="@ + t.last_address@ + " name="@ + debug_quoted(
        shown_name(t.last_name, t.identity@),
    ) + " rssi="@ + dec_signed(t.rssis@.last() as int) + " hits="@ + dec(t.rssis@.len())
        + " mean_rssi="@
}

/// The announcement of a pick, up to the mean signal strength.
pub open spec fn lock_text(c: Candidate) -> Seq<char> {
    "\nLocked on identity "@ + c.identity_address@ + " via current address "@ + c.last_address@
        + " (mean RSSI "@
}

/// The announcement of a pick, from the mean signal strength on.
pub open spec fn lock_tail_text(c: Candidate) -> Seq<char> {
    " over "@ + dec(c.hits as nat) + " adverts, last rssi "@ + dec_signed(c.last_rssi as int) + ")"@
}

impl Candidate {
    /// Announce the pick: the text before the mean signal strength.
    pub fn lock_line(&self) -> (out: String)
        ensures
            out@ == lock_text(*self),
    {
        let mut out = "\nLocked on identity ".to_owned();
        out.append(self.identity_address.as_str());
        out.append(" via current address ");
        out.append(self.last_address.as_str());
        out.append(" (mean RSSI ");
        out
    }

    /// Announce the pick: the text after the mean signal strength.
    pub fn lock_tail(&self) -> (out: String)
        ensures
            out@ == lock_tail_text(*self),
    {
        let mut out = " over ".to_owned();
        push_dec(&mut out, self.hits as u64);
        out.append(" adverts, last rssi ");
        push_dec_signed(&mut out, self.last_rssi as i64);
        out.append(")");
        out
    }
}

/// The remark on other remotes in range.
pub fn others_line(others: usize) -> (out: String)
    ensures
        out@ == "  ("@ + dec(others as nat)
            + " other Siri Remote(s) also in range; picked the one with the strongest signal)"@,
{
    let mut out = "  (".to_owned();
    push_dec(&mut out, others as u64);
    out.append(" other Siri Remote(s) also in range; picked the one with the strongest signal)");
    out
}

fn clone_name(name: &Option<String>) -> (out: Option<String>)
    ensures
        out is Some == name is Some,
        out is Some ==> out->0@ == name->0@,
{
    match name {
        Some(n) => Some(n.clone()),
        None => None,
    }
}

impl Sighted {
    /// The sum of the readings.
    fn rssi_total(&self) -> (sum: i128)
        ensures
            sum == total(self.rssis@),
    {
        let mut sum: i128 = 0;
        let mut i: usize = 0;
        while i < self.rssis.len()
            invariant
                i <= self.rssis.len(),
                sum == total(self.rssis@.take(i as int)),
                -32768 * i <= sum <= 32767 * i,
            decreases self.rssis.len() - i,
        {
            assert(self.rssis@.take(i + 1).drop_last() =~= self.rssis@.take(i as int));
            sum = sum + self.rssis[i] as i128;
            i = i + 1;
        }
        assert(self.rssis@.take(i as int) =~= self.rssis@);
        sum
    }

    /// Whether this remote's mean reading is above the other's.
    fn is_stronger(&self, other: &Sighted) -> (r: bool)
        requires
            self.rssis@.len() > 0,
            other.rssis@.len() > 0,
        ensures
            r == stronger(self.rssis@, other.rssis@),
    {
        proof {
            lemma_total_bounds(self.rssis@);
            lemma_total_bounds(other.rssis@);
        }
        let n: u128 = self.rssis.len() as u128;
        let m: u128 = other.rssis.len() as u128;
        // Shifting every reading by 32768 shifts both means alike and leaves
        // nothing negative.
        let a: u128 = (self.rssi_total() + 32768 * (self.rssis.len() as i128)) as u128;
        let b: u128 = (other.rssi_total() + 32768 * (other.rssis.len() as i128)) as u128;
        let ra: u128 = a % n;
        let rb: u128 = b % m;
        proof {
            lemma_means(a as int, n as int, b as int, m as int);
            let ta = total(self.rssis@);
            let tb = total(other.rssis@);
            let ni = n as int;
            let mi = m as int;
            assert((ta + 32768 * ni) * mi == ta * mi + 32768 * (ni * mi)) by (nonlinear_arith);
            assert((tb + 32768 * mi) * ni == tb * ni + 32768 * (ni * mi)) by (nonlinear_arith);
            assert(ra * m <= u128::MAX) by (nonlinear_arith)
                requires
                    ra < n <= 0xFFFF_FFFF_FFFF_FFFF,
                    m <= 0xFFFF_FFFF_FFFF_FFFF,
            ;
            assert(rb * n <= u128::MAX) by (nonlinear_arith)
                requires
                    rb < m <= 0xFFFF_FFFF_FFFF_FFFF,
                    n <= 0xFFFF_FFFF_FFFF_FFFF,
            ;
        }
        a / n > b / m || (a / n == b / m && ra * m > rb * n)
    }

    fn candidate(&self) -> (c: Candidate)
        requires
            self.rssis@.len() > 0,
        ensures
            describes(c, *self),
    {
        Candidate {
            identity_address: self.identity.clone(),
            peripheral_id: self.last_id,
            last_address: self.last_address.clone(),
            last_rssi: self.rssis[self.rssis.len() - 1],
            hits: self.rssis.len(),
            rssi_total: self.rssi_total(),
            last_name: clone_name(&self.last_name),
        }
    }

    /// Log the latest advertisement: the text before the mean signal strength.
    pub fn sighting_line(&self) -> (out: String)
        requires
            self.rssis@.len() > 0,
        ensures
            out@ == sighting_text(*self),
    {
        let mut out = "  identity=".to_owned();
        out.append(self.identity.as_str());
        out.append(" addr=");
        out.append(self.last_address.as_str());
        out.append(" name=");
        match &self.last_name {
            Some(n) => out.append(debug_text(n.as_str()).as_str()),
            None => out.append(debug_text(self.identity.as_str()).as_str()),
        }
        out.append(" rssi=");
        push_dec_signed(&mut out, self.rssis[self.rssis.len() - 1] as i64);
        out.append(" hits=");
        push_dec(&mut out, self.rssis.len() as u64);
        out.append(" mean_rssi=");
        out
    }
}

proof fn lemma_total_bounds(rssis: Seq<i16>)
    ensures
        -32768 * rssis.len() <= total(rssis) <= 32767 * rssis.len(),
    decreases rssis.len(),
{
    if rssis.len() > 0 {
        lemma_total_bounds(rssis.drop_last());
    }
}

/// Two nonnegative means compare as their whole parts do, and where those are
/// equal as the remainders over the counts do.
proof fn lemma_means(a: int, n: int, b: int, m: int)
    requires
        0 <= a,
        0 <= b,
        0 < n,
        0 < m,
    ensures
        a * m > b * n <==> (a / n > b / m || (a / n == b / m && (a % n) * m > (b % m) * n)),
{
    let qa = a / n;
    let qb = b / m;
    let ra = a % n;
    let rb = b % m;
    vstd::arithmetic::div_mod::lemma_fundamental_div_mod(a, n);
    vstd::arithmetic::div_mod::lemma_fundamental_div_mod(b, m);
    vstd::arithmetic::div_mod::lemma_mod_bound(a, n);
    vstd::arithmetic::div_mod::lemma_mod_bound(b, m);
    assert(a * m == qa * (n * m) + ra * m) by (nonlinear_arith)
        requires
            a == n * qa + ra,
    ;
    assert(b * n == qb * (n * m) + rb * n) by (nonlinear_arith)
        requires
            b == m * qb + rb,
    ;
    assert(0 <= ra * m < n * m) by (nonlinear_arith)
        requires
            0 <= ra < n,
            0 < m,
    ;
    assert(0 <= rb * n < n * m) by (nonlinear_arith)
        requires
            0 <= rb < m,
            0 < n,
    ;
    let k = n * m;
    let x = ra * m;
    let y = rb * n;
    assert(qa > qb ==> qa * k + x > qb * k + y) by (nonlinear_arith)
        requires
            0 <= x,
            y < k,
            0 < k,
    ;
    assert(qa < qb ==> qa * k + x < qb * k + y) by (nonlinear_arith)
        requires
            0 <= y,
            x < k,
            0 < k,
    ;
}

/// A pick and the number of other fresh remotes beside it.
pub struct Pick {
    pub candidate: Candidate,
    pub others: usize,
}

/// Advertisements grouped by identity address. Used by both kinds of scan; the
/// consumer decides when to call [`Self::best_with`].
pub struct CandidateMap {
    inner: Vec<Sighted>,
}

impl Default for CandidateMap {
    fn default() -> (map: Self)
        ensures
            map.wf(),
            map@ == Seq::<Sighted>::empty(),
    {
        Self::new()
    }
}

impl View for CandidateMap {
    type V = Seq<Sighted>;

    closed spec fn view(&self) -> Seq<Sighted> {
        self.inner@
    }
}

/// No identity is tracked twice, and everything tracked has been seen.
pub open spec fn distinct_and_seen(inner: Seq<Sighted>) -> bool {
    &&& forall|i: int, j: int|
        0 <= i < j < inner.len() ==> (#[trigger] inner[i]).identity@ != (
        #[trigger] inner[j]).identity@
    &&& forall|i: int| 0 <= i < inner.len() ==> (#[trigger] inner[i]).rssis@.len() > 0
}

/// What taking in an advertisement does: nothing unless it is a Siri Remote's;
/// then the remote at `position`, and no other, has one more reading, or is new
/// at the end.
pub open spec fn ingested(
    before: Seq<Sighted>,
    after: Seq<Sighted>,
    adv: Advertisement,
    now: u64,
    position: Option<usize>,
) -> bool {
    match (tracked_identity(adv), position) {
        (None, None) => after == before,
        (Some(identity), Some(p)) => {
            if p < before.len() {
                &&& before[p as int].identity@ == identity
                &&& after.len() == before.len()
                &&& seen_again(before[p as int], after[p as int], adv, now)
                &&& forall|i: int|
                    0 <= i < before.len() && i != p ==> after[i] == #[trigger] before[i]
            } else {
                &&& p == before.len()
                &&& after.len() == p + 1
                &&& seen_first(after[p as int], adv, now)
                &&& after.take(p as int) == before
                &&& forall|i: int| 0 <= i < p ==> (#[trigger] before[i]).identity@ != identity
            }
        },
        _ => false,
    }
}

impl CandidateMap {
    /// No identity is tracked twice, and everything tracked has been seen.
    pub open spec fn wf(&self) -> bool {
        distinct_and_seen(self@)
    }

    pub fn new() -> (map: Self)
        ensures
            map.wf(),
            map@ == Seq::<Sighted>::empty(),
    {
        Self { inner: Vec::new() }
    }

    /// The tracked remote at a position.
    pub fn get(&self, position: usize) -> (t: &Sighted)
        requires
            position < self@.len(),
        ensures
            *t == self@[position as int],
    {
        &self.inner[position]
    }

    /// Take in one advertisement: if it is a Siri Remote's, update what is
    /// tracked for its identity address and return the position.
    pub fn ingest(&mut self, adv: &Advertisement, now: u64) -> (position: Option<usize>)
        requires
            old(self).wf(),
        ensures
            final(self).wf(),
            ingested(old(self)@, final(self)@, *adv, now, position),
    {
        if !is_siri_remote(adv) {
            return None;
        }
        let rssi: i16 = match adv.rssi {
            Some(rssi) => rssi,
            None => {
                return None;
            },
        };
        let identity = match find_company(&adv.manufacturer_data, APPLE_COMPANY_ID) {
            Some(i) => match extract_identity_address(adv.manufacturer_data[i].1.as_slice()) {
                Some(identity) => identity,
                None => {
                    return None;
                },
            },
            None => {
                return None;
            },
        };
        let address = adv.address.as_str().to_uppercase();
        let mut p: usize = 0;
        while p < self.inner.len() && !same_text(self.inner[p].identity.as_str(), identity.as_str())
            invariant
                p <= self.inner@.len(),
                self@ == old(self)@,
                self@ == self.inner@,
                forall|i: int| 0 <= i < p ==> (#[trigger] self@[i]).identity@ != identity@,
            decreases self.inner.len() - p,
        {
            p = p + 1;
        }
        if p == self.inner.len() {
            let mut rssis: Vec<i16> = Vec::new();
            rssis.push(rssi);
            self.inner.push(
                Sighted {
                    identity,
                    rssis,
                    last_id: adv.peripheral_id,
                    last_address: address,
                    last_name: clone_name(&adv.local_name),
                    last_seen: now,
                },
            );
            assert(self@.take(p as int) =~= old(self)@);
            assert(self@[p as int].rssis@ =~= seq![adv.rssi->0]);
        } else {
            let mut entry = self.inner.remove(p);
            let ghost before = entry;
            entry.rssis.push(rssi);
            entry.last_id = adv.peripheral_id;
            entry.last_address = address;
            entry.last_name = clone_name(&adv.local_name);
            entry.last_seen = now;
            self.inner.insert(p, entry);
            assert(before == old(self)@[p as int]);
            assert forall|i: int| 0 <= i < old(self)@.len() && i != p implies self@[i]
                == #[trigger] old(self)@[i] by {}
        }
        Some(p)
    }

    /// Return the strongest fresh candidate with `>= min_hits` advertisements,
    /// and how many other fresh remotes there are.
    pub fn best_with(&self, now: u64, window: u64, min_hits: usize) -> (pick: Option<Pick>)
        requires
            self.wf(),
        ensures
            match pick {
                Some(pick) => {
                    &&& exists|best: int|
                        #[trigger] is_pick(self@, now, window, min_hits, best) && describes(
                            pick.candidate,
                            self@[best],
                        )
                    &&& pick.others + 1 == fresh_count(
                        self@,
                        now,
                        window,
                        min_hits,
                        self@.len() as int,
                    )
                },
                None => forall|i: int|
                    0 <= i < self@.len() ==> !is_fresh(#[trigger] self@[i], now, window, min_hits),
            },
    {
        let mut best: Option<usize> = None;
        let mut fresh: usize = 0;
        let mut i: usize = 0;
        while i < self.inner.len()
            invariant
                i <= self.inner@.len(),
                self@ == self.inner@,
                self.wf(),
                fresh <= i,
                fresh == fresh_count(self@, now, window, min_hits, i as int),
                match best {
                    Some(b) => fresh > 0 && is_pick(
                        self@.take(i as int),
                        now,
                        window,
                        min_hits,
                        b as int,
                    ),
                    None => fresh == 0 && forall|j: int|
                        0 <= j < i ==> !is_fresh(#[trigger] self@[j], now, window, min_hits),
                },
            decreases self.inner.len() - i,
        {
            let t = &self.inner[i];
            let age: u64 = if now >= t.last_seen {
                now - t.last_seen
            } else {
                0
            };
            let ghost shorter = self@.take(i as int);
            let ghost longer = self@.take(i + 1);
            proof {
                assert(longer[i as int] == self@[i as int]);
                assert(forall|j: int| 0 <= j < i ==> longer[j] == shorter[j]);
                assert(forall|j: int| 0 <= j < i ==> shorter[j] == self@[j]);
            }
            if t.rssis.len() >= min_hits && age <= window {
                fresh = fresh + 1;
                match best {
                    Some(b) => {
                        assert(shorter[b as int] == self@[b as int]);
                        if t.is_stronger(&self.inner[b]) {
                            proof {
                                assert forall|j: int|
                                    0 <= j < i && is_fresh(
                                        #[trigger] longer[j],
                                        now,
                                        window,
                                        min_hits,
                                    ) implies stronger(t.rssis@, longer[j].rssis@) by {
                                    assert(is_fresh(shorter[j], now, window, min_hits));
                                    lemma_stronger_transitive(
                                        t.rssis@,
                                        shorter[b as int].rssis@,
                                        shorter[j].rssis@,
                                    );
                                }
                                assert forall|j: int|
                                    0 <= j < longer.len() && is_fresh(
                                        #[trigger] longer[j],
                                        now,
                                        window,
                                        min_hits,
                                    ) implies !stronger(longer[j].rssis@, t.rssis@) by {
                                    if j < i {
                                        assert(stronger(t.rssis@, longer[j].rssis@));
                                    }
                                }
                            }
                            best = Some(i);
                        }
                    },
                    None => {
                        best = Some(i);
                    },
                }
            }
            i = i + 1;
        }
        assert(self@.take(i as int) =~= self@);
        match best {
            Some(b) => {
                assert(is_pick(self@, now, window, min_hits, b as int));
                Some(Pick { candidate: self.inner[b].candidate(), others: fresh - 1 })
            },
            None => None,
        }
    }
}

/// A mean above one that nothing known exceeds is above that, too.
proof fn lemma_stronger_transitive(a: Seq<i16>, b: Seq<i16>, c: Seq<i16>)
    requires
        a.len() > 0,
        b.len() > 0,
        c.len() > 0,
        stronger(a, b),
        !stronger(c, b),
    ensures
        stronger(a, c),
{
    let (ta, tb, tc) = (total(a), total(b), total(c));
    let (na, nb, nc) = (a.len() as int, b.len() as int, c.len() as int);
    assert(ta * nc > tc * na) by (nonlinear_arith)
        requires
            na > 0,
            nb > 0,
            nc > 0,
            ta * nb > tb * na,
            tc * nb <= tb * nc,
    {
        assert(ta * nb * nc > tb * na * nc);
        assert(tb * nc * na >= tc * nb * na);
        assert((ta * nc) * nb > (tc * na) * nb);
    }
}

// -- Scans --------------------------------------------------------------------

/// Why a scan ended without a pick: the overall time ran out without a
/// confident pick, or some lower-level error.
#[derive(Debug)]
pub enum ScanError {
    Timeout,
    Other(String),
}

/// What a pairing scan does next.
pub enum ScanStep {
    /// The overall time is over.
    TimedOut,
    /// A remote has been picked.
    Locked(Pick),
    /// Wait for the next advertisement, at most this long.
    Wait(u64),
}

/// Whether a step is what a scan comes to at time `now`.
pub open spec fn is_scan_step(
    start: u64,
    settled: int,
    overall: u64,
    seen: Seq<Sighted>,
    now: u64,
    step: ScanStep,
) -> bool {
    match step {
        ScanStep::TimedOut => now - start > overall,
        ScanStep::Locked(pick) => {
            &&& now - start <= overall
            &&& now >= settled
            &&& exists|best: int|
                #[trigger] is_pick(seen, now, STALE_AFTER, 2, best) && describes(
                    pick.candidate,
                    seen[best],
                )
        },
        ScanStep::Wait(pause) => {
            &&& now - start <= overall
            &&& now >= settled ==> forall|i: int|
                0 <= i < seen.len() ==> !is_fresh(#[trigger] seen[i], now, STALE_AFTER, 2)
            &&& pause == if now < settled && settled - now < SCAN_PAUSE {
                settled - now
            } else {
                SCAN_PAUSE as int
            }
        },
    }
}

/// Pair-style scan: settle first, then rank again at least every
/// [`SCAN_PAUSE`], and lock in when a candidate with at least two hits stays
/// fresh. The whole scan is bounded by an overall time.
pub struct RemoteScan {
    start: u64,
    settle: u64,
    overall: u64,
    announced: bool,
    map: CandidateMap,
}

impl RemoteScan {
    /// When the scan began.
    pub closed spec fn start(&self) -> u64 {
        self.start
    }

    /// When the scan may first pick.
    pub closed spec fn settled(&self) -> int {
        self.start + self.settle
    }

    /// How long the scan may take.
    pub closed spec fn overall(&self) -> u64 {
        self.overall
    }

    /// Whether the scan has said that it goes on beyond its settle time.
    pub closed spec fn announced(&self) -> bool {
        self.announced
    }

    /// The remotes seen so far.
    pub closed spec fn seen(&self) -> Seq<Sighted> {
        self.map@
    }

    pub closed spec fn wf(&self) -> bool {
        self.map.wf() && self.start + self.settle <= u64::MAX
    }

    pub fn new(start: u64, settle: u64, overall: u64) -> (scan: Self)
        requires
            start + settle <= u64::MAX,
        ensures
            scan.wf(),
            scan.start() == start,
            scan.settled() == start + settle,
            scan.overall() == overall,
            !scan.announced(),
            scan.seen() == Seq::<Sighted>::empty(),
    {
        Self { start, settle, overall, announced: false, map: CandidateMap::new() }
    }

    /// Decide what to do at time `now`.
    pub fn step(&self, now: u64) -> (step: ScanStep)
        requires
            self.wf(),
        ensures
            now - self.start() > self.overall() <==> step is TimedOut,
            is_scan_step(self.start(), self.settled(), self.overall(), self.seen(), now, step),
            match step {
                ScanStep::TimedOut => true,
                ScanStep::Locked(pick) => {
                    &&& now >= self.settled()
                    &&& exists|best: int|
                        #[trigger] is_pick(self.seen(), now, STALE_AFTER, 2, best) && describes(
                            pick.candidate,
                            self.seen()[best],
                        )
                    &&& pick.others + 1 == fresh_count(
                        self.seen(),
                        now,
                        STALE_AFTER,
                        2,
                        self.seen().len() as int,
                    )
                },
                ScanStep::Wait(pause) => {
                    &&& now >= self.settled() ==> forall|i: int|
                        0 <= i < self.seen().len() ==> !is_fresh(
                            #[trigger] self.seen()[i],
                            now,
                            STALE_AFTER,
                            2,
                        )
                    &&& pause == if now < self.settled() && self.settled() - now < SCAN_PAUSE {
                        self.settled() - now
                    } else {
                        SCAN_PAUSE as int
                    }
                },
            },
    {
        if now > self.start && now - self.start > self.overall {
            return ScanStep::TimedOut;
        }
        let settled: u64 = self.start + self.settle;
        if now >= settled {
            match self.map.best_with(now, STALE_AFTER, 2) {
                Some(pick) => {
                    return ScanStep::Locked(pick);
                },
                None => {},
            }
        }
        if now < settled && settled - now < SCAN_PAUSE {
            ScanStep::Wait(settled - now)
        } else {
            ScanStep::Wait(SCAN_PAUSE)
        }
    }

    /// Take in an advertisement; see [`CandidateMap::ingest`].
    pub fn heard(&mut self, adv: &Advertisement, now: u64) -> (position: Option<usize>)
        requires
            old(self).wf(),
        ensures
            final(self).wf(),
            final(self).start() == old(self).start(),
            final(self).settled() == old(self).settled(),
            final(self).overall() == old(self).overall(),
            final(self).announced() == old(self).announced(),
            ingested(old(self).seen(), final(self).seen(), *adv, now, position),
    {
        self.map.ingest(adv, now)
    }

    /// The tracked remote at a position.
    pub fn sighted(&self, position: usize) -> (t: &Sighted)
        requires
            position < self.seen().len(),
        ensures
            *t == self.seen()[position as int],
    {
        self.map.get(position)
    }

    /// Nothing was heard for the whole wait. Returns whether to say that the
    /// scan goes on: once, after the settle time.
    pub fn quiet(&mut self, now: u64) -> (say: bool)
        requires
            old(self).wf(),
        ensures
            final(self).wf(),
            final(self).start() == old(self).start(),
            final(self).settled() == old(self).settled(),
            final(self).overall() == old(self).overall(),
            final(self).seen() == old(self).seen(),
            say == (now >= old(self).settled() && !old(self).announced()),
            final(self).announced() == (old(self).announced() || say),
    {
        if now >= self.start + self.settle && !self.announced {
            self.announced = true;
            true
        } else {
            false
        }
    }
}

/// How long an events-style scan still listens at `now`, or `None` once its
/// deadline has come.
pub fn nearest_wait(deadline: u64, now: u64) -> (wait: Option<u64>)
    ensures
        wait == if now < deadline {
            Some((deadline - now) as u64)
        } else {
            None
        },
{
    if now < deadline {
        Some(deadline - now)
    } else {
        None
    }
}

/// The freshness window of an events-style scan: wide enough that
/// advertisements captured at its start still qualify.
pub open spec fn window_for(settle: u64) -> u64 {
    if settle + SECOND > STALE_AFTER {
        (settle + SECOND) as u64
    } else {
        STALE_AFTER
    }
}

/// The freshness window of an events-style scan.
pub fn nearest_window(settle: u64) -> (window: u64)
    requires
        settle + SECOND <= u64::MAX,
    ensures
        window == window_for(settle),
{
    if settle + SECOND > STALE_AFTER {
        settle + SECOND
    } else {
        STALE_AFTER
    }
}

/// Events-style scan: after listening for `settle`, pick the strongest fresh
/// candidate, with no minimum of hits.
pub fn nearest_pick(map: &CandidateMap, settle: u64, now: u64) -> (pick: Option<Pick>)
    requires
        map.wf(),
        settle + SECOND <= u64::MAX,
    ensures
        match pick {
            Some(pick) => {
                &&& exists|best: int|
                    #[trigger] is_pick(map@, now, window_for(settle), 1, best) && describes(
                        pick.candidate,
                        map@[best],
                    )
                &&& pick.others + 1 == fresh_count(
                    map@,
                    now,
                    window_for(settle),
                    1,
                    map@.len() as int,
                )
            },
            None => forall|i: int|
                0 <= i < map@.len() ==> !is_fresh(#[trigger] map@[i], now, window_for(settle), 1),
        },
{
    map.best_with(now, nearest_window(settle), 1)
}

// -- Laws ---------------------------------------------------------------------

/// All picks agree: two remotes that both qualify as the pick are one.
pub proof fn law_pick_is_unique(
    inner: Seq<Sighted>,
    now: u64,
    window: u64,
    min_hits: usize,
    a: int,
    b: int,
)
    requires
        is_pick(inner, now, window, min_hits, a),
        is_pick(inner, now, window, min_hits, b),
    ensures
        a == b,
{
    if a < b {
        assert(stronger(inner[b].rssis@, inner[a].rssis@));
    } else if b < a {
        assert(stronger(inner[a].rssis@, inner[b].rssis@));
    }
}

/// A remote that is too far away, or offers no HID service, is never tracked.
pub proof fn law_distant_remote_ignored(adv: Advertisement)
    requires
        adv.rssi is None || adv.rssi->0 < MIN_RSSI || !adv.services@.contains(HID_SERVICE_UUID),
    ensures
        tracked_identity(adv) is None,
{
}

/// A payload's company data is that of the first entry with the company.
pub proof fn law_company_data_is_the_first(data: Seq<(u16, Vec<u8>)>, company: u16, i: int)
    requires
        0 <= i < data.len(),
        data[i].0 == company,
        forall|j: int| 0 <= j < i ==> (#[trigger] data[j]).0 != company,
    ensures
        company_data(data, company) == Some(data[i].1@),
    decreases data.len(),
{
    if i > 0 {
        assert(data[0].0 != company);
        assert forall|j: int| 0 <= j < i - 1 implies (#[trigger] data.drop_first()[j]).0
            != company by {
            assert(data[j + 1].0 != company);
        }
        law_company_data_is_the_first(data.drop_first(), company, i - 1);
    }
}

/// Without an entry of the company there is no company data.
pub proof fn law_no_entry_no_company_data(data: Seq<(u16, Vec<u8>)>, company: u16)
    requires
        forall|j: int| 0 <= j < data.len() ==> (#[trigger] data[j]).0 != company,
    ensures
        company_data(data, company) is None,
    decreases data.len(),
{
    if data.len() > 0 {
        assert(data[0].0 != company);
        assert forall|j: int| 0 <= j < data.drop_first().len() implies (
        #[trigger] data.drop_first()[j]).0 != company by {
            assert(data[j + 1].0 != company);
        }
        law_no_entry_no_company_data(data.drop_first(), company);
    }
}

/// A remote in pairing mode is told by a signal of -55 or more, the HID service,
/// and Apple data that starts with 07 0D.
pub proof fn law_pairing_mode_marks(adv: Advertisement)
    ensures
        looks_like_remote(adv) <==> {
            let apple = company_data(adv.manufacturer_data@, 0x004C);
            &&& adv.rssi is Some && adv.rssi->0 >= -55
            &&& adv.services@.contains(0x00001812_0000_1000_8000_00805f9b34fb)
            &&& apple is Some && apple->0.len() >= 2 && apple->0[0] == 0x07 && apple->0[1] == 0x0D
        },
        tracked_identity(adv) is Some <==> looks_like_remote(adv) && company_data(
            adv.manufacturer_data@,
            0x004C,
        )->0.len() >= 12,
{
}

/// The identity address is read from bytes 6 to 11, in order, as uppercase
/// pairs with colons between them.
pub proof fn law_identity_layout(mfr: Seq<u8>, k: int)
    requires
        mfr.len() >= 12,
        mfr[0] == 0x07,
        mfr[1] == 0x0D,
        0 <= k < 6,
    ensures
        identity_in(mfr) is Some,
        identity_in(mfr)->0.len() == 17,
        16 * hex_value(identity_in(mfr)->0[3 * k]) + hex_value(identity_in(mfr)->0[3 * k + 1])
            == mfr[6 + k],
        k < 5 ==> identity_in(mfr)->0[3 * k + 2] == ':',
{
    let pairs = Seq::new(6, |i: int| hex2_upper(mfr[6 + i]));
    lemma_pairs_joined(pairs);
    law_hex_reads_back(mfr[6 + k], 0);
    let t = join(pairs, ":"@);
    assert(t[3 * k] == pairs[k][0]);
    assert(t[3 * k + 1] == pairs[k][1]);
    if k < 5 {
        assert(t[3 * k + 2] == ':');
    }
}

proof fn lemma_pairs_joined(parts: Seq<Seq<char>>)
    requires
        parts.len() > 0,
        forall|k: int| 0 <= k < parts.len() ==> (#[trigger] parts[k]).len() == 2,
    ensures
        join(parts, ":"@).len() == 3 * parts.len() - 1,
        forall|i: int|
            0 <= i < join(parts, ":"@).len() ==> #[trigger] join(parts, ":"@)[i] == if i % 3 == 2 {
                ':'
            } else {
                parts[i / 3][i % 3]
            },
    decreases parts.len(),
{
    reveal_strlit(":");
    if parts.len() > 1 {
        let shorter = parts.drop_last();
        lemma_pairs_joined(shorter);
        assert(join(parts, ":"@) == join(shorter, ":"@) + ":"@ + parts.last());
    }
}

/// Readings add up: the sum over two runs of readings is the sum of their sums,
/// and one reading is its own sum.
pub proof fn law_readings_add_up(a: Seq<i16>, b: Seq<i16>, r: i16)
    ensures
        total(a + b) == total(a) + total(b),
        total(seq![r]) == r,
        total(Seq::<i16>::empty()) == 0,
    decreases b.len(),
{
    reveal_with_fuel(total, 2);
    assert(seq![r].drop_last() =~= seq![]);
    if b.len() > 0 {
        law_readings_add_up(a, b.drop_last(), r);
        assert((a + b).drop_last() =~= a + b.drop_last());
    } else {
        assert(a + b =~= a);
    }
}

/// Signals are compared by their means: the sum of one over its count against
/// the other's. No signal is stronger than itself, nor two than each other; a
/// signal whose every reading is above a level beats one that never gets above
/// it.
pub proof fn law_stronger_by_mean(a: Seq<i16>, b: Seq<i16>, level: int)
    requires
        a.len() > 0,
        b.len() > 0,
    ensures
        stronger(a, b) <==> total(a) * b.len() > total(b) * a.len(),
        !(stronger(a, b) && stronger(b, a)),
        !stronger(a, a),
        (forall|i: int| 0 <= i < a.len() ==> #[trigger] a[i] > level) && (forall|i: int|
            0 <= i < b.len() ==> #[trigger] b[i] <= level) ==> stronger(a, b),
{
    if (forall|i: int| 0 <= i < a.len() ==> #[trigger] a[i] > level) && (forall|i: int|
        0 <= i < b.len() ==> #[trigger] b[i] <= level) {
        lemma_total_above(a, level + 1);
        lemma_total_below(b, level);
        let (ta, tb) = (total(a), total(b));
        let (n, m) = (a.len() as int, b.len() as int);
        assert(ta * m > tb * n) by (nonlinear_arith)
            requires
                ta >= (level + 1) * n,
                tb <= level * m,
                n > 0,
                m > 0,
        {
            assert(ta * m >= (level + 1) * n * m);
            assert(tb * n <= level * m * n);
            assert((level + 1) * n * m == level * m * n + n * m);
        }
    }
}

proof fn lemma_total_above(a: Seq<i16>, level: int)
    requires
        forall|i: int| 0 <= i < a.len() ==> #[trigger] a[i] >= level,
    ensures
        total(a) >= level * a.len(),
    decreases a.len(),
{
    if a.len() > 0 {
        let shorter = a.drop_last();
        assert forall|i: int| 0 <= i < shorter.len() implies #[trigger] shorter[i] >= level by {
            assert(a[i] >= level);
        }
        lemma_total_above(shorter, level);
        assert(a[a.len() - 1] >= level);
        assert(level * a.len() == level * shorter.len() + level) by (nonlinear_arith)
            requires
                a.len() == shorter.len() + 1,
        ;
    }
}

proof fn lemma_total_below(a: Seq<i16>, level: int)
    requires
        forall|i: int| 0 <= i < a.len() ==> #[trigger] a[i] <= level,
    ensures
        total(a) <= level * a.len(),
    decreases a.len(),
{
    if a.len() > 0 {
        let shorter = a.drop_last();
        assert forall|i: int| 0 <= i < shorter.len() implies #[trigger] shorter[i] <= level by {
            assert(a[i] <= level);
        }
        lemma_total_below(shorter, level);
        assert(a[a.len() - 1] <= level);
        assert(level * a.len() == level * shorter.len() + level) by (nonlinear_arith)
            requires
                a.len() == shorter.len() + 1,
        ;
    }
}

/// A remote counts while it has been heard often enough and its last
/// advertisement is no older than the window.
pub proof fn law_fresh_remotes(t: Sighted, now: u64, window: u64, min_hits: usize)
    ensures
        is_fresh(t, now, window, min_hits) <==> t.rssis@.len() >= min_hits && now <= t.last_seen
            + window,
{
}

/// The pick is fresh, and no fresh remote has a higher mean; among equals it was
/// seen first.
pub proof fn law_pick_has_highest_mean(
    inner: Seq<Sighted>,
    now: u64,
    window: u64,
    min_hits: usize,
    best: int,
    other: int,
)
    requires
        is_pick(inner, now, window, min_hits, best),
        0 <= other < inner.len(),
        inner[other].rssis@.len() >= min_hits,
        now <= inner[other].last_seen + window,
    ensures
        0 <= best < inner.len(),
        inner[best].rssis@.len() >= min_hits,
        now <= inner[best].last_seen + window,
        total(inner[other].rssis@) * inner[best].rssis@.len() <= total(inner[best].rssis@)
            * inner[other].rssis@.len(),
        other < best ==> total(inner[other].rssis@) * inner[best].rssis@.len() < total(
            inner[best].rssis@,
        ) * inner[other].rssis@.len(),
{
}

/// The candidate is the remote that was picked: under its identity and latest
/// address and name, with its last reading, its count and its sum.
pub proof fn law_candidate_is_the_pick(c: Candidate, t: Sighted)
    requires
        describes(c, t),
    ensures
        c.identity_address@ == t.identity@,
        c.peripheral_id == t.last_id,
        c.last_address@ == t.last_address@,
        c.last_rssi == t.rssis@[t.rssis@.len() - 1],
        c.hits == t.rssis@.len(),
        c.rssi_total == total(t.rssis@),
        c.last_name is Some == t.last_name is Some,
        c.last_name matches Some(n) ==> n@ == t.last_name->0@,
{
}

/// Taking in an advertisement of a tracked remote adds its reading, and notes
/// where and when it was heard; the others stay as they were. The first
/// advertisement of a remote starts its readings.
pub proof fn law_advertisement_is_taken_in(
    before: Seq<Sighted>,
    after: Seq<Sighted>,
    adv: Advertisement,
    now: u64,
    p: usize,
    i: int,
)
    requires
        ingested(before, after, adv, now, Some(p)),
        0 <= i < before.len(),
    ensures
        p < after.len(),
        after[p as int].identity@ == tracked_identity(adv)->0,
        after[p as int].rssis@.last() == adv.rssi->0,
        p < before.len() ==> after[p as int].rssis@.drop_last() == before[p as int].rssis@,
        p >= before.len() ==> after[p as int].rssis@.len() == 1,
        after[p as int].last_id == adv.peripheral_id,
        after[p as int].last_address@ == uppercased(adv.address@),
        after[p as int].last_seen == now,
        after[p as int].last_name is Some == adv.local_name is Some,
        adv.local_name matches Some(n) ==> after[p as int].last_name->0@ == n@,
        i != p ==> after[i] == before[i],
        after.len() == if p < before.len() {
            before.len()
        } else {
            before.len() + 1
        },
{
    let mine = after[p as int].rssis@;
    assert(mine.len() > 0);
    if p < before.len() {
        assert(mine.drop_last() =~= before[p as int].rssis@);
    } else {
        assert(after.take(p as int)[i] == before[i]);
    }
}

/// The window of an events-style scan is five seconds, or a second more than it
/// listens where that is longer.
pub proof fn law_scan_window(settle: u64)
    requires
        settle + 1_000_000_000 <= u64::MAX,
    ensures
        window_for(settle) >= 5_000_000_000,
        window_for(settle) >= settle + 1_000_000_000,
        window_for(settle) == 5_000_000_000 || window_for(settle) == settle + 1_000_000_000,
{
}

/// The remotes that count are counted one by one.
pub proof fn law_fresh_count_adds_up(
    inner: Seq<Sighted>,
    now: u64,
    window: u64,
    min_hits: usize,
    n: int,
)
    requires
        0 <= n < inner.len(),
    ensures
        fresh_count(inner, now, window, min_hits, 0) == 0,
        inner[n].rssis@.len() >= min_hits && now <= inner[n].last_seen + window ==> fresh_count(
            inner,
            now,
            window,
            min_hits,
            n + 1,
        ) == fresh_count(inner, now, window, min_hits, n) + 1,
        inner[n].rssis@.len() < min_hits || now > inner[n].last_seen + window ==> fresh_count(
            inner,
            now,
            window,
            min_hits,
            n + 1,
        ) == fresh_count(inner, now, window, min_hits, n),
{
}

/// What a scan says of a sighting and of its pick.
pub proof fn law_scan_lines(t: Sighted, c: Candidate)
    ensures
        sighting_text(t) == "  identity="@ + t.identity@ + " addr="@ + t.last_address@ + " name="@
            + debug_quoted(
            match t.last_name {
                Some(n) => n@,
                None => t.identity@,
            },
        ) + " rssi="@ + dec_signed(t.rssis@.last() as int) + " hits="@ + dec(t.rssis@.len())
            + " mean_rssi="@,
        lock_text(c) == "\nLocked on identity "@ + c.identity_address@
            + " via current address "@ + c.last_address@ + " (mean RSSI "@,
        lock_tail_text(c) == " over "@ + dec(c.hits as nat) + " adverts, last rssi "@ + dec_signed(
            c.last_rssi as int,
        ) + ")"@,
{
}

/// Each identity is tracked once, and only after it was heard.
pub proof fn law_tracked_once(inner: Seq<Sighted>, i: int, j: int)
    requires
        distinct_and_seen(inner),
        0 <= i < inner.len(),
        0 <= j < inner.len(),
    ensures
        inner[i].identity@ == inner[j].identity@ ==> i == j,
        inner[i].rssis@.len() >= 1,
{
}

/// A scan gives up only after its time, locks on only after it has settled and
/// only on a remote heard twice and within five seconds, and never waits while
/// there is one; it looks again at least every two seconds.
pub proof fn law_scan_steps(
    start: u64,
    settled: int,
    overall: u64,
    seen: Seq<Sighted>,
    now: u64,
    step: ScanStep,
    i: int,
)
    requires
        is_scan_step(start, settled, overall, seen, now, step),
        0 <= i < seen.len(),
    ensures
        step is TimedOut <==> now > start + overall,
        step is Locked ==> now >= settled,
        step matches ScanStep::Locked(pick) ==> exists|best: int|
            0 <= best < seen.len() && pick.candidate.identity_address@ == (
            #[trigger] seen[best]).identity@ && seen[best].rssis@.len() >= 2 && now
                <= seen[best].last_seen + 5_000_000_000,
        now <= start + overall && now >= settled && seen[i].rssis@.len() >= 2 && now
            <= seen[i].last_seen + 5_000_000_000 ==> step is Locked,
        step matches ScanStep::Wait(pause) ==> pause <= 2_000_000_000 && (now < settled ==> now
            + pause <= settled) && (now >= settled ==> pause == 2_000_000_000),
{
    if let ScanStep::Locked(pick) = step {
        let best = choose|best: int|
            #[trigger] is_pick(seen, now, STALE_AFTER, 2, best) && describes(
                pick.candidate,
                seen[best],
            );
        assert(pick.candidate.identity_address@ == seen[best].identity@);
    }
    if now <= start + overall && now >= settled && seen[i].rssis@.len() >= 2 && now
        <= seen[i].last_seen + 5_000_000_000 {
        assert(is_fresh(seen[i], now, STALE_AFTER, 2));
    }
}

} // verus!
