//! Reading a mouse's sensor DPI over its vendor protocol.
//!
//! Neither macOS nor the HID standard exposes sensor resolution, but the two
//! vendors covered here answer a proprietary query:
//!
//! * Razer: a 90-byte feature report on the mouse's HID interface, command
//!   class 0x04 / id 0x05 ("get DPI XY"), the same packet openrazer sends.
//! * Logitech: HID++ 2.0 feature 0x2201 "Adjustable DPI", function 2
//!   `getSensorDpi`, over long (0x11) reports. Direct Bluetooth or USB
//!   connections only; Unifying/Bolt receivers address devices differently
//!   and aren't handled.
//!
//! This module holds the packets, their parsing, and every decision of the
//! exchange as small state machines: the caller opens the device, sends
//! what an action says and hands back what the device answered.

use vstd::prelude::*;
use vstd::string::*;

use crate::text::{concat3, decimal, decimal_numeral, hex, hex_numeral};

verus! {

pub const VENDOR_RAZER: i64 = 0x1532;
pub const VENDOR_LOGITECH: i64 = 0x046D;

/// `kIOReturnSuccess`.
pub const IO_RETURN_SUCCESS: i32 = 0;
/// `kIOReturnNotPermitted` (0xE00002E2).
pub const IO_RETURN_NOT_PERMITTED: i32 = -536870174;
/// `kIOReturnExclusiveAccess` (0xE00002C5).
pub const IO_RETURN_EXCLUSIVE_ACCESS: i32 = -536870203;

/// Why the sensor could not be read.
#[derive(Debug, Clone, PartialEq, Eq)]
pub enum VendorError {
    Unsupported(i64),
    NotFound(i64, i64),
    NotPermitted,
    Protocol(String),
}

pub open spec fn not_permitted_text() -> Seq<char> {
    "macOS refused to open the mouse: your terminal needs the Input Monitoring permission.\n       Allow it under System Settings \u{2192} Privacy & Security \u{2192} Input Monitoring, then re-run."@
}

/// The message for each error.
pub open spec fn vendor_error_text(e: VendorError) -> Seq<char> {
    match e {
        VendorError::Unsupported(v) => "no vendor protocol known for vendor 0x"@ + hex_numeral(
            (v as u64) as nat,
            4,
        ) + "; supported: Razer (0x1532) and Logitech (0x046D)"@,
        VendorError::NotFound(v, p) => "no HID interface found for vendor 0x"@ + hex_numeral(
            (v as u64) as nat,
            4,
        ) + " product 0x"@ + hex_numeral((p as u64) as nat, 4),
        VendorError::NotPermitted => not_permitted_text(),
        VendorError::Protocol(s) => s@,
    }
}

impl VendorError {
    /// The message shown to the user.
    pub fn message(&self) -> (s: String)
        ensures
            s@ == vendor_error_text(*self),
    {
        match self {
            VendorError::Unsupported(v) => {
                let mut s = String::from_str("no vendor protocol known for vendor 0x");
                s.append(hex(*v as u64, 4).as_str());
                s.append("; supported: Razer (0x1532) and Logitech (0x046D)");
                s
            },
            VendorError::NotFound(v, p) => {
                let mut s = String::from_str("no HID interface found for vendor 0x");
                s.append(hex(*v as u64, 4).as_str());
                s.append(" product 0x");
                s.append(hex(*p as u64, 4).as_str());
                s
            },
            VendorError::NotPermitted => String::from_str(
                "macOS refused to open the mouse: your terminal needs the Input Monitoring permission.\n       Allow it under System Settings \u{2192} Privacy & Security \u{2192} Input Monitoring, then re-run.",
            ),
            VendorError::Protocol(s) => s.clone(),
        }
    }
}

/// What the mouse reported about its sensor.
#[derive(Debug, Clone, PartialEq, Eq)]
pub struct SensorDpi {
    pub dpi_x: u32,
    pub dpi_y: u32,
    /// Factory default, when the protocol reports one (Logitech does).
    pub default_dpi: Option<u32>,
    pub source: &'static str,
}

/// The vendor protocols this module speaks.
#[derive(Debug, Clone, Copy, PartialEq, Eq)]
pub enum Vendor {
    Razer,
    Logitech,
}

/// The protocol for a vendor id.
pub fn vendor_for(vendor_id: i64) -> (r: Result<Vendor, VendorError>)
    ensures
        vendor_id == VENDOR_RAZER ==> r == Ok::<Vendor, VendorError>(Vendor::Razer),
        vendor_id == VENDOR_LOGITECH ==> r == Ok::<Vendor, VendorError>(Vendor::Logitech),
        vendor_id != VENDOR_RAZER && vendor_id != VENDOR_LOGITECH ==> r == Err::<Vendor, VendorError>(
            VendorError::Unsupported(vendor_id),
        ),
{
    if vendor_id == VENDOR_RAZER {
        Ok(Vendor::Razer)
    } else if vendor_id == VENDOR_LOGITECH {
        Ok(Vendor::Logitech)
    } else {
        Err(VendorError::Unsupported(vendor_id))
    }
}

// ---------------------------------------------------------------------------
// Trying each HID interface in turn
// ---------------------------------------------------------------------------

/// How a candidate interface's `PrimaryUsage` ranks: vendor commands go to
/// the mouse interface (2) first, then the pointer (1), then the rest.
pub open spec fn usage_rank(usage: Option<i64>) -> int {
    match usage {
        Some(u) => if u == 2 {
            0
        } else if u == 1 {
            1
        } else {
            2
        },
        None => 2,
    }
}

/// The positions, in order, of the interfaces with the given rank.
pub open spec fn positions_with_rank(usages: Seq<Option<i64>>, rank: int) -> Seq<usize>
    decreases usages.len(),
{
    if usages.len() == 0 {
        Seq::empty()
    } else {
        let prev = positions_with_rank(usages.drop_last(), rank);
        if usage_rank(usages.last()) == rank {
            prev.push((usages.len() - 1) as usize)
        } else {
            prev
        }
    }
}

/// The order in which to try the interfaces, given each one's
/// `PrimaryUsage`: a stable sort by rank.
pub open spec fn try_order(usages: Seq<Option<i64>>) -> Seq<usize> {
    positions_with_rank(usages, 0) + positions_with_rank(usages, 1) + positions_with_rank(usages, 2)
}

fn collect_rank(usages: &Vec<Option<i64>>, rank: u8, order: &mut Vec<usize>)
    requires
        rank <= 2,
    ensures
        final(order)@ == old(order)@ + positions_with_rank(usages@, rank as int),
{
    let ghost start = order@;
    let mut i: usize = 0;
    while i < usages.len()
        invariant
            rank <= 2,
            i <= usages.len(),
            order@ == start + positions_with_rank(usages@.take(i as int), rank as int),
        decreases usages.len() - i,
    {
        let r: u8 = match usages[i] {
            Some(u) => if u == 2 {
                0
            } else if u == 1 {
                1
            } else {
                2
            },
            None => 2,
        };
        assert(usages@.take(i + 1).drop_last() =~= usages@.take(i as int));
        assert(usages@.take(i + 1).last() == usages@[i as int]);
        if r == rank {
            order.push(i);
        }
        i = i + 1;
        assert(order@ =~= start + positions_with_rank(usages@.take(i as int), rank as int));
    }
    assert(usages@.take(usages.len() as int) =~= usages@);
}

/// The order in which to try a device's HID interfaces, from each one's
/// `PrimaryUsage`: mouse interfaces first, then pointer interfaces, then the
/// rest, each group in its original order.
pub fn candidate_order(usages: &Vec<Option<i64>>) -> (order: Vec<usize>)
    ensures
        order@ == try_order(usages@),
{
    let mut order: Vec<usize> = Vec::new();
    collect_rank(usages, 0, &mut order);
    collect_rank(usages, 1, &mut order);
    collect_rank(usages, 2, &mut order);
    assert(order@ =~= try_order(usages@));
    order
}

proof fn lemma_positions_with_rank(usages: Seq<Option<i64>>, rank: int)
    requires
        usages.len() <= usize::MAX,
    ensures
        forall|k: int|
            #![trigger positions_with_rank(usages, rank)[k]]
            0 <= k < positions_with_rank(usages, rank).len() ==> 0 <= positions_with_rank(
                usages,
                rank,
            )[k] < usages.len() && usage_rank(usages[positions_with_rank(usages, rank)[k] as int])
                == rank,
        forall|p: int|
            0 <= p < usages.len() && usage_rank(usages[p]) == rank ==> #[trigger] positions_with_rank(
                usages,
                rank,
            ).contains(p as usize),
        forall|a: int, b: int|
            0 <= a < b < positions_with_rank(usages, rank).len() ==> positions_with_rank(usages, rank)[a]
                < positions_with_rank(usages, rank)[b],
    decreases usages.len(),
{
    if usages.len() > 0 {
        let prev = usages.drop_last();
        lemma_positions_with_rank(prev, rank);
        let ps = positions_with_rank(usages, rank);
        let pp = positions_with_rank(prev, rank);
        let n = usages.len() - 1;
        let added = usage_rank(usages.last()) == rank;
        if added {
            assert(ps == pp.push(n as usize));
        } else {
            assert(ps == pp);
        }
        assert forall|k: int| 0 <= k < ps.len() implies 0 <= #[trigger] ps[k] < usages.len()
            && usage_rank(usages[ps[k] as int]) == rank by {
            if k < pp.len() {
                assert(ps[k] == pp[k]);
                assert(prev[pp[k] as int] == usages[pp[k] as int]);
            }
        }
        assert forall|a: int, b: int| 0 <= a < b < ps.len() implies ps[a] < ps[b] by {
            if b < pp.len() {
                assert(ps[a] == pp[a] && ps[b] == pp[b]);
            } else {
                assert(ps[a] == pp[a]);
                assert(pp[a] < prev.len());
            }
        }
        assert forall|p: int|
            0 <= p < usages.len() && usage_rank(usages[p]) == rank implies #[trigger] ps.contains(
            p as usize,
        ) by {
            if p < n {
                assert(prev[p] == usages[p]);
                assert(pp.contains(p as usize));
                let k = choose|k: int| 0 <= k < pp.len() && pp[k] == p as usize;
                assert(ps[k] == p as usize);
            } else {
                assert(ps[ps.len() - 1] == p as usize);
            }
        }
    }
}

/// Each interface is tried exactly once: the order is a permutation of the
/// positions, and interfaces of one rank keep their relative order.
pub proof fn lemma_candidate_order_is_a_permutation(usages: Seq<Option<i64>>)
    requires
        usages.len() <= usize::MAX,
    ensures
        forall|p: int| 0 <= p < usages.len() ==> #[trigger] try_order(usages).contains(p as usize),
        forall|k: int|
            0 <= k < try_order(usages).len() ==> #[trigger] try_order(usages)[k] < usages.len(),
        forall|a: int, b: int|
            0 <= a < b < try_order(usages).len() ==> try_order(usages)[a] != try_order(usages)[b],
{
    lemma_positions_with_rank(usages, 0);
    lemma_positions_with_rank(usages, 1);
    lemma_positions_with_rank(usages, 2);
    let p0 = positions_with_rank(usages, 0);
    let p1 = positions_with_rank(usages, 1);
    let p2 = positions_with_rank(usages, 2);
    let o = try_order(usages);
    assert(o =~= p0 + p1 + p2);
    assert forall|p: int| 0 <= p < usages.len() implies #[trigger] o.contains(p as usize) by {
        let r = usage_rank(usages[p]);
        if r == 0 {
            assert(p0.contains(p as usize));
            let k = choose|k: int| 0 <= k < p0.len() && p0[k] == p as usize;
            assert((p0 + p1)[k] == p0[k]);
            assert(o[k] == (p0 + p1)[k]);
        } else if r == 1 {
            assert(p1.contains(p as usize));
            let k = choose|k: int| 0 <= k < p1.len() && p1[k] == p as usize;
            assert(o[p0.len() + k] == p as usize);
        } else {
            assert(p2.contains(p as usize));
            let k = choose|k: int| 0 <= k < p2.len() && p2[k] == p as usize;
            assert(o[(p0 + p1).len() + k] == p2[k]);
        }
    }
    assert forall|k: int| 0 <= k < o.len() implies #[trigger] o[k] < usages.len() by {
        if k < p0.len() {
            assert(o[k] == p0[k]);
        } else if k < p0.len() + p1.len() {
            assert(o[k] == p1[k - p0.len()]);
        } else {
            assert(o[k] == p2[k - p0.len() - p1.len()]);
        }
    }
    assert forall|a: int, b: int| 0 <= a < b < o.len() implies o[a] != o[b] by {
        let ra: int = if a < p0.len() {
            0
        } else if a < p0.len() + p1.len() {
            1
        } else {
            2
        };
        let rb: int = if b < p0.len() {
            0
        } else if b < p0.len() + p1.len() {
            1
        } else {
            2
        };
        let ia: int = if ra == 0 {
            a
        } else if ra == 1 {
            a - p0.len()
        } else {
            a - p0.len() - p1.len()
        };
        let ib: int = if rb == 0 {
            b
        } else if rb == 1 {
            b - p0.len()
        } else {
            b - p0.len() - p1.len()
        };
        let pa = positions_with_rank(usages, ra);
        let pb = positions_with_rank(usages, rb);
        assert(o[a] == pa[ia]);
        assert(o[b] == pb[ib]);
        assert(usage_rank(usages[pa[ia] as int]) == ra);
        assert(usage_rank(usages[pb[ib] as int]) == rb);
    }
}

/// What an attempt to open one interface leads to.
#[derive(Debug, Clone, PartialEq, Eq)]
pub enum OpenDecision {
    /// The interface is open: run the vendor query on it, then close it.
    Query,
    /// Give up on the whole read with this error.
    Abort(VendorError),
    /// Skip this interface and try the next one.
    Skip,
}

/// The bookkeeping of `read_sensor_dpi` across the candidate interfaces:
/// the reason to report if none of them answers.
pub struct SensorProbe {
    pub last_error: String,
}

pub open spec fn open_failed_text(code: i32) -> Seq<char> {
    "IOHIDDeviceOpen failed (IOReturn 0x"@ + hex_numeral((code as u32) as nat, 8) + ")"@
}

impl SensorProbe {
    /// Starts a read of the mouse `vendor_id`/`product_id`, which has
    /// `interfaces` matching HID interfaces: fails at once for a vendor
    /// without a known protocol, or when there is no interface to ask.
    pub fn begin(vendor_id: i64, product_id: i64, interfaces: usize) -> (r: Result<
        (Vendor, SensorProbe),
        VendorError,
    >)
        ensures
            vendor_id != VENDOR_RAZER && vendor_id != VENDOR_LOGITECH ==> r == Err::<
                (Vendor, SensorProbe),
                VendorError,
            >(VendorError::Unsupported(vendor_id)),
            (vendor_id == VENDOR_RAZER || vendor_id == VENDOR_LOGITECH) && interfaces == 0 ==> r
                == Err::<(Vendor, SensorProbe), VendorError>(
                VendorError::NotFound(vendor_id, product_id),
            ),
            (vendor_id == VENDOR_RAZER || vendor_id == VENDOR_LOGITECH) && interfaces > 0 ==> (
            r matches Ok((v, probe)) && (vendor_id == VENDOR_RAZER <==> v == Vendor::Razer)
                && probe.last_error@ == "no HID interface answered the DPI query"@),
    {
        let vendor = match vendor_for(vendor_id) {
            Ok(v) => v,
            Err(e) => return Err(e),
        };
        if interfaces == 0 {
            return Err(VendorError::NotFound(vendor_id, product_id));
        }
        Ok((vendor, SensorProbe { last_error: String::from_str("no HID interface answered the DPI query") }))
    }

    /// What to do after `IOHIDDeviceOpen` returned `result` for an interface.
    pub fn on_open(&mut self, result: i32) -> (d: OpenDecision)
        ensures
            result == IO_RETURN_SUCCESS ==> d == OpenDecision::Query && final(self).last_error
                == old(self).last_error,
            result == IO_RETURN_NOT_PERMITTED ==> d == OpenDecision::Abort(VendorError::NotPermitted)
                && final(self).last_error == old(self).last_error,
            result == IO_RETURN_EXCLUSIVE_ACCESS ==> d == OpenDecision::Skip
                && final(self).last_error@ == "another program holds the mouse open exclusively"@,
            result != IO_RETURN_SUCCESS && result != IO_RETURN_NOT_PERMITTED && result
                != IO_RETURN_EXCLUSIVE_ACCESS ==> d == OpenDecision::Skip
                && final(self).last_error@ == open_failed_text(result),
    {
        if result == IO_RETURN_SUCCESS {
            OpenDecision::Query
        } else if result == IO_RETURN_NOT_PERMITTED {
            OpenDecision::Abort(VendorError::NotPermitted)
        } else if result == IO_RETURN_EXCLUSIVE_ACCESS {
            self.last_error = String::from_str("another program holds the mouse open exclusively");
            OpenDecision::Skip
        } else {
            self.last_error = concat3(
                "IOHIDDeviceOpen failed (IOReturn 0x",
                hex(#[verifier::truncate] (result as u32) as u64, 8).as_str(),
                ")",
            );
            OpenDecision::Skip
        }
    }

    /// Takes the outcome of the vendor query on an open interface: a reading
    /// ends the search, a failure is remembered and the search goes on.
    pub fn on_query(&mut self, outcome: Result<SensorDpi, String>) -> (r: Option<SensorDpi>)
        ensures
            match outcome {
                Ok(d) => r == Some(d) && final(self).last_error == old(self).last_error,
                Err(e) => r is None && final(self).last_error == e,
            },
    {
        match outcome {
            Ok(d) => Some(d),
            Err(e) => {
                self.last_error = e;
                None
            },
        }
    }

    /// The error when every interface has been tried without a reading.
    pub fn finish(self) -> (e: VendorError)
        ensures
            e == VendorError::Protocol(self.last_error),
    {
        VendorError::Protocol(self.last_error)
    }
}

// ---------------------------------------------------------------------------
// Razer
// ---------------------------------------------------------------------------

pub const RAZER_REPORT_LEN: usize = 90;
pub const RAZER_STATUS_BUSY: u8 = 0x01;
pub const RAZER_STATUS_SUCCESS: u8 = 0x02;
pub const RAZER_STATUS_NOT_SUPPORTED: u8 = 0x05;
pub const RAZER_CLASS_MISC: u8 = 0x04;
pub const RAZER_CMD_GET_DPI_XY: u8 = 0x05;
pub const RAZER_VARSTORE: u8 = 0x01;

/// Where a Razer reading comes from.
pub const RAZER_SOURCE: &'static str = "Razer protocol, get DPI XY (class 0x04, command 0x05)";

/// XOR of all the bytes.
pub open spec fn xor_all(s: Seq<u8>) -> u8
    decreases s.len(),
{
    if s.len() == 0 {
        0
    } else {
        xor_all(s.drop_last()) ^ s.last()
    }
}

/// The checksum of a Razer report: XOR of bytes 2..88.
pub open spec fn razer_checksum(report: Seq<u8>) -> u8 {
    xor_all(report.subrange(2, 88))
}

/// The "get DPI XY" request before its checksum is filled in: status,
/// transaction id, remaining packets, protocol type, data size (7), command
/// class (0x04), command id (0x05), the varstore argument (0x01), zeros.
pub open spec fn razer_request_body(transaction_id: u8) -> Seq<u8> {
    Seq::new(
        90,
        |i: int|
            if i == 1 {
                transaction_id
            } else if i == 5 {
                7u8
            } else if i == 6 {
                RAZER_CLASS_MISC
            } else if i == 7 {
                RAZER_CMD_GET_DPI_XY
            } else if i == 8 {
                RAZER_VARSTORE
            } else {
                0u8
            },
    )
}

/// The complete request, checksum at byte 88.
pub open spec fn razer_request(transaction_id: u8) -> Seq<u8> {
    razer_request_body(transaction_id).update(88, razer_checksum(razer_request_body(transaction_id)))
}

/// XOR of bytes 2..88, as the firmware computes it.
pub fn razer_crc(report: &[u8; 90]) -> (c: u8)
    ensures
        c == razer_checksum(report@),
{
    let mut acc: u8 = 0;
    let mut i: usize = 2;
    while i < 88
        invariant
            2 <= i <= 88,
            report@.len() == 90,
            acc == xor_all(report@.subrange(2, i as int)),
        decreases 88 - i,
    {
        assert(report@.subrange(2, i + 1).drop_last() =~= report@.subrange(2, i as int));
        acc = acc ^ report[i];
        i = i + 1;
    }
    acc
}

/// Build the "get DPI XY" request. Layout (openrazer `razer_report`): status,
/// transaction id, remaining packets (2), protocol type, data size, command
/// class, command id, 80 argument bytes, crc, reserved.
pub fn razer_dpi_request(transaction_id: u8) -> (r: [u8; 90])
    ensures
        r@ == razer_request(transaction_id),
{
    let mut r = [0u8; 90];
    r[1] = transaction_id;
    r[5] = 7;
    r[6] = RAZER_CLASS_MISC;
    r[7] = RAZER_CMD_GET_DPI_XY;
    r[8] = RAZER_VARSTORE;
    assert(r@ =~= razer_request_body(transaction_id));
    let crc = razer_crc(&r);
    r[88] = crc;
    assert(r@ =~= razer_request(transaction_id));
    r
}

/// Two bytes read as a big-endian 16-bit number.
pub open spec fn be16(hi: u8, lo: u8) -> u32 {
    (hi as int * 256 + lo as int) as u32
}

fn be16_exec(hi: u8, lo: u8) -> (v: u32)
    ensures
        v == be16(hi, lo),
        v <= 0xFFFF,
{
    (hi as u32) * 256 + (lo as u32)
}

/// The reading in a Razer response: `None` unless it answers "get DPI XY"
/// with a nonzero x; a zero y stands for "same as x".
pub open spec fn razer_reading(resp: Seq<u8>) -> Option<(u32, u32)> {
    if resp[6] != RAZER_CLASS_MISC || resp[7] != RAZER_CMD_GET_DPI_XY {
        None
    } else {
        let x = be16(resp[9], resp[10]);
        let y = be16(resp[11], resp[12]);
        if x == 0 {
            None
        } else {
            Some((x, if y == 0 { x } else { y }))
        }
    }
}

/// A Razer "get DPI XY" answer reads x from bytes 9..10 and y from bytes
/// 11..12, big-endian; a zero y means "same as x". Anything that is not an
/// answer to that command (class 0x04, command 0x05), or reads x as zero,
/// gives no reading.
pub proof fn lemma_razer_reading_from_bytes(resp: Seq<u8>)
    requires
        resp.len() == 90,
    ensures
        razer_reading(resp) is Some <==> (resp[6] == 0x04 && resp[7] == 0x05 && resp[9] as int * 256
            + resp[10] as int != 0),
        razer_reading(resp) matches Some((x, y)) ==> {
            &&& x as int == resp[9] as int * 256 + resp[10] as int
            &&& y as int == if resp[11] as int * 256 + resp[12] as int == 0 {
                x as int
            } else {
                resp[11] as int * 256 + resp[12] as int
            }
        },
{
    let (a, b, c, d) = (resp[9], resp[10], resp[11], resp[12]);
    assert(be16(a, b) as int == a as int * 256 + b as int);
    assert(be16(c, d) as int == c as int * 256 + d as int);
}

/// Parse a response to `razer_dpi_request`; `None` if it isn't one.
pub fn razer_parse_dpi(resp: &[u8; 90]) -> (r: Option<(u32, u32)>)
    ensures
        r == razer_reading(resp@),
{
    if resp[6] != RAZER_CLASS_MISC || resp[7] != RAZER_CMD_GET_DPI_XY {
        return None;
    }
    let dpi_x = be16_exec(resp[9], resp[10]);
    let dpi_y = be16_exec(resp[11], resp[12]);
    if dpi_x == 0 {
        return None;
    }
    Some((dpi_x, if dpi_y == 0 { dpi_x } else { dpi_y }))
}

/// The checksum covers bytes 2..88 only, so the transaction id does not
/// change it, and a request's checksum byte is the checksum of the request.
pub proof fn lemma_razer_checksum(t1: u8, t2: u8)
    ensures
        razer_request(t1)[88] == razer_request(t2)[88],
        razer_request(t1)[88] == razer_checksum(razer_request(t1)),
{
    assert(razer_request_body(t1).subrange(2, 88) =~= razer_request_body(t2).subrange(2, 88));
    assert(razer_request(t1).subrange(2, 88) =~= razer_request_body(t1).subrange(2, 88));
}

/// The transaction id tried in each round: older firmware wants 0xff,
/// newer 0x1f or 0x3f.
pub open spec fn razer_transaction_id(round: int) -> u8 {
    if round == 0 {
        0xFF
    } else if round == 1 {
        0x1F
    } else {
        0x3F
    }
}

fn transaction_id(round: usize) -> (t: u8)
    ensures
        t == razer_transaction_id(round as int),
{
    if round == 0 {
        0xFF
    } else if round == 1 {
        0x1F
    } else {
        0x3F
    }
}

/// What the caller does next in a Razer DPI query.
pub enum RazerAction {
    /// Send `request` as a feature report, wait `delay_ms`, read the
    /// feature report back and pass what happened to `RazerQuery::step`.
    Send { request: [u8; 90], delay_ms: u64 },
    /// The query is over.
    Finished(Result<SensorDpi, String>),
}

/// What happened to the last request.
pub enum RazerEvent {
    /// Sending the feature report failed with this IOReturn.
    SendFailed(i32),
    /// Reading the feature report back failed with this IOReturn.
    ReadFailed(i32),
    /// The feature report read back.
    Answer([u8; 90]),
}

/// A Razer DPI query in progress: three transaction ids, each tried up to
/// three times while the mouse reports busy.
pub struct RazerQuery {
    pub round: usize,
    pub attempt: u64,
    pub last: String,
    pub finished: bool,
}

/// `action` sends the request of round `round`, attempt `attempt`.
pub open spec fn sends(action: RazerAction, round: int, attempt: int) -> bool {
    match action {
        RazerAction::Send { request, delay_ms } => request@ == razer_request(
            razer_transaction_id(round),
        ) && delay_ms == 30 + 30 * attempt,
        RazerAction::Finished(_) => false,
    }
}

/// After a failure described by `reason`, the query moves to the next
/// transaction id, or gives up with `reason` after the last one.
pub open spec fn moves_on(old: RazerQuery, new: RazerQuery, reason: Seq<char>, action: RazerAction) -> bool {
    &&& new.last@ == reason
    &&& if old.round + 1 < 3 {
        &&& new.round == old.round + 1
        &&& new.attempt == 0
        &&& !new.finished
        &&& sends(action, new.round as int, 0)
    } else {
        &&& new.finished
        &&& new.round == old.round
        &&& new.attempt == old.attempt
        &&& action matches RazerAction::Finished(Err(e)) && e@ == reason
    }
}

/// While the mouse reports busy, the same request is repeated up to three
/// times in all before moving on.
pub open spec fn retries(old: RazerQuery, new: RazerQuery, reason: Seq<char>, action: RazerAction) -> bool {
    if old.attempt + 1 < 3 {
        &&& new.last@ == reason
        &&& new.round == old.round
        &&& new.attempt == old.attempt + 1
        &&& !new.finished
        &&& sends(action, old.round as int, new.attempt as int)
    } else {
        moves_on(old, new, reason, action)
    }
}

/// A failure of an IOKit call, with its IOReturn in hexadecimal after
/// `prefix` ("... failed (IOReturn 0x").
pub open spec fn io_failure_text(prefix: Seq<char>, code: i32) -> Seq<char> {
    prefix + hex_numeral((code as u32) as nat, 8) + ")"@
}

/// The reason given when a transaction id is refused.
pub open spec fn unsupported_id_text(transaction_id: u8) -> Seq<char> {
    "transaction id 0x"@ + hex_numeral(transaction_id as nat, 2) + " not supported"@
}

impl RazerQuery {
    /// The query is waiting for the outcome of a request it asked for.
    pub open spec fn in_progress(&self) -> bool {
        !self.finished && self.round < 3 && self.attempt < 3
    }

    /// How many more requests the query may send after the current one.
    pub open spec fn requests_left(&self) -> nat {
        ((2 - self.round) * 3 + (2 - self.attempt)) as nat
    }

    /// Starts a query: the first request uses transaction id 0xff.
    pub fn start() -> (r: (RazerQuery, RazerAction))
        ensures
            r.0.in_progress(),
            r.0.round == 0 && r.0.attempt == 0,
            r.0.last@ == "the mouse did not answer the Razer DPI query"@,
            sends(r.1, 0, 0),
            r.0.requests_left() == 8,
    {
        let q = RazerQuery {
            round: 0,
            attempt: 0,
            last: String::from_str("the mouse did not answer the Razer DPI query"),
            finished: false,
        };
        (q, RazerAction::Send { request: razer_dpi_request(transaction_id(0)), delay_ms: 30 })
    }

    fn move_on(&mut self, reason: String) -> (a: RazerAction)
        requires
            old(self).in_progress(),
        ensures
            moves_on(*old(self), *final(self), reason@, a),
    {
        if self.round + 1 < 3 {
            self.round = self.round + 1;
            self.attempt = 0;
            self.last = reason;
            RazerAction::Send { request: razer_dpi_request(transaction_id(self.round)), delay_ms: 30 }
        } else {
            self.finished = true;
            self.last = reason.clone();
            RazerAction::Finished(Err(reason))
        }
    }

    /// The next action, given what happened to the last request.
    pub fn step(&mut self, event: RazerEvent) -> (a: RazerAction)
        requires
            old(self).in_progress(),
        ensures
            final(self).in_progress() <==> a is Send,
            a is Send ==> final(self).requests_left() < old(self).requests_left(),
            match event {
                RazerEvent::SendFailed(code) => moves_on(
                    *old(self),
                    *final(self),
                    io_failure_text("sending the Razer feature report failed (IOReturn 0x"@, code),
                    a,
                ),
                RazerEvent::ReadFailed(code) => moves_on(
                    *old(self),
                    *final(self),
                    io_failure_text("reading the Razer feature report failed (IOReturn 0x"@, code),
                    a,
                ),
                RazerEvent::Answer(resp) => if resp[0] == RAZER_STATUS_SUCCESS {
                    match razer_reading(resp@) {
                        Some((x, y)) => final(self).finished && (a matches RazerAction::Finished(
                            Ok(d),
                        ) && d == (SensorDpi {
                            dpi_x: x,
                            dpi_y: y,
                            default_dpi: None,
                            source: RAZER_SOURCE,
                        })),
                        None => moves_on(
                            *old(self),
                            *final(self),
                            "the mouse answered, but not with a DPI report"@,
                            a,
                        ),
                    }
                } else if resp[0] == RAZER_STATUS_BUSY {
                    retries(*old(self), *final(self), "the mouse reported busy"@, a)
                } else if resp[0] == RAZER_STATUS_NOT_SUPPORTED {
                    moves_on(
                        *old(self),
                        *final(self),
                        unsupported_id_text(razer_transaction_id(old(self).round as int)),
                        a,
                    )
                } else {
                    moves_on(
                        *old(self),
                        *final(self),
                        "unexpected Razer status 0x"@ + hex_numeral(resp[0] as nat, 2),
                        a,
                    )
                },
            },
    {
        match event {
            RazerEvent::SendFailed(code) => {
                let reason = concat3(
                    "sending the Razer feature report failed (IOReturn 0x",
                    hex(#[verifier::truncate] (code as u32) as u64, 8).as_str(),
                    ")",
                );
                self.move_on(reason)
            },
            RazerEvent::ReadFailed(code) => {
                let reason = concat3(
                    "reading the Razer feature report failed (IOReturn 0x",
                    hex(#[verifier::truncate] (code as u32) as u64, 8).as_str(),
                    ")",
                );
                self.move_on(reason)
            },
            RazerEvent::Answer(resp) => {
                let status = resp[0];
                if status == RAZER_STATUS_SUCCESS {
                    match razer_parse_dpi(&resp) {
                        Some((x, y)) => {
                            self.finished = true;
                            RazerAction::Finished(
                                Ok(
                                    SensorDpi {
                                        dpi_x: x,
                                        dpi_y: y,
                                        default_dpi: None,
                                        source: RAZER_SOURCE,
                                    },
                                ),
                            )
                        },
                        None => self.move_on(
                            String::from_str("the mouse answered, but not with a DPI report"),
                        ),
                    }
                } else if status == RAZER_STATUS_BUSY {
                    let reason = String::from_str("the mouse reported busy");
                    if self.attempt + 1 < 3 {
                        self.attempt = self.attempt + 1;
                        self.last = reason;
                        RazerAction::Send {
                            request: razer_dpi_request(transaction_id(self.round)),
                            delay_ms: 30 + 30 * self.attempt,
                        }
                    } else {
                        self.move_on(reason)
                    }
                } else if status == RAZER_STATUS_NOT_SUPPORTED {
                    let reason = concat3(
                        "transaction id 0x",
                        hex(transaction_id(self.round) as u64, 2).as_str(),
                        " not supported",
                    );
                    self.move_on(reason)
                } else {
                    let mut reason = String::from_str("unexpected Razer status 0x");
                    reason.append(hex(status as u64, 2).as_str());
                    self.move_on(reason)
                }
            },
        }
    }
}

// ---------------------------------------------------------------------------
// Logitech HID++ 2.0
// ---------------------------------------------------------------------------

pub const HIDPP_LONG_REPORT_ID: u8 = 0x11;
pub const HIDPP_SHORT_REPORT_ID: u8 = 0x10;
pub const HIDPP_LONG_LEN: usize = 20;
pub const HIDPP_DEVICE_INDEX_DIRECT: u8 = 0xFF;
pub const HIDPP_SOFTWARE_ID: u8 = 0x0A;
pub const HIDPP_ROOT_FEATURE_INDEX: u8 = 0x00;
pub const HIDPP_ERROR_FEATURE_INDEX: u8 = 0xFF;
pub const HIDPP1_ERROR_FEATURE_INDEX: u8 = 0x8F;
pub const HIDPP_FEATURE_ADJUSTABLE_DPI: u16 = 0x2201;

/// Where a Logitech reading comes from.
pub const LOGITECH_SOURCE: &'static str = "Logitech HID++ 2.0, Adjustable DPI (0x2201) getSensorDpi";

/// The byte after the feature index: the function in the high nibble, our
/// software id in the low one.
pub open spec fn function_byte(function: u8) -> u8 {
    ((function % 16) * 16 + HIDPP_SOFTWARE_ID) as u8
}

/// A long HID++ request.
pub open spec fn hidpp_request_bytes(feature_index: u8, function: u8, params: Seq<u8>) -> Seq<u8> {
    let n = if params.len() < 16 {
        params.len() as int
    } else {
        16
    };
    Seq::new(
        20,
        |i: int|
            if i == 0 {
                HIDPP_LONG_REPORT_ID
            } else if i == 1 {
                HIDPP_DEVICE_INDEX_DIRECT
            } else if i == 2 {
                feature_index
            } else if i == 3 {
                function_byte(function)
            } else if 4 <= i < 4 + n {
                params[i - 4]
            } else {
                0u8
            },
    )
}

/// Build a long HID++ report: id, device index, feature index, function and
/// software id nibbles, then up to 16 parameter bytes.
pub fn hidpp_request(feature_index: u8, function: u8, params: &[u8]) -> (r: [u8; 20])
    ensures
        r@ == hidpp_request_bytes(feature_index, function, params@),
{
    let mut r = [0u8; 20];
    r[0] = HIDPP_LONG_REPORT_ID;
    r[1] = HIDPP_DEVICE_INDEX_DIRECT;
    r[2] = feature_index;
    let fs: u8 = (function << 4u8) | HIDPP_SOFTWARE_ID;
    assert(((function << 4u8) | 10u8) == ((function % 16) * 16 + 10) as u8) by (bit_vector);
    r[3] = fs;
    let n: usize = if params.len() < 16 { params.len() } else { 16 };
    let mut i: usize = 0;
    while i < n
        invariant
            n <= params@.len(),
            n <= 16,
            i <= n,
            r@.len() == 20,
            forall|k: int|
                0 <= k < 20 ==> r@[k] == if k < 4 + i {
                    hidpp_request_bytes(feature_index, function, params@)[k]
                } else {
                    0u8
                },
        decreases n - i,
    {
        r[4 + i] = params[i];
        i = i + 1;
    }
    assert(r@ =~= hidpp_request_bytes(feature_index, function, params@));
    r
}

/// Outcome of matching one inbound report against a pending request.
#[derive(Debug, Clone, PartialEq, Eq)]
pub enum HidppReply {
    /// Response parameters (everything after the function/software byte).
    Params(Vec<u8>),
    /// HID++ error code for our request.
    Error(u8),
    /// Not for us (device traffic, another software id, etc.).
    Unrelated,
}

/// An inbound report without its report id, which IOKit may or may not
/// have kept.
pub open spec fn hidpp_payload(raw: Seq<u8>) -> Seq<u8> {
    if raw.len() > 0 && (raw[0] == HIDPP_LONG_REPORT_ID || raw[0] == HIDPP_SHORT_REPORT_ID) {
        raw.skip(1)
    } else {
        raw
    }
}

/// The report is a HID++ error for the request with this feature index and
/// function/software byte.
pub open spec fn is_hidpp_error(raw: Seq<u8>, feature_index: u8, function_sw: u8) -> bool {
    let p = hidpp_payload(raw);
    &&& p.len() >= 6
    &&& (p[1] == HIDPP_ERROR_FEATURE_INDEX || p[1] == HIDPP1_ERROR_FEATURE_INDEX)
    &&& p[3] == feature_index
    &&& p[4] == function_sw
}

/// The report is the response to the request with this feature index and
/// function/software byte.
pub open spec fn is_hidpp_response(raw: Seq<u8>, feature_index: u8, function_sw: u8) -> bool {
    let p = hidpp_payload(raw);
    &&& p.len() >= 4
    &&& !is_hidpp_error(raw, feature_index, function_sw)
    &&& p[1] == feature_index
    &&& p[2] == function_sw
}

/// The report answers the request, one way or the other.
pub open spec fn answers(raw: Seq<u8>, feature_index: u8, function_sw: u8) -> bool {
    is_hidpp_error(raw, feature_index, function_sw) || is_hidpp_response(raw, feature_index, function_sw)
}

fn copy_from(s: &[u8], start: usize) -> (v: Vec<u8>)
    requires
        start <= s@.len(),
    ensures
        v@ == s@.skip(start as int),
{
    let mut v: Vec<u8> = Vec::new();
    let mut i: usize = start;
    while i < s.len()
        invariant
            start <= i <= s@.len(),
            v@ == s@.subrange(start as int, i as int),
        decreases s.len() - i,
    {
        v.push(s[i]);
        i = i + 1;
        assert(v@ =~= s@.subrange(start as int, i as int));
    }
    assert(v@ =~= s@.skip(start as int));
    v
}

/// Interpret an inbound report. IOKit may or may not prepend the report id,
/// so accept both shapes.
pub fn hidpp_match(raw: &[u8], feature_index: u8, function_sw: u8) -> (r: HidppReply)
    ensures
        match r {
            HidppReply::Error(code) => is_hidpp_error(raw@, feature_index, function_sw) && code
                == hidpp_payload(raw@)[5],
            HidppReply::Params(p) => is_hidpp_response(raw@, feature_index, function_sw) && p@
                == hidpp_payload(raw@).skip(3),
            HidppReply::Unrelated => !answers(raw@, feature_index, function_sw),
        },
{
    let skip: usize = if raw.len() > 0 && (raw[0] == HIDPP_LONG_REPORT_ID || raw[0]
        == HIDPP_SHORT_REPORT_ID) {
        1
    } else {
        0
    };
    let ghost p = hidpp_payload(raw@);
    assert(p =~= raw@.skip(skip as int));
    if raw.len() - skip < 4 {
        return HidppReply::Unrelated;
    }
    let feat = raw[skip + 1];
    let fs = raw[skip + 2];
    if (feat == HIDPP_ERROR_FEATURE_INDEX || feat == HIDPP1_ERROR_FEATURE_INDEX) && raw.len() - skip
        >= 6 && raw[skip + 3] == feature_index && raw[skip + 4] == function_sw {
        return HidppReply::Error(raw[skip + 5]);
    }
    if feat == feature_index && fs == function_sw {
        let params = copy_from(raw, skip + 3);
        assert(params@ =~= p.skip(3));
        return HidppReply::Params(params);
    }
    HidppReply::Unrelated
}

/// IOKit may hand over a report with or without its report id: for a
/// report that does not itself start with a report id, putting the long
/// report id in front changes nothing in how it is read.
pub proof fn lemma_report_id_is_optional(report: Seq<u8>, feature_index: u8, function_sw: u8)
    requires
        report.len() > 0 ==> report[0] != HIDPP_LONG_REPORT_ID && report[0] != HIDPP_SHORT_REPORT_ID,
    ensures
        hidpp_payload(seq![HIDPP_LONG_REPORT_ID] + report) == hidpp_payload(report),
        is_hidpp_error(seq![HIDPP_LONG_REPORT_ID] + report, feature_index, function_sw)
            == is_hidpp_error(report, feature_index, function_sw),
        is_hidpp_response(seq![HIDPP_LONG_REPORT_ID] + report, feature_index, function_sw)
            == is_hidpp_response(report, feature_index, function_sw),
{
    assert((seq![HIDPP_LONG_REPORT_ID] + report).skip(1) =~= report);
}

/// The device's answer to a request echoes the request's report id, device
/// index, feature index and function/software byte, then carries its
/// parameters: such a report is read as the response to that request, with
/// exactly those parameters.
pub proof fn lemma_answer_to_request_is_recognised(feature_index: u8, function: u8, params: Seq<u8>, data: Seq<u8>)
    requires
        feature_index != HIDPP_ERROR_FEATURE_INDEX,
        feature_index != HIDPP1_ERROR_FEATURE_INDEX,
        data.len() >= 1,
    ensures
        ({
            let request = hidpp_request_bytes(feature_index, function, params);
            let answer = request.take(4) + data;
            &&& is_hidpp_response(answer, feature_index, request[3])
            &&& hidpp_payload(answer).skip(3) == data
        }),
{
    let request = hidpp_request_bytes(feature_index, function, params);
    let answer = request.take(4) + data;
    assert(answer[0] == HIDPP_LONG_REPORT_ID);
    let p = hidpp_payload(answer);
    assert(p =~= answer.skip(1));
    assert(p[1] == feature_index);
    assert(p[2] == request[3]);
    assert(p.skip(3) =~= data);
}

/// The error text for a HID++ error code.
pub open spec fn hidpp_error_text(code: u8, feature_index: u8, function: u8) -> Seq<char> {
    "HID++ error 0x"@ + hex_numeral(code as nat, 2) + " for feature index "@ + decimal_numeral(
        feature_index as nat,
    ) + " function "@ + decimal_numeral(function as nat)
}

/// `k` is the first of the reports that answers the request.
pub open spec fn first_answer(reports: Seq<Vec<u8>>, feature_index: u8, function_sw: u8, k: int) -> bool {
    &&& 0 <= k < reports.len()
    &&& answers(reports[k]@, feature_index, function_sw)
    &&& forall|j: int| 0 <= j < k ==> !answers(#[trigger] reports[j]@, feature_index, function_sw)
}

/// The answer, if any, among the reports that arrived for the request with
/// `feature_index` and `function`: the first report that answers decides.
pub fn hidpp_answer(reports: &Vec<Vec<u8>>, feature_index: u8, function: u8) -> (r: Option<
    Result<Vec<u8>, String>,
>)
    ensures
        ({
            let sw = function_byte(function);
            match r {
                None => forall|j: int|
                    0 <= j < reports@.len() ==> !answers(#[trigger] reports@[j]@, feature_index, sw),
                Some(Ok(p)) => exists|k: int|
                    first_answer(reports@, feature_index, sw, k) && is_hidpp_response(
                        reports@[k]@,
                        feature_index,
                        sw,
                    ) && p@ == hidpp_payload(reports@[k]@).skip(3),
                Some(Err(e)) => exists|k: int|
                    first_answer(reports@, feature_index, sw, k) && is_hidpp_error(
                        reports@[k]@,
                        feature_index,
                        sw,
                    ) && e@ == hidpp_error_text(
                        hidpp_payload(reports@[k]@)[5],
                        feature_index,
                        function,
                    ),
            }
        }),
{
    let sw: u8 = (function << 4u8) | HIDPP_SOFTWARE_ID;
    assert(((function << 4u8) | 10u8) == ((function % 16) * 16 + 10) as u8) by (bit_vector);
    let mut k: usize = 0;
    while k < reports.len()
        invariant
            sw == function_byte(function),
            k <= reports@.len(),
            forall|j: int| 0 <= j < k ==> !answers(#[trigger] reports@[j]@, feature_index, sw),
        decreases reports.len() - k,
    {
        match hidpp_match(reports[k].as_slice(), feature_index, sw) {
            HidppReply::Params(p) => {
                assert(first_answer(reports@, feature_index, sw, k as int));
                return Some(Ok(p));
            },
            HidppReply::Error(code) => {
                assert(first_answer(reports@, feature_index, sw, k as int));
                let mut e = String::from_str("HID++ error 0x");
                e.append(hex(code as u64, 2).as_str());
                e.append(" for feature index ");
                e.append(decimal(feature_index as u64).as_str());
                e.append(" function ");
                e.append(decimal(function as u64).as_str());
                return Some(Err(e));
            },
            HidppReply::Unrelated => {},
        }
        k = k + 1;
    }
    None
}

/// The reason given when no answer arrives in time.
pub fn hidpp_timeout_text() -> (s: String)
    ensures
        s@ == "the mouse did not answer the HID++ request in time (if this keeps happening, check that your terminal has the Input Monitoring permission)"@,
{
    String::from_str(
        "the mouse did not answer the HID++ request in time (if this keeps happening, check that your terminal has the Input Monitoring permission)",
    )
}

/// The reason given when a HID++ request cannot be sent.
pub fn hidpp_send_failed_text(code: i32) -> (s: String)
    ensures
        s@ == io_failure_text("sending the HID++ report failed (IOReturn 0x"@, code),
{
    concat3("sending the HID++ report failed (IOReturn 0x", hex(#[verifier::truncate] (code as u32) as u64, 8).as_str(), ")")
}

/// `r` is what a `getFeature` answer `root` means: the index of Adjustable
/// DPI, or why there is none.
pub open spec fn feature_index_outcome(root: Seq<u8>, r: Result<u8, String>) -> bool {
    if root.len() == 0 || root[0] == 0 {
        r matches Err(e) && e@ == feature_failure_text(root)
    } else {
        r == Ok::<u8, String>(root[0])
    }
}

/// Why a `getFeature` answer gives no usable index.
pub open spec fn feature_failure_text(root: Seq<u8>) -> Seq<char> {
    if root.len() == 0 {
        "empty getFeature response"@
    } else {
        "this Logitech mouse does not implement Adjustable DPI (HID++ feature 0x2201)"@
    }
}

/// The feature index that the root feature's `getFeature` reported for
/// Adjustable DPI; zero means the mouse lacks the feature.
pub fn hidpp_feature_index(root: &[u8]) -> (r: Result<u8, String>)
    ensures
        feature_index_outcome(root@, r),
{
    if root.len() == 0 {
        return Err(String::from_str("empty getFeature response"));
    }
    let feature_index = root[0];
    if feature_index == 0 {
        return Err(
            String::from_str(
                "this Logitech mouse does not implement Adjustable DPI (HID++ feature 0x2201)",
            ),
        );
    }
    Ok(feature_index)
}

/// `r` is what a `getSensorDpi` answer `resp` means: sensor index, current
/// DPI and default DPI, both big-endian; a zero default is no default.
pub open spec fn sensor_dpi_outcome(resp: Seq<u8>, r: Result<SensorDpi, String>) -> bool {
    if resp.len() < 5 {
        r matches Err(e) && e@ == "short getSensorDpi response ("@ + decimal_numeral(resp.len())
            + " bytes)"@
    } else if be16(resp[1], resp[2]) == 0 {
        r matches Err(e) && e@ == "the mouse reported a DPI of 0"@
    } else {
        r == Ok::<SensorDpi, String>(
            SensorDpi {
                dpi_x: be16(resp[1], resp[2]),
                dpi_y: be16(resp[1], resp[2]),
                default_dpi: if be16(resp[3], resp[4]) > 0 {
                    Some(be16(resp[3], resp[4]))
                } else {
                    None
                },
                source: LOGITECH_SOURCE,
            },
        )
    }
}

/// The reading in a `getSensorDpi` response.
pub fn hidpp_sensor_dpi(resp: &[u8]) -> (r: Result<SensorDpi, String>)
    ensures
        sensor_dpi_outcome(resp@, r),
{
    if resp.len() < 5 {
        return Err(concat3("short getSensorDpi response (", decimal(resp.len() as u64).as_str(), " bytes)"));
    }
    let dpi = be16_exec(resp[1], resp[2]);
    let default_dpi = be16_exec(resp[3], resp[4]);
    if dpi == 0 {
        return Err(String::from_str("the mouse reported a DPI of 0"));
    }
    Ok(
        SensorDpi {
            dpi_x: dpi,
            dpi_y: dpi,
            default_dpi: if default_dpi > 0 { Some(default_dpi) } else { None },
            source: LOGITECH_SOURCE,
        },
    )
}

/// A `getSensorDpi` answer reads one current DPI, bytes 1..2 big-endian,
/// for both axes; bytes 3..4 are the factory default, absent when zero. A
/// reading is only had from an answer of at least five bytes whose current
/// DPI is not zero.
pub proof fn lemma_sensor_reading_is_the_same_on_both_axes(resp: Seq<u8>, r: Result<SensorDpi, String>)
    requires
        sensor_dpi_outcome(resp, r),
    ensures
        r is Ok <==> (resp.len() >= 5 && resp[1] as int * 256 + resp[2] as int != 0),
        r matches Ok(d) ==> {
            &&& d.dpi_x as int == resp[1] as int * 256 + resp[2] as int
            &&& d.dpi_y == d.dpi_x
            &&& d.default_dpi == if resp[3] as int * 256 + resp[4] as int == 0 {
                None
            } else {
                Some((resp[3] as int * 256 + resp[4] as int) as u32)
            }
        },
{
    if resp.len() >= 5 {
        let hi = resp[1];
        let lo = resp[2];
        let dh = resp[3];
        let dl = resp[4];
        assert(be16(hi, lo) as int == hi as int * 256 + lo as int);
        assert(be16(dh, dl) as int == dh as int * 256 + dl as int);
    }
}

/// One HID++ request the caller is to make.
#[derive(Debug, Clone, PartialEq, Eq)]
pub struct HidppCall {
    pub feature_index: u8,
    pub function: u8,
    pub params: Vec<u8>,
}

/// What the caller does next in a Logitech DPI query.
pub enum LogitechAction {
    /// Make this request and pass its answer (or why there was none) to
    /// `LogitechQuery::step`.
    Call(HidppCall),
    /// The query is over.
    Finished(Result<SensorDpi, String>),
}

/// Where a Logitech DPI query stands.
#[derive(Debug, Clone, Copy, PartialEq, Eq)]
pub enum LogitechQuery {
    /// Asking the root feature for the index of Adjustable DPI.
    FindingFeature,
    /// Asking Adjustable DPI (at this index) for the sensor DPI.
    ReadingSensor(u8),
    Done,
}

/// `action` calls `function` of `feature_index` with these parameters.
pub open spec fn calls(action: LogitechAction, feature_index: u8, function: u8, params: Seq<u8>) -> bool {
    match action {
        LogitechAction::Call(c) => c.feature_index == feature_index && c.function == function
            && c.params@ == params,
        LogitechAction::Finished(_) => false,
    }
}

impl LogitechQuery {
    /// Starts a query: root feature, function 0 (`getFeature`), for feature
    /// 0x2201.
    pub fn start() -> (r: (LogitechQuery, LogitechAction))
        ensures
            r.0 == LogitechQuery::FindingFeature,
            calls(r.1, HIDPP_ROOT_FEATURE_INDEX, 0, seq![0x22u8, 0x01u8]),
    {
        let mut params: Vec<u8> = Vec::new();
        params.push(0x22);
        params.push(0x01);
        assert(params@ =~= seq![0x22u8, 0x01u8]);
        (
            LogitechQuery::FindingFeature,
            LogitechAction::Call(HidppCall { feature_index: HIDPP_ROOT_FEATURE_INDEX, function: 0, params }),
        )
    }

    /// The next action, given the answer to the last request.
    pub fn step(&mut self, answer: Result<Vec<u8>, String>) -> (a: LogitechAction)
        requires
            *old(self) != LogitechQuery::Done,
        ensures
            *final(self) == LogitechQuery::Done <==> a is Finished,
            match (*old(self), answer) {
                (_, Err(e)) => a matches LogitechAction::Finished(Err(f)) && f == e,
                (LogitechQuery::FindingFeature, Ok(root)) => if root@.len() > 0 && root@[0] != 0 {
                    *final(self) == LogitechQuery::ReadingSensor(root@[0]) && calls(
                        a,
                        root@[0],
                        2,
                        seq![0u8],
                    )
                } else {
                    a matches LogitechAction::Finished(Err(e)) && e@ == feature_failure_text(root@)
                },
                (LogitechQuery::ReadingSensor(_), Ok(resp)) => a matches LogitechAction::Finished(
                    r,
                ) && sensor_dpi_outcome(resp@, r),
                (LogitechQuery::Done, _) => false,
            },
    {
        let answer = match answer {
            Ok(a) => a,
            Err(e) => {
                *self = LogitechQuery::Done;
                return LogitechAction::Finished(Err(e));
            },
        };
        match *self {
            LogitechQuery::FindingFeature => match hidpp_feature_index(answer.as_slice()) {
                Ok(feature_index) => {
                    *self = LogitechQuery::ReadingSensor(feature_index);
                    let mut params: Vec<u8> = Vec::new();
                    params.push(0x00);
                    assert(params@ =~= seq![0u8]);
                    LogitechAction::Call(HidppCall { feature_index, function: 2, params })
                },
                Err(e) => {
                    *self = LogitechQuery::Done;
                    LogitechAction::Finished(Err(e))
                },
            },
            _ => {
                *self = LogitechQuery::Done;
                LogitechAction::Finished(hidpp_sensor_dpi(answer.as_slice()))
            },
        }
    }
}

} // verus!
