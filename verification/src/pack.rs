//! Evidence packs: a sealed, self-contained collection of receipts with
//! integrity proofs.
use vstd::prelude::*;
use crate::chain::{head_of, linked, HashChain, Receipt};
use crate::event::{copy_text, now_millis};
use crate::hexfmt::{hex_encode, hex_lower};
use crate::merkle::{compute_merkle_root, digests, merkle_root};
use crate::numbers::{parse_i64, parse_signed, parse_u64, parse_unsigned};
use crate::signing::{ed25519_public_key, ed25519_signature, public_key_of, sign};
use crate::text::{
    chars_of, find_char, first_index, slice_chars, split_three, strip_trailing_char, three_fields,
    trim_end_char,
};

verus! {

/// Current evidence-pack format version.
pub const PACK_VERSION: &'static str = "1.0";

/// Metadata summarising the context of a recorded session.
#[derive(Debug, Clone, PartialEq)]
pub struct PackMetadata {
    pub repo: Option<String>,
    pub branch: Option<String>,
    pub pr_number: Option<u64>,
    pub agent_source: Option<String>,
    pub event_count: usize,
}

/// A single signer entry within an evidence pack.
#[derive(Debug, Clone, PartialEq)]
pub struct PackSignature {
    /// Hex-encoded Ed25519 verifying (public) key.
    pub signer: String,
    /// Hex-encoded 64-byte Ed25519 signature over the pack's Merkle root.
    pub signature: String,
    pub signed_at: u64,
}

/// A sealed, self-contained collection of event receipts with cryptographic
/// integrity proofs.
#[derive(Debug, Clone)]
pub struct EvidencePack {
    pub version: String,
    pub session_id: String,
    pub created_at: u64,
    pub sealed_at: u64,
    pub metadata: PackMetadata,
    pub receipts: Vec<Receipt>,
    pub merkle_root: [u8; 32],
    pub chain_head: [u8; 32],
    pub signatures: Vec<PackSignature>,
}

/// The hashes the receipts record, in order.
pub open spec fn receipt_hashes(receipts: Seq<Receipt>) -> Seq<Seq<u8>> {
    receipts.map_values(|r: Receipt| r.hash@)
}

/// The metadata of a pack holding `receipts`: taken from the first
/// receipt's event (repo, branch, PR number of its context, its source), all
/// absent when there is no receipt; the event count is the number of
/// receipts.
pub open spec fn metadata_of(m: PackMetadata, receipts: Seq<Receipt>) -> bool {
    &&& m.event_count == receipts.len()
    &&& if receipts.len() == 0 {
        &&& m.repo is None
        &&& m.branch is None
        &&& m.pr_number is None
        &&& m.agent_source is None
    } else {
        let first = receipts[0].event;
        &&& m.repo == first.context.repo
        &&& m.branch == first.context.branch
        &&& m.pr_number == first.context.pr_number
        &&& m.agent_source == Some(first.source)
    }
}

/// Whether `p` is the pack sealed at `sealed_at` from the receipts of a
/// chain, signed with `signing_key` when one is given: format version
/// "1.0"; session and creation time (the first event's timestamp) from the
/// first receipt, empty and 0 without receipts; the receipts unchanged; the
/// Merkle root of their hashes; the chain's head; and, with a key, one
/// signature naming the key's verifying key in hex and holding, in hex, the
/// 64-byte Ed25519 signature of the Merkle root made with the key.
pub open spec fn sealed_from(
    p: EvidencePack,
    receipts: Seq<Receipt>,
    head: Seq<u8>,
    signing_key: Option<Seq<u8>>,
    sealed_at: u64,
) -> bool {
    &&& p.version@ == "1.0"@
    &&& p.sealed_at == sealed_at
    &&& p.receipts@ == receipts
    &&& p.merkle_root@ == merkle_root(receipt_hashes(receipts))
    &&& p.chain_head@ == head
    &&& metadata_of(p.metadata, receipts)
    &&& if receipts.len() == 0 {
        p.session_id@ == Seq::<char>::empty() && p.created_at == 0
    } else {
        p.session_id == receipts[0].event.context.session_id && p.created_at
            == receipts[0].event.timestamp
    }
    &&& match signing_key {
        None => p.signatures@.len() == 0,
        Some(sk) => {
            &&& p.signatures@.len() == 1
            &&& p.signatures@[0].signer@ == hex_lower(ed25519_public_key(sk))
            &&& ed25519_signature(sk, p.merkle_root@).len() == 64
            &&& p.signatures@[0].signature@ == hex_lower(ed25519_signature(sk, p.merkle_root@))
            &&& p.signatures@[0].signed_at == sealed_at
        },
    }
}

impl EvidencePack {
    /// Assemble an `EvidencePack` from a completed `HashChain`, sealed at the
    /// current time (Unix epoch milliseconds). If `signing_key` is given the
    /// Merkle root is signed and one `PackSignature` recorded.
    pub fn from_chain(chain: HashChain, signing_key: Option<&[u8; 32]>) -> (res: EvidencePack)
        ensures
            sealed_from(
                res,
                chain.receipts_seq(),
                head_of(chain.receipts_seq()),
                match signing_key {
                    Some(k) => Some(k@),
                    None => None,
                },
                res.sealed_at,
            ),
            linked(res.receipts@),
    {
        let sealed_at = now_millis();
        EvidencePack::from_chain_at(chain, signing_key, sealed_at)
    }

    /// Assemble an `EvidencePack` from a completed `HashChain`, sealed at
    /// `sealed_at`.
    pub fn from_chain_at(chain: HashChain, signing_key: Option<&[u8; 32]>, sealed_at: u64) -> (res: EvidencePack)
        ensures
            sealed_from(
                res,
                chain.receipts_seq(),
                head_of(chain.receipts_seq()),
                match signing_key {
                    Some(k) => Some(k@),
                    None => None,
                },
                sealed_at,
            ),
            linked(res.receipts@),
    {
        let chain_head = chain.head();
        let receipts = chain.into_receipts();
        let n = receipts.len();

        let (session_id, created_at, metadata) = if n > 0 {
            let first = &receipts[0].event;
            let meta = PackMetadata {
                repo: copy_text(&first.context.repo),
                branch: copy_text(&first.context.branch),
                pr_number: first.context.pr_number,
                agent_source: Some(first.source.clone()),
                event_count: n,
            };
            (first.context.session_id.clone(), first.timestamp, meta)
        } else {
            (
                String::new(),
                0,
                PackMetadata { repo: None, branch: None, pr_number: None, agent_source: None, event_count: 0 },
            )
        };

        let mut leaf_hashes: Vec<[u8; 32]> = Vec::new();
        let mut i: usize = 0;
        while i < n
            invariant
                n == receipts@.len(),
                i <= n,
                leaf_hashes@.len() == i,
                forall|k: int| 0 <= k < i ==> (#[trigger] leaf_hashes@[k])@ == receipts@[k].hash@,
            decreases n - i,
        {
            leaf_hashes.push(receipts[i].hash);
            i = i + 1;
        }
        assert(digests(leaf_hashes@) =~= receipt_hashes(receipts@));
        let merkle_root = compute_merkle_root(leaf_hashes.as_slice());

        let mut signatures: Vec<PackSignature> = Vec::new();
        match signing_key {
            Some(sk) => {
                match sign(sk, &merkle_root) {
                    Ok(sig_bytes) => {
                        let vk_bytes = public_key_of(sk);
                        signatures.push(
                            PackSignature {
                                signer: hex_encode(vk_bytes.as_slice()),
                                signature: hex_encode(sig_bytes.as_slice()),
                                signed_at: sealed_at,
                            },
                        );
                    },
                    Err(_) => {},
                }
            },
            None => {},
        }

        EvidencePack {
            version: PACK_VERSION.to_owned(),
            session_id,
            created_at,
            sealed_at,
            metadata,
            receipts,
            merkle_root,
            chain_head,
            signatures,
        }
    }
}

/// The fields of a `YYYY-MM-DDTHH:MM:SSZ` timestamp: trailing `Z`s are
/// dropped, the text is split at its first `T` into a date and a time, the
/// date into year, month and day at `-`, the time into hour, minute and
/// second at `:` (the last field keeping the rest); year, month and day are
/// read as `i64`, the others as `u64`. `None` when any step fails.
pub open spec fn iso_fields(ts: Seq<char>) -> Option<(i64, i64, i64, u64, u64, u64)> {
    let s = trim_end_char(ts, 'Z');
    let t = first_index(s, 'T');
    if t >= s.len() {
        None
    } else {
        let date = three_fields(s.subrange(0, t), '-');
        let time = three_fields(s.subrange(t + 1, s.len() as int), ':');
        if date is None || time is None {
            None
        } else {
            let d = date->Some_0;
            let c = time->Some_0;
            if parse_i64(d.0) is Some && parse_i64(d.1) is Some && parse_i64(d.2) is Some && parse_u64(c.0) is Some
                && parse_u64(c.1) is Some && parse_u64(c.2) is Some {
                Some(
                    (
                        parse_i64(d.0)->Some_0,
                        parse_i64(d.1)->Some_0,
                        parse_i64(d.2)->Some_0,
                        parse_u64(c.0)->Some_0,
                        parse_u64(c.1)->Some_0,
                        parse_u64(c.2)->Some_0,
                    ),
                )
            } else {
                None
            }
        }
    }
}

/// Integer division rounding toward zero, as Rust's `/` does.
pub open spec fn div_toward_zero(a: int, b: int) -> int {
    if a >= 0 {
        a / b
    } else {
        -((-a) / b)
    }
}

/// The year counted from March: January and February belong to the year
/// before.
pub open spec fn march_year(year: int, month: int) -> int {
    if month <= 2 {
        year - 1
    } else {
        year
    }
}

/// The month counted from March: January and February are months 13 and 14.
pub open spec fn march_month(month: int) -> int {
    if month <= 2 {
        month + 12
    } else {
        month
    }
}

/// The day-number sum before the constant is taken off: `365y + y/4 - y/100
/// + y/400 + 306(m+1)/10 + day`, each quotient rounded toward zero.
pub open spec fn day_sum(year: int, month: int, day: int) -> int {
    let y = march_year(year, month);
    let m = march_month(month);
    365 * y + div_toward_zero(y, 4) - div_toward_zero(y, 100) + div_toward_zero(y, 400)
        + div_toward_zero(306 * (m + 1), 10) + day
}

/// The day number that the Gregorian formula gives for a date, counted from
/// an epoch in year 0 (1970-01-01 is day 719163).
pub open spec fn day_number(year: int, month: int, day: int) -> int {
    day_sum(year, month, day) - 428
}

/// The days from 1970-01-01 to a date.
pub open spec fn epoch_days(year: int, month: int, day: int) -> int {
    day_number(year, month, day) - 719163
}

/// The formula counts days from the Unix epoch: 1970-01-01 is day 0,
/// 2000-03-01 is day 11017 and 2026-01-01 is day 20454; within a month the
/// next day is the next number.
pub proof fn epoch_days_count_from_1970(year: int, month: int, day: int)
    ensures
        epoch_days(1970, 1, 1) == 0,
        epoch_days(2000, 3, 1) == 11017,
        epoch_days(2026, 1, 1) == 20454,
        epoch_days(year, month, day + 1) == epoch_days(year, month, day) + 1,
{
}

/// Whether `x` fits in 64 signed bits.
pub open spec fn fits_i64(x: int) -> bool {
    i64::MIN <= x <= i64::MAX
}

/// Whether `x` fits in 64 unsigned bits.
pub open spec fn fits_u64(x: int) -> bool {
    0 <= x <= u64::MAX
}

/// Every intermediate value of the day-number formula, evaluated left to
/// right, fits in 64 signed bits.
pub open spec fn day_number_fits(year: int, month: int, day: int) -> bool {
    let y = march_year(year, month);
    let m = march_month(month);
    let a = 365 * y;
    let b = a + div_toward_zero(y, 4);
    let c = b - div_toward_zero(y, 100);
    let d = c + div_toward_zero(y, 400);
    let e = d + div_toward_zero(306 * (m + 1), 10);
    &&& fits_i64(y)
    &&& fits_i64(m)
    &&& fits_i64(a)
    &&& fits_i64(b)
    &&& fits_i64(c)
    &&& fits_i64(d)
    &&& fits_i64(m + 1)
    &&& fits_i64(306 * (m + 1))
    &&& fits_i64(e)
    &&& fits_i64(e + day)
    &&& fits_i64(e + day - 428)
    &&& fits_i64(e + day - 428 - 719163)
}

/// Every intermediate value of the seconds sum, evaluated left to right,
/// fits in 64 unsigned bits.
pub open spec fn seconds_fit(days: int, hour: int, minute: int, second: int) -> bool {
    &&& fits_u64(days * 86400)
    &&& fits_u64(hour * 3600)
    &&& fits_u64(days * 86400 + hour * 3600)
    &&& fits_u64(minute * 60)
    &&& fits_u64(days * 86400 + hour * 3600 + minute * 60)
    &&& fits_u64(days * 86400 + hour * 3600 + minute * 60 + second)
}

/// The arithmetic on a timestamp's fields stays within 64 bits.
pub open spec fn iso_fits(ts: Seq<char>) -> bool {
    match iso_fields(ts) {
        None => true,
        Some(f) => {
            &&& day_number_fits(f.0 as int, f.1 as int, f.2 as int)
            &&& (epoch_days(f.0 as int, f.1 as int, f.2 as int) >= 0 ==> seconds_fit(
                epoch_days(f.0 as int, f.1 as int, f.2 as int),
                f.3 as int,
                f.4 as int,
                f.5 as int,
            ))
        },
    }
}

/// The Unix seconds of a `YYYY-MM-DDTHH:MM:SSZ` timestamp: the days since
/// 1970-01-01 (`epoch_days`) times 86400 plus the time of day; `None` when the fields
/// cannot be read or the date is before the epoch.
pub open spec fn iso_seconds(ts: Seq<char>) -> Option<u64> {
    match iso_fields(ts) {
        None => None,
        Some(f) => {
            let days = epoch_days(f.0 as int, f.1 as int, f.2 as int);
            if days < 0 {
                None
            } else {
                Some((days * 86400 + f.3 * 3600 + f.4 * 60 + f.5) as u64)
            }
        },
    }
}

/// The fields of a `YYYY-MM-DDTHH:MM:SSZ` timestamp, read.
fn iso_parts(ts: &str) -> (res: Option<(i64, i64, i64, u64, u64, u64)>)
    ensures
        res == iso_fields(ts@),
{
    let all = chars_of(ts);
    let s = strip_trailing_char(&all, 'Z');
    let n = s.len();
    let t = find_char(&s, 'T');
    if t >= n {
        return None;
    }
    let date_text = slice_chars(&s, 0, t);
    let time_text = slice_chars(&s, t + 1, n);
    let (year_text, month_text, day_text) = match split_three(&date_text, '-') {
        Some(f) => f,
        None => return None,
    };
    let (hour_text, minute_text, second_text) = match split_three(&time_text, ':') {
        Some(f) => f,
        None => return None,
    };
    let year = parse_signed(&year_text);
    let month = parse_signed(&month_text);
    let day = parse_signed(&day_text);
    let hour = parse_unsigned(&hour_text);
    let minute = parse_unsigned(&minute_text);
    let second = parse_unsigned(&second_text);
    match (year, month, day, hour, minute, second) {
        (Some(y), Some(mo), Some(d), Some(h), Some(mi), Some(sec)) => Some((y, mo, d, h, mi, sec)),
        _ => None,
    }
}

/// Seconds since the epoch of a date and time of day, `None` before the
/// epoch.
fn epoch_seconds(year: i64, month: i64, day: i64, hour: u64, minute: u64, second: u64) -> (res: Option<u64>)
    requires
        day_number_fits(year as int, month as int, day as int),
        epoch_days(year as int, month as int, day as int) >= 0 ==> seconds_fit(
            epoch_days(year as int, month as int, day as int),
            hour as int,
            minute as int,
            second as int,
        ),
    ensures
        ({
            let days = epoch_days(year as int, month as int, day as int);
            if days < 0 {
                res is None
            } else {
                res == Some((days * 86400 + hour * 3600 + minute * 60 + second) as u64)
            }
        }),
{
    let y = year - if month <= 2 {
        1
    } else {
        0
    };
    let m = month + if month <= 2 {
        12
    } else {
        0
    };
    let jdn: i64 = 365 * y + y / 4 - y / 100 + y / 400 + (306 * (m + 1)) / 10 + day - 428;
    let unix_day = jdn - 719163;
    if unix_day < 0 {
        return None;
    }
    Some(unix_day as u64 * 86400 + hour * 3600 + minute * 60 + second)
}

/// Minimal ISO-8601 `YYYY-MM-DDTHH:MM:SSZ` parser to Unix seconds.
pub fn parse_iso8601_secs(ts: &str) -> (res: Option<u64>)
    requires
        iso_fits(ts@),
    ensures
        res == iso_seconds(ts@),
{
    match iso_parts(ts) {
        Some((year, month, day, hour, minute, second)) => epoch_seconds(year, month, day, hour, minute, second),
        None => None,
    }
}

fn fits_signed(x: i128) -> (res: bool)
    ensures
        res == fits_i64(x as int),
{
    -0x8000_0000_0000_0000i128 <= x && x <= 0x7fff_ffff_ffff_ffffi128
}

fn fits_unsigned(x: i128) -> (res: bool)
    ensures
        res == fits_u64(x as int),
{
    0 <= x && x <= 0xffff_ffff_ffff_ffffi128
}

/// Whether the arithmetic `parse_iso8601_secs` does on a timestamp's fields
/// stays within 64 bits, so that the text may be handed to it.
pub fn iso_arithmetic_fits(ts: &str) -> (res: bool)
    ensures
        res == iso_fits(ts@),
{
    match iso_parts(ts) {
        None => true,
        Some((year, month, day, hour, minute, second)) => {
            let yr = year as i128;
            let mo = month as i128;
            let y = yr - if mo <= 2 {
                1
            } else {
                0
            };
            let m = mo + if mo <= 2 {
                12
            } else {
                0
            };
            let a = 365 * y;
            let b = a + y / 4;
            let c = b - y / 100;
            let d = c + y / 400;
            let m1 = m + 1;
            let p = 306 * m1;
            let e = d + p / 10;
            let f = e + day as i128;
            let g = f - 428;
            let days = g - 719163;
            assert(days == epoch_days(year as int, month as int, day as int));
            let day_ok = fits_signed(y) && fits_signed(m) && fits_signed(a) && fits_signed(b)
                && fits_signed(c) && fits_signed(d) && fits_signed(m1) && fits_signed(p) && fits_signed(e)
                && fits_signed(f) && fits_signed(g) && fits_signed(days);
            if !day_ok {
                return false;
            }
            if days < 0 {
                return true;
            }
            let s1 = days * 86400;
            let h1 = hour as i128 * 3600;
            let s2 = s1 + h1;
            let m2 = minute as i128 * 60;
            let s3 = s2 + m2;
            let s4 = s3 + second as i128;
            fits_unsigned(s1) && fits_unsigned(h1) && fits_unsigned(s2) && fits_unsigned(m2)
                && fits_unsigned(s3) && fits_unsigned(s4)
        },
    }
}

} // verus!
