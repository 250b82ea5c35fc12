//! Control policy of the acquisition loop: what one device-read outcome
//! means for the loop, and how one demodulated burst becomes the record
//! pushed to every connected client.

use vstd::prelude::*;
use crate::parse::{
    bits_of_hex, is_hex_digit, hex_digit_value, nibble_bits, message_matches_bits, parse,
    DecodeError, DecodedMessage,
};

verus! {

/// Outcome of one blocking timed read from the device stream, as the
/// device layer reports it: either `len` samples arrived, or the read
/// failed, with the failure classified as a timeout or not.
#[derive(Debug, PartialEq, Eq)]
pub enum ReadEvent {
    Samples { len: usize },
    ReadFailed { timeout: bool },
}

/// What the acquisition loop does next after one read outcome.
#[derive(Debug, PartialEq, Eq)]
pub enum LoopAction {
    /// Demodulate the `len` samples just read, then keep looping.
    Demodulate { len: usize },
    /// Swallow the error and read again on the next iteration.
    Retry,
    /// Terminate the process with this exit status so a supervisor
    /// can restart it.
    FatalExit { status: i32 },
}

/// The loop policy: successful reads are demodulated, a read error
/// classified as a timeout is the one fatal condition (exit status 1),
/// and every other read error is swallowed and retried.
pub open spec fn action_of(event: ReadEvent) -> LoopAction {
    match event {
        ReadEvent::Samples { len } => LoopAction::Demodulate { len },
        ReadEvent::ReadFailed { timeout } => {
            if timeout {
                LoopAction::FatalExit { status: 1 }
            } else {
                LoopAction::Retry
            }
        },
    }
}

/// Decides what the acquisition loop does after one device read.
pub fn next_action(event: &ReadEvent) -> (action: LoopAction)
    ensures
        action == action_of(*event),
{
    match *event {
        ReadEvent::Samples { len } => LoopAction::Demodulate { len },
        ReadEvent::ReadFailed { timeout } => {
            if timeout {
                LoopAction::FatalExit { status: 1 }
            } else {
                LoopAction::Retry
            }
        },
    }
}

/// The lowercase ASCII hex digit of a nibble value.
pub open spec fn hex_char_lower(v: nat) -> u8 {
    if v < 10 {
        (48 + v) as u8
    } else {
        (87 + v) as u8
    }
}

/// The lowercase hex text of a byte string: two digits per byte, high
/// nibble first.
pub open spec fn hex_lower_of(b: Seq<u8>) -> Seq<u8>
    decreases b.len(),
{
    if b.len() == 0 {
        Seq::empty()
    } else {
        hex_lower_of(b.drop_last()) + seq![
            hex_char_lower(b.last() as nat / 16),
            hex_char_lower(b.last() as nat % 16),
        ]
    }
}

/// The bit string of a byte string: eight bits per byte, most
/// significant first.
pub open spec fn bits_of_bytes(b: Seq<u8>) -> Seq<bool>
    decreases b.len(),
{
    if b.len() == 0 {
        Seq::empty()
    } else {
        bits_of_bytes(b.drop_last()) + nibble_bits(b.last() as nat / 16) + nibble_bits(
            b.last() as nat % 16,
        )
    }
}

/// Hex encoding round-trips through the binary representation: the hex
/// text of any byte string is made of hex digits only, is twice as long,
/// and converting it back to bits yields exactly the byte string's own
/// bits.
pub proof fn lemma_hex_round_trip(b: Seq<u8>)
    ensures
        hex_lower_of(b).len() == 2 * b.len(),
        forall|i: int| 0 <= i < hex_lower_of(b).len() ==> is_hex_digit(#[trigger] hex_lower_of(b)[i]),
        bits_of_hex(hex_lower_of(b)) == bits_of_bytes(b),
    decreases b.len(),
{
    if b.len() > 0 {
        lemma_hex_round_trip(b.drop_last());
        let h = hex_lower_of(b);
        let hi = hex_char_lower(b.last() as nat / 16);
        let lo = hex_char_lower(b.last() as nat % 16);
        assert(h.drop_last() =~= hex_lower_of(b.drop_last()) + seq![hi]);
        assert(h.drop_last().drop_last() =~= hex_lower_of(b.drop_last()));
        assert(h.last() == lo);
        assert(h.drop_last().last() == hi);
        assert(hex_digit_value(hi) == b.last() as nat / 16);
        assert(hex_digit_value(lo) == b.last() as nat % 16);
        assert(bits_of_hex(h.drop_last()) =~= bits_of_bytes(b.drop_last()) + nibble_bits(
            b.last() as nat / 16,
        ));
        assert(bits_of_hex(h) =~= bits_of_bytes(b));
    }
}

/// Relies on hex::encode of the hex crate: it encodes each input byte
/// as exactly two lowercase hex digits, high nibble first, in input
/// order.
#[verifier::external_body]
fn hex_encode(bytes: &Vec<u8>) -> (hex: Vec<u8>)
    ensures
        hex@ == hex_lower_of(bytes@),
{
    hex::encode(bytes.as_slice()).into_bytes()
}

/// The wire record for one burst: `*<hex>;`, where `<hex>` is the burst
/// re-encoded as lowercase hex.
pub open spec fn record_of(burst: Seq<u8>) -> Seq<u8> {
    seq![42u8] + hex_lower_of(burst) + seq![59u8]
}

/// What one demodulated burst becomes: the record pushed to every
/// connected client, and the structured decode of the same payload.
#[derive(Debug)]
pub struct BurstReport {
    pub record: Vec<u8>,
    pub decoded: Result<DecodedMessage, DecodeError>,
}

/// A report is right for a burst when its record is the burst's wire
/// record and its decode is the decode of the burst's own 112 bits — a
/// burst of any size other than 14 bytes is the recoverable
/// `InvalidLength` failure.
pub open spec fn report_matches_burst(burst: Seq<u8>, report: BurstReport) -> bool {
    &&& report.record@ == record_of(burst)
    &&& if burst.len() == 14 {
        report.decoded matches Ok(m) && message_matches_bits(bits_of_bytes(burst), m)
    } else {
        report.decoded == Err::<DecodedMessage, DecodeError>(DecodeError::InvalidLength)
    }
}

/// Turns one demodulated burst into its wire record and its decoded
/// message.
pub fn process_burst(burst: &Vec<u8>) -> (report: BurstReport)
    ensures
        report_matches_burst(burst@, report),
{
    proof {
        lemma_hex_round_trip(burst@);
    }
    let hex = hex_encode(burst);
    let decoded = parse(&hex);
    let mut record: Vec<u8> = Vec::new();
    record.push(42);
    let mut hex_body = hex;
    record.append(&mut hex_body);
    record.push(59);
    proof {
        assert(record@ =~= record_of(burst@));
    }
    BurstReport { record, decoded }
}

/// Turns every burst of one demodulated read into its report, in
/// arrival order.
pub fn process_bursts(bursts: &Vec<Vec<u8>>) -> (reports: Vec<BurstReport>)
    ensures
        reports@.len() == bursts@.len(),
        forall|i: int|
            0 <= i < bursts@.len() ==> report_matches_burst(bursts@[i]@, #[trigger] reports@[i]),
{
    let mut reports: Vec<BurstReport> = Vec::new();
    let mut i: usize = 0;
    while i < bursts.len()
        invariant
            0 <= i <= bursts@.len(),
            reports@.len() == i,
            forall|j: int|
                0 <= j < i ==> report_matches_burst(bursts@[j]@, #[trigger] reports@[j]),
        decreases bursts@.len() - i,
    {
        let report = process_burst(&bursts[i]);
        reports.push(report);
        i = i + 1;
    }
    reports
}

} // verus!
