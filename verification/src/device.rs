//! Bookkeeping of the CoreS3 device firmware: the pet benchmark report,
//! frame digests, dirty-line transfers, and the words that publish context
//! ids and the owner generation between tasks.
use vstd::prelude::*;

verus! {

/// Screen width in pixels.
pub const WIDTH: usize = 320;
/// Screen height in lines.
pub const HEIGHT: usize = 240;
/// FNV-1a offset basis.
pub const DIGEST_BASIS: u32 = 2_166_136_261;
/// FNV-1a prime.
pub const DIGEST_PRIME: u32 = 16_777_619;

/// The value, or `u16::MAX` when it does not fit.
pub open spec fn saturate16(value: u32) -> u16 {
    if value > 0xffff { 0xffff } else { value as u16 }
}

/// Big-endian bytes of a 16-bit value.
pub open spec fn be16(value: u16) -> Seq<u8> {
    seq![(value / 256) as u8, (value % 256) as u8]
}

/// Big-endian bytes of a 32-bit value.
pub open spec fn be32(value: u32) -> Seq<u8> {
    seq![
        (value / 0x100_0000) as u8,
        (value / 0x1_0000 % 256) as u8,
        (value / 0x100 % 256) as u8,
        (value % 256) as u8,
    ]
}

/// The counters of one pet benchmark run as the device last published them.
#[derive(Clone, Copy, Debug, PartialEq, Eq)]
pub struct PetBenchmarkCounters {
    pub state: u8,
    pub allocation_failures: u8,
    pub transfer_failures: u32,
    pub duration_ms: u32,
    pub update_requests: u32,
    pub completed_frames: u32,
    pub render_total_us: u32,
    pub transfer_total_us: u32,
    pub render_max_us: u32,
    pub transfer_max_us: u32,
    pub frames_within_budget: u32,
    pub stalls: u32,
    pub deadline_misses: u32,
    pub max_consecutive_misses: u32,
    pub dirty_lines: u32,
    pub transferred_bytes: u32,
    pub digest_updates: u32,
}

/// Bytes 26 to 80 of a status report: state, allocation failures, transfer
/// failures (16 bits), then duration, update requests, completed frames,
/// render and transfer totals and maxima, frames within budget (32 bits
/// each), stalls, deadline misses, longest miss streak (16 bits each), then
/// dirty lines, transferred bytes and digest updates (32 bits each); all
/// big-endian, 16-bit fields saturated.
pub open spec fn pet_benchmark_bytes(c: PetBenchmarkCounters) -> Seq<u8> {
    seq![c.state, c.allocation_failures] + be16(saturate16(c.transfer_failures)) + be32(
        c.duration_ms,
    ) + be32(c.update_requests) + be32(c.completed_frames) + be32(c.render_total_us) + be32(
        c.transfer_total_us,
    ) + be32(c.render_max_us) + be32(c.transfer_max_us) + be32(c.frames_within_budget) + be16(
        saturate16(c.stalls),
    ) + be16(saturate16(c.deadline_misses)) + be16(saturate16(c.max_consecutive_misses)) + be32(
        c.dirty_lines,
    ) + be32(c.transferred_bytes) + be32(c.digest_updates)
}

fn push_be16(out: &mut Vec<u8>, value: u16)
    ensures
        final(out)@ == old(out)@ + be16(value),
{
    out.push((value / 256) as u8);
    out.push((value % 256) as u8);
    assert(out@ =~= old(out)@ + be16(value));
}

fn push_be32(out: &mut Vec<u8>, value: u32)
    ensures
        final(out)@ == old(out)@ + be32(value),
{
    out.push((value / 0x100_0000) as u8);
    out.push((value / 0x1_0000 % 256) as u8);
    out.push((value / 0x100 % 256) as u8);
    out.push((value % 256) as u8);
    assert(out@ =~= old(out)@ + be32(value));
}

fn saturate16_exec(value: u32) -> (r: u16)
    ensures
        r == saturate16(value),
{
    if value > 0xffff {
        0xffff
    } else {
        value as u16
    }
}

/// The 54 report bytes of the counters.
pub fn pet_benchmark_record(c: &PetBenchmarkCounters) -> (bytes: Vec<u8>)
    ensures
        bytes@ == pet_benchmark_bytes(*c),
        bytes@.len() == 54,
{
    let mut out: Vec<u8> = Vec::new();
    out.push(c.state);
    out.push(c.allocation_failures);
    assert(out@ =~= seq![c.state, c.allocation_failures]);
    push_be16(&mut out, saturate16_exec(c.transfer_failures));
    push_be32(&mut out, c.duration_ms);
    push_be32(&mut out, c.update_requests);
    push_be32(&mut out, c.completed_frames);
    push_be32(&mut out, c.render_total_us);
    push_be32(&mut out, c.transfer_total_us);
    push_be32(&mut out, c.render_max_us);
    push_be32(&mut out, c.transfer_max_us);
    push_be32(&mut out, c.frames_within_budget);
    push_be16(&mut out, saturate16_exec(c.stalls));
    push_be16(&mut out, saturate16_exec(c.deadline_misses));
    push_be16(&mut out, saturate16_exec(c.max_consecutive_misses));
    push_be32(&mut out, c.dirty_lines);
    push_be32(&mut out, c.transferred_bytes);
    push_be32(&mut out, c.digest_updates);
    out
}

/// Writes the pet benchmark report into bytes 26 to 80 of a status frame
/// of at least 80 bytes, leaving the other bytes as they were.
pub fn encode_pet_benchmark(counters: &PetBenchmarkCounters, output: &mut [u8])
    requires
        old(output)@.len() >= 80,
    ensures
        final(output)@.len() == old(output)@.len(),
        final(output)@.subrange(26, 80) == pet_benchmark_bytes(*counters),
        final(output)@.subrange(0, 26) == old(output)@.subrange(0, 26),
        final(output)@.subrange(80, old(output)@.len() as int) == old(output)@.subrange(
            80,
            old(output)@.len() as int,
        ),
{
    let bytes = pet_benchmark_record(counters);
    let ghost original = output@;
    let mut i: usize = 0;
    while i < 54
        invariant
            i <= 54,
            bytes@.len() == 54,
            output@.len() == original.len(),
            original.len() >= 80,
            forall|k: int| 0 <= k < i ==> output@[26 + k] == bytes@[k],
            forall|k: int| 0 <= k < 26 ==> output@[k] == original[k],
            forall|k: int| 26 + i <= k < output@.len() ==> output@[k] == original[k],
        decreases 54 - i,
    {
        output[26 + i] = bytes[i];
        i += 1;
    }
    assert(output@.subrange(26, 80) =~= bytes@);
    assert(output@.subrange(0, 26) =~= original.subrange(0, 26));
    assert(output@.subrange(80, original.len() as int) =~= original.subrange(80, original.len() as int));
}

/// The FNV-1a digest of the pixels, one 16-bit pixel per step.
pub open spec fn digest_spec(pixels: Seq<u16>) -> u32
    decreases pixels.len(),
{
    if pixels.len() == 0 {
        DIGEST_BASIS
    } else {
        (digest_spec(pixels.drop_last()) ^ (pixels.last() as u32)).wrapping_mul(DIGEST_PRIME)
    }
}

/// The FNV-1a digest of a frame: starting from the offset basis, each
/// pixel is XORed in and the state multiplied by the prime, wrapping.
pub fn digest(pixels: &[u16]) -> (value: u32)
    ensures
        value == digest_spec(pixels@),
{
    let mut value = DIGEST_BASIS;
    let mut i: usize = 0;
    while i < pixels.len()
        invariant
            i <= pixels@.len(),
            value == digest_spec(pixels@.subrange(0, i as int)),
        decreases pixels@.len() - i,
    {
        proof {
            let next = pixels@.subrange(0, i + 1);
            assert(next.drop_last() =~= pixels@.subrange(0, i as int));
            assert(next.last() == pixels@[i as int]);
        }
        value = (value ^ (pixels[i] as u32)).wrapping_mul(DIGEST_PRIME);
        i += 1;
    }
    assert(pixels@.subrange(0, pixels@.len() as int) =~= pixels@);
    value
}

/// The columns of one screen line that changed: `start` up to, not
/// including, `end`; empty when they are equal.
#[derive(Clone, Copy, Debug, PartialEq, Eq, Structural)]
pub struct DirtyRange {
    pub start: u16,
    pub end: u16,
}

/// `a + b`, or `u32::MAX` when that overflows.
pub open spec fn sat_add(a: u32, b: u32) -> u32 {
    if a + b > u32::MAX { u32::MAX } else { (a + b) as u32 }
}

/// Dirty lines and transferred bytes of the ranges: each non-empty line
/// counts once and two bytes per changed pixel, both saturating.
pub open spec fn dirty_measurement_spec(ranges: Seq<DirtyRange>) -> (u32, u32)
    decreases ranges.len(),
{
    if ranges.len() == 0 {
        (0, 0)
    } else {
        let (lines, bytes) = dirty_measurement_spec(ranges.drop_last());
        let r = ranges.last();
        if r.start == r.end {
            (lines, bytes)
        } else {
            (sat_add(lines, 1), sat_add(bytes, (2 * (r.end - r.start)) as u32))
        }
    }
}

/// Counts the dirty lines and the bytes their transfer takes.
pub fn dirty_measurement(ranges: &[DirtyRange]) -> (measured: (u32, u32))
    requires
        forall|i: int| 0 <= i < ranges@.len() ==> (#[trigger] ranges@[i]).start <= ranges@[i].end,
    ensures
        measured == dirty_measurement_spec(ranges@),
{
    let mut lines: u32 = 0;
    let mut bytes: u32 = 0;
    let mut i: usize = 0;
    while i < ranges.len()
        invariant
            i <= ranges@.len(),
            forall|k: int| 0 <= k < ranges@.len() ==> (#[trigger] ranges@[k]).start <= ranges@[k].end,
            (lines, bytes) == dirty_measurement_spec(ranges@.subrange(0, i as int)),
        decreases ranges@.len() - i,
    {
        proof {
            let next = ranges@.subrange(0, i + 1);
            assert(next.drop_last() =~= ranges@.subrange(0, i as int));
            assert(next.last() == ranges@[i as int]);
        }
        let range = ranges[i];
        if range.start != range.end {
            let width = (range.end - range.start) as u32;
            lines = lines.saturating_add(1);
            bytes = bytes.saturating_add(width * 2);
        }
        i += 1;
    }
    assert(ranges@.subrange(0, ranges@.len() as int) =~= ranges@);
    (lines, bytes)
}

/// Microseconds from `start` to `end`: zero when `end` is earlier, and
/// `u32::MAX` when the span does not fit.
pub fn elapsed_us(start: u64, end: u64) -> (elapsed: u32)
    ensures
        elapsed == if end <= start {
            0
        } else if end - start > u32::MAX {
            u32::MAX
        } else {
            (end - start) as u32
        },
{
    let span = end.saturating_sub(start);
    if span > u32::MAX as u64 {
        u32::MAX
    } else {
        span as u32
    }
}

/// A block of consecutive screen lines that changed in the same columns.
#[derive(Clone, Copy, Debug, PartialEq, Eq, Structural)]
pub struct DirtyRun {
    pub first_line: usize,
    pub lines: usize,
    pub start: u16,
    pub end: u16,
}

/// Where the run of lines equal to `range` that continues at `line` ends.
pub open spec fn run_end(ranges: Seq<DirtyRange>, line: int, range: DirtyRange) -> int
    decreases ranges.len() - line,
{
    if 0 <= line < ranges.len() && ranges[line] == range {
        run_end(ranges, line + 1, range)
    } else {
        line
    }
}

/// The transfers that cover the dirty lines from `line` on, top to bottom:
/// each maximal block of consecutive lines with the same non-empty range
/// becomes one transfer.
pub open spec fn dirty_runs_from(ranges: Seq<DirtyRange>, line: int) -> Seq<DirtyRun>
    decreases ranges.len() - line,
{
    if line < 0 || line >= ranges.len() {
        Seq::empty()
    } else {
        let range = ranges[line];
        if range.start == range.end {
            dirty_runs_from(ranges, line + 1)
        } else {
            let end = run_end(ranges, line + 1, range);
            proof {
                lemma_run_end_bounds(ranges, line + 1, range);
            }
            seq![
                DirtyRun {
                    first_line: line as usize,
                    lines: (end - line) as usize,
                    start: range.start,
                    end: range.end,
                },
            ] + dirty_runs_from(ranges, end)
        }
    }
}

/// A run that continues at `line` ends at or after it, within the lines,
/// after lines that all equal `range` and before one that does not.
pub proof fn lemma_run_end_bounds(ranges: Seq<DirtyRange>, line: int, range: DirtyRange)
    requires
        0 <= line,
    ensures
        line <= run_end(ranges, line, range),
        run_end(ranges, line, range) <= if line <= ranges.len() { ranges.len() as int } else { line },
        forall|k: int| line <= k < run_end(ranges, line, range) ==> ranges[k] == range,
        run_end(ranges, line, range) < ranges.len() ==> ranges[run_end(ranges, line, range)] != range,
    decreases ranges.len() - line,
{
    if 0 <= line < ranges.len() && ranges[line] == range {
        lemma_run_end_bounds(ranges, line + 1, range);
    }
}

/// Splits the dirty lines into transfers: each maximal block of
/// consecutive lines with the same non-empty range is one transfer.
pub fn dirty_runs(ranges: &[DirtyRange]) -> (runs: Vec<DirtyRun>)
    ensures
        runs@ == dirty_runs_from(ranges@, 0),
{
    let n = ranges.len();
    let mut runs: Vec<DirtyRun> = Vec::new();
    let mut line: usize = 0;
    while line < n
        invariant
            n == ranges@.len(),
            line <= n,
            runs@ + dirty_runs_from(ranges@, line as int) == dirty_runs_from(ranges@, 0),
        decreases n - line,
    {
        let range = ranges[line];
        if range.start == range.end {
            line += 1;
        } else {
            let first_line = line;
            line += 1;
            proof {
                lemma_run_end_bounds(ranges@, line as int, range);
            }
            while line < n && ranges[line].start == range.start && ranges[line].end == range.end
                invariant
                    n == ranges@.len(),
                    first_line < line <= n,
                    run_end(ranges@, first_line + 1, range) == run_end(ranges@, line as int, range),
                decreases n - line,
            {
                assert(ranges@[line as int] == range);
                line += 1;
            }
            let ghost before = runs@;
            runs.push(DirtyRun { first_line, lines: line - first_line, start: range.start, end: range.end });
            proof {
                assert(run_end(ranges@, line as int, range) == line);
                assert(runs@ + dirty_runs_from(ranges@, line as int) =~= before + dirty_runs_from(
                    ranges@,
                    first_line as int,
                ));
            }
        }
    }
    assert(runs@ =~= runs@ + dirty_runs_from(ranges@, n as int));
    runs
}

/// How many lines the transfers cover.
pub open spec fn run_lines(runs: Seq<DirtyRun>) -> int
    decreases runs.len(),
{
    if runs.len() == 0 {
        0
    } else {
        runs[0].lines + run_lines(runs.drop_first())
    }
}

/// How many lines from `line` on changed.
pub open spec fn dirty_lines_from(ranges: Seq<DirtyRange>, line: int) -> int
    decreases ranges.len() - line,
{
    if line < 0 || line >= ranges.len() {
        0
    } else {
        (if ranges[line].start != ranges[line].end { 1int } else { 0int }) + dirty_lines_from(
            ranges,
            line + 1,
        )
    }
}

proof fn lemma_dirty_block(ranges: Seq<DirtyRange>, k: int, end: int, range: DirtyRange)
    requires
        0 <= k <= end <= ranges.len(),
        range.start != range.end,
        forall|j: int| k <= j < end ==> ranges[j] == range,
    ensures
        dirty_lines_from(ranges, k) == (end - k) + dirty_lines_from(ranges, end),
    decreases end - k,
{
    if k < end {
        lemma_dirty_block(ranges, k + 1, end, range);
    }
}

/// Whether a line's range is the non-empty range of a transfer.
pub open spec fn line_in_run(range: DirtyRange, run: DirtyRun) -> bool {
    range.start == run.start && range.end == run.end && run.start != run.end
}

/// The transfers cover exactly the changed lines: the lines they cover
/// number the changed lines (with `lemma_run_line_changed`, which places
/// each covered line, every changed line is covered once).
pub proof fn lemma_runs_cover_dirty_lines(ranges: Seq<DirtyRange>, line: int)
    requires
        0 <= line,
        ranges.len() <= usize::MAX,
    ensures
        run_lines(dirty_runs_from(ranges, line)) == dirty_lines_from(ranges, line),
    decreases ranges.len() - line,
{
    if line < ranges.len() {
        let range = ranges[line];
        if range.start == range.end {
            lemma_runs_cover_dirty_lines(ranges, line + 1);
        } else {
            let end = run_end(ranges, line + 1, range);
            lemma_run_end_bounds(ranges, line + 1, range);
            lemma_runs_cover_dirty_lines(ranges, end);
            lemma_dirty_block(ranges, line, end, range);
            let runs = dirty_runs_from(ranges, line);
            assert(runs.drop_first() =~= dirty_runs_from(ranges, end));
            assert(runs[0].lines == end - line);
        }
    }
}

/// Every line that a transfer covers lies at or after `line` and changed
/// in exactly the transfer's columns.
pub proof fn lemma_run_line_changed(ranges: Seq<DirtyRange>, line: int, i: int, k: int)
    requires
        0 <= line,
        ranges.len() <= usize::MAX,
        0 <= i < dirty_runs_from(ranges, line).len(),
        dirty_runs_from(ranges, line)[i].first_line <= k < dirty_runs_from(ranges, line)[i].first_line
            + dirty_runs_from(ranges, line)[i].lines,
    ensures
        line <= k < ranges.len(),
        line_in_run(ranges[k], dirty_runs_from(ranges, line)[i]),
    decreases ranges.len() - line,
{
    if line < ranges.len() {
        let range = ranges[line];
        if range.start == range.end {
            lemma_run_line_changed(ranges, line + 1, i, k);
        } else {
            let end = run_end(ranges, line + 1, range);
            lemma_run_end_bounds(ranges, line + 1, range);
            let runs = dirty_runs_from(ranges, line);
            let rest = dirty_runs_from(ranges, end);
            assert(runs.drop_first() =~= rest);
            if i > 0 {
                assert(runs[i] == rest[i - 1]);
                lemma_run_line_changed(ranges, end, i - 1, k);
            } else if k > line {
                assert(ranges[k] == range);
            }
        }
    }
}

/// The outcome of a device service request.
#[derive(Clone, Copy, Debug, PartialEq, Eq, Structural)]
pub enum ServiceStatus {
    Success,
    Invalid,
    AlreadyInitialized,
    Missing,
    StoreFailed,
    PeerMismatch,
    Busy,
}

/// The pairing state a stored identity record carries.
#[derive(Clone, Copy, Debug, PartialEq, Eq, Structural)]
pub enum DevicePeerState {
    Unpaired,
    Pending,
    Committing,
    Paired,
    Revoking,
}

/// What a stored record holds.
#[derive(Clone, Copy, Debug, PartialEq, Eq, Structural)]
pub enum RecordState {
    Identity(DevicePeerState),
    ConfigPresent,
    ConfigCleared,
}

/// A decoded record of the device's store: its state, owner generation,
/// publication sequence and payload.
pub struct StoredRecord {
    pub state: RecordState,
    pub generation: u64,
    pub publication_sequence: u64,
    pub payload: Vec<u8>,
}

/// How many bytes a store read delivered, from the store's answer: zero
/// means no record, a negative answer a failed read, and otherwise the
/// answer is one more than the length, which must fit the buffer.
pub fn read_slot_length(answer: i32, capacity: usize) -> (length: Result<Option<usize>, ServiceStatus>)
    ensures
        answer == 0 ==> length == Ok::<Option<usize>, ServiceStatus>(None),
        answer < 0 ==> length == Err::<Option<usize>, ServiceStatus>(ServiceStatus::StoreFailed),
        answer > 0 && answer - 1 <= capacity ==> length == Ok::<Option<usize>, ServiceStatus>(
            Some((answer - 1) as usize),
        ),
        answer > 0 && answer - 1 > capacity ==> length == Err::<Option<usize>, ServiceStatus>(
            ServiceStatus::StoreFailed,
        ),
{
    if answer == 0 {
        return Ok(None);
    }
    if answer < 0 {
        return Err(ServiceStatus::StoreFailed);
    }
    let length = (answer - 1) as usize;
    if length <= capacity {
        Ok(Some(length))
    } else {
        Err(ServiceStatus::StoreFailed)
    }
}

/// The sequence of the next publication and the slot it goes to: odd
/// sequences to the first slot, even ones to the second. A store whose
/// sequence cannot advance is `StoreFailed`.
pub fn next_publication(current_sequence: u64) -> (next: Result<(u64, bool), ServiceStatus>)
    ensures
        current_sequence == u64::MAX ==> next == Err::<(u64, bool), ServiceStatus>(ServiceStatus::StoreFailed),
        current_sequence < u64::MAX ==> next == Ok::<(u64, bool), ServiceStatus>(
            ((current_sequence + 1) as u64, (current_sequence + 1) % 2 == 1),
        ),
{
    if current_sequence == u64::MAX {
        return Err(ServiceStatus::StoreFailed);
    }
    let sequence = current_sequence + 1;
    Ok((sequence, sequence % 2 == 1))
}

/// Whether a record is an identity whose remote key, bytes 64 to 96 of its
/// payload, is `peer_id`.
pub open spec fn names_peer(state: RecordState, payload: Seq<u8>, peer_id: Seq<u8>) -> bool {
    &&& state is Identity
    &&& payload.len() >= 96
    &&& payload.subrange(64, 96) == peer_id
}

fn payload_names_peer(record: &StoredRecord, peer_id: &[u8]) -> (named: bool)
    ensures
        named == names_peer(record.state, record.payload@, peer_id@),
{
    let identity = match record.state {
        RecordState::Identity(_) => true,
        _ => false,
    };
    if !identity || record.payload.len() < 96 || peer_id.len() != 32 {
        return false;
    }
    let mut i: usize = 0;
    while i < 32
        invariant
            i <= 32,
            record.payload@.len() >= 96,
            peer_id@.len() == 32,
            forall|k: int| 0 <= k < i ==> record.payload@[64 + k] == peer_id@[k],
        decreases 32 - i,
    {
        if record.payload[64 + i] != peer_id[i] {
            assert(record.payload@.subrange(64, 96)[i as int] != peer_id@[i as int]);
            return false;
        }
        i += 1;
    }
    assert(record.payload@.subrange(64, 96) =~= peer_id@);
    true
}

/// A revocation the device has begun: the sequence and generation under
/// which it finishes.
#[derive(Clone, Copy, Debug, PartialEq, Eq, Structural)]
pub struct DeviceRevocation {
    pub sequence: u64,
    pub generation: u64,
    pub recovering: bool,
}

/// How the device begins unpairing `peer_id` from its current identity
/// record: the id must be 32 bytes (`Invalid`); the record must be an
/// identity that is pairing, paired or revoking with exactly that peer
/// (`PeerMismatch`); a revocation in progress resumes at its generation,
/// any other state is revoked at the next generation, publishing one
/// record more (`StoreFailed` when the generation or the sequence cannot
/// advance).
pub fn plan_device_unpair(peer_id: &[u8], record: &StoredRecord) -> (plan: Result<
    DeviceRevocation,
    ServiceStatus,
>)
    ensures
        peer_id@.len() != 32 ==> plan == Err::<DeviceRevocation, ServiceStatus>(ServiceStatus::Invalid),
        peer_id@.len() == 32 && (record.state == RecordState::Identity(DevicePeerState::Unpaired)
            || !names_peer(record.state, record.payload@, peer_id@)) ==> plan == Err::<
            DeviceRevocation,
            ServiceStatus,
        >(ServiceStatus::PeerMismatch),
        plan matches Ok(revocation) ==> {
            &&& names_peer(record.state, record.payload@, peer_id@)
            &&& record.state != RecordState::Identity(DevicePeerState::Unpaired)
            &&& revocation.recovering == (record.state == RecordState::Identity(
                DevicePeerState::Revoking,
            ))
            &&& revocation.generation == if revocation.recovering {
                record.generation as int
            } else {
                record.generation + 1
            }
            &&& revocation.sequence == if revocation.recovering {
                record.publication_sequence as int
            } else {
                record.publication_sequence + 1
            }
        },
        peer_id@.len() == 32 && names_peer(record.state, record.payload@, peer_id@) && record.state
            != RecordState::Identity(DevicePeerState::Unpaired) && record.state
            != RecordState::Identity(DevicePeerState::Revoking) && (record.generation == u64::MAX
            || record.publication_sequence == u64::MAX) ==> plan == Err::<DeviceRevocation, ServiceStatus>(
            ServiceStatus::StoreFailed,
        ),
        peer_id@.len() == 32 && names_peer(record.state, record.payload@, peer_id@) && record.state
            != RecordState::Identity(DevicePeerState::Unpaired) && (record.state
            == RecordState::Identity(DevicePeerState::Revoking) || (record.generation < u64::MAX
            && record.publication_sequence < u64::MAX)) ==> plan is Ok,
{
    if peer_id.len() != 32 {
        return Err(ServiceStatus::Invalid);
    }
    let unpaired = match record.state {
        RecordState::Identity(DevicePeerState::Unpaired) => true,
        _ => false,
    };
    if unpaired || !payload_names_peer(record, peer_id) {
        return Err(ServiceStatus::PeerMismatch);
    }
    let recovering = match record.state {
        RecordState::Identity(DevicePeerState::Revoking) => true,
        _ => false,
    };
    if recovering {
        return Ok(DeviceRevocation {
            sequence: record.publication_sequence,
            generation: record.generation,
            recovering: true,
        });
    }
    if record.generation == u64::MAX || record.publication_sequence == u64::MAX {
        return Err(ServiceStatus::StoreFailed);
    }
    Ok(DeviceRevocation {
        sequence: record.publication_sequence + 1,
        generation: record.generation + 1,
        recovering: false,
    })
}

/// Whether the publication that the intent `sequence` records finished an
/// unpairing of `peer_id`: it left no peer, with the bare 64-byte local
/// identity, right after a revoking record of exactly that peer at the same
/// generation.
pub open spec fn unpair_completed(target: StoredRecord, previous: Option<StoredRecord>, peer_id: Seq<u8>) -> bool {
    &&& target.state == RecordState::Identity(DevicePeerState::Unpaired)
    &&& target.payload@.len() == 64
    &&& previous matches Some(p) && p.generation == target.generation && p.state
        == RecordState::Identity(DevicePeerState::Revoking) && names_peer(p.state, p.payload@, peer_id)
}

/// Checks an interrupted publication of the identity against a request to
/// unpair `peer_id`: `target` is the decoded record in the slot the intent
/// sequence names and `previous` the decoded record in the other slot, each
/// `None` when missing or undecodable. A missing target, or one of another
/// sequence, is `StoreFailed`; a publication that neither finished this
/// unpairing nor concerns this peer is `PeerMismatch`; otherwise the answer
/// says whether the unpairing had finished.
pub fn recover_intent(
    peer_id: &[u8],
    intent_sequence: u64,
    target: Option<&StoredRecord>,
    previous: Option<&StoredRecord>,
) -> (outcome: Result<bool, ServiceStatus>)
    ensures
        target is None ==> outcome == Err::<bool, ServiceStatus>(ServiceStatus::StoreFailed),
        target matches Some(t) ==> {
            let previous_record = match previous {
                Some(p) => Some(*p),
                None => None,
            };
            let completed = unpair_completed(*t, previous_record, peer_id@);
            &&& t.publication_sequence != intent_sequence ==> outcome == Err::<bool, ServiceStatus>(
                ServiceStatus::StoreFailed,
            )
            &&& t.publication_sequence == intent_sequence && !completed && !names_peer(
                t.state,
                t.payload@,
                peer_id@,
            ) ==> outcome == Err::<bool, ServiceStatus>(ServiceStatus::PeerMismatch)
            &&& t.publication_sequence == intent_sequence && (completed || names_peer(
                t.state,
                t.payload@,
                peer_id@,
            )) ==> outcome == Ok::<bool, ServiceStatus>(completed)
        },
{
    let target = match target {
        None => {
            return Err(ServiceStatus::StoreFailed);
        },
        Some(target) => target,
    };
    if target.publication_sequence != intent_sequence {
        return Err(ServiceStatus::StoreFailed);
    }
    let unpaired = match target.state {
        RecordState::Identity(DevicePeerState::Unpaired) => true,
        _ => false,
    };
    let completed = unpaired && target.payload.len() == 64 && match previous {
        None => false,
        Some(p) => {
            let revoking = match p.state {
                RecordState::Identity(DevicePeerState::Revoking) => true,
                _ => false,
            };
            p.generation == target.generation && revoking && payload_names_peer(p, peer_id)
        },
    };
    if !completed && !payload_names_peer(target, peer_id) {
        return Err(ServiceStatus::PeerMismatch);
    }
    Ok(completed)
}

/// The decimal value of a pairing code of six digit characters, each digit
/// taken as its distance above `'0'` (zero below it).
pub open spec fn sas_number_spec(digits: Seq<u8>) -> int
    decreases digits.len(),
{
    if digits.len() == 0 {
        0
    } else {
        sas_number_spec(digits.drop_last()) * 10 + (if digits.last() >= 48 {
            digits.last() - 48
        } else {
            0
        })
    }
}

/// The number a six-character pairing code shows, for the display task.
pub fn sas_number(sas: [u8; 6]) -> (value: u32)
    ensures
        value == sas_number_spec(sas@),
{
    let mut value: u32 = 0;
    let mut i: usize = 0;
    while i < 6
        invariant
            i <= 6,
            value == sas_number_spec(sas@.subrange(0, i as int)),
            value <= if i == 0 { 0u32 } else if i == 1 { 207u32 } else if i == 2 { 2277u32 } else if i
                == 3 { 22977u32 } else if i == 4 { 229977u32 } else if i == 5 { 2299977u32 } else {
                22999977u32
            },
        decreases 6 - i,
    {
        proof {
            let next = sas@.subrange(0, i + 1);
            assert(next.drop_last() =~= sas@.subrange(0, i as int));
            assert(next.last() == sas@[i as int]);
        }
        let digit = sas[i];
        let step: u32 = if digit >= 48 { (digit - 48) as u32 } else { 0 };
        value = value * 10 + step;
        i += 1;
    }
    assert(sas@.subrange(0, 6) =~= sas@);
    value
}

/// The 16-byte context id as four big-endian words, as tasks publish it.
pub open spec fn context_words_spec(value: Seq<u8>) -> Seq<u32> {
    Seq::new(
        4,
        |i: int|
            (value[4 * i] * 0x100_0000 + value[4 * i + 1] * 0x1_0000 + value[4 * i + 2] * 0x100
                + value[4 * i + 3]) as u32,
    )
}

/// Packs a context id into the four words that publish it.
pub fn store_context(value: [u8; 16]) -> (words: [u32; 4])
    ensures
        words@ == context_words_spec(value@),
{
    let mut words = [0u32; 4];
    let mut i: usize = 0;
    while i < 4
        invariant
            i <= 4,
            forall|k: int| 0 <= k < i ==> words@[k] == context_words_spec(value@)[k],
        decreases 4 - i,
    {
        let b0 = value[4 * i] as u32;
        let b1 = value[4 * i + 1] as u32;
        let b2 = value[4 * i + 2] as u32;
        let b3 = value[4 * i + 3] as u32;
        words[i] = b0 * 0x100_0000 + b1 * 0x1_0000 + b2 * 0x100 + b3;
        i += 1;
    }
    assert(words@ =~= context_words_spec(value@));
    words
}

/// Unpacks the four published words into the first 16 bytes of `output`,
/// each word big-endian.
pub fn load_context(words: &[u32; 4], output: &mut [u8])
    requires
        old(output)@.len() >= 16,
    ensures
        final(output)@.len() == old(output)@.len(),
        forall|i: int|
            0 <= i < 4 ==> #[trigger] final(output)@.subrange(4 * i, 4 * i + 4) == be32(words@[i]),
        final(output)@.subrange(16, old(output)@.len() as int) == old(output)@.subrange(
            16,
            old(output)@.len() as int,
        ),
{
    let ghost original = output@;
    let mut i: usize = 0;
    while i < 4
        invariant
            i <= 4,
            output@.len() == original.len(),
            original.len() >= 16,
            forall|k: int| 0 <= k < i ==> #[trigger] output@.subrange(4 * k, 4 * k + 4) == be32(words@[k]),
            forall|k: int| 4 * i <= k < output@.len() ==> output@[k] == original[k],
        decreases 4 - i,
    {
        let w = words[i];
        let ghost before = output@;
        output[4 * i] = (w / 0x100_0000) as u8;
        output[4 * i + 1] = (w / 0x1_0000 % 256) as u8;
        output[4 * i + 2] = (w / 0x100 % 256) as u8;
        output[4 * i + 3] = (w % 256) as u8;
        proof {
            assert(output@.subrange(4 * i as int, 4 * i + 4) =~= be32(w));
            assert forall|k: int| 0 <= k < i + 1 implies #[trigger] output@.subrange(4 * k, 4 * k + 4)
                == be32(words@[k]) by {
                if k < i {
                    assert(output@.subrange(4 * k, 4 * k + 4) =~= before.subrange(4 * k, 4 * k + 4));
                }
            }
        }
        i += 1;
    }
    assert(output@.subrange(16, original.len() as int) =~= original.subrange(16, original.len() as int));
}

/// A context id read back from its published words is the id stored.
pub proof fn lemma_context_round_trip(value: Seq<u8>)
    requires
        value.len() == 16,
    ensures
        forall|i: int|
            0 <= i < 4 ==> #[trigger] be32(context_words_spec(value)[i]) == value.subrange(4 * i, 4 * i + 4),
{
    assert forall|i: int| 0 <= i < 4 implies #[trigger] be32(context_words_spec(value)[i]) == value.subrange(
        4 * i,
        4 * i + 4,
    ) by {
        let b0 = value[4 * i];
        let b1 = value[4 * i + 1];
        let b2 = value[4 * i + 2];
        let b3 = value[4 * i + 3];
        let w = context_words_spec(value)[i];
        assert(w == b0 * 0x100_0000 + b1 * 0x1_0000 + b2 * 0x100 + b3);
        assert(w / 0x100_0000 == b0 && w / 0x1_0000 % 256 == b1 && w / 0x100 % 256 == b2 && w % 256 == b3) by (nonlinear_arith)
            requires
                w == b0 * 0x100_0000 + b1 * 0x1_0000 + b2 * 0x100 + b3,
                b0 < 256,
                b1 < 256,
                b2 < 256,
                b3 < 256,
        ;
        assert(be32(w) =~= value.subrange(4 * i, 4 * i + 4));
    }
}

/// The owner generation as the high and low words that publish it.
pub fn store_generation(generation: u64) -> (words: (u32, u32))
    ensures
        words.0 == generation / 0x1_0000_0000,
        words.1 == generation % 0x1_0000_0000,
{
    ((generation / 0x1_0000_0000) as u32, (generation % 0x1_0000_0000) as u32)
}

/// The owner generation from its published words, when the high word read
/// before and after the low word agrees; `None` asks for another read.
pub fn load_generation(high: u32, low: u32, high_again: u32) -> (generation: Option<u64>)
    ensures
        high != high_again ==> generation is None,
        high == high_again ==> generation == Some((high * 0x1_0000_0000 + low) as u64),
{
    if high != high_again {
        return None;
    }
    Some((high as u64) * 0x1_0000_0000 + low as u64)
}

/// A generation read back from the words it was stored as is the same
/// generation.
pub proof fn lemma_generation_round_trip(generation: u64)
    ensures
        (generation / 0x1_0000_0000) * 0x1_0000_0000 + generation % 0x1_0000_0000 == generation,
{
}

proof fn lemma_staging_index(row: int, col: int, other_row: int, other_col: int, width: int)
    by (nonlinear_arith)
    requires
        0 <= col < width,
        0 <= other_col < width,
        0 <= row,
        0 <= other_row,
        row < other_row || (row == other_row && col < other_col),
    ensures
        row * width + col < other_row * width + other_col,
{
}

proof fn lemma_row_bound(row: int, col: int, rows: int, width: int)
    by (nonlinear_arith)
    requires
        0 <= col < width,
        0 <= row < rows,
    ensures
        row * width + col < rows * width,
        0 <= row * width + col,
{
}

/// The word a run's transfer stages at `col` of its `row`: the
/// framebuffer pixel there, byte-swapped into the display's order.
pub open spec fn staged_word(pixels: Seq<u16>, run: DirtyRun, row: int, col: int) -> u16 {
    crate::blit::swap16(pixels[(run.first_line + row) * WIDTH + run.start + col])
}

/// Copies the block of a dirty run from a `WIDTH`-wide framebuffer into the
/// front of `staging`, row after row, each pixel byte-swapped for the
/// display; the rest of `staging` is kept.
pub fn stage_run(pixels: &[u16], run: &DirtyRun, staging: &mut [u16])
    requires
        run.start <= run.end <= WIDTH,
        (run.first_line + run.lines) * WIDTH <= pixels@.len(),
        run.lines * (run.end - run.start) <= old(staging)@.len(),
    ensures
        final(staging)@.len() == old(staging)@.len(),
        forall|row: int, col: int|
            0 <= row < run.lines && 0 <= col < run.end - run.start ==> #[trigger] final(staging)@[row
                * (run.end - run.start) + col] == staged_word(pixels@, *run, row, col),
        forall|k: int|
            run.lines * (run.end - run.start) <= k < old(staging)@.len() ==> #[trigger] final(staging)@[k]
                == old(staging)@[k],
{
    let width: usize = (run.end - run.start) as usize;
    let ghost original = staging@;
    let pixels_len = pixels.len();
    let staging_len = staging.len();
    let mut row: usize = 0;
    while row < run.lines
        invariant
            pixels_len == pixels@.len(),
            staging_len == original.len(),
            width == run.end - run.start,
            run.start <= run.end <= WIDTH,
            (run.first_line + run.lines) * WIDTH <= pixels@.len(),
            run.lines * width <= original.len(),
            staging@.len() == original.len(),
            row <= run.lines,
            forall|r: int, c: int|
                0 <= r < row && 0 <= c < width ==> #[trigger] staging@[r * width + c] == staged_word(pixels@, *run, r, c),
            forall|k: int| row * width <= k < original.len() ==> #[trigger] staging@[k] == original[k],
        decreases run.lines - row,
    {
        proof {
            lemma_row_bound(row as int, 0, run.lines as int, WIDTH as int);
            assert((row + 1) * WIDTH <= run.lines * WIDTH) by (nonlinear_arith)
                requires row < run.lines;
            assert((run.first_line + row + 1) * WIDTH <= (run.first_line + run.lines) * WIDTH) by (nonlinear_arith)
                requires row < run.lines;
            assert((run.first_line + row) * WIDTH + WIDTH == (run.first_line + row + 1) * WIDTH) by (nonlinear_arith);
            assert((row + 1) * width <= run.lines * width) by (nonlinear_arith)
                requires row < run.lines;
            assert(row * width + width == (row + 1) * width) by (nonlinear_arith);
            assert(run.first_line + row <= (run.first_line + row) * WIDTH) by (nonlinear_arith);
            assert((run.first_line + row) * WIDTH + run.start + width <= pixels@.len());
        }
        let source_base: usize = (run.first_line + row) * WIDTH + run.start as usize;
        let target_base: usize = row * width;
        let mut col: usize = 0;
        while col < width
            invariant
                pixels_len == pixels@.len(),
                staging_len == original.len(),
                width == run.end - run.start,
                run.start <= run.end <= WIDTH,
                source_base == (run.first_line + row) * WIDTH + run.start,
                source_base + width <= pixels@.len(),
                target_base == row * width,
                target_base + width <= original.len(),
                row < run.lines,
                staging@.len() == original.len(),
                col <= width,
                forall|r: int, c: int|
                    0 <= r < row && 0 <= c < width ==> #[trigger] staging@[r * width + c] == staged_word(pixels@, *run, r, c),
                forall|c: int| 0 <= c < col ==> #[trigger] staging@[target_base + c] == staged_word(pixels@, *run, row as int, c),
                forall|k: int| target_base + col <= k < original.len() ==> #[trigger] staging@[k] == original[k],
            decreases width - col,
        {
            let word = crate::blit::swap16_exec(pixels[source_base + col]);
            let ghost before = staging@;
            staging[target_base + col] = word;
            proof {
                assert forall|r: int, c: int| 0 <= r < row && 0 <= c < width implies #[trigger] staging@[r
                    * width + c] == staged_word(pixels@, *run, r, c) by {
                    lemma_staging_index(r, c, row as int, col as int, width as int);
                    assert(before[r * width + c] == staged_word(pixels@, *run, r, c));
                }
            }
            col += 1;
        }
        proof {
            assert forall|r: int, c: int| 0 <= r < row + 1 && 0 <= c < width implies #[trigger] staging@[r * width + c]
                == staged_word(pixels@, *run, r, c) by {
                if r == row {
                    assert(r * width + c == target_base + c);
                }
            }
        }
        row += 1;
    }
}

} // verus!
