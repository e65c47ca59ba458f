//! Disk imaging: the triage that recommends imaging first, and the record
//! of a finished image copy.
//!
//! Reading and writing the bytes is left to the caller, which feeds each
//! copied chunk to an `ImageCopy`; it counts and checksums them.
use vstd::prelude::*;
use crate::bytes::{crc32_finalize, crc32_hasher, crc32_of, crc32_update, hashed_bytes};
use crate::text::{dec, hex8, hex_pad, owned, push_dec, push_str, string_of};

verus! {

pub const IMAGING_SCHEMA_VERSION: u32 = 1;

#[derive(Debug)]
pub enum ImagingError {
    Io(String),
    Json(String),
    InvalidState(String),
}

#[derive(Debug, Clone)]
pub struct ImagingJobState {
    pub schema_version: u32,
    pub source_path: String,
    pub output_path: String,
    pub source_signature: String,
    pub bytes_copied: u64,
    pub checksum: String,
}

#[derive(Debug, Clone, Copy)]
pub struct ImagingTriageSignal {
    pub smart_failure: bool,
    pub repeated_read_errors: bool,
    pub identity_changed: bool,
    pub throughput_drop: bool,
}

#[derive(Debug, Clone)]
pub struct ImagingRecommendation {
    pub recommended: bool,
    pub reason: String,
}

#[derive(Debug, Clone)]
pub struct ImagingTranscript {
    pub schema_version: u32,
    pub source_path: String,
    pub output_path: String,
    pub bytes_copied: u64,
    pub checksum: String,
    pub read_errors: u64,
    pub throughput_bytes_per_sec: u64,
    pub state: ImagingJobState,
    pub status: String,
}

/// Imaging is recommended before anything else when the drive shows signs
/// of failing, and when scanning has slowed down.
pub open spec fn spec_triage(s: ImagingTriageSignal) -> (bool, Seq<char>) {
    if s.smart_failure || s.repeated_read_errors || s.identity_changed {
        (true, "image-first workflow is recommended"@)
    } else if s.throughput_drop {
        (true, "scan speed drop suggests imaging before repair"@)
    } else {
        (false, "risk signals are not currently elevated"@)
    }
}

pub fn triage_from_signals(signals: &ImagingTriageSignal) -> (r: ImagingRecommendation)
    ensures
        (r.recommended, r.reason@) == spec_triage(*signals),
{
    if signals.smart_failure || signals.repeated_read_errors || signals.identity_changed {
        ImagingRecommendation { recommended: true, reason: owned("image-first workflow is recommended") }
    } else if signals.throughput_drop {
        ImagingRecommendation { recommended: true, reason: owned("scan speed drop suggests imaging before repair") }
    } else {
        ImagingRecommendation { recommended: false, reason: owned("risk signals are not currently elevated") }
    }
}

/// Every failure sign, and a throughput drop, leads to imaging first; with
/// no signal raised imaging is not recommended.
pub proof fn lemma_triage_recommends_on_any_signal(s: ImagingTriageSignal)
    ensures
        spec_triage(s).0 <==> (s.smart_failure || s.repeated_read_errors || s.identity_changed || s.throughput_drop),
{
}

/// The record of an image copy that copied `bytes_copied` bytes, whose
/// CRC-32 is `crc`, in `elapsed_secs` seconds, after `read_errors` failed
/// reads. Throughput counts at least one second.
pub fn imaging_transcript(
    source_path: &str,
    output_path: &str,
    bytes_copied: u64,
    crc: u32,
    read_errors: u64,
    elapsed_secs: u64,
) -> (r: ImagingTranscript)
    ensures
        r.schema_version == IMAGING_SCHEMA_VERSION,
        r.source_path@ == source_path@,
        r.output_path@ == output_path@,
        r.bytes_copied == bytes_copied,
        r.checksum@ == hex_pad(crc as nat, 8, false),
        r.read_errors == read_errors,
        r.throughput_bytes_per_sec == bytes_copied / (if elapsed_secs > 1 { elapsed_secs } else { 1u64 }),
        r.status@ == "completed"@,
        r.state.schema_version == IMAGING_SCHEMA_VERSION,
        r.state.source_path@ == source_path@,
        r.state.output_path@ == output_path@,
        r.state.source_signature@ == source_path@ + seq![':'] + dec(bytes_copied as nat),
        r.state.bytes_copied == bytes_copied,
        r.state.checksum@ == hex_pad(crc as nat, 8, false),
{
    let elapsed = if elapsed_secs > 1 { elapsed_secs } else { 1 };
    let mut sig: Vec<char> = Vec::new();
    push_str(&mut sig, source_path);
    sig.push(':');
    push_dec(&mut sig, bytes_copied);
    let state = ImagingJobState {
        schema_version: IMAGING_SCHEMA_VERSION,
        source_path: owned(source_path),
        output_path: owned(output_path),
        source_signature: string_of(&sig),
        bytes_copied,
        checksum: hex8(crc),
    };
    ImagingTranscript {
        schema_version: IMAGING_SCHEMA_VERSION,
        source_path: owned(source_path),
        output_path: owned(output_path),
        bytes_copied,
        checksum: hex8(crc),
        read_errors,
        throughput_bytes_per_sec: bytes_copied / elapsed,
        state,
        status: owned("completed"),
    }
}


/// An image copy must not write over its source: the output path has to
/// differ from the source path.
pub fn check_imaging_output(source_path: &str, output_path: &str) -> (r: Result<(), ImagingError>)
    ensures
        r is Ok <==> source_path@ != output_path@,
        r matches Err(e) ==> e is InvalidState && e->InvalidState_0@ == "output must differ from source"@,
{
    if crate::text::str_eq(source_path, output_path) {
        Err(ImagingError::InvalidState(owned("output must differ from source")))
    } else {
        Ok(())
    }
}

/// The bytes of an image copy so far, counted and checksummed as they are
/// fed in.
pub struct ImageCopy {
    hasher: crc32fast::Hasher,
    copied: u64,
}

impl ImageCopy {
    /// The bytes fed so far, in order.
    pub closed spec fn fed(&self) -> Seq<u8> {
        hashed_bytes(self.hasher)
    }

    pub closed spec fn wf(&self) -> bool {
        self.copied == hashed_bytes(self.hasher).len()
    }

    pub fn new() -> (r: Self)
        ensures
            r.wf(),
            r.fed() == Seq::<u8>::empty(),
    {
        ImageCopy { hasher: crc32_hasher(), copied: 0 }
    }

    /// Counts and checksums one copied chunk.
    pub fn feed(&mut self, chunk: &[u8])
        requires
            old(self).wf(),
            old(self).fed().len() + chunk@.len() <= u64::MAX,
        ensures
            final(self).wf(),
            final(self).fed() == old(self).fed() + chunk@,
    {
        crc32_update(&mut self.hasher, chunk);
        self.copied = self.copied + chunk.len() as u64;
    }

    /// The number of bytes fed so far.
    pub fn copied(&self) -> (r: u64)
        requires
            self.wf(),
        ensures
            r == self.fed().len(),
    {
        self.copied
    }

    /// The record of the finished copy: its byte count and the CRC-32 of
    /// every byte fed, as `imaging_transcript` states them.
    pub fn finish(self, source_path: &str, output_path: &str, read_errors: u64, elapsed_secs: u64) -> (r: ImagingTranscript)
        requires
            self.wf(),
        ensures
            r.schema_version == IMAGING_SCHEMA_VERSION,
            r.source_path@ == source_path@,
            r.output_path@ == output_path@,
            r.bytes_copied == self.fed().len(),
            r.checksum@ == hex_pad(crc32_of(self.fed()) as nat, 8, false),
            r.read_errors == read_errors,
            r.throughput_bytes_per_sec == self.fed().len() / (if elapsed_secs > 1 { elapsed_secs as nat } else { 1nat }),
            r.status@ == "completed"@,
            r.state.schema_version == IMAGING_SCHEMA_VERSION,
            r.state.source_path@ == source_path@,
            r.state.output_path@ == output_path@,
            r.state.source_signature@ == source_path@ + seq![':'] + dec(self.fed().len()),
            r.state.bytes_copied == self.fed().len(),
            r.state.checksum@ == hex_pad(crc32_of(self.fed()) as nat, 8, false),
    {
        let copied = self.copied;
        let crc = crc32_finalize(self.hasher);
        imaging_transcript(source_path, output_path, copied, crc, read_errors, elapsed_secs)
    }
}

} // verus!
