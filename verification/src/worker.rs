//! The capture worker's per-read decision: what to do with the outcome of
//! one blocking read from the OS capture handle. The host thread loops:
//! read, take the step this function decides, and either forward a record,
//! drop the frame, or leave the loop.

use vstd::prelude::*;

use crate::decode::{
    decode, decode_ok, meta_in_range, spec_destination, spec_source, spec_timestamp_ms,
    CaptureMeta, CaptureRecord,
};

verus! {

/// What one blocking read of the capture handle produced: a frame with its
/// capture metadata, an interruption by the cancellation signal, or any
/// other read error, which is fatal to the worker.
pub enum ReadEvent {
    Frame(Vec<u8>, CaptureMeta),
    Interrupted,
    Fatal(String),
}

/// The worker's reaction to one read: forward a decoded record, silently
/// drop the frame, exit cleanly on cancellation, or exit reporting the
/// fatal reason.
pub enum WorkerStep {
    Emit(CaptureRecord),
    Skip,
    ExitClean,
    ExitFatal(String),
}

/// Decides the worker's step for one read outcome: a decodable frame is
/// emitted as its record; a frame that is malformed or not IP is dropped
/// without a record (decode noise is expected, never a session error);
/// interruption exits cleanly; any other read error exits as fatal.
pub fn worker_step(event: ReadEvent) -> (r: WorkerStep)
    requires
        event matches ReadEvent::Frame(_, meta) ==> meta_in_range(meta),
    ensures
        match event {
            ReadEvent::Frame(f, meta) => if decode_ok(f@) {
                r matches WorkerStep::Emit(rec) && rec.source@ == spec_source(f@)
                    && rec.destination@ == spec_destination(f@) && rec.timestamp_ms
                    == spec_timestamp_ms(meta)
            } else {
                r == WorkerStep::Skip
            },
            ReadEvent::Interrupted => r == WorkerStep::ExitClean,
            ReadEvent::Fatal(e) => r matches WorkerStep::ExitFatal(m) && m@ == e@,
        },
{
    match event {
        ReadEvent::Frame(f, meta) => match decode(&f, meta) {
            Ok(rec) => WorkerStep::Emit(rec),
            Err(_) => WorkerStep::Skip,
        },
        ReadEvent::Interrupted => WorkerStep::ExitClean,
        ReadEvent::Fatal(e) => WorkerStep::ExitFatal(e),
    }
}

} // verus!
