//! Decisions a conversion run makes around the pipeline: cancellation and
//! exit status, frame limits, Vulkan slot configuration, and the name of
//! the staged output file.

use vstd::prelude::*;
use crate::backend::{FrameSource, SourceTimings};
use crate::cancellation::CancellationToken;
use crate::error::{Error, Result};
use crate::frame::VideoFrame;
use crate::init::{InitCapability, InitializationFailure};
use crate::text::{cat, decimal, decimal_text, decimal_wide};

verus! {

/// The error, or an error it wraps, is a cancellation.
pub open spec fn chain_cancelled(e: Error) -> bool
    decreases e,
{
    match e {
        Error::Cancelled => true,
        Error::Pipeline { error, .. } => chain_cancelled(*error.source),
        _ => false,
    }
}

/// Whether the failure of a run was a cancellation, at any depth.
pub fn is_cancellation(error: &Error) -> (b: bool)
    ensures
        b == chain_cancelled(*error),
    decreases *error,
{
    match error {
        Error::Cancelled => true,
        Error::Pipeline { error, .. } => is_cancellation(&error.source),
        _ => false,
    }
}

/// The process exit status of a failed run: 130 for a cancellation (as after
/// SIGINT), 1 otherwise.
pub fn failure_exit_code(error: &Error) -> (code: u8)
    ensures
        code == (if chain_cancelled(*error) { 130u8 } else { 1u8 }),
{
    if is_cancellation(error) { 130 } else { 1 }
}

/// Fails with `Cancelled` once cancellation was requested.
pub fn ensure_not_cancelled(cancellation: &CancellationToken) -> (r: Result<()>)
    ensures
        r is Ok || r matches Err(Error::Cancelled),
{
    if cancellation.is_cancelled() {
        Err(Error::Cancelled)
    } else {
        Ok(())
    }
}

/// The message for an unaccepted slot setting.
pub open spec fn slot_setting_message(value: Seq<char>) -> Seq<char> {
    "ASCIIFLOW_VULKAN_FRAME_SLOTS must be 1 or 2, got "@ + value
}

/// The number of in-flight Vulkan frame slots for the value of
/// `ASCIIFLOW_VULKAN_FRAME_SLOTS`: two when unset, otherwise exactly "1" or "2".
pub fn vulkan_frame_slots(setting: Option<&str>) -> (r: core::result::Result<usize, String>)
    ensures
        match setting {
            None => r == Ok::<usize, String>(2),
            Some(v) => if v@ == "2"@ {
                r == Ok::<usize, String>(2)
            } else if v@ == "1"@ {
                r == Ok::<usize, String>(1)
            } else {
                r matches Err(m) && m@ == slot_setting_message(v@)
            },
        },
{
    proof {
        reveal_strlit("1");
        reveal_strlit("2");
        reveal_strlit("ASCIIFLOW_VULKAN_FRAME_SLOTS must be 1 or 2, got ");
    }
    match setting {
        None => Ok(2),
        Some(v) => {
            if crate::text::str_eq(v, "2") {
                Ok(2)
            } else if crate::text::str_eq(v, "1") {
                Ok(1)
            } else {
                Err(cat("ASCIIFLOW_VULKAN_FRAME_SLOTS must be 1 or 2, got ", v))
            }
        },
    }
}

pub open spec fn two_slot_message(path: Seq<char>) -> Seq<char> {
    path + " requires the validated two-slot Vulkan configuration"@
}

/// An interop path named `path` runs only with two Vulkan frame slots; any
/// other configuration is a configuration failure at initialization.
pub fn require_two_slots(path: &'static str, setting: Option<&str>) -> (r: core::result::Result<(), InitializationFailure>)
    ensures
        match vulkan_slot_outcome(setting) {
            Ok(2) => r is Ok,
            Ok(_) => r matches Err(f) && f.capability == InitCapability::Configuration
                && f.source@ == two_slot_message(path@),
            Err(m) => r matches Err(f) && f.capability == InitCapability::Configuration && f.source@ == m,
        },
{
    proof { reveal_strlit(" requires the validated two-slot Vulkan configuration"); }
    match vulkan_frame_slots(setting) {
        Ok(2) => Ok(()),
        Ok(_) => Err(InitializationFailure::new(
            InitCapability::Configuration,
            cat(path, " requires the validated two-slot Vulkan configuration"),
        )),
        Err(error) => Err(InitializationFailure::new(InitCapability::Configuration, error)),
    }
}

/// What `vulkan_frame_slots` decides for a setting, messages as characters.
pub open spec fn vulkan_slot_outcome(setting: Option<&str>) -> core::result::Result<usize, Seq<char>> {
    match setting {
        None => Ok(2),
        Some(v) => if v@ == "2"@ {
            Ok(2)
        } else if v@ == "1"@ {
            Ok(1)
        } else {
            Err(slot_setting_message(v@))
        },
    }
}

/// The staging file name for an output whose file stem is `stem`:
/// `.{stem}.asciiflow-part-{process}-{timestamp}-{sequence}.mp4`.
pub open spec fn temporary_name_text(stem: Seq<char>, process_id: u32, timestamp_nanos: u128, sequence: u64) -> Seq<char> {
    "."@ + stem + ".asciiflow-part-"@ + decimal_text(process_id as nat) + "-"@
        + decimal_text(timestamp_nanos as nat) + "-"@ + decimal_text(sequence as nat) + ".mp4"@
}

/// Names the hidden staging file the output is written to before it is
/// committed; distinct sequence numbers give distinct names.
pub fn temporary_output_name(stem: &str, process_id: u32, timestamp_nanos: u128, sequence: u64) -> (s: String)
    ensures
        s@ == temporary_name_text(stem@, process_id, timestamp_nanos, sequence),
{
    proof {
        reveal_strlit(".");
        reveal_strlit(".asciiflow-part-");
        reveal_strlit("-");
        reveal_strlit(".mp4");
    }
    let mut s = cat(".", stem);
    s.append(".asciiflow-part-");
    let p = decimal(process_id as u64);
    s.append(p.as_str());
    s.append("-");
    let t = decimal_wide(timestamp_nanos);
    s.append(t.as_str());
    s.append("-");
    let q = decimal(sequence);
    s.append(q.as_str());
    s.append(".mp4");
    s
}

/// A frame source that stops after a number of frames.
pub struct LimitedSource<S> {
    pub inner: S,
    /// Frames still allowed; `None` is no limit.
    pub remaining: Option<u64>,
}

impl<S> LimitedSource<S> {
    /// Limits `inner` to `max_frames` frames; zero means no limit.
    pub fn new(inner: S, max_frames: u64) -> (s: Self)
        ensures
            s.remaining == (if max_frames == 0 { None } else { Some(max_frames) }),
    {
        let remaining = if max_frames == 0 { None } else { Some(max_frames) };
        LimitedSource { inner, remaining }
    }
}

impl<S: FrameSource> FrameSource for LimitedSource<S> {
    fn next_frame(&mut self) -> (r: Result<Option<VideoFrame>>)
        ensures
            old(self).remaining == Some(0u64) ==> (r matches Ok(None) && final(self).remaining == Some(0u64)),
            old(self).remaining is None ==> final(self).remaining is None,
            old(self).remaining is Some && old(self).remaining->0 > 0 ==> final(self).remaining == (
                if r matches Ok(Some(_)) { Some((old(self).remaining->0 - 1) as u64) } else { old(self).remaining }),
    {
        if self.remaining == Some(0u64) {
            return Ok(None);
        }
        let frame = match self.inner.next_frame() {
            Ok(f) => f,
            Err(e) => return Err(e),
        };
        if frame.is_some() {
            if let Some(value) = self.remaining {
                self.remaining = Some(value - 1);
            }
        }
        Ok(frame)
    }

    /// The inner source's timings, taken from it; the limit is untouched.
    fn take_timings(&mut self) -> (t: SourceTimings)
        ensures
            final(self).remaining == old(self).remaining,
            exists|inner: &mut S| *inner == old(self).inner && *final(inner) == final(self).inner
                && call_ensures(S::take_timings, (inner,), t),
    {
        self.inner.take_timings()
    }

    /// The inner source's own result of finishing; the limit is untouched.
    fn finish(&mut self) -> (r: Result<()>)
        ensures
            final(self).remaining == old(self).remaining,
            exists|inner: &mut S| *inner == old(self).inner && *final(inner) == final(self).inner
                && call_ensures(S::finish, (inner,), r),
    {
        self.inner.finish()
    }
}

} // verus!
