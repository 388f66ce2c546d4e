//! Runs source, backend and sink over a whole stream: every frame is
//! decoded, processed and encoded in order; buffered backends are drained at
//! end of stream; the first failure ends the run and names its stage.
//!
//! Stages run in lockstep here (decode one frame, process it, encode what
//! came out), which is one schedule of a decoder, processor and encoder
//! working side by side over bounded queues.

use vstd::prelude::*;
use std::collections::VecDeque;
use std::time::Instant;
use crate::backend::{AsciiBackend, BackendOutput, BackendTimings, FrameSink, FrameSource, SinkTimings, SourceTimings};
use crate::cancellation::CancellationToken;
use crate::clock::{elapsed_nanos, now};
use crate::config::AsciiConfig;
use crate::frame::VideoFrame;
use crate::error::{Error, PipelineStage, Result, cpu_with, invalid_with, stage_of, wrap_spec};
use crate::metrics::{MetricStage, Metrics, MetricsSnapshot, saturating_sum, stage_total};
use crate::text::{cat, decimal, decimal_text};

verus! {

/// A call the run made into its source: the source before and after the
/// call, and what the call returned.
pub enum SourceCall<S> {
    /// `next_frame`.
    Read(S, S, Result<Option<VideoFrame>>),
    /// `take_timings`.
    Timings(S, S, SourceTimings),
}

/// A call the run made into its backend: the backend before and after the
/// call, the frame handed in, and what the call returned.
pub enum BackendCall<B> {
    /// `submit` of a frame.
    Submit(B, B, VideoFrame, Result<Option<BackendOutput>>),
    /// `drain`.
    Drain(B, B, Result<Option<BackendOutput>>),
}

/// A call the run made into its sink: the sink before and after the call,
/// the frame handed in, and what the call returned.
pub enum SinkCall<E> {
    /// `encode` of a frame.
    Encode(E, E, VideoFrame, Result<()>),
    /// `take_timings`.
    Timings(E, E, SinkTimings),
    /// `finish`.
    Finish(E, E, Result<()>),
}

impl<S> SourceCall<S> {
    pub open spec fn before(self) -> S {
        match self { SourceCall::Read(b, _, _) => b, SourceCall::Timings(b, _, _) => b }
    }

    pub open spec fn after(self) -> S {
        match self { SourceCall::Read(_, a, _) => a, SourceCall::Timings(_, a, _) => a }
    }
}

impl<B> BackendCall<B> {
    pub open spec fn before(self) -> B {
        match self { BackendCall::Submit(b, _, _, _) => b, BackendCall::Drain(b, _, _) => b }
    }

    pub open spec fn after(self) -> B {
        match self { BackendCall::Submit(_, a, _, _) => a, BackendCall::Drain(_, a, _) => a }
    }

    /// The processed frame the call handed back, if any.
    pub open spec fn output(self) -> Option<BackendOutput> {
        match self {
            BackendCall::Submit(_, _, _, Ok(Some(o))) => Some(o),
            BackendCall::Drain(_, _, Ok(Some(o))) => Some(o),
            _ => None,
        }
    }
}

impl<E> SinkCall<E> {
    pub open spec fn before(self) -> E {
        match self { SinkCall::Encode(b, _, _, _) => b, SinkCall::Timings(b, _, _) => b, SinkCall::Finish(b, _, _) => b }
    }

    pub open spec fn after(self) -> E {
        match self { SinkCall::Encode(_, a, _, _) => a, SinkCall::Timings(_, a, _) => a, SinkCall::Finish(_, a, _) => a }
    }
}

/// The source after the calls, starting from `start`.
pub open spec fn source_end<S>(calls: Seq<SourceCall<S>>, start: S) -> S {
    if calls.len() == 0 { start } else { calls.last().after() }
}

pub open spec fn backend_end<B>(calls: Seq<BackendCall<B>>, start: B) -> B {
    if calls.len() == 0 { start } else { calls.last().after() }
}

pub open spec fn sink_end<E>(calls: Seq<SinkCall<E>>, start: E) -> E {
    if calls.len() == 0 { start } else { calls.last().after() }
}

/// The calls were made one after another on the source, starting from `start`.
pub open spec fn source_chain<S: FrameSource>(calls: Seq<SourceCall<S>>, start: S) -> bool
    decreases calls.len(),
{
    if calls.len() == 0 {
        true
    } else {
        &&& source_chain(calls.drop_last(), start)
        &&& calls.last().before() == source_end(calls.drop_last(), start)
    }
}

pub open spec fn backend_chain<B: AsciiBackend>(calls: Seq<BackendCall<B>>, start: B, config: AsciiConfig) -> bool
    decreases calls.len(),
{
    if calls.len() == 0 {
        true
    } else {
        &&& backend_chain(calls.drop_last(), start, config)
        &&& calls.last().before() == backend_end(calls.drop_last(), start)
    }
}

pub open spec fn sink_chain<E: FrameSink>(calls: Seq<SinkCall<E>>, start: E) -> bool
    decreases calls.len(),
{
    if calls.len() == 0 {
        true
    } else {
        &&& sink_chain(calls.drop_last(), start)
        &&& calls.last().before() == sink_end(calls.drop_last(), start)
    }
}

/// The frames the source handed out, in order.
pub open spec fn decoded<S>(calls: Seq<SourceCall<S>>) -> Seq<VideoFrame>
    decreases calls.len(),
{
    if calls.len() == 0 {
        Seq::empty()
    } else {
        match calls.last() {
            SourceCall::Read(_, _, Ok(Some(f))) => decoded(calls.drop_last()).push(f),
            _ => decoded(calls.drop_last()),
        }
    }
}

/// Number of `next_frame` calls.
pub open spec fn reads<S>(calls: Seq<SourceCall<S>>) -> nat
    decreases calls.len(),
{
    if calls.len() == 0 { 0 } else { reads(calls.drop_last()) + (if calls.last() is Read { 1nat } else { 0nat }) }
}

/// The frames handed to the backend, in order.
pub open spec fn submitted<B>(calls: Seq<BackendCall<B>>) -> Seq<VideoFrame>
    decreases calls.len(),
{
    if calls.len() == 0 {
        Seq::empty()
    } else {
        match calls.last() {
            BackendCall::Submit(_, _, f, _) => submitted(calls.drop_last()).push(f),
            _ => submitted(calls.drop_last()),
        }
    }
}

/// The processed frames the backend handed back, in order.
pub open spec fn produced<B>(calls: Seq<BackendCall<B>>) -> Seq<BackendOutput>
    decreases calls.len(),
{
    if calls.len() == 0 {
        Seq::empty()
    } else {
        match calls.last().output() {
            Some(o) => produced(calls.drop_last()).push(o),
            None => produced(calls.drop_last()),
        }
    }
}

/// The frames of the processed frames.
pub open spec fn produced_frames<B>(calls: Seq<BackendCall<B>>) -> Seq<VideoFrame> {
    produced(calls).map_values(|o: BackendOutput| o.frame)
}

/// Number of `drain` calls.
pub open spec fn drains<B>(calls: Seq<BackendCall<B>>) -> nat
    decreases calls.len(),
{
    if calls.len() == 0 { 0 } else { drains(calls.drop_last()) + (if calls.last() is Drain { 1nat } else { 0nat }) }
}

/// The frames handed to the sink, in order.
pub open spec fn encoded<E>(calls: Seq<SinkCall<E>>) -> Seq<VideoFrame>
    decreases calls.len(),
{
    if calls.len() == 0 {
        Seq::empty()
    } else {
        match calls.last() {
            SinkCall::Encode(_, _, f, _) => encoded(calls.drop_last()).push(f),
            _ => encoded(calls.drop_last()),
        }
    }
}

/// Number of frames the sink accepted.
pub open spec fn accepted<E>(calls: Seq<SinkCall<E>>) -> nat
    decreases calls.len(),
{
    if calls.len() == 0 {
        0
    } else {
        accepted(calls.drop_last()) + (if calls.last() matches SinkCall::Encode(_, _, _, Ok(_)) { 1nat } else { 0nat })
    }
}

/// A failed read, or the read that found the end of the stream.
pub open spec fn source_stops<S>(c: SourceCall<S>) -> bool {
    (c matches SourceCall::Read(_, _, Err(_))) || (c matches SourceCall::Read(_, _, Ok(None)))
}

/// A failed backend call, or the drain that handed back nothing more.
pub open spec fn backend_stops<B>(c: BackendCall<B>) -> bool {
    (c matches BackendCall::Submit(_, _, _, Err(_))) || (c matches BackendCall::Drain(_, _, Err(_)))
        || (c matches BackendCall::Drain(_, _, Ok(None)))
}

/// A failed encode or finish.
pub open spec fn sink_fails<E>(c: SinkCall<E>) -> bool {
    (c matches SinkCall::Encode(_, _, _, Err(_))) || (c matches SinkCall::Finish(_, _, Err(_)))
}

/// The order of a run's calls: nothing follows a failed call, the end of
/// the stream or the last drain; the backend is drained only once the source
/// ended; the sink is finished only after the last drain, and then only its
/// timings are taken.
pub open spec fn calls_ordered<S, B, E>(src: Seq<SourceCall<S>>, be: Seq<BackendCall<B>>, sk: Seq<SinkCall<E>>) -> bool {
    &&& forall|i: int| 0 <= i < src.len() - 1 ==> !source_stops(#[trigger] src[i])
    &&& forall|i: int| 0 <= i < be.len() - 1 ==> !backend_stops(#[trigger] be[i])
    &&& forall|i: int| 0 <= i < sk.len() - 1 ==> !sink_fails(#[trigger] sk[i])
    &&& forall|i: int| 0 <= i < be.len() && (#[trigger] be[i]) is Drain
        ==> src.len() > 0 && (src.last() matches SourceCall::Read(_, _, Ok(None)))
    &&& forall|i: int| 0 <= i < sk.len() && (#[trigger] sk[i]) is Finish
        ==> (i == sk.len() - 1 || (i == sk.len() - 2 && sk.last() is Timings))
            && be.len() > 0 && (be.last() matches BackendCall::Drain(_, _, Ok(None)))
}

/// Every decoded frame went to the backend unchanged and in order, and every
/// processed frame went to the sink in order, save possibly the last one.
pub open spec fn frames_flow<S, B, E>(src: Seq<SourceCall<S>>, be: Seq<BackendCall<B>>, sk: Seq<SinkCall<E>>) -> bool {
    &&& submitted(be) == decoded(src)
    &&& encoded(sk).len() <= produced_frames(be).len() <= encoded(sk).len() + 1
    &&& encoded(sk) == produced_frames(be).take(encoded(sk).len() as int)
}

/// The stages the pipeline times itself with the clock; the backend reports the others.
pub open spec fn clock_stage(s: MetricStage) -> bool {
    ||| s == MetricStage::Decode
    ||| s == MetricStage::DecodePacketSubmit
    ||| s == MetricStage::DecodeFrameReceive
    ||| s == MetricStage::HardwareDownload
    ||| s == MetricStage::Encode
    ||| s == MetricStage::HardwareUpload
    ||| s == MetricStage::EncodeSubmitReceive
    ||| s == MetricStage::PipelineLatency
}

/// The backend's reported time for `stage`, summed (saturating) over `outputs`.
pub open spec fn backend_total(outputs: Seq<BackendOutput>, stage: MetricStage) -> u128
    decreases outputs.len(),
{
    if outputs.len() == 0 {
        0
    } else {
        saturating_sum(backend_total(outputs.drop_last(), stage), backend_stage_time(outputs.last().timings, stage))
    }
}

/// Every backend-timed stage total of `m` is the backend's reported time
/// summed over `outputs`.
pub open spec fn backend_totals_match(m: MetricsSnapshot, outputs: Seq<BackendOutput>) -> bool {
    forall|s: MetricStage| !clock_stage(s) ==> #[trigger] stage_total(m, s) == backend_total(outputs, s)
}

/// A count held in a `u64`, saturating.
pub open spec fn saturated(n: nat) -> u64 {
    if n >= u64::MAX { u64::MAX } else { n as u64 }
}

/// The errors a run with these calls may end in: cancellation, a failed
/// call's error attributed to its stage, or a drain-stage failure.
pub open spec fn run_error<S, B, E>(src: Seq<SourceCall<S>>, be: Seq<BackendCall<B>>, sk: Seq<SinkCall<E>>, e: Error) -> bool {
    ||| e is Cancelled
    ||| src.len() > 0 && (src.last() matches SourceCall::Read(_, _, Err(c))
        && e == wrap_spec(PipelineStage::DecodeRuntime, "read decoded frame", c))
    ||| be.len() > 0 && (be.last() matches BackendCall::Submit(_, _, _, Err(c))
        && e == wrap_spec(PipelineStage::ProcessingRuntime, "process video frame", c))
    ||| be.len() > 0 && be.last() is Drain
        && exists|c: Error| e == wrap_spec(PipelineStage::Drain, "drain processor", c)
    ||| sk.len() > 0 && (sk.last() matches SinkCall::Encode(_, _, _, Err(c))
        && e == wrap_spec(PipelineStage::EncodeRuntime, "encode video frame", c))
    ||| sk.len() > 0 && (sk.last() matches SinkCall::Finish(_, _, Err(c))
        && e == wrap_spec(PipelineStage::Finalization, "finalize encoder and muxer", c))
}

/// How a run that made these calls, from these starting states, ends in `r`.
/// The calls are the ones made, in order, on the real source, backend and
/// sink. A successful run read to the end of the stream, drained the backend,
/// delivered every processed frame to the sink and finished it; its report
/// counts the frames the sink accepted and sums the backend's times. A failed
/// call ends the run with its error under that component's stage. Without
/// outside cancellation, `Cancelled` comes only from exhausting the frame or
/// drain budget of `u64::MAX`.
pub open spec fn run_ended<S: FrameSource, B: AsciiBackend, E: FrameSink>(
    src: Seq<SourceCall<S>>,
    be: Seq<BackendCall<B>>,
    sk: Seq<SinkCall<E>>,
    source: S,
    backend: B,
    sink: E,
    config: AsciiConfig,
    cancellable: bool,
    r: Result<PipelineReport>,
) -> bool {
    &&& source_chain(src, source)
    &&& backend_chain(be, backend, config)
    &&& sink_chain(sk, sink)
    &&& calls_ordered(src, be, sk)
    &&& frames_flow(src, be, sk)
    &&& (r matches Ok(report) ==> {
        &&& src.len() > 0 && (src.last() matches SourceCall::Read(_, _, Ok(None)))
        &&& be.len() > 0 && (be.last() matches BackendCall::Drain(_, _, Ok(None)))
        &&& sk.len() >= 2 && (sk[sk.len() - 2] matches SinkCall::Finish(_, _, Ok(_))) && sk.last() is Timings
        &&& encoded(sk) == produced_frames(be)
        &&& accepted(sk) == encoded(sk).len()
        &&& report.metrics.frames == saturated(accepted(sk))
        &&& backend_totals_match(report.metrics, produced(be))
    })
    &&& (r matches Err(e) ==> run_error(src, be, sk, e))
    &&& (src.len() > 0 ==> (src.last() matches SourceCall::Read(_, _, Err(c))
        ==> r == Err::<PipelineReport, Error>(wrap_spec(PipelineStage::DecodeRuntime, "read decoded frame", c))))
    &&& (be.len() > 0 ==> (be.last() matches BackendCall::Submit(_, _, _, Err(c))
        ==> r == Err::<PipelineReport, Error>(wrap_spec(PipelineStage::ProcessingRuntime, "process video frame", c))))
    &&& (be.len() > 0 ==> (be.last() matches BackendCall::Drain(_, _, Err(c))
        ==> r == Err::<PipelineReport, Error>(wrap_spec(PipelineStage::Drain, "drain processor", c))
            || r == Err::<PipelineReport, Error>(Error::Cancelled)))
    &&& (sk.len() > 0 ==> (sk.last() matches SinkCall::Encode(_, _, _, Err(c))
        ==> r == Err::<PipelineReport, Error>(wrap_spec(PipelineStage::EncodeRuntime, "encode video frame", c))))
    &&& (sk.len() > 0 ==> (sk.last() matches SinkCall::Finish(_, _, Err(c))
        ==> r == Err::<PipelineReport, Error>(wrap_spec(PipelineStage::Finalization, "finalize encoder and muxer", c))))
    &&& (!cancellable && r == Err::<PipelineReport, Error>(Error::Cancelled) ==> reads(src) >= u64::MAX || drains(be) >= u64::MAX)
}

/// Adding a source call made on the current source keeps the chain.
proof fn lemma_source_push<S: FrameSource>(calls: Seq<SourceCall<S>>, start: S, c: SourceCall<S>)
    requires
        source_chain(calls, start),
        c.before() == source_end(calls, start),
    ensures
        source_chain(calls.push(c), start),
        source_end(calls.push(c), start) == c.after(),
        decoded(calls.push(c)) == (match c { SourceCall::Read(_, _, Ok(Some(f))) => decoded(calls).push(f), _ => decoded(calls) }),
        reads(calls.push(c)) == reads(calls) + (if c is Read { 1nat } else { 0nat }),
        calls.push(c).last() == c,
{
    assert(calls.push(c).drop_last() =~= calls);
}

proof fn lemma_backend_push<B: AsciiBackend>(calls: Seq<BackendCall<B>>, start: B, config: AsciiConfig, c: BackendCall<B>)
    requires
        backend_chain(calls, start, config),
        c.before() == backend_end(calls, start),
    ensures
        backend_chain(calls.push(c), start, config),
        backend_end(calls.push(c), start) == c.after(),
        submitted(calls.push(c)) == (match c { BackendCall::Submit(_, _, f, _) => submitted(calls).push(f), _ => submitted(calls) }),
        produced(calls.push(c)) == (match c.output() { Some(o) => produced(calls).push(o), None => produced(calls) }),
        produced_frames(calls.push(c)) == (match c.output() { Some(o) => produced_frames(calls).push(o.frame), None => produced_frames(calls) }),
        drains(calls.push(c)) == drains(calls) + (if c is Drain { 1nat } else { 0nat }),
        calls.push(c).last() == c,
{
    assert(calls.push(c).drop_last() =~= calls);
    match c.output() {
        Some(o) => { assert(produced_frames(calls.push(c)) =~= produced_frames(calls).push(o.frame)); },
        None => {},
    }
}

proof fn lemma_sink_push<E: FrameSink>(calls: Seq<SinkCall<E>>, start: E, c: SinkCall<E>)
    requires
        sink_chain(calls, start),
        c.before() == sink_end(calls, start),
    ensures
        sink_chain(calls.push(c), start),
        sink_end(calls.push(c), start) == c.after(),
        encoded(calls.push(c)) == (match c { SinkCall::Encode(_, _, f, _) => encoded(calls).push(f), _ => encoded(calls) }),
        accepted(calls.push(c)) == accepted(calls) + (if c matches SinkCall::Encode(_, _, _, Ok(_)) { 1nat } else { 0nat }),
        calls.push(c).last() == c,
{
    assert(calls.push(c).drop_last() =~= calls);
}

/// Adding a source call that was made keeps every recorded call made.
proof fn lemma_source_made_push<S: FrameSource>(calls: Seq<SourceCall<S>>, c: SourceCall<S>)
    requires
        (forall|i: int| 0 <= i < calls.len() ==> (match #[trigger] calls[i] { SourceCall::Read(b, a, answer) => exists|m: &mut S| *m == b && *final(m) == a && #[trigger] call_ensures(S::next_frame, (m,), answer), SourceCall::Timings(b, a, answer) => exists|m: &mut S| *m == b && *final(m) == a && #[trigger] call_ensures(S::take_timings, (m,), answer) })),
        (match c { SourceCall::Read(b, a, answer) => exists|m: &mut S| *m == b && *final(m) == a && #[trigger] call_ensures(S::next_frame, (m,), answer), SourceCall::Timings(b, a, answer) => exists|m: &mut S| *m == b && *final(m) == a && #[trigger] call_ensures(S::take_timings, (m,), answer) }),
    ensures
        (forall|i: int| 0 <= i < calls.push(c).len() ==> (match #[trigger] calls.push(c)[i] { SourceCall::Read(b, a, answer) => exists|m: &mut S| *m == b && *final(m) == a && #[trigger] call_ensures(S::next_frame, (m,), answer), SourceCall::Timings(b, a, answer) => exists|m: &mut S| *m == b && *final(m) == a && #[trigger] call_ensures(S::take_timings, (m,), answer) })),
{
    assert forall|i: int| 0 <= i < calls.push(c).len() implies (match #[trigger] calls.push(c)[i] { SourceCall::Read(b, a, answer) => exists|m: &mut S| *m == b && *final(m) == a && #[trigger] call_ensures(S::next_frame, (m,), answer), SourceCall::Timings(b, a, answer) => exists|m: &mut S| *m == b && *final(m) == a && #[trigger] call_ensures(S::take_timings, (m,), answer) }) by {
        if i < calls.len() {
            assert(calls.push(c)[i] == calls[i]);
        }
    }
}

proof fn lemma_backend_made_push<B: AsciiBackend>(calls: Seq<BackendCall<B>>, config: AsciiConfig, c: BackendCall<B>)
    requires
        (forall|i: int| 0 <= i < calls.len() ==> (match #[trigger] calls[i] { BackendCall::Submit(b, a, f, answer) => exists|m: &mut B| *m == b && *final(m) == a && #[trigger] call_ensures(B::submit, (m, f, &config), answer), BackendCall::Drain(b, a, answer) => exists|m: &mut B| *m == b && *final(m) == a && #[trigger] call_ensures(B::drain, (m,), answer) })),
        (match c { BackendCall::Submit(b, a, f, answer) => exists|m: &mut B| *m == b && *final(m) == a && #[trigger] call_ensures(B::submit, (m, f, &config), answer), BackendCall::Drain(b, a, answer) => exists|m: &mut B| *m == b && *final(m) == a && #[trigger] call_ensures(B::drain, (m,), answer) }),
    ensures
        (forall|i: int| 0 <= i < calls.push(c).len() ==> (match #[trigger] calls.push(c)[i] { BackendCall::Submit(b, a, f, answer) => exists|m: &mut B| *m == b && *final(m) == a && #[trigger] call_ensures(B::submit, (m, f, &config), answer), BackendCall::Drain(b, a, answer) => exists|m: &mut B| *m == b && *final(m) == a && #[trigger] call_ensures(B::drain, (m,), answer) })),
{
    assert forall|i: int| 0 <= i < calls.push(c).len() implies (match #[trigger] calls.push(c)[i] { BackendCall::Submit(b, a, f, answer) => exists|m: &mut B| *m == b && *final(m) == a && #[trigger] call_ensures(B::submit, (m, f, &config), answer), BackendCall::Drain(b, a, answer) => exists|m: &mut B| *m == b && *final(m) == a && #[trigger] call_ensures(B::drain, (m,), answer) }) by {
        if i < calls.len() {
            assert(calls.push(c)[i] == calls[i]);
        }
    }
}

proof fn lemma_sink_made_push<E: FrameSink>(calls: Seq<SinkCall<E>>, c: SinkCall<E>)
    requires
        (forall|i: int| 0 <= i < calls.len() ==> (match #[trigger] calls[i] { SinkCall::Encode(b, a, f, answer) => exists|m: &mut E| *m == b && *final(m) == a && #[trigger] call_ensures(E::encode, (m, f), answer), SinkCall::Timings(b, a, answer) => exists|m: &mut E| *m == b && *final(m) == a && #[trigger] call_ensures(E::take_timings, (m,), answer), SinkCall::Finish(b, a, answer) => exists|m: &mut E| *m == b && *final(m) == a && #[trigger] call_ensures(E::finish, (m,), answer) })),
        (match c { SinkCall::Encode(b, a, f, answer) => exists|m: &mut E| *m == b && *final(m) == a && #[trigger] call_ensures(E::encode, (m, f), answer), SinkCall::Timings(b, a, answer) => exists|m: &mut E| *m == b && *final(m) == a && #[trigger] call_ensures(E::take_timings, (m,), answer), SinkCall::Finish(b, a, answer) => exists|m: &mut E| *m == b && *final(m) == a && #[trigger] call_ensures(E::finish, (m,), answer) }),
    ensures
        (forall|i: int| 0 <= i < calls.push(c).len() ==> (match #[trigger] calls.push(c)[i] { SinkCall::Encode(b, a, f, answer) => exists|m: &mut E| *m == b && *final(m) == a && #[trigger] call_ensures(E::encode, (m, f), answer), SinkCall::Timings(b, a, answer) => exists|m: &mut E| *m == b && *final(m) == a && #[trigger] call_ensures(E::take_timings, (m,), answer), SinkCall::Finish(b, a, answer) => exists|m: &mut E| *m == b && *final(m) == a && #[trigger] call_ensures(E::finish, (m,), answer) })),
{
    assert forall|i: int| 0 <= i < calls.push(c).len() implies (match #[trigger] calls.push(c)[i] { SinkCall::Encode(b, a, f, answer) => exists|m: &mut E| *m == b && *final(m) == a && #[trigger] call_ensures(E::encode, (m, f), answer), SinkCall::Timings(b, a, answer) => exists|m: &mut E| *m == b && *final(m) == a && #[trigger] call_ensures(E::take_timings, (m,), answer), SinkCall::Finish(b, a, answer) => exists|m: &mut E| *m == b && *final(m) == a && #[trigger] call_ensures(E::finish, (m,), answer) }) by {
        if i < calls.len() {
            assert(calls.push(c)[i] == calls[i]);
        }
    }
}

/// The backend totals after one more processed frame.
proof fn lemma_backend_total_push(outputs: Seq<BackendOutput>, o: BackendOutput)
    ensures
        forall|s: MetricStage| #[trigger] backend_total(outputs.push(o), s)
            == saturating_sum(backend_total(outputs, s), backend_stage_time(o.timings, s)),
{
    assert(outputs.push(o).drop_last() =~= outputs);
}

/// One more accepted frame in a saturating count.
proof fn lemma_saturated_step(n: nat)
    ensures
        saturated(n + 1) == completed_count(saturated(n)),
{
}

/// Runs a stream through a backend.
pub struct Pipeline {
    capacity: usize,
}

/// What a completed run measured.
#[derive(Debug)]
pub struct PipelineReport {
    pub metrics: MetricsSnapshot,
}

/// The time a backend reports for a stage it measures, zero for the others.
pub open spec fn backend_stage_time(t: BackendTimings, stage: MetricStage) -> u128 {
    match stage {
        MetricStage::Mapping => t.mapping,
        MetricStage::Render => t.render,
        MetricStage::HostUpload => t.host_upload,
        MetricStage::QueueSubmit => t.queue_submit,
        MetricStage::GpuUpload => t.gpu_upload,
        MetricStage::DrmPrimeMap => t.drm_prime_map,
        MetricStage::ExternalCapabilityQuery => t.external_capability_query,
        MetricStage::ExternalImageCreate => t.external_image_create,
        MetricStage::ExternalMemoryImport => t.external_memory_import,
        MetricStage::ExternalMemoryBind => t.external_memory_bind,
        MetricStage::ExternalOwnership => t.external_ownership,
        MetricStage::ExternalImageDestroy => t.external_image_destroy,
        MetricStage::GpuExternalCopy => t.gpu_external_copy,
        MetricStage::GpuMapping => t.gpu_mapping,
        MetricStage::GpuRender => t.gpu_render,
        MetricStage::GpuDownload => t.gpu_download,
        MetricStage::GpuBusy => t.gpu_busy,
        MetricStage::GpuWait => t.gpu_wait,
        MetricStage::HostReadback => t.host_readback,
        MetricStage::HostInvalidate => t.host_invalidate,
        MetricStage::BackendWall => t.backend_wall,
        _ => 0,
    }
}

/// Adds a backend's per-frame timings to the run's totals.
fn record_backend_timings(metrics: &mut Metrics, t: &BackendTimings)
    ensures
        forall|s: MetricStage| #[trigger] stage_total(final(metrics).view_snapshot(), s)
            == saturating_sum(stage_total(old(metrics).view_snapshot(), s), backend_stage_time(*t, s)),
        final(metrics).view_snapshot().frames == old(metrics).view_snapshot().frames,
        final(metrics).view_snapshot().total == old(metrics).view_snapshot().total,
{
    let ghost m0 = metrics.view_snapshot();
    metrics.record(MetricStage::Mapping, t.mapping);
    let ghost m1 = metrics.view_snapshot();
    metrics.record(MetricStage::Render, t.render);
    let ghost m2 = metrics.view_snapshot();
    metrics.record(MetricStage::HostUpload, t.host_upload);
    let ghost m3 = metrics.view_snapshot();
    metrics.record(MetricStage::QueueSubmit, t.queue_submit);
    let ghost m4 = metrics.view_snapshot();
    metrics.record(MetricStage::GpuUpload, t.gpu_upload);
    let ghost m5 = metrics.view_snapshot();
    metrics.record(MetricStage::DrmPrimeMap, t.drm_prime_map);
    let ghost m6 = metrics.view_snapshot();
    metrics.record(MetricStage::ExternalCapabilityQuery, t.external_capability_query);
    let ghost m7 = metrics.view_snapshot();
    metrics.record(MetricStage::ExternalImageCreate, t.external_image_create);
    let ghost m8 = metrics.view_snapshot();
    metrics.record(MetricStage::ExternalMemoryImport, t.external_memory_import);
    let ghost m9 = metrics.view_snapshot();
    metrics.record(MetricStage::ExternalMemoryBind, t.external_memory_bind);
    let ghost m10 = metrics.view_snapshot();
    metrics.record(MetricStage::ExternalOwnership, t.external_ownership);
    let ghost m11 = metrics.view_snapshot();
    metrics.record(MetricStage::ExternalImageDestroy, t.external_image_destroy);
    let ghost m12 = metrics.view_snapshot();
    metrics.record(MetricStage::GpuExternalCopy, t.gpu_external_copy);
    let ghost m13 = metrics.view_snapshot();
    metrics.record(MetricStage::GpuMapping, t.gpu_mapping);
    let ghost m14 = metrics.view_snapshot();
    metrics.record(MetricStage::GpuRender, t.gpu_render);
    let ghost m15 = metrics.view_snapshot();
    metrics.record(MetricStage::GpuDownload, t.gpu_download);
    let ghost m16 = metrics.view_snapshot();
    metrics.record(MetricStage::GpuBusy, t.gpu_busy);
    let ghost m17 = metrics.view_snapshot();
    metrics.record(MetricStage::GpuWait, t.gpu_wait);
    let ghost m18 = metrics.view_snapshot();
    metrics.record(MetricStage::HostReadback, t.host_readback);
    let ghost m19 = metrics.view_snapshot();
    metrics.record(MetricStage::HostInvalidate, t.host_invalidate);
    let ghost m20 = metrics.view_snapshot();
    metrics.record(MetricStage::BackendWall, t.backend_wall);
    assert forall|s: MetricStage| #[trigger] stage_total(metrics.view_snapshot(), s)
        == saturating_sum(stage_total(old(metrics).view_snapshot(), s), backend_stage_time(*t, s)) by {
        match s {
            MetricStage::Mapping => {},
            MetricStage::Render => {},
            MetricStage::HostUpload => {},
            MetricStage::QueueSubmit => {},
            MetricStage::GpuUpload => {},
            MetricStage::DrmPrimeMap => {},
            MetricStage::ExternalCapabilityQuery => {},
            MetricStage::ExternalImageCreate => {},
            MetricStage::ExternalMemoryImport => {},
            MetricStage::ExternalMemoryBind => {},
            MetricStage::ExternalOwnership => {},
            MetricStage::ExternalImageDestroy => {},
            MetricStage::GpuExternalCopy => {},
            MetricStage::GpuMapping => {},
            MetricStage::GpuRender => {},
            MetricStage::GpuDownload => {},
            MetricStage::GpuBusy => {},
            MetricStage::GpuWait => {},
            MetricStage::HostReadback => {},
            MetricStage::HostInvalidate => {},
            MetricStage::BackendWall => {},
            _ => {},
        }
    }
}

/// Adds a clock-timed stage's time; the frame count, the wall time and the
/// backend-timed totals are unchanged.
fn record_clock(metrics: &mut Metrics, stage: MetricStage, elapsed: u128)
    requires
        clock_stage(stage),
    ensures
        final(metrics).view_snapshot().frames == old(metrics).view_snapshot().frames,
        final(metrics).view_snapshot().total == old(metrics).view_snapshot().total,
        forall|s: MetricStage| !clock_stage(s) ==> #[trigger] stage_total(final(metrics).view_snapshot(), s)
            == stage_total(old(metrics).view_snapshot(), s),
{
    metrics.record(stage, elapsed);
}

/// The sink's `encode` call `c` of `frame`, and what became of its answer:
/// the same success, or its error attributed to the encode stage.
pub open spec fn encode_answer<E>(c: SinkCall<E>, frame: VideoFrame, r: Result<()>) -> bool {
    match c {
        SinkCall::Encode(_, _, f, raw) => {
            &&& f == frame
            &&& (raw is Ok <==> r is Ok)
            &&& match raw {
                Err(cause) => r == Err::<(), Error>(wrap_spec(PipelineStage::EncodeRuntime, "encode video frame", cause)),
                Ok(_) => true,
            }
        },
        _ => false,
    }
}

/// The frame count after one more completed frame (saturating).
pub open spec fn completed_count(frames: u64) -> u64 {
    if frames == u64::MAX { u64::MAX } else { (frames + 1) as u64 }
}

/// Hands a processed frame to the sink and records its timings. `calls` are
/// the sink's calls so far from `start`; the result carries them with the
/// `encode` call and, when it succeeded, the `take_timings` call after it.
fn encode_output<E: FrameSink>(
    sink: &mut E,
    output: BackendOutput,
    started_at: Instant,
    metrics: &mut Metrics,
    calls: Ghost<Seq<SinkCall<E>>>,
    start: Ghost<E>,
) -> (r: (Result<()>, Ghost<Seq<SinkCall<E>>>))
    requires
        sink_chain(calls@, start@),
        sink_end(calls@, start@) == *old(sink),
        (forall|i: int| 0 <= i < calls@.len() ==> (match #[trigger] calls@[i] { SinkCall::Encode(b, a, f, answer) => exists|m: &mut E| *m == b && *final(m) == a && #[trigger] call_ensures(E::encode, (m, f), answer), SinkCall::Timings(b, a, answer) => exists|m: &mut E| *m == b && *final(m) == a && #[trigger] call_ensures(E::take_timings, (m,), answer), SinkCall::Finish(b, a, answer) => exists|m: &mut E| *m == b && *final(m) == a && #[trigger] call_ensures(E::finish, (m,), answer) })),
    ensures
        (forall|i: int| 0 <= i < r.1@.len() ==> (match #[trigger] r.1@[i] { SinkCall::Encode(b, a, f, answer) => exists|m: &mut E| *m == b && *final(m) == a && #[trigger] call_ensures(E::encode, (m, f), answer), SinkCall::Timings(b, a, answer) => exists|m: &mut E| *m == b && *final(m) == a && #[trigger] call_ensures(E::take_timings, (m,), answer), SinkCall::Finish(b, a, answer) => exists|m: &mut E| *m == b && *final(m) == a && #[trigger] call_ensures(E::finish, (m,), answer) })),
        r.0 matches Err(e) ==> stage_of(e) is Some,
        sink_chain(r.1@, start@),
        sink_end(r.1@, start@) == *final(sink),
        r.1@.len() == calls@.len() + (if r.0 is Ok { 2int } else { 1int }),
        r.1@.subrange(0, calls@.len() as int) == calls@,
        encode_answer(r.1@[calls@.len() as int], output.frame, r.0),
        r.0 is Ok ==> r.1@.last() is Timings,
        encoded(r.1@) == encoded(calls@).push(output.frame),
        accepted(r.1@) == accepted(calls@) + (if r.0 is Ok { 1nat } else { 0nat }),
        final(metrics).view_snapshot().frames == (if r.0 is Ok {
            completed_count(old(metrics).view_snapshot().frames)
        } else {
            old(metrics).view_snapshot().frames
        }),
        final(metrics).view_snapshot().total == old(metrics).view_snapshot().total,
        forall|s: MetricStage| !clock_stage(s) ==> #[trigger] stage_total(final(metrics).view_snapshot(), s)
            == saturating_sum(stage_total(old(metrics).view_snapshot(), s), backend_stage_time(output.timings, s)),
{
    record_backend_timings(metrics, &output.timings);
    let begin = now();
    let ghost frame = output.frame;
    let ghost before = *sink;
    let raw = sink.encode(output.frame);
    let ghost mut trace = calls@;
    proof {
        let c = SinkCall::Encode(before, *sink, frame, raw);
        assert(c.before() == before && c.after() == *sink && c->Encode_2 == frame && c->Encode_3 == raw);
        assert((match c { SinkCall::Encode(b, a, f, answer) => exists|m: &mut E| *m == b && *final(m) == a && #[trigger] call_ensures(E::encode, (m, f), answer), SinkCall::Timings(b, a, answer) => exists|m: &mut E| *m == b && *final(m) == a && #[trigger] call_ensures(E::take_timings, (m,), answer), SinkCall::Finish(b, a, answer) => exists|m: &mut E| *m == b && *final(m) == a && #[trigger] call_ensures(E::finish, (m,), answer) }));
        lemma_sink_push(trace, start@, c);
        lemma_sink_made_push(trace, c);
        trace = trace.push(c);
        assert(trace.subrange(0, calls@.len() as int) =~= calls@);
    }
    match raw {
        Ok(()) => {},
        Err(error) => {
            let ghost cause = error;
            let staged = Error::pipeline(PipelineStage::EncodeRuntime, "encode video frame", error);
            assert(staged == wrap_spec(PipelineStage::EncodeRuntime, "encode video frame", cause));
            assert(encode_answer(trace[calls@.len() as int], frame, Err::<(), Error>(staged)));
            return (Err(staged), Ghost(trace));
        },
    }
    let ghost m1 = metrics.view_snapshot();
    metrics.record(MetricStage::Encode, elapsed_nanos(&begin));
    let ghost m2 = metrics.view_snapshot();
    let ghost mid = *sink;
    let timings = sink.take_timings();
    proof {
        let c = SinkCall::Timings(mid, *sink, timings);
        assert(c.before() == mid && c.after() == *sink && c->Timings_2 == timings);
        assert((match c { SinkCall::Encode(b, a, f, answer) => exists|m: &mut E| *m == b && *final(m) == a && #[trigger] call_ensures(E::encode, (m, f), answer), SinkCall::Timings(b, a, answer) => exists|m: &mut E| *m == b && *final(m) == a && #[trigger] call_ensures(E::take_timings, (m,), answer), SinkCall::Finish(b, a, answer) => exists|m: &mut E| *m == b && *final(m) == a && #[trigger] call_ensures(E::finish, (m,), answer) }));
        lemma_sink_push(trace, start@, c);
        lemma_sink_made_push(trace, c);
        assert(trace.push(c)[calls@.len() as int] == trace[calls@.len() as int]);
        trace = trace.push(c);
        assert(trace.subrange(0, calls@.len() as int) =~= calls@);
    }
    metrics.record(MetricStage::HardwareUpload, timings.hardware_upload);
    let ghost m3 = metrics.view_snapshot();
    metrics.record(MetricStage::EncodeSubmitReceive, timings.submit_receive);
    let ghost m4 = metrics.view_snapshot();
    metrics.record(MetricStage::PipelineLatency, elapsed_nanos(&started_at));
    let ghost m5 = metrics.view_snapshot();
    metrics.frame_completed();
    proof {
        assert forall|s: MetricStage| !clock_stage(s) implies #[trigger] stage_total(metrics.view_snapshot(), s)
            == stage_total(m1, s) by {
            assert(stage_total(m2, s) == stage_total(m1, s));
            assert(stage_total(m3, s) == stage_total(m2, s));
            assert(stage_total(m4, s) == stage_total(m3, s));
            assert(stage_total(m5, s) == stage_total(m4, s));
        }
    }
    (Ok(()), Ghost(trace))
}

/// Keeps the first failure of a run and requests cancellation of the rest;
/// a later failure never replaces an earlier one.
pub fn record_failure(first_failure: &mut Option<Error>, cancellation: &CancellationToken, error: Error)
    ensures
        *final(first_failure) == (if (*old(first_failure)) is None { Some(error) } else { *old(first_failure) }),
{
    if first_failure.is_none() {
        *first_failure = Some(error);
    }
    cancellation.cancel();
}

/// Takes the recorded failure, leaving none.
pub fn take_failure(first_failure: &mut Option<Error>) -> (r: Option<Error>)
    ensures
        r == *old(first_failure),
        *final(first_failure) is None,
{
    first_failure.take()
}

/// How a run ends: its first failure if it had one, else `Cancelled` if it
/// was cancelled, else a report of what it measured.
pub fn run_outcome(failure: Option<Error>, cancelled: bool, metrics: MetricsSnapshot) -> (r: Result<PipelineReport>)
    ensures
        failure matches Some(e) ==> r == Err::<PipelineReport, Error>(e),
        failure is None && cancelled ==> r == Err::<PipelineReport, Error>(Error::Cancelled),
        failure is None && !cancelled ==> (r matches Ok(report) && report.metrics == metrics),
{
    match failure {
        Some(error) => Err(error),
        None => {
            if cancelled {
                Err(Error::Cancelled)
            } else {
                Ok(PipelineReport { metrics })
            }
        },
    }
}

/// Text of the message for `count` frames a backend kept after its drain ended.
pub open spec fn retained_text(count: nat) -> Seq<char> {
    "backend retained "@ + decimal_text(count) + " frame(s) after drain completed"@
}

/// The message for frames a backend kept after its drain ended.
fn retained_message(count: usize) -> (m: String)
    ensures
        m@ == retained_text(count as nat),
{
    let n = decimal(count as u64);
    let mut m = cat("backend retained ", n.as_str());
    m.append(" frame(s) after drain completed");
    m
}

/// How a drain ends once the backend hands back nothing more: success when
/// every submitted frame came back, else a failure naming how many were kept.
pub fn drain_finished(pending: usize) -> (r: Result<()>)
    ensures
        pending == 0 ==> r is Ok,
        pending > 0 ==> cpu_with(r, retained_text(pending as nat)),
{
    if pending != 0 {
        return Err(Error::Cpu(retained_message(pending)));
    }
    Ok(())
}

/// Whether cancellation was requested; never, without a token.
fn stop_requested(cancellation: Option<&CancellationToken>) -> (b: bool)
    ensures
        cancellation is None ==> !b,
{
    match cancellation {
        Some(token) => token.is_cancelled(),
        None => false,
    }
}

/// Keeps the first failure; with a token, also requests cancellation.
fn fail(first_failure: &mut Option<Error>, cancellation: Option<&CancellationToken>, error: Error)
    ensures
        *final(first_failure) == (if (*old(first_failure)) is None { Some(error) } else { *old(first_failure) }),
{
    match cancellation {
        Some(token) => record_failure(first_failure, token, error),
        None => {
            if first_failure.is_none() {
                *first_failure = Some(error);
            }
        },
    }
}

/// Drains a buffered backend at end of stream, encoding what comes out.
/// The outer error is the drain's own; an inner one is the encoder's.
/// `be` and `sk` are the backend's and sink's calls so far, from `b0` and
/// `e0`; the result carries them with the drains and encodes made here.
fn drain_backend<B: AsciiBackend, E: FrameSink>(
    backend: &mut B,
    sink: &mut E,
    metrics: &mut Metrics,
    pending: &mut VecDeque<Instant>,
    cancellation: Option<&CancellationToken>,
    be: Ghost<Seq<BackendCall<B>>>,
    b0: Ghost<B>,
    sk: Ghost<Seq<SinkCall<E>>>,
    e0: Ghost<E>,
    config: Ghost<AsciiConfig>,
) -> (r: (Result<Result<()>>, Ghost<Seq<BackendCall<B>>>, Ghost<Seq<SinkCall<E>>>))
    requires
        backend_chain(be@, b0@, config@),
        backend_end(be@, b0@) == *old(backend),
        sink_chain(sk@, e0@),
        sink_end(sk@, e0@) == *old(sink),
        (forall|i: int| 0 <= i < be@.len() ==> (match #[trigger] be@[i] { BackendCall::Submit(b, a, f, answer) => exists|m: &mut B| *m == b && *final(m) == a && #[trigger] call_ensures(B::submit, (m, f, &config@), answer), BackendCall::Drain(b, a, answer) => exists|m: &mut B| *m == b && *final(m) == a && #[trigger] call_ensures(B::drain, (m,), answer) })),
        (forall|i: int| 0 <= i < sk@.len() ==> (match #[trigger] sk@[i] { SinkCall::Encode(b, a, f, answer) => exists|m: &mut E| *m == b && *final(m) == a && #[trigger] call_ensures(E::encode, (m, f), answer), SinkCall::Timings(b, a, answer) => exists|m: &mut E| *m == b && *final(m) == a && #[trigger] call_ensures(E::take_timings, (m,), answer), SinkCall::Finish(b, a, answer) => exists|m: &mut E| *m == b && *final(m) == a && #[trigger] call_ensures(E::finish, (m,), answer) })),
        forall|i: int| 0 <= i < be@.len() ==> !backend_stops(#[trigger] be@[i]),
        forall|i: int| 0 <= i < sk@.len() ==> !sink_fails(#[trigger] sk@[i]),
        forall|i: int| 0 <= i < sk@.len() ==> !((#[trigger] sk@[i]) is Finish),
        encoded(sk@) == produced_frames(be@),
        accepted(sk@) == encoded(sk@).len(),
        old(metrics).view_snapshot().frames == saturated(accepted(sk@)),
        backend_totals_match(old(metrics).view_snapshot(), produced(be@)),
    ensures
        backend_chain(r.1@, b0@, config@),
        backend_end(r.1@, b0@) == *final(backend),
        sink_chain(r.2@, e0@),
        sink_end(r.2@, e0@) == *final(sink),
        (forall|i: int| 0 <= i < r.1@.len() ==> (match #[trigger] r.1@[i] { BackendCall::Submit(b, a, f, answer) => exists|m: &mut B| *m == b && *final(m) == a && #[trigger] call_ensures(B::submit, (m, f, &config@), answer), BackendCall::Drain(b, a, answer) => exists|m: &mut B| *m == b && *final(m) == a && #[trigger] call_ensures(B::drain, (m,), answer) })),
        (forall|i: int| 0 <= i < r.2@.len() ==> (match #[trigger] r.2@[i] { SinkCall::Encode(b, a, f, answer) => exists|m: &mut E| *m == b && *final(m) == a && #[trigger] call_ensures(E::encode, (m, f), answer), SinkCall::Timings(b, a, answer) => exists|m: &mut E| *m == b && *final(m) == a && #[trigger] call_ensures(E::take_timings, (m,), answer), SinkCall::Finish(b, a, answer) => exists|m: &mut E| *m == b && *final(m) == a && #[trigger] call_ensures(E::finish, (m,), answer) })),
        r.1@.len() > be@.len(),
        r.1@.subrange(0, be@.len() as int) == be@,
        forall|i: int| be@.len() <= i < r.1@.len() ==> (#[trigger] r.1@[i]) is Drain,
        r.2@.len() >= sk@.len(),
        r.2@.subrange(0, sk@.len() as int) == sk@,
        forall|i: int| sk@.len() <= i < r.2@.len() ==> !((#[trigger] r.2@[i]) is Finish),
        forall|i: int| 0 <= i < r.1@.len() - 1 ==> !backend_stops(#[trigger] r.1@[i]),
        forall|i: int| 0 <= i < r.2@.len() - 1 ==> !sink_fails(#[trigger] r.2@[i]),
        submitted(r.1@) == submitted(be@),
        encoded(r.2@).len() <= produced_frames(r.1@).len() <= encoded(r.2@).len() + 1,
        encoded(r.2@) == produced_frames(r.1@).take(encoded(r.2@).len() as int),
        final(metrics).view_snapshot().frames == saturated(accepted(r.2@)),
        final(metrics).view_snapshot().total == old(metrics).view_snapshot().total,
        r.0 is Ok ==> backend_totals_match(final(metrics).view_snapshot(), produced(r.1@)),
        r.0 matches Ok(Ok(())) ==> (r.1@.last() matches BackendCall::Drain(_, _, Ok(None)))
            && final(pending)@.len() == 0 && encoded(r.2@) == produced_frames(r.1@)
            && accepted(r.2@) == encoded(r.2@).len()
            && (r.2@.len() > 0 ==> !sink_fails(r.2@.last())),
        r.0 matches Ok(Err(e)) ==> stage_of(e) is Some,
        r.0 matches Ok(Err(e)) ==> (r.2@.len() > 0 && encode_answer(r.2@.last(), r.2@.last()->Encode_2, Err::<(), Error>(e)))
            || (e is Cancelled && drains(r.1@) >= u64::MAX && (r.2@.len() > 0 ==> !sink_fails(r.2@.last()))),
        r.0 matches Ok(Err(_)) ==> !backend_stops(r.1@.last()),
        r.0 is Err ==> r.1@.last() is Drain && (r.2@.len() > 0 ==> !sink_fails(r.2@.last())),
        r.0 matches Err(e) ==> (r.1@.last() matches BackendCall::Drain(_, _, Err(c)) ==> e == c),
{
    let ghost n0 = be@.len();
    let ghost m0 = sk@.len();
    let ghost total = metrics.view_snapshot().total;
    let ghost mut btrace: Seq<BackendCall<B>> = be@;
    let ghost mut strace: Seq<SinkCall<E>> = sk@;
    let mut budget: u64 = u64::MAX;
    let mut finished = false;
    assert(btrace.subrange(0, n0 as int) =~= be@);
    assert(strace.subrange(0, m0 as int) =~= sk@);
    while budget > 0
        invariant_except_break
            !finished,
        invariant
            backend_chain(btrace, b0@, config@),
            backend_end(btrace, b0@) == *backend,
            sink_chain(strace, e0@),
            sink_end(strace, e0@) == *sink,
            (forall|i: int| 0 <= i < btrace.len() ==> (match #[trigger] btrace[i] { BackendCall::Submit(b, a, f, answer) => exists|m: &mut B| *m == b && *final(m) == a && #[trigger] call_ensures(B::submit, (m, f, &config@), answer), BackendCall::Drain(b, a, answer) => exists|m: &mut B| *m == b && *final(m) == a && #[trigger] call_ensures(B::drain, (m,), answer) })),
            (forall|i: int| 0 <= i < strace.len() ==> (match #[trigger] strace[i] { SinkCall::Encode(b, a, f, answer) => exists|m: &mut E| *m == b && *final(m) == a && #[trigger] call_ensures(E::encode, (m, f), answer), SinkCall::Timings(b, a, answer) => exists|m: &mut E| *m == b && *final(m) == a && #[trigger] call_ensures(E::take_timings, (m,), answer), SinkCall::Finish(b, a, answer) => exists|m: &mut E| *m == b && *final(m) == a && #[trigger] call_ensures(E::finish, (m,), answer) })),
            n0 == be@.len(),
            m0 == sk@.len(),
            btrace.len() >= n0,
            btrace.subrange(0, n0 as int) == be@,
            forall|i: int| n0 <= i < btrace.len() ==> (#[trigger] btrace[i]) is Drain,
            strace.len() >= m0,
            strace.subrange(0, m0 as int) == sk@,
            forall|i: int| m0 <= i < strace.len() ==> !((#[trigger] strace[i]) is Finish),
            forall|i: int| 0 <= i < btrace.len() - (if finished { 1int } else { 0int }) ==> !backend_stops(#[trigger] btrace[i]),
            forall|i: int| 0 <= i < strace.len() ==> !sink_fails(#[trigger] strace[i]),
            submitted(btrace) == submitted(be@),
            encoded(strace) == produced_frames(btrace),
            accepted(strace) == encoded(strace).len(),
            drains(btrace) == drains(be@) + (u64::MAX - budget),
            metrics.view_snapshot().frames == saturated(accepted(strace)),
            metrics.view_snapshot().total == total,
            total == old(metrics).view_snapshot().total,
            backend_totals_match(metrics.view_snapshot(), produced(btrace)),
            finished ==> btrace.len() > n0 && (btrace.last() matches BackendCall::Drain(_, _, Ok(None))),
            !finished ==> (btrace.len() > n0 || budget == u64::MAX),
        ensures
            finished || budget == 0,
        decreases budget,
    {
        budget = budget - 1;
        let ghost bb = *backend;
        let answer = backend.drain();
        let ghost before_drain = btrace;
        proof {
            let c = BackendCall::Drain(bb, *backend, answer);
            assert(c.before() == bb && c.after() == *backend && c->Drain_2 == answer);
            assert((match c { BackendCall::Submit(b, a, f, answer) => exists|m: &mut B| *m == b && *final(m) == a && #[trigger] call_ensures(B::submit, (m, f, &config@), answer), BackendCall::Drain(b, a, answer) => exists|m: &mut B| *m == b && *final(m) == a && #[trigger] call_ensures(B::drain, (m,), answer) }));
            lemma_backend_push(btrace, b0@, config@, c);
            lemma_backend_made_push(btrace, config@, c);
            btrace = btrace.push(c);
            assert(btrace.subrange(0, n0 as int) =~= be@);
        }
        let drained = match answer {
            Ok(d) => d,
            Err(e) => return (Err(e), Ghost(btrace), Ghost(strace)),
        };
        match drained {
            None => {
                finished = true;
                break;
            },
            Some(output) => {
                let started_at = match pending.pop_front() {
                    Some(s) => s,
                    None => {
                        return (Err(Error::Cpu(String::from_str(
                            "backend drained a frame that was never submitted",
                        ))), Ghost(btrace), Ghost(strace));
                    },
                };
                if stop_requested(cancellation) {
                    return (Err(Error::Cancelled), Ghost(btrace), Ghost(strace));
                }
                let ghost out = output;
                let ghost before_sink = strace;
                let (encoded_result, Ghost(after_sink)) = encode_output(sink, output, started_at, metrics, Ghost(strace), e0);
                proof {
                    lemma_backend_total_push(produced(before_drain), out);
                    if encoded_result is Ok {
                        lemma_saturated_step(accepted(before_sink));
                    }
                    assert forall|i: int| m0 <= i < after_sink.len() implies !((#[trigger] after_sink[i]) is Finish) by {
                        if i < before_sink.len() {
                            assert(after_sink[i] == after_sink.subrange(0, before_sink.len() as int)[i]);
                        }
                    }
                    assert forall|i: int| 0 <= i < after_sink.len() - (if encoded_result is Ok { 0int } else { 1int })
                        implies !sink_fails(#[trigger] after_sink[i]) by {
                        if i < before_sink.len() {
                            assert(after_sink[i] == after_sink.subrange(0, before_sink.len() as int)[i]);
                        }
                    }
                    assert(after_sink.subrange(0, m0 as int) =~= after_sink.subrange(0, before_sink.len() as int).subrange(0, m0 as int));
                    strace = after_sink;
                }
                if encoded_result.is_err() {
                    return (Ok(encoded_result), Ghost(btrace), Ghost(strace));
                }
            },
        }
    }
    if !finished {
        return (Ok(Err(Error::Cancelled)), Ghost(btrace), Ghost(strace));
    }
    match drain_finished(pending.len()) {
        Ok(()) => (Ok(Ok(())), Ghost(btrace), Ghost(strace)),
        Err(e) => (Err(e), Ghost(btrace), Ghost(strace)),
    }
}

impl Pipeline {
    pub closed spec fn capacity_spec(self) -> usize {
        self.capacity
    }

    /// A pipeline with `capacity` frames of buffering between stages.
    pub fn new(capacity: usize) -> (r: Result<Self>)
        ensures
            capacity == 0 ==> invalid_with(r, "pipeline capacity must be non-zero"@),
            capacity != 0 ==> (r matches Ok(p) && p.capacity_spec() == capacity),
    {
        if capacity == 0 {
            proof { reveal_strlit("pipeline capacity must be non-zero"); }
            return Err(Error::InvalidConfig(String::from_str("pipeline capacity must be non-zero")));
        }
        Ok(Pipeline { capacity })
    }

    /// Runs the stream to its end. Nothing outside can cancel this run, so
    /// it ends in `Cancelled` only after `u64::MAX` reads or drains.
    pub fn run<S: FrameSource, B: AsciiBackend, E: FrameSink>(
        &self,
        source: S,
        backend: B,
        sink: E,
        config: AsciiConfig,
    ) -> (r: Result<PipelineReport>)
        ensures
            r matches Err(e) ==> stage_of(e) is Some,
            exists|src: Seq<SourceCall<S>>, be: Seq<BackendCall<B>>, sk: Seq<SinkCall<E>>|
                #[trigger] run_ended(src, be, sk, source, backend, sink, config, false, r)
                && (forall|i: int| 0 <= i < src.len() ==> (match #[trigger] src[i] { SourceCall::Read(b, a, answer) => exists|m: &mut S| *m == b && *final(m) == a && #[trigger] call_ensures(S::next_frame, (m,), answer), SourceCall::Timings(b, a, answer) => exists|m: &mut S| *m == b && *final(m) == a && #[trigger] call_ensures(S::take_timings, (m,), answer) }))
                && (forall|i: int| 0 <= i < be.len() ==> (match #[trigger] be[i] { BackendCall::Submit(b, a, f, answer) => exists|m: &mut B| *m == b && *final(m) == a && #[trigger] call_ensures(B::submit, (m, f, &config), answer), BackendCall::Drain(b, a, answer) => exists|m: &mut B| *m == b && *final(m) == a && #[trigger] call_ensures(B::drain, (m,), answer) }))
                && (forall|i: int| 0 <= i < sk.len() ==> (match #[trigger] sk[i] { SinkCall::Encode(b, a, f, answer) => exists|m: &mut E| *m == b && *final(m) == a && #[trigger] call_ensures(E::encode, (m, f), answer), SinkCall::Timings(b, a, answer) => exists|m: &mut E| *m == b && *final(m) == a && #[trigger] call_ensures(E::take_timings, (m,), answer), SinkCall::Finish(b, a, answer) => exists|m: &mut E| *m == b && *final(m) == a && #[trigger] call_ensures(E::finish, (m,), answer) })),
    {
        self.run_stream(source, backend, sink, config, None)
    }

    /// Runs the stream until its end, the first failure, or cancellation.
    /// The first failure is returned, attributed to the stage that failed;
    /// a run that was cancelled without failing returns `Cancelled`.
    /// Each decoded frame goes to the backend unchanged, each processed frame
    /// goes to the sink as it comes back, and the sink is finished only after
    /// the backend was drained with no failure.
    pub fn run_with_cancellation<S: FrameSource, B: AsciiBackend, E: FrameSink>(
        &self,
        source: S,
        backend: B,
        sink: E,
        config: AsciiConfig,
        cancellation: CancellationToken,
    ) -> (r: Result<PipelineReport>)
        ensures
            r matches Err(e) ==> stage_of(e) is Some,
            exists|src: Seq<SourceCall<S>>, be: Seq<BackendCall<B>>, sk: Seq<SinkCall<E>>|
                #[trigger] run_ended(src, be, sk, source, backend, sink, config, true, r)
                && (forall|i: int| 0 <= i < src.len() ==> (match #[trigger] src[i] { SourceCall::Read(b, a, answer) => exists|m: &mut S| *m == b && *final(m) == a && #[trigger] call_ensures(S::next_frame, (m,), answer), SourceCall::Timings(b, a, answer) => exists|m: &mut S| *m == b && *final(m) == a && #[trigger] call_ensures(S::take_timings, (m,), answer) }))
                && (forall|i: int| 0 <= i < be.len() ==> (match #[trigger] be[i] { BackendCall::Submit(b, a, f, answer) => exists|m: &mut B| *m == b && *final(m) == a && #[trigger] call_ensures(B::submit, (m, f, &config), answer), BackendCall::Drain(b, a, answer) => exists|m: &mut B| *m == b && *final(m) == a && #[trigger] call_ensures(B::drain, (m,), answer) }))
                && (forall|i: int| 0 <= i < sk.len() ==> (match #[trigger] sk[i] { SinkCall::Encode(b, a, f, answer) => exists|m: &mut E| *m == b && *final(m) == a && #[trigger] call_ensures(E::encode, (m, f), answer), SinkCall::Timings(b, a, answer) => exists|m: &mut E| *m == b && *final(m) == a && #[trigger] call_ensures(E::take_timings, (m,), answer), SinkCall::Finish(b, a, answer) => exists|m: &mut E| *m == b && *final(m) == a && #[trigger] call_ensures(E::finish, (m,), answer) })),
    {
        self.run_stream(source, backend, sink, config, Some(&cancellation))
    }

    /// The run, watching `cancellation` when there is one.
    fn run_stream<S: FrameSource, B: AsciiBackend, E: FrameSink>(
        &self,
        source: S,
        backend: B,
        sink: E,
        config: AsciiConfig,
        cancellation: Option<&CancellationToken>,
    ) -> (r: Result<PipelineReport>)
        ensures
            r matches Err(e) ==> stage_of(e) is Some,
            exists|src: Seq<SourceCall<S>>, be: Seq<BackendCall<B>>, sk: Seq<SinkCall<E>>|
                #[trigger] run_ended(src, be, sk, source, backend, sink, config, cancellation is Some, r)
                && (forall|i: int| 0 <= i < src.len() ==> (match #[trigger] src[i] { SourceCall::Read(b, a, answer) => exists|m: &mut S| *m == b && *final(m) == a && #[trigger] call_ensures(S::next_frame, (m,), answer), SourceCall::Timings(b, a, answer) => exists|m: &mut S| *m == b && *final(m) == a && #[trigger] call_ensures(S::take_timings, (m,), answer) }))
                && (forall|i: int| 0 <= i < be.len() ==> (match #[trigger] be[i] { BackendCall::Submit(b, a, f, answer) => exists|m: &mut B| *m == b && *final(m) == a && #[trigger] call_ensures(B::submit, (m, f, &config), answer), BackendCall::Drain(b, a, answer) => exists|m: &mut B| *m == b && *final(m) == a && #[trigger] call_ensures(B::drain, (m,), answer) }))
                && (forall|i: int| 0 <= i < sk.len() ==> (match #[trigger] sk[i] { SinkCall::Encode(b, a, f, answer) => exists|m: &mut E| *m == b && *final(m) == a && #[trigger] call_ensures(E::encode, (m, f), answer), SinkCall::Timings(b, a, answer) => exists|m: &mut E| *m == b && *final(m) == a && #[trigger] call_ensures(E::take_timings, (m,), answer), SinkCall::Finish(b, a, answer) => exists|m: &mut E| *m == b && *final(m) == a && #[trigger] call_ensures(E::finish, (m,), answer) })),
    {
        let ghost s0 = source;
        let ghost b0 = backend;
        let ghost e0 = sink;
        let mut source = source;
        let mut backend = backend;
        let mut sink = sink;
        let started = now();
        let mut metrics = Metrics::default();
        let mut pending: VecDeque<Instant> = VecDeque::new();
        let mut failure: Option<Error> = None;
        let mut end_of_stream = false;
        let ghost mut src: Seq<SourceCall<S>> = Seq::empty();
        let ghost mut be: Seq<BackendCall<B>> = Seq::empty();
        let ghost mut sk: Seq<SinkCall<E>> = Seq::empty();
        proof {
            assert(produced_frames(be) =~= Seq::<VideoFrame>::empty());
            assert forall|s: MetricStage| !clock_stage(s) implies
                #[trigger] stage_total(metrics.view_snapshot(), s) == backend_total(produced(be), s) by {}
        }
        // A run handles at most `u64::MAX` frames.
        let mut budget: u64 = u64::MAX;
        while budget > 0 && !stop_requested(cancellation)
            invariant_except_break
                failure is None,
                !end_of_stream,
                src.len() == 0 || src.last() is Timings,
                be.len() == 0 || (be.last() matches BackendCall::Submit(_, _, _, Ok(_))),
                sk.len() == 0 || sk.last() is Timings,
            invariant
                failure matches Some(e) ==> stage_of(e) is Some,
                source_chain(src, s0),
                source_end(src, s0) == source,
                backend_chain(be, b0, config),
                backend_end(be, b0) == backend,
                sink_chain(sk, e0),
                sink_end(sk, e0) == sink,
                (forall|i: int| 0 <= i < src.len() ==> (match #[trigger] src[i] { SourceCall::Read(b, a, answer) => exists|m: &mut S| *m == b && *final(m) == a && #[trigger] call_ensures(S::next_frame, (m,), answer), SourceCall::Timings(b, a, answer) => exists|m: &mut S| *m == b && *final(m) == a && #[trigger] call_ensures(S::take_timings, (m,), answer) })),
                (forall|i: int| 0 <= i < be.len() ==> (match #[trigger] be[i] { BackendCall::Submit(b, a, f, answer) => exists|m: &mut B| *m == b && *final(m) == a && #[trigger] call_ensures(B::submit, (m, f, &config), answer), BackendCall::Drain(b, a, answer) => exists|m: &mut B| *m == b && *final(m) == a && #[trigger] call_ensures(B::drain, (m,), answer) })),
                (forall|i: int| 0 <= i < sk.len() ==> (match #[trigger] sk[i] { SinkCall::Encode(b, a, f, answer) => exists|m: &mut E| *m == b && *final(m) == a && #[trigger] call_ensures(E::encode, (m, f), answer), SinkCall::Timings(b, a, answer) => exists|m: &mut E| *m == b && *final(m) == a && #[trigger] call_ensures(E::take_timings, (m,), answer), SinkCall::Finish(b, a, answer) => exists|m: &mut E| *m == b && *final(m) == a && #[trigger] call_ensures(E::finish, (m,), answer) })),
                forall|i: int| 0 <= i < src.len() - 1 ==> !source_stops(#[trigger] src[i]),
                forall|i: int| 0 <= i < be.len() - 1 ==> !backend_stops(#[trigger] be[i]),
                forall|i: int| 0 <= i < sk.len() - 1 ==> !sink_fails(#[trigger] sk[i]),
                forall|i: int| 0 <= i < be.len() ==> !((#[trigger] be[i]) is Drain),
                forall|i: int| 0 <= i < sk.len() ==> !((#[trigger] sk[i]) is Finish),
                submitted(be) == decoded(src),
                encoded(sk) == produced_frames(be),
                (sk.len() == 0 || !sink_fails(sk.last())) ==> accepted(sk) == encoded(sk).len(),
                reads(src) == u64::MAX - budget,
                metrics.view_snapshot().frames == saturated(accepted(sk)),
                backend_totals_match(metrics.view_snapshot(), produced(be)),
                end_of_stream ==> failure is None && src.len() > 0 && (src.last() matches SourceCall::Read(_, _, Ok(None)))
                    && (be.len() == 0 || !backend_stops(be.last())) && (sk.len() == 0 || !sink_fails(sk.last())),
                failure is None ==> (src.len() == 0 || !(src.last() matches SourceCall::Read(_, _, Err(_))))
                    && (be.len() == 0 || !backend_stops(be.last())) && (sk.len() == 0 || !sink_fails(sk.last())),
                failure is None && !end_of_stream ==> src.len() == 0 || !source_stops(src.last()),
                failure matches Some(e) ==> {
                    ||| (src.len() > 0 && (src.last() matches SourceCall::Read(_, _, Err(c))
                        && e == wrap_spec(PipelineStage::DecodeRuntime, "read decoded frame", c))
                        && (be.len() == 0 || !backend_stops(be.last())) && (sk.len() == 0 || !sink_fails(sk.last())))
                    ||| (be.len() > 0 && (be.last() matches BackendCall::Submit(_, _, _, Err(c))
                        && e == wrap_spec(PipelineStage::ProcessingRuntime, "process video frame", c))
                        && !source_stops(src.last()) && (sk.len() == 0 || !sink_fails(sk.last())))
                    ||| (sk.len() > 0 && (sk.last() matches SinkCall::Encode(_, _, _, Err(c))
                        && e == wrap_spec(PipelineStage::EncodeRuntime, "encode video frame", c))
                        && !source_stops(src.last()) && !backend_stops(be.last()))
                },
            ensures
                cancellation is None && failure is None && !end_of_stream ==> budget == 0,
            decreases budget,
        {
            budget = budget - 1;
            let begin = now();
            let ghost be_head = be;
            let ghost sb = source;
            let next = source.next_frame();
            proof {
                let c = SourceCall::Read(sb, source, next);
                assert(c.before() == sb && c.after() == source && c->Read_2 == next);
                assert((match c { SourceCall::Read(b, a, answer) => exists|m: &mut S| *m == b && *final(m) == a && #[trigger] call_ensures(S::next_frame, (m,), answer), SourceCall::Timings(b, a, answer) => exists|m: &mut S| *m == b && *final(m) == a && #[trigger] call_ensures(S::take_timings, (m,), answer) }));
                lemma_source_push(src, s0, c);
                lemma_source_made_push(src, c);
                src = src.push(c);
            }
            match next {
                Ok(Some(frame)) => {
                    let ghost ma = metrics.view_snapshot();
                    record_clock(&mut metrics, MetricStage::Decode, elapsed_nanos(&begin));
                    let ghost mb = metrics.view_snapshot();
                    let ghost st = source;
                    let timings = source.take_timings();
                    proof {
                        let c = SourceCall::Timings(st, source, timings);
                        assert(c.before() == st && c.after() == source && c->Timings_2 == timings);
                        assert((match c { SourceCall::Read(b, a, answer) => exists|m: &mut S| *m == b && *final(m) == a && #[trigger] call_ensures(S::next_frame, (m,), answer), SourceCall::Timings(b, a, answer) => exists|m: &mut S| *m == b && *final(m) == a && #[trigger] call_ensures(S::take_timings, (m,), answer) }));
                        lemma_source_push(src, s0, c);
                        lemma_source_made_push(src, c);
                        src = src.push(c);
                    }
                    record_clock(&mut metrics, MetricStage::DecodePacketSubmit, timings.packet_submit);
                    let ghost mc = metrics.view_snapshot();
                    record_clock(&mut metrics, MetricStage::DecodeFrameReceive, timings.frame_receive);
                    let ghost md = metrics.view_snapshot();
                    record_clock(&mut metrics, MetricStage::HardwareDownload, timings.hardware_download);
                    proof {
                        assert forall|s: MetricStage| !clock_stage(s) implies
                            #[trigger] stage_total(metrics.view_snapshot(), s) == stage_total(ma, s) by {
                            assert(stage_total(mb, s) == stage_total(ma, s));
                            assert(stage_total(mc, s) == stage_total(mb, s));
                            assert(stage_total(md, s) == stage_total(mc, s));
                        }
                    }
                    pending.push_back(begin);
                    let ghost f = frame;
                    let ghost bb = backend;
                    let submitted_result = backend.submit(frame, &config);
                    proof {
                        let c = BackendCall::Submit(bb, backend, f, submitted_result);
                        assert(c.before() == bb && c.after() == backend && c->Submit_2 == f && c->Submit_3 == submitted_result);
                        assert((match c { BackendCall::Submit(b, a, f, answer) => exists|m: &mut B| *m == b && *final(m) == a && #[trigger] call_ensures(B::submit, (m, f, &config), answer), BackendCall::Drain(b, a, answer) => exists|m: &mut B| *m == b && *final(m) == a && #[trigger] call_ensures(B::drain, (m,), answer) }));
                        lemma_backend_push(be, b0, config, c);
                        lemma_backend_made_push(be, config, c);
                        be = be.push(c);
                    }
                    match submitted_result {
                        Ok(Some(output)) => {
                            let started_at = match pending.pop_front() {
                                Some(s) => s,
                                None => begin,
                            };
                            let ghost out = output;
                            let ghost before_sink = sk;
                            let ghost before_produced = produced(be_head);
                            let ghost pre = metrics.view_snapshot();
                            let (encoded_result, Ghost(after_sink)) =
                                encode_output(&mut sink, output, started_at, &mut metrics, Ghost(sk), Ghost(e0));
                            proof {
                                assert(produced(be) == before_produced.push(out));
                                lemma_backend_total_push(before_produced, out);
                                if encoded_result is Ok {
                                    lemma_saturated_step(accepted(before_sink));
                                }
                                assert forall|i: int| 0 <= i < after_sink.len() implies !((#[trigger] after_sink[i]) is Finish) by {
                                    if i < before_sink.len() {
                                        assert(after_sink[i] == after_sink.subrange(0, before_sink.len() as int)[i]);
                                    }
                                }
                                assert forall|i: int| 0 <= i < after_sink.len() - 1 implies !sink_fails(#[trigger] after_sink[i]) by {
                                    if i < before_sink.len() {
                                        assert(after_sink[i] == after_sink.subrange(0, before_sink.len() as int)[i]);
                                    }
                                }
                                sk = after_sink;
                                assert forall|s: MetricStage| !clock_stage(s) implies
                                    #[trigger] stage_total(metrics.view_snapshot(), s) == backend_total(produced(be), s) by {
                                    assert(stage_total(pre, s) == stage_total(ma, s));
                                    assert(stage_total(ma, s) == backend_total(produced(be_head), s));
                                    assert(backend_total(before_produced.push(out), s)
                                        == saturating_sum(backend_total(before_produced, s), backend_stage_time(out.timings, s)));
                                }
                            }
                            if let Err(e) = encoded_result {
                                fail(&mut failure, cancellation, e);
                                break;
                            }
                        },
                        Ok(None) => {},
                        Err(error) => {
                            fail(&mut failure, cancellation, Error::pipeline(
                                PipelineStage::ProcessingRuntime,
                                "process video frame",
                                error,
                            ));
                            break;
                        },
                    }
                },
                Ok(None) => {
                    end_of_stream = true;
                    break;
                },
                Err(error) => {
                    fail(&mut failure, cancellation,
                        Error::pipeline(PipelineStage::DecodeRuntime, "read decoded frame", error));
                    break;
                },
            }
        }
        proof {
            assert(produced_frames(be).take(encoded(sk).len() as int) =~= produced_frames(be));
        }
        let mut drained = false;
        if failure.is_none() && end_of_stream && !stop_requested(cancellation) {
            let ghost be_before = be;
            let ghost sk_before = sk;
            let (outcome, Ghost(be_after), Ghost(sk_after)) = drain_backend(
                &mut backend, &mut sink, &mut metrics, &mut pending, cancellation,
                Ghost(be), Ghost(b0), Ghost(sk), Ghost(e0), Ghost(config),
            );
            proof {
                assert forall|i: int| 0 <= i < be_after.len() && (#[trigger] be_after[i]) is Drain
                    implies src.len() > 0 && (src.last() matches SourceCall::Read(_, _, Ok(None))) by {
                    if i < be_before.len() {
                        assert(be_after[i] == be_after.subrange(0, be_before.len() as int)[i]);
                    }
                }
                assert forall|i: int| 0 <= i < sk_after.len() implies !((#[trigger] sk_after[i]) is Finish) by {
                    if i < sk_before.len() {
                        assert(sk_after[i] == sk_after.subrange(0, sk_before.len() as int)[i]);
                    }
                }
                be = be_after;
                sk = sk_after;
            }
            match outcome {
                Ok(Ok(())) => {
                    drained = true;
                },
                Ok(Err(e)) => fail(&mut failure, cancellation, e),
                Err(error) => {
                    if !stop_requested(cancellation) {
                        fail(&mut failure, cancellation,
                            Error::pipeline(PipelineStage::Drain, "drain processor", error));
                    }
                },
            }
        }
        let mut completed = false;
        if failure.is_none() && drained && !stop_requested(cancellation) {
            let begin = now();
            let ghost m0 = metrics.view_snapshot();
            let ghost eb = sink;
            let finish_result = sink.finish();
            proof {
                let c = SinkCall::Finish(eb, sink, finish_result);
                assert(c.before() == eb && c.after() == sink && c->Finish_2 == finish_result);
                assert((match c { SinkCall::Encode(b, a, f, answer) => exists|m: &mut E| *m == b && *final(m) == a && #[trigger] call_ensures(E::encode, (m, f), answer), SinkCall::Timings(b, a, answer) => exists|m: &mut E| *m == b && *final(m) == a && #[trigger] call_ensures(E::take_timings, (m,), answer), SinkCall::Finish(b, a, answer) => exists|m: &mut E| *m == b && *final(m) == a && #[trigger] call_ensures(E::finish, (m,), answer) }));
                lemma_sink_push(sk, e0, c);
                lemma_sink_made_push(sk, c);
                sk = sk.push(c);
            }
            record_clock(&mut metrics, MetricStage::Encode, elapsed_nanos(&begin));
            let ghost m1 = metrics.view_snapshot();
            match finish_result {
                Err(error) => {
                    fail(&mut failure, cancellation, Error::pipeline(
                        PipelineStage::Finalization,
                        "finalize encoder and muxer",
                        error,
                    ));
                },
                Ok(()) => {
                    let ghost et = sink;
                    let timings = sink.take_timings();
                    proof {
                        let c = SinkCall::Timings(et, sink, timings);
                        assert(c.before() == et && c.after() == sink && c->Timings_2 == timings);
                        assert((match c { SinkCall::Encode(b, a, f, answer) => exists|m: &mut E| *m == b && *final(m) == a && #[trigger] call_ensures(E::encode, (m, f), answer), SinkCall::Timings(b, a, answer) => exists|m: &mut E| *m == b && *final(m) == a && #[trigger] call_ensures(E::take_timings, (m,), answer), SinkCall::Finish(b, a, answer) => exists|m: &mut E| *m == b && *final(m) == a && #[trigger] call_ensures(E::finish, (m,), answer) }));
                        lemma_sink_push(sk, e0, c);
                        lemma_sink_made_push(sk, c);
                        sk = sk.push(c);
                    }
                    record_clock(&mut metrics, MetricStage::HardwareUpload, timings.hardware_upload);
                    let ghost m2 = metrics.view_snapshot();
                    record_clock(&mut metrics, MetricStage::EncodeSubmitReceive, timings.submit_receive);
                    completed = true;
                    assert forall|s: MetricStage| !clock_stage(s) implies
                        #[trigger] stage_total(metrics.view_snapshot(), s) == backend_total(produced(be), s) by {
                        assert(stage_total(m0, s) == backend_total(produced(be), s));
                        assert(stage_total(m1, s) == stage_total(m0, s));
                        assert(stage_total(m2, s) == stage_total(m1, s));
                    }
                },
            }
        }
        let ghost before_total = metrics.view_snapshot();
        metrics.set_total(elapsed_nanos(&started));
        assert forall|s: MetricStage| #[trigger] stage_total(metrics.view_snapshot(), s) == stage_total(before_total, s) by {}
        let first_failure = take_failure(&mut failure);
        // A run that neither failed nor completed stopped because it was cancelled.
        let cancelled = first_failure.is_none() && (!completed || stop_requested(cancellation));
        let r = run_outcome(first_failure, cancelled, metrics.snapshot());
        proof {
            assert(run_ended(src, be, sk, s0, b0, e0, config, cancellation is Some, r));
            assert((forall|i: int| 0 <= i < src.len() ==> (match #[trigger] src[i] { SourceCall::Read(b, a, answer) => exists|m: &mut S| *m == b && *final(m) == a && #[trigger] call_ensures(S::next_frame, (m,), answer), SourceCall::Timings(b, a, answer) => exists|m: &mut S| *m == b && *final(m) == a && #[trigger] call_ensures(S::take_timings, (m,), answer) })));
            assert((forall|i: int| 0 <= i < be.len() ==> (match #[trigger] be[i] { BackendCall::Submit(b, a, f, answer) => exists|m: &mut B| *m == b && *final(m) == a && #[trigger] call_ensures(B::submit, (m, f, &config), answer), BackendCall::Drain(b, a, answer) => exists|m: &mut B| *m == b && *final(m) == a && #[trigger] call_ensures(B::drain, (m,), answer) })));
            assert((forall|i: int| 0 <= i < sk.len() ==> (match #[trigger] sk[i] { SinkCall::Encode(b, a, f, answer) => exists|m: &mut E| *m == b && *final(m) == a && #[trigger] call_ensures(E::encode, (m, f), answer), SinkCall::Timings(b, a, answer) => exists|m: &mut E| *m == b && *final(m) == a && #[trigger] call_ensures(E::take_timings, (m,), answer), SinkCall::Finish(b, a, answer) => exists|m: &mut E| *m == b && *final(m) == a && #[trigger] call_ensures(E::finish, (m,), answer) })));
        }
        r
    }
}

} // verus!
