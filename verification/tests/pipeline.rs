use asciiflow::backend::{AsciiBackend, BackendOutput, BackendTimings, FrameSink, FrameSource};
use asciiflow::cancellation::CancellationToken;
use asciiflow::config::AsciiConfig;
use asciiflow::error::{Error, PipelineStage, Result};
use asciiflow::frame::{ColorSpace, FrameDesc, HostFrame, VideoFrame};
use asciiflow::metrics::Metrics;
use asciiflow::pipeline::{drain_finished, record_failure, run_outcome, take_failure, Pipeline};
use std::collections::VecDeque;
use std::sync::atomic::{AtomicBool, Ordering};
use std::sync::{Arc, Mutex};

const MS: u128 = 1_000_000;

struct Source {
    next: i64,
    end: i64,
}

impl FrameSource for Source {
    fn next_frame(&mut self) -> Result<Option<VideoFrame>> {
        if self.next == self.end {
            return Ok(None);
        }
        let desc = FrameDesc::host_nv12(2, 2, ColorSpace::default())?;
        let frame = VideoFrame::new_host(desc.clone(), Some(self.next), HostFrame::new_zeroed(&desc))?;
        self.next += 1;
        Ok(Some(frame))
    }
}

struct Backend;

impl AsciiBackend for Backend {
    fn process(&mut self, frame: VideoFrame, _: &AsciiConfig) -> Result<BackendOutput> {
        Ok(BackendOutput {
            frame,
            timings: BackendTimings {
                mapping: MS,
                render: 2 * MS,
                host_upload: 3 * MS,
                queue_submit: 4 * MS,
                gpu_upload: 5 * MS,
                gpu_mapping: 6 * MS,
                gpu_render: 7 * MS,
                gpu_download: 8 * MS,
                gpu_busy: 13 * MS,
                gpu_wait: 9 * MS,
                host_invalidate: 12 * MS,
                host_readback: 10 * MS,
                backend_wall: 11 * MS,
                ..BackendTimings::default()
            },
        })
    }
}

struct Sink(Arc<Mutex<Vec<i64>>>);

impl FrameSink for Sink {
    fn encode(&mut self, frame: VideoFrame) -> Result<()> {
        self.0.lock().unwrap().push(frame.pts().unwrap());
        Ok(())
    }

    fn finish(&mut self) -> Result<()> {
        Ok(())
    }
}

#[derive(Default)]
struct BufferedBackend {
    pending: VecDeque<BackendOutput>,
}

impl AsciiBackend for BufferedBackend {
    fn process(&mut self, _: VideoFrame, _: &AsciiConfig) -> Result<BackendOutput> {
        Err(Error::Cpu("buffered backend requires submit/drain".into()))
    }

    fn submit(&mut self, frame: VideoFrame, _: &AsciiConfig) -> Result<Option<BackendOutput>> {
        let completed = if self.pending.len() == 2 { self.pending.pop_front() } else { None };
        self.pending.push_back(BackendOutput { frame, timings: BackendTimings::default() });
        Ok(completed)
    }

    fn drain(&mut self) -> Result<Option<BackendOutput>> {
        Ok(self.pending.pop_front())
    }
}

#[test]
fn preserves_order_and_completes() {
    let seen = Arc::new(Mutex::new(Vec::new()));
    let report = Pipeline::new(3)
        .unwrap()
        .run(Source { next: 0, end: 8 }, Backend, Sink(seen.clone()), AsciiConfig::default())
        .unwrap();
    assert_eq!(*seen.lock().unwrap(), (0..8).collect::<Vec<_>>());
    assert_eq!(report.metrics.frames, 8);
    assert_eq!(report.metrics.mapping, 8 * MS);
    assert_eq!(report.metrics.render, 16 * MS);
    assert_eq!(report.metrics.host_upload, 24 * MS);
    assert_eq!(report.metrics.queue_submit, 32 * MS);
    assert_eq!(report.metrics.gpu_upload, 40 * MS);
    assert_eq!(report.metrics.gpu_mapping, 48 * MS);
    assert_eq!(report.metrics.gpu_render, 56 * MS);
    assert_eq!(report.metrics.gpu_download, 64 * MS);
    assert_eq!(report.metrics.gpu_busy, 104 * MS);
    assert_eq!(report.metrics.gpu_wait, 72 * MS);
    assert_eq!(report.metrics.host_readback, 80 * MS);
    assert_eq!(report.metrics.host_invalidate, 96 * MS);
    assert_eq!(report.metrics.backend_wall, 88 * MS);
}

#[test]
fn drains_buffered_backend_in_submission_order() {
    let seen = Arc::new(Mutex::new(Vec::new()));
    let report = Pipeline::new(3)
        .unwrap()
        .run(Source { next: 0, end: 8 }, BufferedBackend::default(), Sink(seen.clone()), AsciiConfig::default())
        .unwrap();
    assert_eq!(*seen.lock().unwrap(), (0..8).collect::<Vec<_>>());
    assert_eq!(report.metrics.frames, 8);
}

#[test]
fn buffered_contract_handles_zero_one_two_frames_and_repeated_drain() {
    let config = AsciiConfig::default();
    let mut backend = BufferedBackend::default();
    assert!(backend.drain().unwrap().is_none());
    assert!(backend.drain().unwrap().is_none());
    let mut source = Source { next: 0, end: 2 };
    let first = source.next_frame().unwrap().unwrap();
    let second = source.next_frame().unwrap().unwrap();
    assert!(backend.submit(first, &config).unwrap().is_none());
    assert!(backend.submit(second, &config).unwrap().is_none());
    assert_eq!(backend.drain().unwrap().unwrap().frame.pts(), Some(0));
    assert_eq!(backend.drain().unwrap().unwrap().frame.pts(), Some(1));
    assert!(backend.drain().unwrap().is_none());
    assert!(backend.drain().unwrap().is_none());
}

struct DrainFailBackend;

impl AsciiBackend for DrainFailBackend {
    fn process(&mut self, _: VideoFrame, _: &AsciiConfig) -> Result<BackendOutput> {
        unreachable!()
    }

    fn submit(&mut self, _: VideoFrame, _: &AsciiConfig) -> Result<Option<BackendOutput>> {
        Ok(None)
    }

    fn drain(&mut self) -> Result<Option<BackendOutput>> {
        Err(Error::Cpu("injected drain failure".into()))
    }
}

#[test]
fn drain_failure_is_reported() {
    let seen = Arc::new(Mutex::new(Vec::new()));
    let result = Pipeline::new(1).unwrap().run(Source { next: 0, end: 1 }, DrainFailBackend, Sink(seen), AsciiConfig::default());
    assert!(matches!(result, Err(Error::Pipeline { stage: PipelineStage::Drain, .. })));
}

struct TrackedBufferedBackend {
    inner: BufferedBackend,
    dropped: Arc<AtomicBool>,
}

impl AsciiBackend for TrackedBufferedBackend {
    fn process(&mut self, _: VideoFrame, _: &AsciiConfig) -> Result<BackendOutput> {
        unreachable!()
    }

    fn submit(&mut self, frame: VideoFrame, config: &AsciiConfig) -> Result<Option<BackendOutput>> {
        self.inner.submit(frame, config)
    }

    fn drain(&mut self) -> Result<Option<BackendOutput>> {
        self.inner.drain()
    }
}

impl Drop for TrackedBufferedBackend {
    fn drop(&mut self) {
        self.dropped.store(true, Ordering::Release);
    }
}

struct FailingSink;

impl FrameSink for FailingSink {
    fn encode(&mut self, _: VideoFrame) -> Result<()> {
        Err(Error::Cpu("injected encoder failure".into()))
    }

    fn finish(&mut self) -> Result<()> {
        panic!("finish must not run after encoder failure")
    }
}

#[test]
fn encoder_failure_drops_backend_with_pending_frames() {
    let dropped = Arc::new(AtomicBool::new(false));
    let result = Pipeline::new(3).unwrap().run(
        Source { next: 0, end: 100 },
        TrackedBufferedBackend { inner: BufferedBackend::default(), dropped: dropped.clone() },
        FailingSink,
        AsciiConfig::default(),
    );
    assert!(matches!(result, Err(Error::Pipeline { stage: PipelineStage::EncodeRuntime, .. })));
    assert!(dropped.load(Ordering::Acquire));
}

struct FailingBackend;

impl AsciiBackend for FailingBackend {
    fn process(&mut self, _: VideoFrame, _: &AsciiConfig) -> Result<BackendOutput> {
        Err(Error::Cpu("injected".into()))
    }
}

#[test]
fn stage_failure_cancels_without_deadlock() {
    let seen = Arc::new(Mutex::new(Vec::new()));
    let result = Pipeline::new(1).unwrap().run(Source { next: 0, end: 100 }, FailingBackend, Sink(seen), AsciiConfig::default());
    assert!(matches!(result, Err(Error::Pipeline { stage: PipelineStage::ProcessingRuntime, .. })));
}

#[test]
fn zero_short_and_odd_frame_counts_drain_without_loss_or_reordering() {
    for count in [0, 1, 2, 3, 5, 49, 301] {
        let seen = Arc::new(Mutex::new(Vec::new()));
        let report = Pipeline::new(3)
            .unwrap()
            .run(Source { next: 0, end: count }, BufferedBackend::default(), Sink(seen.clone()), AsciiConfig::default())
            .unwrap();
        assert_eq!(*seen.lock().unwrap(), (0..count).collect::<Vec<_>>());
        assert_eq!(report.metrics.frames, count as u64);
    }
}

#[test]
fn original_processing_failure_is_not_replaced_by_shutdown_noise() {
    struct RootFailure;
    impl AsciiBackend for RootFailure {
        fn process(&mut self, _: VideoFrame, _: &AsciiConfig) -> Result<BackendOutput> {
            Err(Error::DeviceLost("injected VK_ERROR_DEVICE_LOST".into()))
        }
    }

    let error = Pipeline::new(1)
        .unwrap()
        .run(Source { next: 0, end: 100 }, RootFailure, Sink(Arc::new(Mutex::new(Vec::new()))), AsciiConfig::default())
        .unwrap_err();
    let Error::Pipeline { stage, error } = error else { panic!("expected a structured pipeline error") };
    assert_eq!(stage, PipelineStage::ProcessingRuntime);
    assert!(matches!(error.source_error(), Error::DeviceLost(_)));
}

#[test]
fn injected_interop_and_vulkan_runtime_failures_are_terminal_and_keep_context() {
    #[derive(Clone, Copy)]
    enum Fault {
        InputImport,
        Submit,
        Wait,
        DeviceLost,
        OutputImport,
    }
    struct RuntimeFaultBackend(Fault);
    impl AsciiBackend for RuntimeFaultBackend {
        fn process(&mut self, _: VideoFrame, _: &AsciiConfig) -> Result<BackendOutput> {
            Err(match self.0 {
                Fault::InputImport => Error::pipeline_message(
                    PipelineStage::InputInteropRuntime,
                    "import input DMA-BUF",
                    "injected external import failure after several frames".into(),
                ),
                Fault::Submit => Error::pipeline_message(
                    PipelineStage::ProcessingRuntime,
                    "submit Vulkan command buffer",
                    "injected VK_ERROR_OUT_OF_DEVICE_MEMORY".into(),
                ),
                Fault::Wait => Error::pipeline_message(
                    PipelineStage::ProcessingRuntime,
                    "wait for Vulkan fence",
                    "injected fence wait failure".into(),
                ),
                Fault::DeviceLost => Error::DeviceLost("injected VK_ERROR_DEVICE_LOST".into()),
                Fault::OutputImport => Error::pipeline_message(
                    PipelineStage::OutputInteropRuntime,
                    "import encoder DMA-BUF",
                    "injected VK_ERROR_INVALID_EXTERNAL_HANDLE".into(),
                ),
            })
        }
    }

    let cases = [
        (Fault::InputImport, PipelineStage::InputInteropRuntime),
        (Fault::Submit, PipelineStage::ProcessingRuntime),
        (Fault::Wait, PipelineStage::ProcessingRuntime),
        (Fault::DeviceLost, PipelineStage::ProcessingRuntime),
        (Fault::OutputImport, PipelineStage::OutputInteropRuntime),
    ];
    for (fault, expected_stage) in cases {
        let error = Pipeline::new(1)
            .unwrap()
            .run(Source { next: 0, end: 10 }, RuntimeFaultBackend(fault), Sink(Arc::new(Mutex::new(Vec::new()))), AsciiConfig::default())
            .unwrap_err();
        assert_eq!(error.stage(), Some(expected_stage));
        assert!(error.to_string().contains("injected"));
    }
}

struct IndexedFailSource {
    next: i64,
    end: i64,
    fail_at: i64,
}

impl FrameSource for IndexedFailSource {
    fn next_frame(&mut self) -> Result<Option<VideoFrame>> {
        if self.next == self.fail_at {
            return Err(Error::Media(format!("injected decoder failure at frame {}", self.next)));
        }
        if self.next == self.end {
            return Ok(None);
        }
        let desc = FrameDesc::host_nv12(2, 2, ColorSpace::default())?;
        let frame = VideoFrame::new_host(desc.clone(), Some(self.next), HostFrame::new_zeroed(&desc))?;
        self.next += 1;
        Ok(Some(frame))
    }
}

#[test]
fn decoder_runtime_failures_are_structured_at_early_middle_and_near_eof() {
    for fail_at in [1, 50, 99] {
        let error = Pipeline::new(3)
            .unwrap()
            .run(
                IndexedFailSource { next: 0, end: 100, fail_at },
                Backend,
                Sink(Arc::new(Mutex::new(Vec::new()))),
                AsciiConfig::default(),
            )
            .unwrap_err();
        assert_eq!(error.stage(), Some(PipelineStage::DecodeRuntime));
        assert!(error.to_string().contains(&format!("frame {fail_at}")));
    }
}

struct IndexedFailSink {
    next: usize,
    fail_at: Option<usize>,
    fail_finish: bool,
}

impl FrameSink for IndexedFailSink {
    fn encode(&mut self, _: VideoFrame) -> Result<()> {
        if self.fail_at == Some(self.next) {
            return Err(Error::Media(format!("injected encoder send/receive failure at frame {}", self.next)));
        }
        self.next += 1;
        Ok(())
    }

    fn finish(&mut self) -> Result<()> {
        if self.fail_finish {
            Err(Error::Media("injected encoder drain/trailer failure".into()))
        } else {
            Ok(())
        }
    }
}

#[test]
fn encoder_runtime_and_finalization_failures_keep_their_stage() {
    for fail_at in [0, 25, 49] {
        let error = Pipeline::new(3)
            .unwrap()
            .run(
                Source { next: 0, end: 50 },
                Backend,
                IndexedFailSink { next: 0, fail_at: Some(fail_at), fail_finish: false },
                AsciiConfig::default(),
            )
            .unwrap_err();
        assert_eq!(error.stage(), Some(PipelineStage::EncodeRuntime));
    }
    let error = Pipeline::new(3)
        .unwrap()
        .run(
            Source { next: 0, end: 3 },
            Backend,
            IndexedFailSink { next: 0, fail_at: None, fail_finish: true },
            AsciiConfig::default(),
        )
        .unwrap_err();
    assert_eq!(error.stage(), Some(PipelineStage::Finalization));
    assert!(error.to_string().contains("drain/trailer"));
}

#[test]
fn native_mux_failure_is_not_relabelled_as_encoder_failure() {
    struct MuxFailSink;
    impl FrameSink for MuxFailSink {
        fn encode(&mut self, _: VideoFrame) -> Result<()> {
            Err(Error::pipeline_message(
                PipelineStage::MuxRuntime,
                "write encoded packet",
                "injected av_interleaved_write_frame failure".into(),
            ))
        }
        fn finish(&mut self) -> Result<()> {
            unreachable!()
        }
    }

    let error = Pipeline::new(1)
        .unwrap()
        .run(Source { next: 0, end: 1 }, Backend, MuxFailSink, AsciiConfig::default())
        .unwrap_err();
    assert_eq!(error.stage(), Some(PipelineStage::MuxRuntime));
    assert!(error.to_string().contains("av_interleaved_write_frame"));
}

#[test]
fn unusual_timestamps_do_not_panic_overflow_or_reorder() {
    struct TimestampSource(VecDeque<Option<i64>>);
    impl FrameSource for TimestampSource {
        fn next_frame(&mut self) -> Result<Option<VideoFrame>> {
            let Some(pts) = self.0.pop_front() else {
                return Ok(None);
            };
            let desc = FrameDesc::host_nv12(2, 2, ColorSpace::default())?;
            VideoFrame::new_host(desc.clone(), pts, HostFrame::new_zeroed(&desc)).map(Some)
        }
    }
    struct TimestampSink(Arc<Mutex<Vec<Option<i64>>>>);
    impl FrameSink for TimestampSink {
        fn encode(&mut self, frame: VideoFrame) -> Result<()> {
            self.0.lock().unwrap().push(frame.pts());
            Ok(())
        }
        fn finish(&mut self) -> Result<()> {
            Ok(())
        }
    }

    let timestamps = vec![Some(-9_000), Some(0), Some(0), None, Some(7), Some(i64::MAX - 1)];
    let seen = Arc::new(Mutex::new(Vec::new()));
    Pipeline::new(2)
        .unwrap()
        .run(
            TimestampSource(timestamps.clone().into()),
            BufferedBackend::default(),
            TimestampSink(seen.clone()),
            AsciiConfig::default(),
        )
        .unwrap();
    assert_eq!(*seen.lock().unwrap(), timestamps);
}

#[test]
fn cancellation_during_drain_is_terminal() {
    struct CancellingDrainBackend(CancellationToken);
    impl AsciiBackend for CancellingDrainBackend {
        fn process(&mut self, _: VideoFrame, _: &AsciiConfig) -> Result<BackendOutput> {
            unreachable!()
        }
        fn submit(&mut self, _: VideoFrame, _: &AsciiConfig) -> Result<Option<BackendOutput>> {
            Ok(None)
        }
        fn drain(&mut self) -> Result<Option<BackendOutput>> {
            self.0.cancel();
            Err(Error::Cancelled)
        }
    }

    let token = CancellationToken::new();
    let result = Pipeline::new(1).unwrap().run_with_cancellation(
        Source { next: 0, end: 1 },
        CancellingDrainBackend(token.clone()),
        Sink(Arc::new(Mutex::new(Vec::new()))),
        AsciiConfig::default(),
        token,
    );
    assert!(matches!(result, Err(Error::Cancelled)));
}

#[test]
fn zero_capacity_is_rejected() {
    let Err(error) = Pipeline::new(0) else { panic!("zero capacity must be rejected") };
    assert_eq!(error.to_string(), "invalid configuration: pipeline capacity must be non-zero");
}

#[test]
fn first_recorded_failure_wins() {
    let token = CancellationToken::new();
    let mut first = None;
    record_failure(&mut first, &token, Error::Cpu("root cause".into()));
    record_failure(&mut first, &token, Error::Cancelled);
    assert!(token.is_cancelled());
    let taken = take_failure(&mut first).unwrap();
    assert_eq!(taken.to_string(), "CPU backend failed: root cause");
    assert!(first.is_none());
}

#[test]
fn run_outcome_prefers_the_first_failure_over_cancellation() {
    let snapshot = Metrics::default().snapshot();
    let outcome = run_outcome(Some(Error::Cpu("render".to_string())), true, snapshot);
    assert!(matches!(outcome, Err(Error::Cpu(ref m)) if m == "render"));
}

#[test]
fn run_outcome_reports_cancellation_without_failure() {
    let snapshot = Metrics::default().snapshot();
    assert!(matches!(run_outcome(None, true, snapshot), Err(Error::Cancelled)));
}

#[test]
fn run_outcome_returns_the_measured_report() {
    let mut metrics = Metrics::default();
    metrics.frame_completed();
    metrics.set_total(7 * MS);
    let snapshot = metrics.snapshot();
    let report = run_outcome(None, false, snapshot).expect("completed run");
    assert_eq!(report.metrics, snapshot);
}

#[test]
fn drain_finishes_only_when_nothing_is_pending() {
    assert!(drain_finished(0).is_ok());
    match drain_finished(2) {
        Err(Error::Cpu(message)) => assert_eq!(message, "backend retained 2 frame(s) after drain completed"),
        other => panic!("unexpected drain outcome: {other:?}"),
    }
}

#[test]
fn default_backend_methods_forward_without_buffering() {
    let desc = FrameDesc::host_nv12(2, 2, ColorSpace::default()).unwrap();
    let frame = VideoFrame::new_host(desc.clone(), Some(4), HostFrame::new_zeroed(&desc)).unwrap();
    let mut backend = Backend;
    let output = backend.submit(frame, &AsciiConfig::default()).unwrap().expect("frame comes straight back");
    assert_eq!(output.frame.pts(), Some(4));
    assert_eq!(output.timings.mapping, MS);
    assert!(backend.drain().unwrap().is_none());
}

#[test]
fn default_source_and_sink_methods_measure_nothing() {
    let mut source = Source { next: 0, end: 0 };
    assert!(source.finish().is_ok());
    let timings = source.take_timings();
    assert_eq!((timings.packet_submit, timings.frame_receive, timings.hardware_download), (0, 0, 0));
    let mut sink = Sink(Arc::new(Mutex::new(Vec::new())));
    let timings = sink.take_timings();
    assert_eq!((timings.hardware_upload, timings.submit_receive, timings.audio_packets), (0, 0, 0));
}

#[test]
fn cancellation_before_first_frame_joins_every_stage() {
    struct CancelSource(CancellationToken);
    impl FrameSource for CancelSource {
        fn next_frame(&mut self) -> Result<Option<VideoFrame>> {
            self.0.cancel();
            Ok(None)
        }
    }

    let cancellation = CancellationToken::new();
    let result = Pipeline::new(1).unwrap().run_with_cancellation(
        CancelSource(cancellation.clone()),
        Backend,
        Sink(Arc::new(Mutex::new(Vec::new()))),
        AsciiConfig::default(),
        cancellation,
    );
    assert!(matches!(result, Err(Error::Cancelled)));
}

#[test]
fn cancellation_drops_one_or_two_buffered_slots_without_drain() {
    struct CancellingSource {
        inner: Source,
        cancel_at: i64,
        token: CancellationToken,
    }
    impl FrameSource for CancellingSource {
        fn next_frame(&mut self) -> Result<Option<VideoFrame>> {
            if self.inner.next == self.cancel_at {
                self.token.cancel();
                return Ok(None);
            }
            self.inner.next_frame()
        }
    }

    for pending in [1, 2] {
        let token = CancellationToken::new();
        let dropped = Arc::new(AtomicBool::new(false));
        let result = Pipeline::new(3).unwrap().run_with_cancellation(
            CancellingSource {
                inner: Source { next: 0, end: 20 },
                cancel_at: pending,
                token: token.clone(),
            },
            TrackedBufferedBackend {
                inner: BufferedBackend::default(),
                dropped: dropped.clone(),
            },
            IndexedFailSink {
                next: 0,
                fail_at: None,
                fail_finish: false,
            },
            AsciiConfig::default(),
            token,
        );
        assert!(matches!(result, Err(Error::Cancelled)));
        assert!(dropped.load(Ordering::Acquire));
    }
}
