//! Backend, source and sink interfaces, with the per-frame timings they
//! report. Durations are nanoseconds.

use vstd::prelude::*;
use crate::config::AsciiConfig;
use crate::error::Result;
use crate::frame::VideoFrame;

verus! {

/// Decoder-side scopes of the last frame.
#[derive(Clone, Copy, Debug, PartialEq, Eq, Structural)]
pub struct SourceTimings {
    pub packet_submit: u128,
    pub frame_receive: u128,
    pub hardware_download: u128,
}

impl Default for SourceTimings {
    fn default() -> (t: Self)
        ensures
            t == (SourceTimings { packet_submit: 0, frame_receive: 0, hardware_download: 0 }),
    {
        SourceTimings { packet_submit: 0, frame_receive: 0, hardware_download: 0 }
    }
}

/// Directly observed encoder/mux scopes; zero unless characterization is built in.
#[derive(Clone, Copy, Debug, PartialEq, Eq, Structural)]
pub struct EncodeDiagnostics {
    pub send_wall: u128,
    pub receive_wall: u128,
    pub drain_wall: u128,
    pub mux_video_write_wall: u128,
    pub mux_interleave_flush_wall: u128,
    pub mux_trailer_wall: u128,
    pub mux_queue_send_wall: u128,
    pub send_eagain: u64,
    pub receive_eagain: u64,
    pub max_send_retries: u32,
    pub submitted_frames: u64,
    pub received_packets: u64,
    pub received_packet_bytes: u64,
    /// `submitted_frames - received_packets`, not the encoder's internal queue depth.
    pub peak_frame_packet_delta: u64,
}

pub open spec fn zero_diagnostics() -> EncodeDiagnostics {
    EncodeDiagnostics {
        send_wall: 0,
        receive_wall: 0,
        drain_wall: 0,
        mux_video_write_wall: 0,
        mux_interleave_flush_wall: 0,
        mux_trailer_wall: 0,
        mux_queue_send_wall: 0,
        send_eagain: 0,
        receive_eagain: 0,
        submitted_frames: 0,
        received_packets: 0,
        received_packet_bytes: 0,
        max_send_retries: 0,
        peak_frame_packet_delta: 0,
    }
}

impl Default for EncodeDiagnostics {
    fn default() -> (d: Self)
        ensures
            d == zero_diagnostics(),
    {
        EncodeDiagnostics {
            send_wall: 0,
            receive_wall: 0,
            drain_wall: 0,
            mux_video_write_wall: 0,
            mux_interleave_flush_wall: 0,
            mux_trailer_wall: 0,
            mux_queue_send_wall: 0,
            send_eagain: 0,
            receive_eagain: 0,
            submitted_frames: 0,
            received_packets: 0,
            received_packet_bytes: 0,
            max_send_retries: 0,
            peak_frame_packet_delta: 0,
        }
    }
}

/// Every sum of `accumulate` fits its field.
pub open spec fn accumulate_fits(a: EncodeDiagnostics, b: EncodeDiagnostics) -> bool {
    a.send_wall + b.send_wall <= u128::MAX
        && a.receive_wall + b.receive_wall <= u128::MAX
        && a.drain_wall + b.drain_wall <= u128::MAX
        && a.mux_video_write_wall + b.mux_video_write_wall <= u128::MAX
        && a.mux_interleave_flush_wall + b.mux_interleave_flush_wall <= u128::MAX
        && a.mux_trailer_wall + b.mux_trailer_wall <= u128::MAX
        && a.mux_queue_send_wall + b.mux_queue_send_wall <= u128::MAX
        && a.send_eagain + b.send_eagain <= u64::MAX
        && a.receive_eagain + b.receive_eagain <= u64::MAX
        && a.submitted_frames + b.submitted_frames <= u64::MAX
        && a.received_packets + b.received_packets <= u64::MAX
        && a.received_packet_bytes + b.received_packet_bytes <= u64::MAX
}

/// Scopes and counters summed, peaks kept.
pub open spec fn accumulated(a: EncodeDiagnostics, b: EncodeDiagnostics) -> EncodeDiagnostics {
    EncodeDiagnostics {
        send_wall: (a.send_wall + b.send_wall) as u128,
        receive_wall: (a.receive_wall + b.receive_wall) as u128,
        drain_wall: (a.drain_wall + b.drain_wall) as u128,
        mux_video_write_wall: (a.mux_video_write_wall + b.mux_video_write_wall) as u128,
        mux_interleave_flush_wall: (a.mux_interleave_flush_wall + b.mux_interleave_flush_wall) as u128,
        mux_trailer_wall: (a.mux_trailer_wall + b.mux_trailer_wall) as u128,
        mux_queue_send_wall: (a.mux_queue_send_wall + b.mux_queue_send_wall) as u128,
        send_eagain: (a.send_eagain + b.send_eagain) as u64,
        receive_eagain: (a.receive_eagain + b.receive_eagain) as u64,
        submitted_frames: (a.submitted_frames + b.submitted_frames) as u64,
        received_packets: (a.received_packets + b.received_packets) as u64,
        received_packet_bytes: (a.received_packet_bytes + b.received_packet_bytes) as u64,
        max_send_retries: if a.max_send_retries >= b.max_send_retries { a.max_send_retries } else { b.max_send_retries },
        peak_frame_packet_delta: if a.peak_frame_packet_delta >= b.peak_frame_packet_delta {
            a.peak_frame_packet_delta
        } else {
            b.peak_frame_packet_delta
        },
    }
}

impl EncodeDiagnostics {
    /// Adds `other`'s scopes and counters; keeps the larger peak values.
    pub fn accumulate(&mut self, other: Self)
        requires
            accumulate_fits(*old(self), other),
        ensures
            *final(self) == accumulated(*old(self), other),
    {
        self.send_wall = self.send_wall + other.send_wall;
        self.receive_wall = self.receive_wall + other.receive_wall;
        self.drain_wall = self.drain_wall + other.drain_wall;
        self.mux_video_write_wall = self.mux_video_write_wall + other.mux_video_write_wall;
        self.mux_interleave_flush_wall = self.mux_interleave_flush_wall + other.mux_interleave_flush_wall;
        self.mux_trailer_wall = self.mux_trailer_wall + other.mux_trailer_wall;
        self.mux_queue_send_wall = self.mux_queue_send_wall + other.mux_queue_send_wall;
        self.send_eagain = self.send_eagain + other.send_eagain;
        self.receive_eagain = self.receive_eagain + other.receive_eagain;
        self.submitted_frames = self.submitted_frames + other.submitted_frames;
        self.received_packets = self.received_packets + other.received_packets;
        self.received_packet_bytes = self.received_packet_bytes + other.received_packet_bytes;
        if other.max_send_retries > self.max_send_retries {
            self.max_send_retries = other.max_send_retries;
        }
        if other.peak_frame_packet_delta > self.peak_frame_packet_delta {
            self.peak_frame_packet_delta = other.peak_frame_packet_delta;
        }
    }
}

/// Encoder-side scopes of the last frame.
#[derive(Clone, Copy, Debug, PartialEq, Eq, Structural)]
pub struct SinkTimings {
    pub hardware_upload: u128,
    pub submit_receive: u128,
    pub encode_diagnostics: EncodeDiagnostics,
    pub audio_passthrough: u128,
    pub audio_packets: u64,
    pub audio_bytes: u64,
}

impl Default for SinkTimings {
    fn default() -> (t: Self)
        ensures
            t == (SinkTimings {
                hardware_upload: 0,
                submit_receive: 0,
                encode_diagnostics: zero_diagnostics(),
                audio_passthrough: 0,
                audio_packets: 0,
                audio_bytes: 0,
            }),
    {
        SinkTimings {
            hardware_upload: 0,
            submit_receive: 0,
            encode_diagnostics: EncodeDiagnostics::default(),
            audio_passthrough: 0,
            audio_packets: 0,
            audio_bytes: 0,
        }
    }
}

/// Backend scopes of one frame.
#[derive(Clone, Copy, Debug, PartialEq, Eq, Structural)]
pub struct BackendTimings {
    pub mapping: u128,
    pub render: u128,
    pub host_upload: u128,
    pub queue_submit: u128,
    pub gpu_upload: u128,
    pub drm_prime_map: u128,
    pub external_capability_query: u128,
    pub external_image_create: u128,
    pub external_memory_import: u128,
    pub external_memory_bind: u128,
    pub external_ownership: u128,
    pub external_image_destroy: u128,
    pub gpu_external_copy: u128,
    pub encoder_surface_acquire: u128,
    pub output_drm_prime_map: u128,
    pub output_external_capability_query: u128,
    pub output_external_image_create: u128,
    pub output_external_memory_import: u128,
    pub output_external_memory_bind: u128,
    pub output_ownership_acquire: u128,
    pub output_ownership_release: u128,
    pub output_external_image_destroy: u128,
    pub gpu_external_output_copy: u128,
    pub output_queue_submit: u128,
    pub output_gpu_wait: u128,
    pub gpu_mapping: u128,
    pub gpu_render: u128,
    pub gpu_download: u128,
    pub gpu_busy: u128,
    pub gpu_wait: u128,
    pub host_invalidate: u128,
    pub host_readback: u128,
    pub backend_wall: u128,
}

pub open spec fn zero_backend_timings() -> BackendTimings {
    BackendTimings {
        mapping: 0,
        render: 0,
        host_upload: 0,
        queue_submit: 0,
        gpu_upload: 0,
        drm_prime_map: 0,
        external_capability_query: 0,
        external_image_create: 0,
        external_memory_import: 0,
        external_memory_bind: 0,
        external_ownership: 0,
        external_image_destroy: 0,
        gpu_external_copy: 0,
        encoder_surface_acquire: 0,
        output_drm_prime_map: 0,
        output_external_capability_query: 0,
        output_external_image_create: 0,
        output_external_memory_import: 0,
        output_external_memory_bind: 0,
        output_ownership_acquire: 0,
        output_ownership_release: 0,
        output_external_image_destroy: 0,
        gpu_external_output_copy: 0,
        output_queue_submit: 0,
        output_gpu_wait: 0,
        gpu_mapping: 0,
        gpu_render: 0,
        gpu_download: 0,
        gpu_busy: 0,
        gpu_wait: 0,
        host_invalidate: 0,
        host_readback: 0,
        backend_wall: 0,
    }
}

impl Default for BackendTimings {
    fn default() -> (t: Self)
        ensures
            t == zero_backend_timings(),
    {
        BackendTimings {
            mapping: 0,
            render: 0,
            host_upload: 0,
            queue_submit: 0,
            gpu_upload: 0,
            drm_prime_map: 0,
            external_capability_query: 0,
            external_image_create: 0,
            external_memory_import: 0,
            external_memory_bind: 0,
            external_ownership: 0,
            external_image_destroy: 0,
            gpu_external_copy: 0,
            encoder_surface_acquire: 0,
            output_drm_prime_map: 0,
            output_external_capability_query: 0,
            output_external_image_create: 0,
            output_external_memory_import: 0,
            output_external_memory_bind: 0,
            output_ownership_acquire: 0,
            output_ownership_release: 0,
            output_external_image_destroy: 0,
            gpu_external_output_copy: 0,
            output_queue_submit: 0,
            output_gpu_wait: 0,
            gpu_mapping: 0,
            gpu_render: 0,
            gpu_download: 0,
            gpu_busy: 0,
            gpu_wait: 0,
            host_invalidate: 0,
            host_readback: 0,
            backend_wall: 0,
        }
    }
}

/// A processed frame and what producing it cost.
pub struct BackendOutput {
    pub frame: VideoFrame,
    pub timings: BackendTimings,
}

/// Turns decoded frames into ASCII frames. Buffered backends may hold frames
/// in `submit` and hand them back from `drain`, in submission order.
pub trait AsciiBackend {
    fn process(&mut self, input: VideoFrame, config: &AsciiConfig) -> Result<BackendOutput>;

    /// By default a backend buffers nothing: a frame it accepts comes straight back.
    fn submit(&mut self, input: VideoFrame, config: &AsciiConfig) -> (r: Result<Option<BackendOutput>>)
        default_ensures
            r matches Ok(output) ==> output is Some,
            exists|backend: &mut Self, processed: Result<BackendOutput>|
                call_ensures(Self::process, (backend, input, config), processed)
                && r == (match processed { Ok(output) => Ok(Some(output)), Err(e) => Err(e) }),
    {
        match self.process(input, config) {
            Ok(output) => Ok(Some(output)),
            Err(e) => Err(e),
        }
    }

    /// By default nothing is buffered, so a drain ends at once.
    fn drain(&mut self) -> (r: Result<Option<BackendOutput>>)
        default_ensures
            r matches Ok(None),
    {
        Ok(None)
    }
}

/// Produces decoded frames until `Ok(None)`.
pub trait FrameSource {
    fn next_frame(&mut self) -> Result<Option<VideoFrame>>;

    /// By default there is nothing to flush.
    fn finish(&mut self) -> (r: Result<()>)
        default_ensures
            r is Ok,
    {
        Ok(())
    }

    /// By default a source measures nothing.
    fn take_timings(&mut self) -> (t: SourceTimings)
        default_ensures
            t == (SourceTimings { packet_submit: 0, frame_receive: 0, hardware_download: 0 }),
    {
        SourceTimings { packet_submit: 0, frame_receive: 0, hardware_download: 0 }
    }
}

/// Consumes processed frames; `finish` flushes the output.
pub trait FrameSink {
    fn encode(&mut self, frame: VideoFrame) -> Result<()>;

    fn finish(&mut self) -> Result<()>;

    /// By default a sink measures nothing.
    fn take_timings(&mut self) -> (t: SinkTimings)
        default_ensures
            t == (SinkTimings {
                hardware_upload: 0,
                submit_receive: 0,
                encode_diagnostics: zero_diagnostics(),
                audio_passthrough: 0,
                audio_packets: 0,
                audio_bytes: 0,
            }),
    {
        SinkTimings {
            hardware_upload: 0,
            submit_receive: 0,
            encode_diagnostics: EncodeDiagnostics::default(),
            audio_passthrough: 0,
            audio_packets: 0,
            audio_bytes: 0,
        }
    }
}

} // verus!
