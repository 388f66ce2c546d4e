//! Accumulated stage timings of a run (nanoseconds) and the frame count.

use vstd::prelude::*;

verus! {

/// A pipeline stage whose time is measured.
#[derive(Clone, Copy, Debug, PartialEq, Eq, Hash, Structural)]
pub enum MetricStage {
    Decode,
    DecodePacketSubmit,
    DecodeFrameReceive,
    HardwareDownload,
    Mapping,
    Render,
    Encode,
    HardwareUpload,
    EncodeSubmitReceive,
    HostUpload,
    QueueSubmit,
    GpuUpload,
    DrmPrimeMap,
    ExternalCapabilityQuery,
    ExternalImageCreate,
    ExternalMemoryImport,
    ExternalMemoryBind,
    ExternalOwnership,
    ExternalImageDestroy,
    GpuExternalCopy,
    EncoderSurfaceAcquire,
    OutputDrmPrimeMap,
    OutputExternalCapabilityQuery,
    OutputExternalImageCreate,
    OutputExternalMemoryImport,
    OutputExternalMemoryBind,
    OutputOwnershipAcquire,
    OutputOwnershipRelease,
    OutputExternalImageDestroy,
    GpuExternalOutputCopy,
    OutputQueueSubmit,
    OutputGpuWait,
    GpuMapping,
    GpuRender,
    GpuDownload,
    GpuBusy,
    GpuWait,
    HostReadback,
    HostInvalidate,
    BackendWall,
    PipelineLatency,
}

/// Totals per stage, the completed frame count and the run's wall time.
#[derive(Clone, Copy, Debug, PartialEq, Eq, Structural)]
pub struct MetricsSnapshot {
    pub frames: u64,
    pub decode: u128,
    pub decode_packet_submit: u128,
    pub decode_frame_receive: u128,
    pub hardware_download: u128,
    pub mapping: u128,
    pub render: u128,
    pub encode: u128,
    pub hardware_upload: u128,
    pub encode_submit_receive: u128,
    pub host_upload: u128,
    pub queue_submit: u128,
    pub gpu_upload: u128,
    pub drm_prime_map: u128,
    pub external_capability_query: u128,
    pub external_image_create: u128,
    pub external_memory_import: u128,
    pub external_memory_bind: u128,
    pub external_ownership: u128,
    pub external_image_destroy: u128,
    pub gpu_external_copy: u128,
    pub encoder_surface_acquire: u128,
    pub output_drm_prime_map: u128,
    pub output_external_capability_query: u128,
    pub output_external_image_create: u128,
    pub output_external_memory_import: u128,
    pub output_external_memory_bind: u128,
    pub output_ownership_acquire: u128,
    pub output_ownership_release: u128,
    pub output_external_image_destroy: u128,
    pub gpu_external_output_copy: u128,
    pub output_queue_submit: u128,
    pub output_gpu_wait: u128,
    pub gpu_mapping: u128,
    pub gpu_render: u128,
    pub gpu_download: u128,
    pub gpu_busy: u128,
    pub gpu_wait: u128,
    pub host_readback: u128,
    pub host_invalidate: u128,
    pub backend_wall: u128,
    pub pipeline_latency: u128,
    pub total: u128,
}

/// The total a stage accumulates into.
pub open spec fn stage_total(m: MetricsSnapshot, stage: MetricStage) -> u128 {
    match stage {
        MetricStage::Decode => m.decode,
        MetricStage::DecodePacketSubmit => m.decode_packet_submit,
        MetricStage::DecodeFrameReceive => m.decode_frame_receive,
        MetricStage::HardwareDownload => m.hardware_download,
        MetricStage::Mapping => m.mapping,
        MetricStage::Render => m.render,
        MetricStage::Encode => m.encode,
        MetricStage::HardwareUpload => m.hardware_upload,
        MetricStage::EncodeSubmitReceive => m.encode_submit_receive,
        MetricStage::HostUpload => m.host_upload,
        MetricStage::QueueSubmit => m.queue_submit,
        MetricStage::GpuUpload => m.gpu_upload,
        MetricStage::DrmPrimeMap => m.drm_prime_map,
        MetricStage::ExternalCapabilityQuery => m.external_capability_query,
        MetricStage::ExternalImageCreate => m.external_image_create,
        MetricStage::ExternalMemoryImport => m.external_memory_import,
        MetricStage::ExternalMemoryBind => m.external_memory_bind,
        MetricStage::ExternalOwnership => m.external_ownership,
        MetricStage::ExternalImageDestroy => m.external_image_destroy,
        MetricStage::GpuExternalCopy => m.gpu_external_copy,
        MetricStage::EncoderSurfaceAcquire => m.encoder_surface_acquire,
        MetricStage::OutputDrmPrimeMap => m.output_drm_prime_map,
        MetricStage::OutputExternalCapabilityQuery => m.output_external_capability_query,
        MetricStage::OutputExternalImageCreate => m.output_external_image_create,
        MetricStage::OutputExternalMemoryImport => m.output_external_memory_import,
        MetricStage::OutputExternalMemoryBind => m.output_external_memory_bind,
        MetricStage::OutputOwnershipAcquire => m.output_ownership_acquire,
        MetricStage::OutputOwnershipRelease => m.output_ownership_release,
        MetricStage::OutputExternalImageDestroy => m.output_external_image_destroy,
        MetricStage::GpuExternalOutputCopy => m.gpu_external_output_copy,
        MetricStage::OutputQueueSubmit => m.output_queue_submit,
        MetricStage::OutputGpuWait => m.output_gpu_wait,
        MetricStage::GpuMapping => m.gpu_mapping,
        MetricStage::GpuRender => m.gpu_render,
        MetricStage::GpuDownload => m.gpu_download,
        MetricStage::GpuBusy => m.gpu_busy,
        MetricStage::GpuWait => m.gpu_wait,
        MetricStage::HostReadback => m.host_readback,
        MetricStage::HostInvalidate => m.host_invalidate,
        MetricStage::BackendWall => m.backend_wall,
        MetricStage::PipelineLatency => m.pipeline_latency,
    }
}

/// `a + b`, or the largest value when that does not fit.
pub open spec fn saturating_sum(a: u128, b: u128) -> u128 {
    if a + b > u128::MAX { u128::MAX } else { (a + b) as u128 }
}

/// Run metrics, owned by the run that records them.
#[derive(Clone, Debug)]
pub struct Metrics {
    inner: MetricsSnapshot,
}

impl Metrics {
    pub closed spec fn view_snapshot(self) -> MetricsSnapshot {
        self.inner
    }

    /// Adds `elapsed` nanoseconds to the stage's total (saturating); every
    /// other total, the frame count and the wall time are unchanged.
    pub fn record(&mut self, stage: MetricStage, elapsed: u128)
        ensures
            forall|s: MetricStage| #[trigger] stage_total(final(self).view_snapshot(), s) == if s == stage {
                saturating_sum(stage_total(old(self).view_snapshot(), s), elapsed)
            } else {
                stage_total(old(self).view_snapshot(), s)
            },
            final(self).view_snapshot().frames == old(self).view_snapshot().frames,
            final(self).view_snapshot().total == old(self).view_snapshot().total,
    {
        let v = &mut self.inner;
        match stage {
            MetricStage::Decode => v.decode = v.decode.saturating_add(elapsed),
            MetricStage::DecodePacketSubmit => v.decode_packet_submit = v.decode_packet_submit.saturating_add(elapsed),
            MetricStage::DecodeFrameReceive => v.decode_frame_receive = v.decode_frame_receive.saturating_add(elapsed),
            MetricStage::HardwareDownload => v.hardware_download = v.hardware_download.saturating_add(elapsed),
            MetricStage::Mapping => v.mapping = v.mapping.saturating_add(elapsed),
            MetricStage::Render => v.render = v.render.saturating_add(elapsed),
            MetricStage::Encode => v.encode = v.encode.saturating_add(elapsed),
            MetricStage::HardwareUpload => v.hardware_upload = v.hardware_upload.saturating_add(elapsed),
            MetricStage::EncodeSubmitReceive => v.encode_submit_receive = v.encode_submit_receive.saturating_add(elapsed),
            MetricStage::HostUpload => v.host_upload = v.host_upload.saturating_add(elapsed),
            MetricStage::QueueSubmit => v.queue_submit = v.queue_submit.saturating_add(elapsed),
            MetricStage::GpuUpload => v.gpu_upload = v.gpu_upload.saturating_add(elapsed),
            MetricStage::DrmPrimeMap => v.drm_prime_map = v.drm_prime_map.saturating_add(elapsed),
            MetricStage::ExternalCapabilityQuery => v.external_capability_query = v.external_capability_query.saturating_add(elapsed),
            MetricStage::ExternalImageCreate => v.external_image_create = v.external_image_create.saturating_add(elapsed),
            MetricStage::ExternalMemoryImport => v.external_memory_import = v.external_memory_import.saturating_add(elapsed),
            MetricStage::ExternalMemoryBind => v.external_memory_bind = v.external_memory_bind.saturating_add(elapsed),
            MetricStage::ExternalOwnership => v.external_ownership = v.external_ownership.saturating_add(elapsed),
            MetricStage::ExternalImageDestroy => v.external_image_destroy = v.external_image_destroy.saturating_add(elapsed),
            MetricStage::GpuExternalCopy => v.gpu_external_copy = v.gpu_external_copy.saturating_add(elapsed),
            MetricStage::EncoderSurfaceAcquire => v.encoder_surface_acquire = v.encoder_surface_acquire.saturating_add(elapsed),
            MetricStage::OutputDrmPrimeMap => v.output_drm_prime_map = v.output_drm_prime_map.saturating_add(elapsed),
            MetricStage::OutputExternalCapabilityQuery => v.output_external_capability_query = v.output_external_capability_query.saturating_add(elapsed),
            MetricStage::OutputExternalImageCreate => v.output_external_image_create = v.output_external_image_create.saturating_add(elapsed),
            MetricStage::OutputExternalMemoryImport => v.output_external_memory_import = v.output_external_memory_import.saturating_add(elapsed),
            MetricStage::OutputExternalMemoryBind => v.output_external_memory_bind = v.output_external_memory_bind.saturating_add(elapsed),
            MetricStage::OutputOwnershipAcquire => v.output_ownership_acquire = v.output_ownership_acquire.saturating_add(elapsed),
            MetricStage::OutputOwnershipRelease => v.output_ownership_release = v.output_ownership_release.saturating_add(elapsed),
            MetricStage::OutputExternalImageDestroy => v.output_external_image_destroy = v.output_external_image_destroy.saturating_add(elapsed),
            MetricStage::GpuExternalOutputCopy => v.gpu_external_output_copy = v.gpu_external_output_copy.saturating_add(elapsed),
            MetricStage::OutputQueueSubmit => v.output_queue_submit = v.output_queue_submit.saturating_add(elapsed),
            MetricStage::OutputGpuWait => v.output_gpu_wait = v.output_gpu_wait.saturating_add(elapsed),
            MetricStage::GpuMapping => v.gpu_mapping = v.gpu_mapping.saturating_add(elapsed),
            MetricStage::GpuRender => v.gpu_render = v.gpu_render.saturating_add(elapsed),
            MetricStage::GpuDownload => v.gpu_download = v.gpu_download.saturating_add(elapsed),
            MetricStage::GpuBusy => v.gpu_busy = v.gpu_busy.saturating_add(elapsed),
            MetricStage::GpuWait => v.gpu_wait = v.gpu_wait.saturating_add(elapsed),
            MetricStage::HostReadback => v.host_readback = v.host_readback.saturating_add(elapsed),
            MetricStage::HostInvalidate => v.host_invalidate = v.host_invalidate.saturating_add(elapsed),
            MetricStage::BackendWall => v.backend_wall = v.backend_wall.saturating_add(elapsed),
            MetricStage::PipelineLatency => v.pipeline_latency = v.pipeline_latency.saturating_add(elapsed),
        }
    }

    /// Counts one more completed frame (saturating).
    pub fn frame_completed(&mut self)
        ensures
            final(self).view_snapshot() == (MetricsSnapshot {
                frames: if old(self).view_snapshot().frames == u64::MAX { u64::MAX } else { (old(self).view_snapshot().frames + 1) as u64 },
                ..old(self).view_snapshot()
            }),
    {
        self.inner.frames = self.inner.frames.saturating_add(1);
    }

    /// Sets the run's wall time.
    pub fn set_total(&mut self, total: u128)
        ensures
            final(self).view_snapshot() == (MetricsSnapshot { total, ..old(self).view_snapshot() }),
    {
        self.inner.total = total;
    }

    /// The current totals.
    pub fn snapshot(&self) -> (s: MetricsSnapshot)
        ensures
            s == self.view_snapshot(),
    {
        self.inner
    }
}

impl MetricsSnapshot {
    /// All zero.
    pub open spec fn default_spec() -> MetricsSnapshot {
        MetricsSnapshot {
            frames: 0,
            decode: 0,
            decode_packet_submit: 0,
            decode_frame_receive: 0,
            hardware_download: 0,
            mapping: 0,
            render: 0,
            encode: 0,
            hardware_upload: 0,
            encode_submit_receive: 0,
            host_upload: 0,
            queue_submit: 0,
            gpu_upload: 0,
            drm_prime_map: 0,
            external_capability_query: 0,
            external_image_create: 0,
            external_memory_import: 0,
            external_memory_bind: 0,
            external_ownership: 0,
            external_image_destroy: 0,
            gpu_external_copy: 0,
            encoder_surface_acquire: 0,
            output_drm_prime_map: 0,
            output_external_capability_query: 0,
            output_external_image_create: 0,
            output_external_memory_import: 0,
            output_external_memory_bind: 0,
            output_ownership_acquire: 0,
            output_ownership_release: 0,
            output_external_image_destroy: 0,
            gpu_external_output_copy: 0,
            output_queue_submit: 0,
            output_gpu_wait: 0,
            gpu_mapping: 0,
            gpu_render: 0,
            gpu_download: 0,
            gpu_busy: 0,
            gpu_wait: 0,
            host_readback: 0,
            host_invalidate: 0,
            backend_wall: 0,
            pipeline_latency: 0,
            total: 0,
        }
    }

    /// All zero.
    fn zero() -> (s: Self)
        ensures
            s == Self::default_spec(),
    {
        MetricsSnapshot {
            frames: 0,
            decode: 0,
            decode_packet_submit: 0,
            decode_frame_receive: 0,
            hardware_download: 0,
            mapping: 0,
            render: 0,
            encode: 0,
            hardware_upload: 0,
            encode_submit_receive: 0,
            host_upload: 0,
            queue_submit: 0,
            gpu_upload: 0,
            drm_prime_map: 0,
            external_capability_query: 0,
            external_image_create: 0,
            external_memory_import: 0,
            external_memory_bind: 0,
            external_ownership: 0,
            external_image_destroy: 0,
            gpu_external_copy: 0,
            encoder_surface_acquire: 0,
            output_drm_prime_map: 0,
            output_external_capability_query: 0,
            output_external_image_create: 0,
            output_external_memory_import: 0,
            output_external_memory_bind: 0,
            output_ownership_acquire: 0,
            output_ownership_release: 0,
            output_external_image_destroy: 0,
            gpu_external_output_copy: 0,
            output_queue_submit: 0,
            output_gpu_wait: 0,
            gpu_mapping: 0,
            gpu_render: 0,
            gpu_download: 0,
            gpu_busy: 0,
            gpu_wait: 0,
            host_readback: 0,
            host_invalidate: 0,
            backend_wall: 0,
            pipeline_latency: 0,
            total: 0,
        }
    }
}

impl Default for MetricsSnapshot {
    fn default() -> (s: Self)
        ensures
            s == Self::default_spec(),
    {
        Self::zero()
    }
}

impl Default for Metrics {
    /// Empty metrics.
    fn default() -> (m: Self)
        ensures
            m.view_snapshot() == MetricsSnapshot::default_spec(),
    {
        Metrics { inner: MetricsSnapshot::zero() }
    }
}

} // verus!
