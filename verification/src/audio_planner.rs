//! Buffer sizes, queue budgets and transfer schedules for audio workloads.
use vstd::prelude::*;

verus! {

/// Kinds of audio workload.
#[derive(Debug, Clone, Copy, PartialEq, Eq, Structural)]
pub enum WorkloadClass {
    VoiceAssistant,
    MultimediaPlayback,
    NotificationBurst,
    GameAudio,
    LowLatencyMonitor,
    BackgroundCapture,
    StudioRender,
    Telemetry,
}

/// What scheduling should favour.
#[derive(Debug, Clone, Copy, PartialEq, Eq, Structural)]
pub enum SchedulingHint {
    ThroughputFirst,
    LatencyFirst,
    PowerSaving,
    Balanced,
}

/// How busy a queue is.
#[derive(Debug, Clone, Copy, PartialEq, Eq, Structural)]
pub enum QueuePressure {
    Idle,
    Stable,
    Busy,
    Saturated,
}

/// What is known of a workload.
#[derive(Debug, Clone, Copy, PartialEq, Eq, Structural)]
pub struct AudioWorkloadProfile {
    pub class: WorkloadClass,
    pub channels: u8,
    pub sample_rate: u32,
    pub frame_bytes: usize,
    pub target_latency_ms: u32,
    pub burst_frames: usize,
    pub sustained_frames: usize,
    pub control_ops_per_second: u32,
    pub duplex: bool,
}

/// Sizes of a buffer and its periods.
#[derive(Debug, Clone, Copy, PartialEq, Eq, Structural)]
pub struct BufferPlan {
    pub buffer_bytes: u32,
    pub period_bytes: u32,
    pub periods: u16,
    pub prefetched_periods: u16,
    pub irq_interval_frames: usize,
}

/// How the descriptors of the queues are shared out.
#[derive(Debug, Clone, Copy, PartialEq, Eq, Structural)]
pub struct QueueBudget {
    pub descriptors_per_transfer: u16,
    pub max_inflight_transfers: u16,
    pub reserved_control_descriptors: u16,
    pub reserved_event_descriptors: u16,
}

/// A plan for a stream, and how good it is.
#[derive(Debug, Clone, Copy, PartialEq, Eq, Structural)]
pub struct StreamPlan {
    pub buffer: BufferPlan,
    pub queue: QueueBudget,
    pub hint: SchedulingHint,
    pub pressure: QueuePressure,
    pub score: i32,
}

/// What the queues are doing right now.
#[derive(Debug, Clone, Copy, PartialEq, Eq, Structural)]
pub struct PlannerSnapshot {
    pub inflight_transfers: usize,
    pub completed_transfers: usize,
    pub queued_control_ops: usize,
    pub average_batch_frames: usize,
}

impl AudioWorkloadProfile {
    /// Stereo music playback.
    pub fn stereo_music(sample_rate: u32) -> (profile: Self)
        ensures
            profile == (AudioWorkloadProfile {
                class: WorkloadClass::MultimediaPlayback,
                channels: 2,
                sample_rate,
                frame_bytes: 4,
                target_latency_ms: 40,
                burst_frames: 512,
                sustained_frames: 1024,
                control_ops_per_second: 4,
                duplex: false,
            }),
    {
        Self {
            class: WorkloadClass::MultimediaPlayback,
            channels: 2,
            sample_rate,
            frame_bytes: 4,
            target_latency_ms: 40,
            burst_frames: 512,
            sustained_frames: 1024,
            control_ops_per_second: 4,
            duplex: false,
        }
    }

    /// A voice conversation.
    pub fn interactive_voice(sample_rate: u32) -> (profile: Self)
        ensures
            profile == (AudioWorkloadProfile {
                class: WorkloadClass::VoiceAssistant,
                channels: 1,
                sample_rate,
                frame_bytes: 2,
                target_latency_ms: 15,
                burst_frames: 160,
                sustained_frames: 320,
                control_ops_per_second: 20,
                duplex: true,
            }),
    {
        Self {
            class: WorkloadClass::VoiceAssistant,
            channels: 1,
            sample_rate,
            frame_bytes: 2,
            target_latency_ms: 15,
            burst_frames: 160,
            sustained_frames: 320,
            control_ops_per_second: 20,
            duplex: true,
        }
    }

    /// A game in which latency matters.
    pub fn competitive_game(sample_rate: u32) -> (profile: Self)
        ensures
            profile == (AudioWorkloadProfile {
                class: WorkloadClass::GameAudio,
                channels: 2,
                sample_rate,
                frame_bytes: 4,
                target_latency_ms: 12,
                burst_frames: 128,
                sustained_frames: 256,
                control_ops_per_second: 12,
                duplex: false,
            }),
    {
        Self {
            class: WorkloadClass::GameAudio,
            channels: 2,
            sample_rate,
            frame_bytes: 4,
            target_latency_ms: 12,
            burst_frames: 128,
            sustained_frames: 256,
            control_ops_per_second: 12,
            duplex: false,
        }
    }

    /// Rendering in a studio.
    pub fn studio_render(sample_rate: u32, channels: u8) -> (profile: Self)
        ensures
            profile == (AudioWorkloadProfile {
                class: WorkloadClass::StudioRender,
                channels,
                sample_rate,
                frame_bytes: 8,
                target_latency_ms: 80,
                burst_frames: 1024,
                sustained_frames: 4096,
                control_ops_per_second: 2,
                duplex: false,
            }),
    {
        Self {
            class: WorkloadClass::StudioRender,
            channels,
            sample_rate,
            frame_bytes: 8,
            target_latency_ms: 80,
            burst_frames: 1024,
            sustained_frames: 4096,
            control_ops_per_second: 2,
            duplex: false,
        }
    }
}

/// Bytes of a frame: every channel takes whole bytes.
pub fn estimate_frame_bytes(channels: u8, bits_per_sample: u8) -> (bytes: usize)
    ensures
        bytes == channels * ((bits_per_sample + 7) / 8),
{
    let bytes_per_channel: usize = (bits_per_sample as usize + 7) / 8;
    assert(0 <= channels * bytes_per_channel <= 255 * 32) by (nonlinear_arith)
        requires
            0 <= channels <= 255,
            0 <= bytes_per_channel <= 32,
    ;
    channels as usize * bytes_per_channel
}

/// Bytes of some frames, or the largest number there is.
pub open spec fn spec_frames_to_bytes(frames: usize, frame_bytes: usize) -> int {
    vstd::math::min(frames * frame_bytes, usize::MAX as int)
}

/// Bytes of some frames, or the largest number there is.
pub fn frames_to_bytes(frames: usize, frame_bytes: usize) -> (bytes: usize)
    ensures
        bytes == spec_frames_to_bytes(frames, frame_bytes),
{
    match frames.checked_mul(frame_bytes) {
        Some(bytes) => bytes,
        None => usize::MAX,
    }
}

/// Whole frames in some bytes; none where a frame has no bytes.
pub open spec fn spec_bytes_to_frames(bytes: int, frame_bytes: usize) -> int {
    if frame_bytes == 0 {
        0
    } else {
        bytes / frame_bytes as int
    }
}

/// Whole frames in some bytes; none where a frame has no bytes.
pub fn bytes_to_frames(bytes: usize, frame_bytes: usize) -> (frames: usize)
    ensures
        frames == spec_bytes_to_frames(bytes as int, frame_bytes),
{
    match bytes.checked_div(frame_bytes) {
        Some(frames) => frames,
        None => 0,
    }
}

/// Milliseconds that some frames last, modulo 2^32; 0 where the rate is 0.
pub open spec fn spec_latency_ms(frames: int, sample_rate: u32) -> int {
    if sample_rate == 0 {
        0
    } else {
        frames * 1000 / sample_rate as int % 0x1_0000_0000
    }
}

/// Milliseconds that some frames last, modulo 2^32; 0 where the rate is 0.
pub fn latency_ms_for_frames(frames: usize, sample_rate: u32) -> (ms: u32)
    requires
        sample_rate == 0 || frames * 1000 <= u64::MAX,
    ensures
        ms == spec_latency_ms(frames as int, sample_rate),
{
    if sample_rate == 0 {
        0
    } else {
        (frames as u64 * 1000 / sample_rate as u64 % 0x1_0000_0000) as u32
    }
}

/// The next multiple of `align` from `value` on; `value` itself where `align` is 0 or 1.
pub open spec fn spec_align_up(value: int, align: int) -> int {
    if align <= 1 || value % align == 0 {
        value
    } else {
        value + (align - value % align)
    }
}

/// The next multiple of `align` from `value` on; `value` itself where `align` is 0 or 1.
pub fn align_up(value: usize, align: usize) -> (aligned: usize)
    requires
        spec_align_up(value as int, align as int) <= usize::MAX,
    ensures
        aligned == spec_align_up(value as int, align as int),
{
    if align <= 1 {
        value
    } else {
        let rem: usize = value % align;
        if rem == 0 {
            value
        } else {
            value + (align - rem)
        }
    }
}

/// Number of periods of a buffer.
pub open spec fn spec_period_count(class: WorkloadClass, hint: SchedulingHint) -> u16 {
    match hint {
        SchedulingHint::LatencyFirst => if class is VoiceAssistant || class is GameAudio {
            2
        } else {
            3
        },
        SchedulingHint::ThroughputFirst => if class is StudioRender {
            8
        } else {
            6
        },
        SchedulingHint::PowerSaving => if class is BackgroundCapture {
            6
        } else {
            5
        },
        SchedulingHint::Balanced => if class is NotificationBurst {
            3
        } else {
            4
        },
    }
}

/// Number of periods of a buffer.
pub fn choose_period_count(profile: &AudioWorkloadProfile, hint: SchedulingHint) -> (periods: u16)
    ensures
        periods == spec_period_count(profile.class, hint),
{
    match (profile.class, hint) {
        (WorkloadClass::VoiceAssistant, SchedulingHint::LatencyFirst) => 2,
        (WorkloadClass::GameAudio, SchedulingHint::LatencyFirst) => 2,
        (WorkloadClass::StudioRender, SchedulingHint::ThroughputFirst) => 8,
        (WorkloadClass::BackgroundCapture, SchedulingHint::PowerSaving) => 6,
        (WorkloadClass::NotificationBurst, SchedulingHint::Balanced) => 3,
        (_, SchedulingHint::PowerSaving) => 5,
        (_, SchedulingHint::ThroughputFirst) => 6,
        (_, SchedulingHint::LatencyFirst) => 3,
        _ => 4,
    }
}

/// How much pressure there is, from 1 to 4.
pub open spec fn pressure_level(pressure: QueuePressure) -> int {
    match pressure {
        QueuePressure::Idle => 1,
        QueuePressure::Stable => 2,
        QueuePressure::Busy => 3,
        QueuePressure::Saturated => 4,
    }
}

/// Number of periods to fill ahead: more under more pressure, but no more than there are.
pub fn choose_prefetched_periods(periods: u16, pressure: QueuePressure) -> (prefetched: u16)
    ensures
        prefetched == vstd::math::min(periods as int, pressure_level(pressure)),
{
    let wanted: u16 = match pressure {
        QueuePressure::Idle => 1,
        QueuePressure::Stable => 2,
        QueuePressure::Busy => 3,
        QueuePressure::Saturated => 4,
    };
    if periods <= wanted {
        periods
    } else {
        wanted
    }
}

/// The pressure that transfers in flight and queued control operations make.
pub open spec fn spec_queue_pressure(inflight: usize, control: usize) -> QueuePressure {
    if inflight == 0 && control == 0 {
        QueuePressure::Idle
    } else if inflight < 8 && control < 4 {
        QueuePressure::Stable
    } else if inflight < 24 && control < 12 {
        QueuePressure::Busy
    } else {
        QueuePressure::Saturated
    }
}

/// The pressure that transfers in flight and queued control operations make.
pub fn derive_queue_pressure(snapshot: PlannerSnapshot) -> (pressure: QueuePressure)
    ensures
        pressure == spec_queue_pressure(snapshot.inflight_transfers, snapshot.queued_control_ops),
{
    let inflight: usize = snapshot.inflight_transfers;
    let control: usize = snapshot.queued_control_ops;
    if inflight == 0 && control == 0 {
        QueuePressure::Idle
    } else if inflight < 8 && control < 4 {
        QueuePressure::Stable
    } else if inflight < 24 && control < 12 {
        QueuePressure::Busy
    } else {
        QueuePressure::Saturated
    }
}

/// What to favour for a kind of workload.
pub open spec fn spec_scheduling_hint(class: WorkloadClass) -> SchedulingHint {
    match class {
        WorkloadClass::VoiceAssistant => SchedulingHint::LatencyFirst,
        WorkloadClass::GameAudio => SchedulingHint::LatencyFirst,
        WorkloadClass::LowLatencyMonitor => SchedulingHint::LatencyFirst,
        WorkloadClass::StudioRender => SchedulingHint::ThroughputFirst,
        WorkloadClass::Telemetry => SchedulingHint::PowerSaving,
        WorkloadClass::BackgroundCapture => SchedulingHint::PowerSaving,
        WorkloadClass::MultimediaPlayback => SchedulingHint::Balanced,
        WorkloadClass::NotificationBurst => SchedulingHint::Balanced,
    }
}

/// What to favour for a workload.
pub fn choose_scheduling_hint(profile: &AudioWorkloadProfile) -> (hint: SchedulingHint)
    ensures
        hint == spec_scheduling_hint(profile.class),
{
    match profile.class {
        WorkloadClass::VoiceAssistant
        | WorkloadClass::GameAudio
        | WorkloadClass::LowLatencyMonitor => SchedulingHint::LatencyFirst,
        WorkloadClass::StudioRender => SchedulingHint::ThroughputFirst,
        WorkloadClass::Telemetry | WorkloadClass::BackgroundCapture => SchedulingHint::PowerSaving,
        _ => SchedulingHint::Balanced,
    }
}

/// Frames of a period before its bytes are aligned.
pub open spec fn period_frames(profile: AudioWorkloadProfile, hint: SchedulingHint) -> int {
    let burst = profile.burst_frames as int;
    let sustained = profile.sustained_frames as int;
    match hint {
        SchedulingHint::LatencyFirst => vstd::math::max(burst, 64),
        SchedulingHint::ThroughputFirst => vstd::math::max(sustained, burst),
        SchedulingHint::PowerSaving => vstd::math::max(sustained * 3 / 2, burst),
        SchedulingHint::Balanced => vstd::math::max((burst + sustained) / 2, burst),
    }
}

/// Frames between two interrupts: further apart under more pressure, and never under 32.
pub open spec fn irq_interval(period_frames: int, pressure: QueuePressure) -> int {
    vstd::math::max(
        match pressure {
            QueuePressure::Idle => period_frames / 2,
            QueuePressure::Stable => period_frames,
            QueuePressure::Busy => period_frames + period_frames / 4,
            QueuePressure::Saturated => period_frames + period_frames / 2,
        },
        32,
    )
}

/// Bytes of a period: whole blocks of 64 bytes, modulo 2^32.
pub open spec fn period_bytes(profile: AudioWorkloadProfile, hint: SchedulingHint) -> int {
    aligned_period_bytes(profile, hint) % 0x1_0000_0000
}

/// Bytes of a period, in whole blocks of 64 bytes.
pub open spec fn aligned_period_bytes(profile: AudioWorkloadProfile, hint: SchedulingHint) -> int {
    spec_align_up(
        spec_frames_to_bytes(period_frames(profile, hint) as usize, profile.frame_bytes),
        64,
    )
}

/// Whether the sizes of a plan can be computed in machine words.
pub open spec fn buffer_plan_fits(
    profile: AudioWorkloadProfile,
    hint: SchedulingHint,
    pressure: QueuePressure,
) -> bool {
    &&& hint is PowerSaving ==> profile.sustained_frames * 3 <= usize::MAX
    &&& hint is Balanced ==> profile.burst_frames + profile.sustained_frames <= usize::MAX
    &&& irq_interval(period_frames(profile, hint), pressure) <= usize::MAX
    &&& aligned_period_bytes(profile, hint) <= usize::MAX
}

/// The sizes of a buffer for a workload.
pub open spec fn spec_buffer_plan(
    profile: AudioWorkloadProfile,
    hint: SchedulingHint,
    pressure: QueuePressure,
) -> BufferPlan {
    let periods = spec_period_count(profile.class, hint);
    BufferPlan {
        buffer_bytes: vstd::math::min(
            period_bytes(profile, hint) * periods,
            u32::MAX as int,
        ) as u32,
        period_bytes: period_bytes(profile, hint) as u32,
        periods,
        prefetched_periods: vstd::math::min(periods as int, pressure_level(pressure)) as u16,
        irq_interval_frames: irq_interval(period_frames(profile, hint), pressure) as usize,
    }
}

/// Chooses the sizes of a buffer for a workload.
pub fn build_buffer_plan(
    profile: &AudioWorkloadProfile,
    hint: SchedulingHint,
    pressure: QueuePressure,
) -> (plan: BufferPlan)
    requires
        buffer_plan_fits(*profile, hint, pressure),
    ensures
        plan == spec_buffer_plan(*profile, hint, pressure),
{
    let period_count: u16 = choose_period_count(profile, hint);
    let burst: usize = profile.burst_frames;
    let sustained: usize = profile.sustained_frames;
    let (least, wanted): (usize, usize) = match hint {
        SchedulingHint::LatencyFirst => (64, burst),
        SchedulingHint::ThroughputFirst => (burst, sustained),
        SchedulingHint::PowerSaving => (burst, sustained * 3 / 2),
        SchedulingHint::Balanced => (burst, (burst + sustained) / 2),
    };
    let base_period_frames: usize = if wanted >= least {
        wanted
    } else {
        least
    };

    let interval: usize = match pressure {
        QueuePressure::Idle => base_period_frames / 2,
        QueuePressure::Stable => base_period_frames,
        QueuePressure::Busy => base_period_frames + base_period_frames / 4,
        QueuePressure::Saturated => base_period_frames + base_period_frames / 2,
    };
    let irq_interval_frames: usize = if interval >= 32 {
        interval
    } else {
        32
    };

    let aligned: usize = align_up(frames_to_bytes(base_period_frames, profile.frame_bytes), 64);
    let period_bytes: u32 = (aligned as u64 % 0x1_0000_0000) as u32;
    let buffer_bytes: u32 = match period_bytes.checked_mul(period_count as u32) {
        Some(bytes) => bytes,
        None => u32::MAX,
    };

    BufferPlan {
        buffer_bytes,
        period_bytes,
        periods: period_count,
        prefetched_periods: choose_prefetched_periods(period_count, pressure),
        irq_interval_frames,
    }
}

/// How the descriptors are shared out for a workload.
pub open spec fn spec_queue_budget(
    profile: AudioWorkloadProfile,
    buffer: BufferPlan,
    pressure: QueuePressure,
) -> QueueBudget {
    let per_transfer: u16 = if profile.duplex {
        4
    } else {
        3
    };
    QueueBudget {
        descriptors_per_transfer: per_transfer,
        max_inflight_transfers: vstd::math::min(
            4 * pressure_level(pressure) + buffer.prefetched_periods * per_transfer / 3,
            64,
        ) as u16,
        reserved_control_descriptors: vstd::math::max(
            2,
            vstd::math::min(profile.control_ops_per_second as int, 32),
        ) as u16,
        reserved_event_descriptors: if profile.duplex {
            8
        } else {
            4
        },
    }
}

/// Shares out the descriptors for a workload.
pub fn build_queue_budget(
    profile: &AudioWorkloadProfile,
    buffer: BufferPlan,
    pressure: QueuePressure,
) -> (budget: QueueBudget)
    ensures
        budget == spec_queue_budget(*profile, buffer, pressure),
{
    let base_inflight: usize = match pressure {
        QueuePressure::Idle => 4,
        QueuePressure::Stable => 8,
        QueuePressure::Busy => 12,
        QueuePressure::Saturated => 16,
    };
    let prefetched: usize = buffer.prefetched_periods as usize;
    let (per_transfer, inflation): (u16, usize) = if profile.duplex {
        (4, prefetched * 4)
    } else {
        (3, prefetched * 3)
    };
    let inflight: usize = base_inflight + inflation / 3;
    let max_inflight: u16 = if inflight <= 64 {
        inflight as u16
    } else {
        64
    };
    let control: u32 = profile.control_ops_per_second;
    let reserved_control: u16 = if control < 2 {
        2
    } else if control > 32 {
        32
    } else {
        control as u16
    };

    QueueBudget {
        descriptors_per_transfer: per_transfer,
        max_inflight_transfers: max_inflight,
        reserved_control_descriptors: reserved_control,
        reserved_event_descriptors: if profile.duplex {
            8
        } else {
            4
        },
    }
}

/// A word of 32 bits, read as a signed number.
pub open spec fn signed_32(value: int) -> int {
    if value <= i32::MAX {
        value
    } else {
        value - 0x1_0000_0000
    }
}

/// Reads a word of 32 bits as a signed number.
fn to_signed_32(value: u32) -> (signed: i64)
    ensures
        signed == signed_32(value as int),
{
    if value <= i32::MAX as u32 {
        value as i64
    } else {
        value as i64 - 0x1_0000_0000
    }
}

/// Frames that a whole buffer holds.
pub open spec fn buffered_frames(profile: AudioWorkloadProfile, buffer: BufferPlan) -> int {
    spec_bytes_to_frames(buffer.period_bytes as int, profile.frame_bytes) * buffer.periods
}

/// Milliseconds by which the latency of a buffer exceeds the target.
pub open spec fn latency_excess(profile: AudioWorkloadProfile, buffer: BufferPlan) -> int {
    signed_32(spec_latency_ms(buffered_frames(profile, buffer), profile.sample_rate))
        - signed_32(profile.target_latency_ms as int)
}

/// Points for transfers in flight, less those for control descriptors held back.
pub open spec fn queue_bonus(queue: QueueBudget) -> int {
    queue.max_inflight_transfers - queue.reserved_control_descriptors / 2
}

/// How good a plan is: the closer its latency to the target, the better.
pub open spec fn spec_score(
    profile: AudioWorkloadProfile,
    buffer: BufferPlan,
    queue: QueueBudget,
) -> int {
    200 - vstd::math::abs(latency_excess(profile, buffer)) + queue_bonus(queue)
        + buffer.prefetched_periods * 3
}

/// Whether the score of a plan can be computed in machine words.
pub open spec fn score_fits(
    profile: AudioWorkloadProfile,
    buffer: BufferPlan,
    queue: QueueBudget,
) -> bool {
    &&& buffered_frames(profile, buffer) <= usize::MAX
    &&& i32::MIN < latency_excess(profile, buffer) <= i32::MAX
    &&& 200 - vstd::math::abs(latency_excess(profile, buffer)) + queue_bonus(queue) >= i32::MIN
}

/// Tells how good a plan is.
pub fn score_plan(
    profile: &AudioWorkloadProfile,
    buffer: BufferPlan,
    queue: QueueBudget,
) -> (score: i32)
    requires
        score_fits(*profile, buffer, queue),
    ensures
        score == spec_score(*profile, buffer, queue),
{
    let period_frames: usize = bytes_to_frames(buffer.period_bytes as usize, profile.frame_bytes);
    let periods: usize = buffer.periods as usize;
    proof {
        lemma_frames_of_period(buffer.period_bytes as int, profile.frame_bytes);
        lemma_buffered_frames(period_frames as int, periods as int);
    }
    let latency_frames: usize = period_frames * periods;
    let latency_ms: i64 = to_signed_32(latency_ms_for_frames(latency_frames, profile.sample_rate));
    let excess: i64 = latency_ms - to_signed_32(profile.target_latency_ms);
    let latency_penalty: i64 = if excess >= 0 {
        excess
    } else {
        -excess
    };
    let bonus: i64 = queue.max_inflight_transfers as i64
        - (queue.reserved_control_descriptors / 2) as i64;
    let prefetch_bonus: i64 = buffer.prefetched_periods as i64 * 3;
    (200 - latency_penalty + bonus + prefetch_bonus) as i32
}

/// A period holds no more frames than bytes.
proof fn lemma_frames_of_period(bytes: int, frame_bytes: usize)
    requires
        0 <= bytes,
    ensures
        0 <= spec_bytes_to_frames(bytes, frame_bytes) <= bytes,
{
    if frame_bytes != 0 {
        assert(0 <= bytes / frame_bytes as int <= bytes) by (nonlinear_arith)
            requires
                0 <= bytes,
                frame_bytes > 0,
        ;
    }
}

/// The frames of a whole buffer fit in 48 bits.
proof fn lemma_buffered_frames(period_frames: int, periods: int)
    requires
        0 <= period_frames <= u32::MAX,
        0 <= periods <= u16::MAX,
    ensures
        0 <= period_frames * periods <= 0xffff_ffff_ffff,
{
    assert(0 <= period_frames * periods <= 0xffff_ffff * 0xffff) by (nonlinear_arith)
        requires
            0 <= period_frames <= 0xffff_ffff,
            0 <= periods <= 0xffff,
    ;
}

/// Whether a plan can be computed in machine words.
pub open spec fn plan_fits(
    profile: AudioWorkloadProfile,
    hint: SchedulingHint,
    pressure: QueuePressure,
) -> bool {
    let buffer = spec_buffer_plan(profile, hint, pressure);
    &&& buffer_plan_fits(profile, hint, pressure)
    &&& score_fits(profile, buffer, spec_queue_budget(profile, buffer, pressure))
}

/// The plan for a workload, with what to favour and the pressure given.
pub open spec fn spec_stream_plan(
    profile: AudioWorkloadProfile,
    hint: SchedulingHint,
    pressure: QueuePressure,
) -> StreamPlan {
    let buffer = spec_buffer_plan(profile, hint, pressure);
    let queue = spec_queue_budget(profile, buffer, pressure);
    StreamPlan { buffer, queue, hint, pressure, score: spec_score(profile, buffer, queue) as i32 }
}

/// Makes the plan for a workload, with what to favour and the pressure given.
fn plan_for(
    profile: &AudioWorkloadProfile,
    hint: SchedulingHint,
    pressure: QueuePressure,
) -> (plan: StreamPlan)
    requires
        plan_fits(*profile, hint, pressure),
    ensures
        plan == spec_stream_plan(*profile, hint, pressure),
{
    let buffer: BufferPlan = build_buffer_plan(profile, hint, pressure);
    let queue: QueueBudget = build_queue_budget(profile, buffer, pressure);
    let score: i32 = score_plan(profile, buffer, queue);
    StreamPlan { buffer, queue, hint, pressure, score }
}

/// Makes the plan for a workload in the present state of the queues.
pub fn build_stream_plan(
    profile: &AudioWorkloadProfile,
    snapshot: PlannerSnapshot,
) -> (plan: StreamPlan)
    requires
        plan_fits(
            *profile,
            spec_scheduling_hint(profile.class),
            spec_queue_pressure(snapshot.inflight_transfers, snapshot.queued_control_ops),
        ),
    ensures
        plan == spec_stream_plan(
            *profile,
            spec_scheduling_hint(profile.class),
            spec_queue_pressure(snapshot.inflight_transfers, snapshot.queued_control_ops),
        ),
{
    let pressure: QueuePressure = derive_queue_pressure(snapshot);
    let hint: SchedulingHint = choose_scheduling_hint(profile);
    plan_for(profile, hint, pressure)
}

/// What can be favoured, in the order in which candidates are listed.
pub open spec fn hint_at(i: int) -> SchedulingHint {
    if i == 0 {
        SchedulingHint::Balanced
    } else if i == 1 {
        SchedulingHint::LatencyFirst
    } else if i == 2 {
        SchedulingHint::ThroughputFirst
    } else {
        SchedulingHint::PowerSaving
    }
}

/// The pressures there are, in the order in which candidates are listed.
pub open spec fn pressure_at(i: int) -> QueuePressure {
    if i == 0 {
        QueuePressure::Idle
    } else if i == 1 {
        QueuePressure::Stable
    } else if i == 2 {
        QueuePressure::Busy
    } else {
        QueuePressure::Saturated
    }
}

/// Whether every candidate can be computed in machine words.
pub open spec fn candidates_fit(profile: AudioWorkloadProfile) -> bool {
    forall|hint: SchedulingHint, pressure: QueuePressure| #[trigger]
        plan_fits(profile, hint, pressure)
}

/// One plan for each thing to favour and each pressure.
pub open spec fn spec_candidates(profile: AudioWorkloadProfile) -> Seq<StreamPlan> {
    Seq::new(16, |i: int| spec_stream_plan(profile, hint_at(i / 4), pressure_at(i % 4)))
}

/// Lists one plan for each thing to favour and each pressure.
pub fn candidate_plans(profile: &AudioWorkloadProfile) -> (plans: Vec<StreamPlan>)
    requires
        candidates_fit(*profile),
    ensures
        plans@ == spec_candidates(*profile),
{
    let hints: [SchedulingHint; 4] = [
        SchedulingHint::Balanced,
        SchedulingHint::LatencyFirst,
        SchedulingHint::ThroughputFirst,
        SchedulingHint::PowerSaving,
    ];
    let pressures: [QueuePressure; 4] = [
        QueuePressure::Idle,
        QueuePressure::Stable,
        QueuePressure::Busy,
        QueuePressure::Saturated,
    ];
    let mut plans: Vec<StreamPlan> = Vec::new();
    for i in 0..4usize
        invariant
            candidates_fit(*profile),
            forall|k: int| 0 <= k < 4 ==> hints[k] == #[trigger] hint_at(k),
            forall|k: int| 0 <= k < 4 ==> pressures[k] == #[trigger] pressure_at(k),
            plans@ == spec_candidates(*profile).take(4 * i as int),
    {
        let hint: SchedulingHint = hints[i];
        assert(hint == hint_at(i as int));
        for j in 0..4usize
            invariant
                i < 4,
                hint == hint_at(i as int),
                candidates_fit(*profile),
                forall|k: int| 0 <= k < 4 ==> pressures[k] == #[trigger] pressure_at(k),
                plans@ == spec_candidates(*profile).take(4 * i + j),
        {
            let pressure: QueuePressure = pressures[j];
            assert(pressure == pressure_at(j as int));
            assert(plan_fits(*profile, hint, pressure));
            plans.push(plan_for(profile, hint, pressure));
            assert(plans@ =~= spec_candidates(*profile).take(4 * i + j + 1));
        }
    }
    plans
}

/// Whether `best` stands first among the plans with the highest score.
pub open spec fn is_first_best(plans: Seq<StreamPlan>, best: StreamPlan) -> bool {
    exists|i: int|
        {
            &&& 0 <= i < plans.len()
            &&& best == #[trigger] plans[i]
            &&& forall|j: int| 0 <= j < plans.len() ==> (#[trigger] plans[j]).score <= best.score
            &&& forall|j: int| 0 <= j < i ==> (#[trigger] plans[j]).score < best.score
        }
}

/// The first of the candidates with the highest score.
pub fn select_best_plan(profile: &AudioWorkloadProfile) -> (best: StreamPlan)
    requires
        candidates_fit(*profile),
    ensures
        is_first_best(spec_candidates(*profile), best),
{
    let candidates: Vec<StreamPlan> = candidate_plans(profile);
    let mut best: StreamPlan = candidates[0];
    assert(candidates@.take(1)[0] == best);
    for i in 1..candidates.len()
        invariant
            1 <= i <= candidates.len() == 16,
            is_first_best(candidates@.take(i as int), best),
    {
        let ghost seen = candidates@.take(i as int);
        let ghost longer = candidates@.take(i + 1);
        let ghost at = choose|k: int|
            {
                &&& 0 <= k < seen.len()
                &&& best == #[trigger] seen[k]
                &&& forall|j: int| 0 <= j < seen.len() ==> (#[trigger] seen[j]).score <= best.score
                &&& forall|j: int| 0 <= j < k ==> (#[trigger] seen[j]).score < best.score
            };
        assert(longer =~= seen.push(candidates@[i as int]));
        let plan: StreamPlan = candidates[i];
        assert(longer[i as int] == plan);
        assert(longer[at] == seen[at]);
        if plan.score > best.score {
            best = plan;
        }
    }
    assert(candidates@.take(16) =~= candidates@);
    best
}

/// The transfers that move `total` frames, `chunk` at a time: the last one takes what is left.
pub open spec fn spec_schedule(total: int, chunk: int) -> Seq<usize>
    decreases total,
{
    if total <= 0 || chunk <= 0 {
        Seq::empty()
    } else if total <= chunk {
        seq![total as usize]
    } else {
        seq![chunk as usize] + spec_schedule(total - chunk, chunk)
    }
}

/// Splits frames into transfers of a period each; a period of no frames counts as one of 1.
pub fn split_transfer_schedule(total_frames: usize, period_frames: usize) -> (schedule: Vec<usize>)
    ensures
        schedule@ == spec_schedule(total_frames as int, vstd::math::max(period_frames as int, 1)),
{
    let mut remaining: usize = total_frames;
    let mut schedule: Vec<usize> = Vec::new();
    let chunk: usize = if period_frames >= 1 {
        period_frames
    } else {
        1
    };
    assert(schedule@ + spec_schedule(remaining as int, chunk as int) =~= spec_schedule(
        total_frames as int,
        chunk as int,
    ));
    while remaining > 0
        invariant
            chunk >= 1,
            schedule@ + spec_schedule(remaining as int, chunk as int) == spec_schedule(
                total_frames as int,
                chunk as int,
            ),
        decreases remaining,
    {
        let current: usize = if remaining <= chunk {
            remaining
        } else {
            chunk
        };
        let ghost before = schedule@;
        schedule.push(current);
        assert(schedule@ + spec_schedule(remaining - current, chunk as int) =~= before
            + spec_schedule(remaining as int, chunk as int));
        remaining = remaining - current;
    }
    assert(schedule@ =~= schedule@ + spec_schedule(0, chunk as int));
    schedule
}

/// The sum of some numbers.
pub open spec fn sum(values: Seq<usize>) -> int
    decreases values.len(),
{
    if values.len() == 0 {
        0
    } else {
        sum(values.drop_last()) + values.last()
    }
}

/// The first numbers of a sequence add up to no more than all of them.
proof fn lemma_sum_take(values: Seq<usize>, n: int)
    requires
        0 <= n <= values.len(),
    ensures
        0 <= sum(values.take(n)) <= sum(values),
    decreases values.len(),
{
    if n == values.len() {
        assert(values.take(n) =~= values);
        if n > 0 {
            lemma_sum_take(values.drop_last(), n - 1);
        }
    } else {
        assert(values.drop_last().take(n) =~= values.take(n));
        lemma_sum_take(values.drop_last(), n);
    }
}

/// Adds up some numbers.
fn total_of(values: &[usize]) -> (total: usize)
    requires
        sum(values@) <= usize::MAX,
    ensures
        total == sum(values@),
{
    let mut total: usize = 0;
    for i in 0..values.len()
        invariant
            sum(values@) <= usize::MAX,
            total == sum(values@.take(i as int)),
    {
        assert(values@.take(i + 1).drop_last() =~= values@.take(i as int));
        proof {
            lemma_sum_take(values@, i + 1);
        }
        total = total + values[i];
    }
    assert(values@.take(values@.len() as int) =~= values@);
    total
}

/// A word of 64 bits, read as a signed number.
pub open spec fn signed_64(value: int) -> int {
    if value <= i64::MAX {
        value
    } else {
        value - 0x1_0000_0000_0000_0000
    }
}

/// Reads a word as a signed number of 64 bits.
fn to_signed_64(value: usize) -> (signed: i128)
    ensures
        signed == signed_64(value as int),
{
    if value as u64 <= i64::MAX as u64 {
        value as i128
    } else {
        value as i128 - 0x1_0000_0000_0000_0000
    }
}

/// The average of some numbers, rounded towards 0.
pub open spec fn average(values: Seq<usize>) -> int {
    let total = signed_64(sum(values));
    if total >= 0 {
        total / values.len() as int
    } else {
        -((-total) / values.len() as int)
    }
}

/// How far a number is from the middle, modulo 2^32.
pub open spec fn deviation(value: usize, middle: int) -> int {
    vstd::math::abs(signed_64(value as int) - middle) as int % 0x1_0000_0000
}

/// The sum of the deviations of some numbers.
pub open spec fn deviations(values: Seq<usize>, middle: int) -> int
    decreases values.len(),
{
    if values.len() == 0 {
        0
    } else {
        deviations(values.drop_last(), middle) + deviation(values.last(), middle)
    }
}

/// How uneven a schedule is: the deviations from its average added up.
pub open spec fn spec_jitter_score(schedule: Seq<usize>) -> int {
    if schedule.len() <= 1 {
        0
    } else {
        deviations(schedule, average(schedule))
    }
}

/// Whether the jitter of a schedule can be computed in machine words.
pub open spec fn jitter_fits(schedule: Seq<usize>) -> bool {
    schedule.len() <= 1 || {
        &&& sum(schedule) <= usize::MAX
        &&& forall|i: int|
            0 <= i < schedule.len() ==> i64::MIN <= signed_64(#[trigger] schedule[i] as int)
                - average(schedule) <= i64::MAX
        &&& spec_jitter_score(schedule) <= u32::MAX
    }
}

/// The first deviations add up to no more than all of them.
proof fn lemma_deviations_take(values: Seq<usize>, middle: int, n: int)
    requires
        0 <= n <= values.len(),
    ensures
        0 <= deviations(values.take(n), middle) <= deviations(values, middle),
    decreases values.len(),
{
    if n == values.len() {
        assert(values.take(n) =~= values);
        if n > 0 {
            lemma_deviations_take(values.drop_last(), middle, n - 1);
        }
    } else {
        assert(values.drop_last().take(n) =~= values.take(n));
        lemma_deviations_take(values.drop_last(), middle, n);
    }
}

/// Tells how uneven a schedule is.
pub fn compute_jitter_score(schedule: &[usize]) -> (score: u32)
    requires
        jitter_fits(schedule@),
    ensures
        score == spec_jitter_score(schedule@),
{
    if schedule.len() <= 1 {
        return 0;
    }
    let total: i128 = to_signed_64(total_of(schedule));
    let count: u64 = schedule.len() as u64;
    let middle: i128 = if total >= 0 {
        (total as u64 / count) as i128
    } else {
        -(((-total) as u64 / count) as i128)
    };
    let mut score: u32 = 0;
    for i in 0..schedule.len()
        invariant
            schedule.len() > 1,
            jitter_fits(schedule@),
            middle == average(schedule@),
            score == deviations(schedule@.take(i as int), middle as int),
    {
        let difference: i128 = to_signed_64(schedule[i]) - middle;
        let distance: i128 = if difference >= 0 {
            difference
        } else {
            -difference
        };
        assert(schedule@.take(i + 1).drop_last() =~= schedule@.take(i as int));
        proof {
            lemma_deviations_take(schedule@, middle as int, i + 1);
        }
        score = score + (distance as u64 % 0x1_0000_0000) as u32;
    }
    assert(schedule@.take(schedule@.len() as int) =~= schedule@);
    score
}

/// Splits the frames of a schedule anew.
pub fn redistribute_schedule(schedule: &[usize], target_chunk: usize) -> (redistributed: Vec<usize>)
    requires
        sum(schedule@) <= usize::MAX,
    ensures
        redistributed@ == spec_schedule(sum(schedule@), vstd::math::max(target_chunk as int, 1)),
{
    if schedule.len() == 0 {
        return Vec::new();
    }
    split_transfer_schedule(total_of(schedule), target_chunk)
}

/// The name of a range of latencies.
pub open spec fn spec_latency_bucket(latency_ms: u32) -> Seq<char> {
    if latency_ms <= 10 {
        "ultra-low"@
    } else if latency_ms <= 20 {
        "low"@
    } else if latency_ms <= 50 {
        "interactive"@
    } else if latency_ms <= 120 {
        "media"@
    } else {
        "background"@
    }
}

/// Names the range in which a latency falls.
pub fn classify_latency_bucket(latency_ms: u32) -> (bucket: &'static str)
    ensures
        bucket@ == spec_latency_bucket(latency_ms),
{
    if latency_ms <= 10 {
        "ultra-low"
    } else if latency_ms <= 20 {
        "low"
    } else if latency_ms <= 50 {
        "interactive"
    } else if latency_ms <= 120 {
        "media"
    } else {
        "background"
    }
}

/// Aligning gives the least multiple of the alignment that is not below the value, and aligning
/// again changes nothing.
pub proof fn law_align_up(value: int, align: int)
    requires
        0 <= value,
        1 <= align,
    ensures
        spec_align_up(value, align) % align == 0,
        value <= spec_align_up(value, align) < value + align,
        forall|multiple: int|
            value <= multiple && #[trigger] (multiple % align) == 0 ==> spec_align_up(value, align)
                <= multiple,
        spec_align_up(spec_align_up(value, align), align) == spec_align_up(value, align),
{
    let aligned = spec_align_up(value, align);
    let quotient = value / align;
    let rest = value % align;
    assert(value == quotient * align + rest && 0 <= rest < align) by (nonlinear_arith)
        requires
            1 <= align,
            quotient == value / align,
            rest == value % align,
    ;
    if rest != 0 {
        assert(aligned == (quotient + 1) * align) by (nonlinear_arith)
            requires
                aligned == value + (align - rest),
                value == quotient * align + rest,
        ;
        lemma_multiple(quotient + 1, align);
    }
    assert forall|multiple: int|
        value <= multiple && #[trigger] (multiple % align) == 0 implies aligned <= multiple by {
        let times = multiple / align;
        assert(multiple == times * align) by (nonlinear_arith)
            requires
                1 <= align,
                multiple % align == 0,
                times == multiple / align,
        ;
        if rest != 0 {
            assert(times >= quotient + 1) by (nonlinear_arith)
                requires
                    1 <= align,
                    quotient * align < times * align,
            ;
            assert((quotient + 1) * align <= times * align) by (nonlinear_arith)
                requires
                    1 <= align,
                    quotient + 1 <= times,
            ;
        }
    }
}

/// A multiple leaves no rest.
proof fn lemma_multiple(times: int, align: int)
    requires
        1 <= align,
    ensures
        (times * align) % align == 0,
{
    assert((times * align) % align == 0) by (nonlinear_arith)
        requires
            1 <= align,
    ;
}

/// Frames that fit in a word of bytes come back from their bytes, and the whole frames in some
/// bytes never take more than those bytes.
pub proof fn law_frames_and_bytes(frames: usize, bytes: usize, frame_bytes: usize)
    requires
        frame_bytes > 0,
    ensures
        frames * frame_bytes <= usize::MAX ==> spec_bytes_to_frames(
            spec_frames_to_bytes(frames, frame_bytes),
            frame_bytes,
        ) == frames,
        0 <= spec_bytes_to_frames(bytes as int, frame_bytes) * frame_bytes <= bytes,
{
    assert((frames * frame_bytes) / frame_bytes as int == frames) by (nonlinear_arith)
        requires
            frame_bytes > 0,
    ;
    assert(0 <= (bytes as int / frame_bytes as int) * frame_bytes <= bytes) by (nonlinear_arith)
        requires
            frame_bytes > 0,
    ;
}

/// The sums of two sequences add up.
proof fn lemma_sum_concat(left: Seq<usize>, right: Seq<usize>)
    ensures
        sum(left + right) == sum(left) + sum(right),
    decreases right.len(),
{
    if right.len() == 0 {
        assert(left + right =~= left);
    } else {
        assert((left + right).drop_last() =~= left + right.drop_last());
        lemma_sum_concat(left, right.drop_last());
    }
}

/// A schedule moves every frame: its transfers add up to the total. All of them take a whole
/// chunk but the last, which takes at least one frame and at most a chunk. There are no more
/// transfers than needed.
pub proof fn law_schedule(total: usize, chunk: usize)
    requires
        chunk >= 1,
    ensures
        sum(spec_schedule(total as int, chunk as int)) == total,
        forall|i: int|
            0 <= i < spec_schedule(total as int, chunk as int).len() - 1
                ==> #[trigger] spec_schedule(total as int, chunk as int)[i] == chunk,
        total > 0 ==> 1 <= spec_schedule(total as int, chunk as int).last() <= chunk,
        total == 0 <==> spec_schedule(total as int, chunk as int).len() == 0,
        total <= spec_schedule(total as int, chunk as int).len() * chunk,
        total > 0 ==> (spec_schedule(total as int, chunk as int).len() - 1) * chunk < total,
    decreases total,
{
    let schedule = spec_schedule(total as int, chunk as int);
    if total > chunk {
        let rest = spec_schedule(total - chunk, chunk as int);
        law_schedule((total - chunk) as usize, chunk);
        lemma_sum_concat(seq![chunk], rest);
        assert(seq![chunk].drop_last() =~= Seq::empty());
        assert(sum(seq![chunk]) == chunk) by {
            reveal_with_fuel(sum, 2);
        }
        assert forall|i: int| 0 <= i < schedule.len() - 1 implies #[trigger] schedule[i]
            == chunk by {
            if i > 0 {
                assert(schedule[i] == rest[i - 1]);
            }
        }
        assert(schedule.last() == rest.last());
        let n = rest.len() as int;
        assert((n + 1) * chunk == n * chunk + chunk && n * chunk == (n - 1) * chunk + chunk)
            by (nonlinear_arith);
    } else if total > 0 {
        assert(schedule =~= seq![total]);
        assert(schedule.drop_last() =~= Seq::empty());
        reveal_with_fuel(sum, 2);
        assert(1 * chunk == chunk && 0 * chunk == 0) by (nonlinear_arith);
    } else {
        assert(0 * chunk == 0) by (nonlinear_arith);
    }
}

/// Redistributing a schedule keeps the number of frames, and smaller chunks never give fewer
/// transfers than larger ones.
pub proof fn law_redistribute(schedule: Seq<usize>, finer: usize, coarser: usize)
    requires
        sum(schedule) <= usize::MAX,
        1 <= finer <= coarser,
    ensures
        sum(spec_schedule(sum(schedule), finer as int)) == sum(schedule),
        spec_schedule(sum(schedule), coarser as int).len() <= spec_schedule(
            sum(schedule),
            finer as int,
        ).len(),
{
    lemma_sum_take(schedule, schedule.len() as int);
    assert(schedule.take(schedule.len() as int) =~= schedule);
    let total = sum(schedule) as usize;
    law_schedule(total, finer);
    law_schedule(total, coarser);
    if total > 0 {
        let many = spec_schedule(total as int, finer as int).len() as int;
        let few = spec_schedule(total as int, coarser as int).len() as int;
        assert(few <= many) by (nonlinear_arith)
            requires
                1 <= finer <= coarser,
                1 <= few,
                (few - 1) * coarser < total,
                total <= many * finer,
        ;
    }
}

/// More transfers in flight and more queued control operations never lower the pressure.
pub proof fn law_pressure_grows(inflight: usize, control: usize, more: usize, more_control: usize)
    requires
        inflight <= more,
        control <= more_control,
    ensures
        pressure_level(spec_queue_pressure(inflight, control)) <= pressure_level(
            spec_queue_pressure(more, more_control),
        ),
{
}

/// More pressure never prefetches fewer periods, allows fewer transfers in flight or interrupts
/// more often.
pub proof fn law_plan_follows_pressure(
    profile: AudioWorkloadProfile,
    hint: SchedulingHint,
    low: QueuePressure,
    high: QueuePressure,
)
    requires
        pressure_level(low) <= pressure_level(high),
        buffer_plan_fits(profile, hint, low),
        buffer_plan_fits(profile, hint, high),
    ensures
        ({
            let calm = spec_buffer_plan(profile, hint, low);
            let busy = spec_buffer_plan(profile, hint, high);
            &&& calm.prefetched_periods <= busy.prefetched_periods
            &&& calm.irq_interval_frames <= busy.irq_interval_frames
            &&& calm.period_bytes == busy.period_bytes
            &&& calm.buffer_bytes == busy.buffer_bytes
            &&& spec_queue_budget(profile, calm, low).max_inflight_transfers
                <= spec_queue_budget(profile, busy, high).max_inflight_transfers
        }),
{
}

/// A period is made of whole blocks of 64 bytes.
proof fn lemma_period_blocks(profile: AudioWorkloadProfile, hint: SchedulingHint)
    ensures
        0 <= period_bytes(profile, hint) <= u32::MAX,
        period_bytes(profile, hint) % 64 == 0,
{
    let frames = period_frames(profile, hint) as usize;
    assert(0 <= frames * profile.frame_bytes) by (nonlinear_arith);
    law_align_up(spec_frames_to_bytes(frames, profile.frame_bytes), 64);
}

/// What holds of every buffer: it has 2 to 8 periods of whole blocks of 64 bytes, and is as large
/// as they are together or as large as can be. Some periods, but no more than there are, are
/// filled ahead. Interrupts are at least 32 frames apart.
pub proof fn law_buffer_bounds(
    profile: AudioWorkloadProfile,
    hint: SchedulingHint,
    pressure: QueuePressure,
)
    requires
        buffer_plan_fits(profile, hint, pressure),
    ensures
        ({
            let buffer = spec_buffer_plan(profile, hint, pressure);
            &&& 2 <= buffer.periods <= 8
            &&& buffer.period_bytes % 64 == 0
            &&& buffer.buffer_bytes == vstd::math::min(
                buffer.period_bytes * buffer.periods,
                u32::MAX as int,
            )
            &&& 1 <= buffer.prefetched_periods <= buffer.periods
            &&& 32 <= buffer.irq_interval_frames
        }),
{
    lemma_period_blocks(profile, hint);
    let bytes = period_bytes(profile, hint);
    let periods = spec_period_count(profile.class, hint);
    assert(0 <= bytes * periods) by (nonlinear_arith)
        requires
            0 <= bytes,
            0 <= periods,
    ;
}

/// What holds of every budget: 4 to 64 transfers may be in flight, and 2 to 32 control
/// descriptors are held back.
pub proof fn law_budget_bounds(
    profile: AudioWorkloadProfile,
    buffer: BufferPlan,
    pressure: QueuePressure,
)
    ensures
        ({
            let budget = spec_queue_budget(profile, buffer, pressure);
            &&& 3 <= budget.descriptors_per_transfer <= 4
            &&& 4 <= budget.max_inflight_transfers <= 64
            &&& 2 <= budget.reserved_control_descriptors <= 32
        }),
{
}

/// Of two buffers that fill as many periods ahead, the one whose latency is closer to the target
/// never scores lower.
pub proof fn law_closer_latency_scores_higher(
    profile: AudioWorkloadProfile,
    closer: BufferPlan,
    farther: BufferPlan,
    queue: QueueBudget,
)
    requires
        closer.prefetched_periods == farther.prefetched_periods,
        vstd::math::abs(latency_excess(profile, closer)) <= vstd::math::abs(
            latency_excess(profile, farther),
        ),
    ensures
        spec_score(profile, farther, queue) <= spec_score(profile, closer, queue),
{
}

/// Every combination of what to favour and pressure is among the candidates.
proof fn lemma_candidate(
    profile: AudioWorkloadProfile,
    hint: SchedulingHint,
    pressure: QueuePressure,
) -> (i: int)
    ensures
        0 <= i < 16,
        spec_candidates(profile)[i] == spec_stream_plan(profile, hint, pressure),
{
    let row: int = match hint {
        SchedulingHint::Balanced => 0,
        SchedulingHint::LatencyFirst => 1,
        SchedulingHint::ThroughputFirst => 2,
        SchedulingHint::PowerSaving => 3,
    };
    4 * row + pressure_level(pressure) - 1
}

/// No plan for a workload scores higher than the best one, so neither does the plan that any state
/// of the queues gives. No other plan stands first among the best.
pub proof fn law_best_plan(
    profile: AudioWorkloadProfile,
    best: StreamPlan,
    other: StreamPlan,
    hint: SchedulingHint,
    pressure: QueuePressure,
)
    requires
        is_first_best(spec_candidates(profile), best),
    ensures
        spec_stream_plan(profile, hint, pressure).score <= best.score,
        best == spec_stream_plan(profile, best.hint, best.pressure),
        is_first_best(spec_candidates(profile), other) ==> other == best,
{
    let i = lemma_candidate(profile, hint, pressure);
    assert(spec_candidates(profile)[i].score <= best.score);
}

/// A schedule of equal transfers, whose sum fits in a signed word, has no jitter.
pub proof fn law_even_schedule_has_no_jitter(schedule: Seq<usize>, value: usize)
    requires
        forall|i: int| 0 <= i < schedule.len() ==> schedule[i] == value,
        sum(schedule) <= i64::MAX,
    ensures
        spec_jitter_score(schedule) == 0,
{
    if schedule.len() > 1 {
        let n = schedule.len() as int;
        lemma_equal_sum(schedule, value);
        assert(n * value >= 2 * value) by (nonlinear_arith)
            requires
                n >= 2,
                value >= 0,
        ;
        assert((n * value) / n == value) by (nonlinear_arith)
            requires
                n >= 2,
        ;
        lemma_no_deviation(schedule, value);
    }
}

/// Equal numbers add up to a multiple.
proof fn lemma_equal_sum(values: Seq<usize>, value: usize)
    requires
        forall|i: int| 0 <= i < values.len() ==> values[i] == value,
    ensures
        sum(values) == values.len() * value,
    decreases values.len(),
{
    if values.len() > 0 {
        lemma_equal_sum(values.drop_last(), value);
        let n = values.len() as int;
        assert((n - 1) * value + value == n * value) by (nonlinear_arith);
    } else {
        assert(0 * value == 0) by (nonlinear_arith);
    }
}

/// Numbers that all equal the middle do not deviate from it.
proof fn lemma_no_deviation(values: Seq<usize>, value: usize)
    requires
        forall|i: int| 0 <= i < values.len() ==> values[i] == value,
        value <= i64::MAX,
    ensures
        deviations(values, value as int) == 0,
    decreases values.len(),
{
    if values.len() > 0 {
        lemma_no_deviation(values.drop_last(), value);
    }
}

/// Every plan for a workload of ordinary size can be computed.
pub proof fn law_ordinary_workloads_fit(profile: AudioWorkloadProfile)
    requires
        profile.burst_frames <= 0x10_0000,
        profile.sustained_frames <= 0x10_0000,
        profile.frame_bytes <= 0x400,
        profile.sample_rate >= 1000,
        profile.target_latency_ms <= 60_000,
    ensures
        candidates_fit(profile),
{
    assert forall|hint: SchedulingHint, pressure: QueuePressure| #[trigger]
        plan_fits(profile, hint, pressure) by {
        let frames = period_frames(profile, hint);
        let frame_bytes = profile.frame_bytes as int;
        assert(0 <= frames * frame_bytes <= 0x18_0000 * 0x400) by (nonlinear_arith)
            requires
                0 <= frames <= 0x18_0000,
                0 <= frame_bytes <= 0x400,
        ;
        let bytes = aligned_period_bytes(profile, hint);
        law_align_up(frames * frame_bytes, 64);
        assert(period_bytes(profile, hint) == bytes);
        let buffer = spec_buffer_plan(profile, hint, pressure);
        let whole = spec_bytes_to_frames(bytes, profile.frame_bytes);
        if frame_bytes > 0 {
            assert(0 <= bytes / frame_bytes <= frames + 63) by (nonlinear_arith)
                requires
                    frame_bytes > 0,
                    0 <= frames * frame_bytes <= bytes < frames * frame_bytes + 64,
            ;
        }
        let total = buffered_frames(profile, buffer);
        assert(0 <= whole * buffer.periods <= (0x18_0000 + 63) * 8) by (nonlinear_arith)
            requires
                0 <= whole <= 0x18_0000 + 63,
                0 <= buffer.periods <= 8,
        ;
        let rate = profile.sample_rate as int;
        assert(0 <= total * 1000 / rate <= total) by (nonlinear_arith)
            requires
                0 <= total,
                rate >= 1000,
        ;
    }
}

/// Whether `frames` is what a period should hold. One that favours latency holds the burst, but no
/// fewer than 64 frames. One that favours throughput holds the greater of the burst and the
/// sustained frames. One that saves power holds one and a half times the sustained frames, and a
/// balanced one the mean of the two, rounded down, but neither holds less than the burst.
pub open spec fn wanted_frames(
    profile: AudioWorkloadProfile,
    hint: SchedulingHint,
    frames: int,
) -> bool {
    let burst = profile.burst_frames as int;
    let sustained = profile.sustained_frames as int;
    &&& frames >= burst
    &&& hint is LatencyFirst ==> frames >= 64 && (frames == 64 || frames == burst)
    &&& hint is ThroughputFirst ==> frames >= sustained && (frames == sustained || frames == burst)
    &&& hint is PowerSaving ==> 2 * frames + 1 >= 3 * sustained && (frames == burst || 2 * frames
        <= 3 * sustained)
    &&& hint is Balanced ==> 2 * frames + 1 >= burst + sustained && (frames == burst || 2 * frames
        <= burst + sustained)
}

/// A period is made for the frames wanted: it is the least multiple of 64 bytes that holds them,
/// modulo 2^32. The buffer is as many periods, or as large as can be. Interrupts come after half a
/// period on an idle queue, a whole one on a stable queue, five quarters on a busy one and three
/// halves on a saturated one, rounded down, but never under 32 frames apart.
pub proof fn law_buffer_holds_wanted_frames(
    profile: AudioWorkloadProfile,
    hint: SchedulingHint,
    pressure: QueuePressure,
    frames: int,
)
    requires
        buffer_plan_fits(profile, hint, pressure),
        wanted_frames(profile, hint, frames),
    ensures
        ({
            let plan = spec_buffer_plan(profile, hint, pressure);
            let bytes = frames * profile.frame_bytes;
            let apart = plan.irq_interval_frames as int;
            &&& bytes + 63 <= u32::MAX ==> {
                &&& plan.period_bytes % 64 == 0
                &&& bytes <= plan.period_bytes < bytes + 64
            }
            &&& bytes <= usize::MAX ==> exists|aligned: int|
                {
                    &&& bytes <= aligned < bytes + 64
                    &&& #[trigger] (aligned % 64) == 0
                    &&& plan.period_bytes == aligned % 0x1_0000_0000
                }
            &&& plan.period_bytes * plan.periods <= u32::MAX ==> plan.buffer_bytes
                == plan.period_bytes * plan.periods
            &&& plan.period_bytes * plan.periods > u32::MAX ==> plan.buffer_bytes == 0xffff_ffff
            &&& apart >= 32
            &&& pressure is Idle ==> 2 * apart + 1 >= frames && (apart == 32 || 2 * apart <= frames)
            &&& pressure is Stable ==> apart >= frames && (apart == 32 || apart == frames)
            &&& pressure is Busy ==> 4 * apart + 3 >= 5 * frames && (apart == 32 || 4 * apart <= 5
                * frames)
            &&& pressure is Saturated ==> 2 * apart + 1 >= 3 * frames && (apart == 32 || 2 * apart
                <= 3 * frames)
        }),
{
    let plan = spec_buffer_plan(profile, hint, pressure);
    let bytes = frames * profile.frame_bytes;
    assert(period_frames(profile, hint) == frames);
    assert(0 <= bytes) by (nonlinear_arith)
        requires
            0 <= frames,
            bytes == frames * profile.frame_bytes,
    ;
    lemma_period_blocks(profile, hint);
    let periods = plan.periods as int;
    let period = plan.period_bytes as int;
    assert(0 <= period * periods) by (nonlinear_arith)
        requires
            0 <= period,
            0 <= periods,
    ;
    if bytes <= usize::MAX {
        let aligned = aligned_period_bytes(profile, hint);
        law_align_up(bytes, 64);
        assert(aligned % 64 == 0);
    }
}

/// A period of a plan that favours throughput holds at least the sustained frames and at least the
/// burst, and is the least multiple of 64 bytes that does.
pub proof fn law_throughput_periods_hold_everything(
    profile: AudioWorkloadProfile,
    pressure: QueuePressure,
)
    requires
        buffer_plan_fits(profile, SchedulingHint::ThroughputFirst, pressure),
        profile.sustained_frames * profile.frame_bytes + 63 <= u32::MAX,
        profile.burst_frames * profile.frame_bytes + 63 <= u32::MAX,
    ensures
        ({
            let plan = spec_buffer_plan(profile, SchedulingHint::ThroughputFirst, pressure);
            let sustained = profile.sustained_frames * profile.frame_bytes;
            let burst = profile.burst_frames * profile.frame_bytes;
            &&& plan.period_bytes >= sustained
            &&& plan.period_bytes >= burst
            &&& plan.period_bytes % 64 == 0
            &&& plan.period_bytes < sustained + 64 || plan.period_bytes < burst + 64
        }),
{
    let sustained = profile.sustained_frames as int;
    let burst = profile.burst_frames as int;
    let each = profile.frame_bytes as int;
    if sustained >= burst {
        assert(burst * each <= sustained * each) by (nonlinear_arith)
            requires
                burst <= sustained,
                0 <= each,
        ;
        law_buffer_holds_wanted_frames(
            profile,
            SchedulingHint::ThroughputFirst,
            pressure,
            sustained,
        );
    } else {
        assert(sustained * each <= burst * each) by (nonlinear_arith)
            requires
                sustained <= burst,
                0 <= each,
        ;
        law_buffer_holds_wanted_frames(profile, SchedulingHint::ThroughputFirst, pressure, burst);
    }
}

/// A buffer that favours latency has 3 periods, or 2 for voice and games. One that favours
/// throughput has 6, or 8 for rendering. One that saves power has 5, or 6 for capture in the
/// background. A balanced one has 4, or 3 for notifications. A period is filled ahead on an idle
/// queue, and one more for each degree of pressure, as long as there are periods.
pub proof fn law_period_counts(
    profile: AudioWorkloadProfile,
    hint: SchedulingHint,
    pressure: QueuePressure,
)
    ensures
        ({
            let plan = spec_buffer_plan(profile, hint, pressure);
            let class = profile.class;
            let quick = class is VoiceAssistant || class is GameAudio;
            &&& plan.periods == spec_period_count(class, hint)
            &&& hint is LatencyFirst ==> plan.periods == 2 || plan.periods == 3
            &&& hint is LatencyFirst ==> (plan.periods == 2 <==> quick)
            &&& hint is ThroughputFirst ==> plan.periods == 6 || plan.periods == 8
            &&& hint is ThroughputFirst ==> (plan.periods == 8 <==> class is StudioRender)
            &&& hint is PowerSaving ==> plan.periods == 5 || plan.periods == 6
            &&& hint is PowerSaving ==> (plan.periods == 6 <==> class is BackgroundCapture)
            &&& hint is Balanced ==> plan.periods == 3 || plan.periods == 4
            &&& hint is Balanced ==> (plan.periods == 3 <==> class is NotificationBurst)
            &&& pressure is Idle ==> plan.prefetched_periods == 1
            &&& pressure is Stable ==> plan.prefetched_periods == 2
            &&& pressure is Busy ==> plan.prefetched_periods == 3 || plan.prefetched_periods
                == plan.periods < 3
            &&& pressure is Saturated ==> plan.prefetched_periods == 4 || plan.prefetched_periods
                == plan.periods < 4
            &&& plan.prefetched_periods <= plan.periods
        }),
{
}

/// A queue is idle where nothing is in flight and no control operation waits. Otherwise it is
/// stable under 8 transfers and 4 operations, busy under 24 and 12, and saturated beyond.
pub proof fn law_pressure_edges(inflight: usize, control: usize)
    ensures
        spec_queue_pressure(inflight, control) is Idle <==> inflight == 0 && control == 0,
        spec_queue_pressure(inflight, control) is Saturated <==> inflight >= 24 || control >= 12,
        spec_queue_pressure(inflight, control) is Busy <==> (8 <= inflight || 4 <= control)
            && inflight < 24 && control < 12,
        spec_queue_pressure(inflight, control) is Stable <==> (1 <= inflight || 1 <= control)
            && inflight < 8 && control < 4,
        pressure_level(QueuePressure::Idle) == 1,
        pressure_level(QueuePressure::Stable) == 2,
        pressure_level(QueuePressure::Busy) == 3,
        pressure_level(QueuePressure::Saturated) == 4,
{
}

/// Voice, games and monitoring favour latency, rendering favours throughput, telemetry and capture
/// in the background save power, and playback and notifications are balanced.
pub proof fn law_hints_suit_workloads(class: WorkloadClass)
    ensures
        spec_scheduling_hint(class) is LatencyFirst <==> class is VoiceAssistant
            || class is GameAudio || class is LowLatencyMonitor,
        spec_scheduling_hint(class) is ThroughputFirst <==> class is StudioRender,
        spec_scheduling_hint(class) is PowerSaving <==> class is Telemetry
            || class is BackgroundCapture,
        spec_scheduling_hint(class) is Balanced <==> class is MultimediaPlayback
            || class is NotificationBurst,
{
}

/// A transfer takes 4 descriptors in both directions at once and 3 in one, and 8 or 4 event
/// descriptors are held back. On an idle queue 4 transfers may be in flight, and 4 more for each
/// degree of pressure, plus a third of the descriptors of the periods filled ahead, rounded down,
/// but never over 64. As many control descriptors are held back as there are control operations
/// each second, but no fewer than 2 and no more than 32.
pub proof fn law_budget_shares(
    profile: AudioWorkloadProfile,
    buffer: BufferPlan,
    pressure: QueuePressure,
)
    ensures
        ({
            let budget = spec_queue_budget(profile, buffer, pressure);
            let each = budget.descriptors_per_transfer as int;
            let least: int = if pressure is Idle {
                4
            } else if pressure is Stable {
                8
            } else if pressure is Busy {
                12
            } else {
                16
            };
            let extra = budget.max_inflight_transfers - least;
            let ahead = buffer.prefetched_periods * each;
            let asked = profile.control_ops_per_second;
            let held = budget.reserved_control_descriptors;
            &&& profile.duplex ==> each == 4 && budget.reserved_event_descriptors == 8
            &&& !profile.duplex ==> each == 3 && budget.reserved_event_descriptors == 4
            &&& budget.max_inflight_transfers <= 64
            &&& 3 * extra <= ahead
            &&& budget.max_inflight_transfers < 64 ==> ahead < 3 * extra + 3
            &&& 2 <= held <= 32
            &&& 2 <= asked <= 32 ==> held == asked
            &&& asked < 2 ==> held == 2
            &&& asked > 32 ==> held == 32
        }),
{
}

/// A quotient is the one number whose product reaches the dividend without passing it.
proof fn lemma_quotient(dividend: int, divisor: int, quotient: int)
    requires
        divisor > 0,
        quotient * divisor <= dividend < (quotient + 1) * divisor,
    ensures
        dividend / divisor == quotient,
{
    assert(dividend / divisor == quotient) by (nonlinear_arith)
        requires
            divisor > 0,
            quotient * divisor <= dividend < (quotient + 1) * divisor,
    ;
}

/// Frames last as many whole milliseconds as fit into them at their rate, modulo 2^32. At the rate
/// 0 they last no time.
pub proof fn law_latency_fills_the_frames(frames: int, sample_rate: u32, ms: int)
    requires
        0 <= frames,
        0 <= ms,
        ms * sample_rate <= frames * 1000 < (ms + 1) * sample_rate,
    ensures
        spec_latency_ms(frames, sample_rate) == ms % 0x1_0000_0000,
        spec_latency_ms(frames, 0) == 0,
{
    assert(sample_rate > 0) by (nonlinear_arith)
        requires
            ms * sample_rate < (ms + 1) * sample_rate,
    ;
    lemma_quotient(frames * 1000, sample_rate as int, ms);
}

/// Bytes of frames are as many times the bytes of one, or the largest number there is; whole frames
/// in bytes are as many as fit.
pub proof fn law_frames_fill_bytes(frames: usize, frame_bytes: usize, bytes: int, whole: int)
    requires
        whole * frame_bytes <= bytes < (whole + 1) * frame_bytes,
    ensures
        frames * frame_bytes <= usize::MAX ==> spec_frames_to_bytes(frames, frame_bytes) == frames
            * frame_bytes,
        frames * frame_bytes > usize::MAX ==> spec_frames_to_bytes(frames, frame_bytes)
            == usize::MAX,
        spec_bytes_to_frames(bytes, frame_bytes) == whole,
        spec_bytes_to_frames(bytes, 0) == 0,
{
    assert(frame_bytes > 0) by (nonlinear_arith)
        requires
            whole * frame_bytes < (whole + 1) * frame_bytes,
    ;
    lemma_quotient(bytes, frame_bytes as int, whole);
}

/// A word of 32 bits counts as negative from 2^31 on, and one of 64 bits from 2^63 on.
pub proof fn law_signed_words(word: u32, long: u64)
    ensures
        word < 0x8000_0000 ==> signed_32(word as int) == word,
        word >= 0x8000_0000 ==> signed_32(word as int) == word - 0x1_0000_0000,
        long < 0x8000_0000_0000_0000 ==> signed_64(long as int) == long,
        long >= 0x8000_0000_0000_0000 ==> signed_64(long as int) == long - 0x1_0000_0000_0000_0000,
{
}

/// Whether a plan has the points that it should. It starts from 200. It loses one for each
/// millisecond by which it misses the target, early or late, and one for every two control
/// descriptors held back. It gains one for each transfer in flight and three for each period filled
/// ahead.
pub open spec fn points(
    buffer: BufferPlan,
    queue: QueueBudget,
    latency: int,
    target: int,
    score: int,
) -> bool {
    let gained = queue.max_inflight_transfers + 3 * buffer.prefetched_periods;
    let missed = 2 * (200 + gained - score) - queue.reserved_control_descriptors;
    &&& latency >= target ==> 2 * (latency - target) - 1 <= missed <= 2 * (latency - target)
    &&& latency < target ==> 2 * (target - latency) - 1 <= missed <= 2 * (target - latency)
}

/// A plan has the points for the milliseconds that its whole buffer lasts, `frames` frames in each
/// period. Latency and target count as signed words.
pub proof fn law_score_counts_points(
    profile: AudioWorkloadProfile,
    buffer: BufferPlan,
    queue: QueueBudget,
    frames: int,
    ms: int,
)
    requires
        0 <= frames,
        0 <= ms,
        frames * profile.frame_bytes <= buffer.period_bytes < (frames + 1) * profile.frame_bytes,
        ms * profile.sample_rate <= frames * buffer.periods * 1000 < (ms + 1) * profile.sample_rate,
    ensures
        ms < 0x8000_0000 && profile.target_latency_ms < 0x8000_0000 ==> points(
            buffer,
            queue,
            ms,
            profile.target_latency_ms as int,
            spec_score(profile, buffer, queue),
        ),
        points(
            buffer,
            queue,
            signed_32(ms % 0x1_0000_0000),
            signed_32(profile.target_latency_ms as int),
            spec_score(profile, buffer, queue),
        ),
{
    law_frames_fill_bytes(0, profile.frame_bytes, buffer.period_bytes as int, frames);
    let total = frames * buffer.periods;
    assert(0 <= total) by (nonlinear_arith)
        requires
            0 <= frames,
            total == frames * buffer.periods,
    ;
    law_latency_fills_the_frames(total, profile.sample_rate, ms);
}

/// A plan without a rate, or whose frames have no bytes, has the points for a latency of 0.
pub proof fn law_score_without_latency(
    profile: AudioWorkloadProfile,
    buffer: BufferPlan,
    queue: QueueBudget,
)
    requires
        profile.sample_rate == 0 || profile.frame_bytes == 0,
        profile.target_latency_ms < 0x8000_0000,
    ensures
        points(
            buffer,
            queue,
            0,
            profile.target_latency_ms as int,
            spec_score(profile, buffer, queue),
        ),
{
    if profile.sample_rate != 0 {
        assert(0 * buffer.periods == 0) by (nonlinear_arith);
        law_latency_fills_the_frames(0, profile.sample_rate, 0);
    }
}

/// A plan carries what it was made for, and its parts belong together: the budget is the one for
/// its buffer, and the score is that of the two.
pub proof fn law_plan_parts_belong_together(
    profile: AudioWorkloadProfile,
    hint: SchedulingHint,
    pressure: QueuePressure,
)
    requires
        plan_fits(profile, hint, pressure),
    ensures
        ({
            let plan = spec_stream_plan(profile, hint, pressure);
            &&& plan.hint == hint
            &&& plan.pressure == pressure
            &&& plan.buffer == spec_buffer_plan(profile, hint, pressure)
            &&& plan.queue == spec_queue_budget(profile, plan.buffer, pressure)
            &&& plan.score == spec_score(profile, plan.buffer, plan.queue)
        }),
{
}

/// There are sixteen candidates. They come in fours: balanced, for latency, for throughput, to save
/// power. Each four go from an idle queue to a saturated one.
pub proof fn law_candidates_in_order(profile: AudioWorkloadProfile, i: int)
    requires
        0 <= i < 16,
    ensures
        spec_candidates(profile).len() == 16,
        ({
            let plan = spec_candidates(profile)[i];
            &&& plan == spec_stream_plan(profile, plan.hint, plan.pressure)
            &&& plan.hint is Balanced <==> i < 4
            &&& plan.hint is LatencyFirst <==> 4 <= i < 8
            &&& plan.hint is ThroughputFirst <==> 8 <= i < 12
            &&& plan.hint is PowerSaving <==> 12 <= i
            &&& plan.pressure is Idle <==> i % 4 == 0
            &&& plan.pressure is Stable <==> i % 4 == 1
            &&& plan.pressure is Busy <==> i % 4 == 2
            &&& plan.pressure is Saturated <==> i % 4 == 3
        }),
{
}

/// One more number adds itself to a sum, and its distance from the middle to the deviations.
pub proof fn law_sums_add_up(values: Seq<usize>, value: usize, middle: int)
    requires
        value <= i64::MAX,
        -0x1_0000_0000 < value - middle < 0x1_0000_0000,
    ensures
        sum(Seq::empty()) == 0,
        sum(values.push(value)) == sum(values) + value,
        deviations(Seq::empty(), middle) == 0,
        value >= middle ==> deviations(values.push(value), middle) == deviations(values, middle) + (
        value - middle),
        value < middle ==> deviations(values.push(value), middle) == deviations(values, middle) + (
        middle - value),
{
    assert(values.push(value).drop_last() =~= values);
}

/// The jitter of a schedule is how far its transfers are from their average in all, where the
/// average is rounded down to whole frames. A schedule of one transfer has none.
pub proof fn law_jitter_measures_deviations(schedule: Seq<usize>, middle: int)
    requires
        0 <= sum(schedule) <= i64::MAX,
        middle * schedule.len() <= sum(schedule) < (middle + 1) * schedule.len(),
    ensures
        schedule.len() <= 1 ==> spec_jitter_score(schedule) == 0,
        schedule.len() > 1 ==> spec_jitter_score(schedule) == deviations(schedule, middle),
{
    if schedule.len() > 1 {
        lemma_quotient(sum(schedule), schedule.len() as int, middle);
    }
}

/// Latencies fall into five ranges that end at 10, 20, 50 and 120 milliseconds.
pub proof fn law_latency_buckets(latency_ms: u32)
    ensures
        latency_ms <= 10 ==> spec_latency_bucket(latency_ms) == "ultra-low"@,
        11 <= latency_ms <= 20 ==> spec_latency_bucket(latency_ms) == "low"@,
        21 <= latency_ms <= 50 ==> spec_latency_bucket(latency_ms) == "interactive"@,
        51 <= latency_ms <= 120 ==> spec_latency_bucket(latency_ms) == "media"@,
        latency_ms >= 121 ==> spec_latency_bucket(latency_ms) == "background"@,
{
}

/// Aligning to 0 or to 1 changes nothing.
pub proof fn law_trivial_alignment(value: int)
    requires
        0 <= value,
    ensures
        spec_align_up(value, 0) == value,
        spec_align_up(value, 1) == value,
{
}

/// The best plan stands first: no candidate in front of it scores as high.
pub proof fn law_best_plan_stands_first(profile: AudioWorkloadProfile, best: StreamPlan, i: int)
    requires
        is_first_best(spec_candidates(profile), best),
        0 <= i < 16,
        spec_candidates(profile)[i].score >= best.score,
    ensures
        spec_candidates(profile)[i].score == best.score,
        exists|k: int| 0 <= k <= i && #[trigger] spec_candidates(profile)[k] == best,
{
    let plans = spec_candidates(profile);
    let k = choose|k: int|
        {
            &&& 0 <= k < plans.len()
            &&& best == #[trigger] plans[k]
            &&& forall|j: int| 0 <= j < plans.len() ==> (#[trigger] plans[j]).score <= best.score
            &&& forall|j: int| 0 <= j < k ==> (#[trigger] plans[j]).score < best.score
        };
    assert(plans[i].score <= best.score);
    assert(k <= i);
    assert(spec_candidates(profile)[k] == best);
}

/// A sum from 2^63 on counts as negative, and its average is rounded towards 0. A number deviates
/// by its distance from the middle, modulo 2^32.
pub proof fn law_jitter_of_large_sums(schedule: Seq<usize>, middle: int, value: usize)
    requires
        schedule.len() > 1,
        0x8000_0000_0000_0000 <= sum(schedule) <= u64::MAX,
        middle * schedule.len() <= 0x1_0000_0000_0000_0000 - sum(schedule) < (middle + 1)
            * schedule.len(),
    ensures
        spec_jitter_score(schedule) == deviations(schedule, -middle),
        deviation(value, middle) == vstd::math::abs(signed_64(value as int) - middle) as int
            % 0x1_0000_0000,
{
    lemma_quotient(
        0x1_0000_0000_0000_0000 - sum(schedule),
        schedule.len() as int,
        middle,
    );
}

} // verus!
