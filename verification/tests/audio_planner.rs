//! Planning.
use rcore_os_virtio_snd::audio_planner::{
    align_up, build_buffer_plan, build_queue_budget, build_stream_plan, bytes_to_frames,
    candidate_plans, choose_period_count, choose_prefetched_periods, choose_scheduling_hint,
    classify_latency_bucket, compute_jitter_score, derive_queue_pressure, estimate_frame_bytes,
    frames_to_bytes, latency_ms_for_frames, redistribute_schedule, score_plan, select_best_plan,
    split_transfer_schedule, AudioWorkloadProfile, BufferPlan, PlannerSnapshot, QueueBudget,
    QueuePressure, SchedulingHint, WorkloadClass,
};

#[test]
fn test_estimate_frame_bytes() {
    assert_eq!(estimate_frame_bytes(2, 16), 4);
    assert_eq!(estimate_frame_bytes(6, 24), 18);
}

#[test]
fn test_align_up() {
    assert_eq!(align_up(63, 64), 64);
    assert_eq!(align_up(128, 64), 128);
}

#[test]
fn test_pressure_derivation() {
    assert_eq!(
        derive_queue_pressure(PlannerSnapshot {
            inflight_transfers: 0,
            completed_transfers: 0,
            queued_control_ops: 0,
            average_batch_frames: 0,
        }),
        QueuePressure::Idle
    );
    assert_eq!(
        derive_queue_pressure(PlannerSnapshot {
            inflight_transfers: 20,
            completed_transfers: 3,
            queued_control_ops: 6,
            average_batch_frames: 256,
        }),
        QueuePressure::Busy
    );
}

#[test]
fn test_build_stream_plan() {
    let profile = AudioWorkloadProfile::competitive_game(48000);
    let plan = build_stream_plan(
        &profile,
        PlannerSnapshot {
            inflight_transfers: 3,
            completed_transfers: 5,
            queued_control_ops: 1,
            average_batch_frames: 128,
        },
    );
    assert!(plan.buffer.period_bytes > 0);
    assert!(plan.queue.max_inflight_transfers >= 4);
}

#[test]
fn test_candidate_plan_generation() {
    let profile = AudioWorkloadProfile::stereo_music(44100);
    let plans = candidate_plans(&profile);
    assert_eq!(plans.len(), 16);
}

#[test]
fn test_schedule_split_and_redistribute() {
    let schedule = split_transfer_schedule(1000, 256);
    assert_eq!(schedule.iter().sum::<usize>(), 1000);
    let redistributed = redistribute_schedule(&schedule, 128);
    assert_eq!(redistributed.iter().sum::<usize>(), 1000);
    assert!(redistributed.len() >= schedule.len());
}

#[test]
fn test_classify_latency_bucket() {
    assert_eq!(classify_latency_bucket(8), "ultra-low");
    assert_eq!(classify_latency_bucket(18), "low");
    assert_eq!(classify_latency_bucket(42), "interactive");
    assert_eq!(classify_latency_bucket(90), "media");
    assert_eq!(classify_latency_bucket(160), "background");
}

const HINTS: [SchedulingHint; 4] = [
    SchedulingHint::Balanced,
    SchedulingHint::LatencyFirst,
    SchedulingHint::ThroughputFirst,
    SchedulingHint::PowerSaving,
];

const PRESSURES: [QueuePressure; 4] = [
    QueuePressure::Idle,
    QueuePressure::Stable,
    QueuePressure::Busy,
    QueuePressure::Saturated,
];

const CLASSES: [WorkloadClass; 8] = [
    WorkloadClass::VoiceAssistant,
    WorkloadClass::MultimediaPlayback,
    WorkloadClass::NotificationBurst,
    WorkloadClass::GameAudio,
    WorkloadClass::LowLatencyMonitor,
    WorkloadClass::BackgroundCapture,
    WorkloadClass::StudioRender,
    WorkloadClass::Telemetry,
];

fn of_class(class: WorkloadClass) -> AudioWorkloadProfile {
    AudioWorkloadProfile { class, ..AudioWorkloadProfile::stereo_music(48000) }
}

fn snapshot(inflight: usize, control: usize) -> PlannerSnapshot {
    PlannerSnapshot {
        inflight_transfers: inflight,
        completed_transfers: 0,
        queued_control_ops: control,
        average_batch_frames: 0,
    }
}

#[test]
fn profiles_have_their_numbers() {
    let music = AudioWorkloadProfile::stereo_music(44100);
    assert_eq!(music.class, WorkloadClass::MultimediaPlayback);
    assert_eq!((music.burst_frames, music.sustained_frames), (512, 1024));
    let voice = AudioWorkloadProfile::interactive_voice(16000);
    assert_eq!((voice.channels, voice.sample_rate, voice.frame_bytes), (1, 16000, 2));
    assert!(voice.duplex);
    let game = AudioWorkloadProfile::competitive_game(48000);
    assert_eq!((game.target_latency_ms, game.control_ops_per_second), (12, 12));
    let studio = AudioWorkloadProfile::studio_render(96000, 6);
    assert_eq!((studio.channels, studio.sample_rate), (6, 96000));
    assert_eq!((studio.frame_bytes, studio.target_latency_ms), (8, 80));
}

#[test]
fn frames_and_bytes() {
    assert_eq!(estimate_frame_bytes(3, 1), 3);
    assert_eq!(estimate_frame_bytes(255, 255), 255 * 32);
    assert_eq!(estimate_frame_bytes(2, 0), 0);
    assert_eq!(frames_to_bytes(100, 6), 600);
    assert_eq!(frames_to_bytes(usize::MAX, 2), usize::MAX);
    assert_eq!(bytes_to_frames(605, 6), 100);
    assert_eq!(bytes_to_frames(605, 0), 0);
    assert_eq!(bytes_to_frames(frames_to_bytes(77, 6), 6), 77);
}

#[test]
fn latencies() {
    assert_eq!(latency_ms_for_frames(480, 48000), 10);
    assert_eq!(latency_ms_for_frames(1000, 44100), 22);
    assert_eq!(latency_ms_for_frames(1000, 0), 0);
    assert_eq!(latency_ms_for_frames(5_000_000, 1), (5_000_000_000u64 % (1 << 32)) as u32);
}

#[test]
fn aligning() {
    assert_eq!(align_up(65, 64), 128);
    assert_eq!(align_up(0, 64), 0);
    assert_eq!(align_up(13, 0), 13);
    assert_eq!(align_up(13, 1), 13);
    assert_eq!(align_up(10, 7), 14);
    assert_eq!(align_up(align_up(10, 7), 7), 14);
}

#[test]
fn period_counts() {
    let counts: Vec<Vec<u16>> = CLASSES
        .iter()
        .map(|&class| {
            HINTS.iter().map(|&hint| choose_period_count(&of_class(class), hint)).collect()
        })
        .collect();
    assert_eq!(
        counts,
        vec![
            vec![4, 2, 6, 5],
            vec![4, 3, 6, 5],
            vec![3, 3, 6, 5],
            vec![4, 2, 6, 5],
            vec![4, 3, 6, 5],
            vec![4, 3, 6, 6],
            vec![4, 3, 8, 5],
            vec![4, 3, 6, 5],
        ]
    );
}

#[test]
fn hints() {
    let hints: Vec<SchedulingHint> =
        CLASSES.iter().map(|&class| choose_scheduling_hint(&of_class(class))).collect();
    assert_eq!(
        hints,
        vec![
            SchedulingHint::LatencyFirst,
            SchedulingHint::Balanced,
            SchedulingHint::Balanced,
            SchedulingHint::LatencyFirst,
            SchedulingHint::LatencyFirst,
            SchedulingHint::PowerSaving,
            SchedulingHint::ThroughputFirst,
            SchedulingHint::PowerSaving,
        ]
    );
}

#[test]
fn prefetching() {
    for (i, &pressure) in PRESSURES.iter().enumerate() {
        assert_eq!(choose_prefetched_periods(8, pressure), i as u16 + 1);
        assert_eq!(choose_prefetched_periods(0, pressure), 0);
        assert_eq!(choose_prefetched_periods(2, pressure), (i as u16 + 1).min(2));
    }
}

#[test]
fn pressure_edges() {
    assert_eq!(derive_queue_pressure(snapshot(0, 1)), QueuePressure::Stable);
    assert_eq!(derive_queue_pressure(snapshot(7, 3)), QueuePressure::Stable);
    assert_eq!(derive_queue_pressure(snapshot(8, 0)), QueuePressure::Busy);
    assert_eq!(derive_queue_pressure(snapshot(0, 4)), QueuePressure::Busy);
    assert_eq!(derive_queue_pressure(snapshot(23, 11)), QueuePressure::Busy);
    assert_eq!(derive_queue_pressure(snapshot(24, 0)), QueuePressure::Saturated);
    assert_eq!(derive_queue_pressure(snapshot(0, 12)), QueuePressure::Saturated);
}

#[test]
fn buffer_plans() {
    let music = AudioWorkloadProfile::stereo_music(48000);
    assert_eq!(
        build_buffer_plan(&music, SchedulingHint::Balanced, QueuePressure::Busy),
        BufferPlan {
            buffer_bytes: 12288,
            period_bytes: 3072,
            periods: 4,
            prefetched_periods: 3,
            irq_interval_frames: 960,
        }
    );
    let voice = AudioWorkloadProfile::interactive_voice(16000);
    assert_eq!(
        build_buffer_plan(&voice, SchedulingHint::LatencyFirst, QueuePressure::Idle),
        BufferPlan {
            buffer_bytes: 640,
            period_bytes: 320,
            periods: 2,
            prefetched_periods: 1,
            irq_interval_frames: 80,
        }
    );
    assert_eq!(
        build_buffer_plan(&voice, SchedulingHint::PowerSaving, QueuePressure::Saturated),
        BufferPlan {
            buffer_bytes: 4800,
            period_bytes: 960,
            periods: 5,
            prefetched_periods: 4,
            irq_interval_frames: 720,
        }
    );
    let tiny = AudioWorkloadProfile { burst_frames: 1, sustained_frames: 3, ..voice };
    let plan = build_buffer_plan(&tiny, SchedulingHint::ThroughputFirst, QueuePressure::Idle);
    assert_eq!((plan.period_bytes, plan.irq_interval_frames), (64, 32));
    let huge = AudioWorkloadProfile { burst_frames: 1 << 29, frame_bytes: 4, ..music };
    let plan = build_buffer_plan(&huge, SchedulingHint::LatencyFirst, QueuePressure::Stable);
    assert_eq!((plan.period_bytes, plan.buffer_bytes), (1 << 31, u32::MAX));
}

#[test]
fn queue_budgets() {
    let mut profile = AudioWorkloadProfile::interactive_voice(16000);
    let mut buffer = build_buffer_plan(&profile, SchedulingHint::LatencyFirst, QueuePressure::Busy);
    assert_eq!(
        build_queue_budget(&profile, buffer, QueuePressure::Busy),
        QueueBudget {
            descriptors_per_transfer: 4,
            max_inflight_transfers: 14,
            reserved_control_descriptors: 20,
            reserved_event_descriptors: 8,
        }
    );
    profile.duplex = false;
    profile.control_ops_per_second = 0;
    buffer.prefetched_periods = 60;
    assert_eq!(
        build_queue_budget(&profile, buffer, QueuePressure::Idle),
        QueueBudget {
            descriptors_per_transfer: 3,
            max_inflight_transfers: 64,
            reserved_control_descriptors: 2,
            reserved_event_descriptors: 4,
        }
    );
    profile.control_ops_per_second = 1000;
    buffer.prefetched_periods = 0;
    let budget = build_queue_budget(&profile, buffer, QueuePressure::Saturated);
    assert_eq!((budget.max_inflight_transfers, budget.reserved_control_descriptors), (16, 32));
}

#[test]
fn scores() {
    let music = AudioWorkloadProfile::stereo_music(48000);
    let buffer = build_buffer_plan(&music, SchedulingHint::Balanced, QueuePressure::Busy);
    let queue = build_queue_budget(&music, buffer, QueuePressure::Busy);
    // 3072 frames last 64 ms, which is 24 ms too long.
    assert_eq!(score_plan(&music, buffer, queue), 200 - 24 + (15 - 2) + 9);
    let late = AudioWorkloadProfile { target_latency_ms: 100, ..music };
    assert_eq!(score_plan(&late, buffer, queue), 200 - 36 + (15 - 2) + 9);
    let silent = AudioWorkloadProfile { sample_rate: 0, frame_bytes: 0, ..music };
    assert_eq!(score_plan(&silent, buffer, queue), 200 - 40 + (15 - 2) + 9);
}

#[test]
fn a_stream_plan_puts_the_parts_together() {
    let game = AudioWorkloadProfile::competitive_game(48000);
    let plan = build_stream_plan(&game, snapshot(9, 0));
    assert_eq!(plan.hint, SchedulingHint::LatencyFirst);
    assert_eq!(plan.pressure, QueuePressure::Busy);
    assert_eq!(plan.buffer, build_buffer_plan(&game, plan.hint, plan.pressure));
    assert_eq!(plan.queue, build_queue_budget(&game, plan.buffer, plan.pressure));
    assert_eq!(plan.score, score_plan(&game, plan.buffer, plan.queue));
}

#[test]
fn the_best_candidate_is_the_first_of_the_best() {
    for profile in [
        AudioWorkloadProfile::stereo_music(44100),
        AudioWorkloadProfile::interactive_voice(16000),
        AudioWorkloadProfile::competitive_game(48000),
        AudioWorkloadProfile::studio_render(96000, 2),
    ] {
        let plans = candidate_plans(&profile);
        for (i, plan) in plans.iter().enumerate() {
            assert_eq!((plan.hint, plan.pressure), (HINTS[i / 4], PRESSURES[i % 4]));
            assert_eq!(plan.buffer.period_bytes % 64, 0);
            assert!(plan.buffer.prefetched_periods <= plan.buffer.periods);
            assert!((4..=64).contains(&plan.queue.max_inflight_transfers));
        }
        let best = select_best_plan(&profile);
        let at = plans.iter().position(|&plan| plan == best).unwrap();
        assert!(plans[..at].iter().all(|plan| plan.score < best.score));
        assert!(plans.iter().all(|plan| plan.score <= best.score));
        for inflight in [0, 5, 10, 30] {
            assert!(build_stream_plan(&profile, snapshot(inflight, 0)).score <= best.score);
        }
    }
}

#[test]
fn schedules() {
    assert_eq!(split_transfer_schedule(1000, 256), vec![256, 256, 256, 232]);
    assert_eq!(split_transfer_schedule(512, 256), vec![256, 256]);
    assert_eq!(split_transfer_schedule(3, 0), vec![1, 1, 1]);
    assert_eq!(split_transfer_schedule(0, 5), vec![]);
    assert_eq!(redistribute_schedule(&[], 4), vec![]);
    assert_eq!(redistribute_schedule(&[5, 1, 4], 4), vec![4, 4, 2]);
    assert_eq!(redistribute_schedule(&[2], 0), vec![1, 1]);
}

#[test]
fn jitter() {
    assert_eq!(compute_jitter_score(&[]), 0);
    assert_eq!(compute_jitter_score(&[9]), 0);
    assert_eq!(compute_jitter_score(&[5, 5, 5]), 0);
    assert_eq!(compute_jitter_score(&[256, 256, 256, 232]), 6 + 6 + 6 + 18);
    assert_eq!(compute_jitter_score(&[0, 3]), 1 + 2);
    assert_eq!(compute_jitter_score(&[1 << 33, 1 << 33]), 0);
    // The sum reads as -2, so the average is -1.
    assert_eq!(compute_jitter_score(&[usize::MAX - 1, 0]), 1 + 1);
}

#[test]
fn latency_bucket_edges() {
    let names: Vec<&str> = [0, 10, 11, 20, 21, 50, 51, 120, 121, u32::MAX]
        .iter()
        .map(|&ms| classify_latency_bucket(ms))
        .collect();
    assert_eq!(
        names,
        vec![
            "ultra-low",
            "ultra-low",
            "low",
            "low",
            "interactive",
            "interactive",
            "media",
            "media",
            "background",
            "background",
        ]
    );
}

#[test]
fn plans_follow_the_pressure() {
    let studio = AudioWorkloadProfile::studio_render(96000, 2);
    for hint in HINTS {
        for pair in PRESSURES.windows(2) {
            let calm = build_buffer_plan(&studio, hint, pair[0]);
            let busy = build_buffer_plan(&studio, hint, pair[1]);
            assert!(calm.prefetched_periods <= busy.prefetched_periods);
            assert!(calm.irq_interval_frames < busy.irq_interval_frames);
            assert_eq!(calm.buffer_bytes, busy.buffer_bytes);
            let few = build_queue_budget(&studio, calm, pair[0]).max_inflight_transfers;
            let many = build_queue_budget(&studio, busy, pair[1]).max_inflight_transfers;
            assert!(few < many);
        }
    }
}

#[test]
fn a_closer_latency_scores_higher() {
    let music = AudioWorkloadProfile::stereo_music(48000);
    let close = build_buffer_plan(&music, SchedulingHint::LatencyFirst, QueuePressure::Stable);
    let far = build_buffer_plan(&music, SchedulingHint::PowerSaving, QueuePressure::Stable);
    let queue = build_queue_budget(&music, close, QueuePressure::Stable);
    assert!(score_plan(&music, far, queue) < score_plan(&music, close, queue));
}
