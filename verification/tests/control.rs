//! Control requests.
use rcore_os_virtio_snd::control::ControlHandler;
use rcore_os_virtio_snd::protocol::{
    VIRTIO_SND_F_CHMAP_INFO, VIRTIO_SND_F_PCM_INFO, VIRTIO_SND_S_IO_ERR, VIRTIO_SND_S_NOT_SUPP,
    VIRTIO_SND_S_OK,
};
use rcore_os_virtio_snd::{
    PcmFormat, PcmStream, SndError, SndQueue, StreamDirection, StreamState, VirtQueue,
    VirtioSndConfig,
};

/// A stream that waits for its parameters.
fn make_stream(id: u32) -> PcmStream {
    PcmStream {
        stream_id: id,
        direction: StreamDirection::Output,
        state: StreamState::SetParameters,
        channels: 2,
        format: PcmFormat::S16Le,
        rate: 44100,
        muted: false,
        volume: 200,
    }
}

/// What a handler is made of.
fn make_handler(config: VirtioSndConfig, features: u64) -> (VirtQueue, VirtioSndConfig, u64) {
    (VirtQueue::new(SndQueue::Control), config, features)
}

#[test]
fn test_stream_initial_state_is_set_parameters() {
    let s = make_stream(0);
    assert_eq!(s.state, StreamState::SetParameters);
}

#[test]
fn test_state_transition_set_params_to_prepare() {
    let config = VirtioSndConfig { jacks: 0, streams: 1, chmaps: 0 };
    let features = VIRTIO_SND_F_PCM_INFO;
    let (mut q, cfg, feat) = make_handler(config, features);
    let mut stream = make_stream(0);

    let mut handler = ControlHandler::new(&mut q, cfg, feat);
    handler.send_set_params(&mut stream, 4096, 512).unwrap();
    assert_eq!(stream.state, StreamState::SetParameters);
    handler.send_prepare(&mut stream).unwrap();
    assert_eq!(stream.state, StreamState::Prepare);
}

#[test]
fn test_state_transition_prepare_to_start() {
    let config = VirtioSndConfig { jacks: 0, streams: 1, chmaps: 0 };
    let features = VIRTIO_SND_F_PCM_INFO;
    let (mut q, cfg, feat) = make_handler(config, features);
    let mut stream = make_stream(0);

    let mut handler = ControlHandler::new(&mut q, cfg, feat);
    handler.send_set_params(&mut stream, 4096, 512).unwrap();
    handler.send_prepare(&mut stream).unwrap();
    handler.send_start(&mut stream).unwrap();
    assert_eq!(stream.state, StreamState::Start);
}

#[test]
fn test_state_transition_start_to_stop() {
    let config = VirtioSndConfig { jacks: 0, streams: 1, chmaps: 0 };
    let features = VIRTIO_SND_F_PCM_INFO;
    let (mut q, cfg, feat) = make_handler(config, features);
    let mut stream = make_stream(0);

    let mut handler = ControlHandler::new(&mut q, cfg, feat);
    handler.send_set_params(&mut stream, 4096, 512).unwrap();
    handler.send_prepare(&mut stream).unwrap();
    handler.send_start(&mut stream).unwrap();
    handler.send_stop(&mut stream).unwrap();
    assert_eq!(stream.state, StreamState::Stop);
}

#[test]
fn test_state_transition_stop_to_start_resume() {
    let config = VirtioSndConfig { jacks: 0, streams: 1, chmaps: 0 };
    let features = VIRTIO_SND_F_PCM_INFO;
    let (mut q, cfg, feat) = make_handler(config, features);
    let mut stream = make_stream(0);

    let mut handler = ControlHandler::new(&mut q, cfg, feat);
    handler.send_set_params(&mut stream, 4096, 512).unwrap();
    handler.send_prepare(&mut stream).unwrap();
    handler.send_start(&mut stream).unwrap();
    handler.send_stop(&mut stream).unwrap();
    handler.send_start(&mut stream).unwrap();
    assert_eq!(stream.state, StreamState::Start);
}

#[test]
fn test_state_transition_stop_to_release() {
    let config = VirtioSndConfig { jacks: 0, streams: 1, chmaps: 0 };
    let features = VIRTIO_SND_F_PCM_INFO;
    let (mut q, cfg, feat) = make_handler(config, features);
    let mut stream = make_stream(0);

    let mut handler = ControlHandler::new(&mut q, cfg, feat);
    handler.send_set_params(&mut stream, 4096, 512).unwrap();
    handler.send_prepare(&mut stream).unwrap();
    handler.send_start(&mut stream).unwrap();
    handler.send_stop(&mut stream).unwrap();
    handler.send_release(&mut stream).unwrap();
    assert_eq!(stream.state, StreamState::Release);
}

#[test]
fn test_illegal_start_from_set_parameters() {
    let config = VirtioSndConfig { jacks: 0, streams: 1, chmaps: 0 };
    let features = VIRTIO_SND_F_PCM_INFO;
    let (mut q, cfg, feat) = make_handler(config, features);
    let mut stream = make_stream(0);
    assert_eq!(stream.state, StreamState::SetParameters);

    let mut handler = ControlHandler::new(&mut q, cfg, feat);
    let result = handler.send_start(&mut stream);
    assert_eq!(result, Err(SndError::InvalidState));

    assert_eq!(stream.state, StreamState::SetParameters);
}

#[test]
fn test_illegal_stop_from_prepare() {
    let config = VirtioSndConfig { jacks: 0, streams: 1, chmaps: 0 };
    let features = VIRTIO_SND_F_PCM_INFO;
    let (mut q, cfg, feat) = make_handler(config, features);
    let mut stream = make_stream(0);

    let mut handler = ControlHandler::new(&mut q, cfg, feat);
    handler.send_set_params(&mut stream, 4096, 512).unwrap();
    handler.send_prepare(&mut stream).unwrap();

    let result = handler.send_stop(&mut stream);
    assert_eq!(result, Err(SndError::InvalidState));
    assert_eq!(stream.state, StreamState::Prepare);
}

#[test]
fn test_illegal_prepare_from_start() {
    let config = VirtioSndConfig { jacks: 0, streams: 1, chmaps: 0 };
    let features = VIRTIO_SND_F_PCM_INFO;
    let (mut q, cfg, feat) = make_handler(config, features);
    let mut stream = make_stream(0);

    let mut handler = ControlHandler::new(&mut q, cfg, feat);
    handler.send_set_params(&mut stream, 4096, 512).unwrap();
    handler.send_prepare(&mut stream).unwrap();
    handler.send_start(&mut stream).unwrap();

    let result = handler.send_prepare(&mut stream);
    assert_eq!(result, Err(SndError::InvalidState));
    assert_eq!(stream.state, StreamState::Start);
}

#[test]
fn test_illegal_release_from_start() {
    let config = VirtioSndConfig { jacks: 0, streams: 1, chmaps: 0 };
    let features = VIRTIO_SND_F_PCM_INFO;
    let (mut q, cfg, feat) = make_handler(config, features);
    let mut stream = make_stream(0);

    let mut handler = ControlHandler::new(&mut q, cfg, feat);
    handler.send_set_params(&mut stream, 4096, 512).unwrap();
    handler.send_prepare(&mut stream).unwrap();
    handler.send_start(&mut stream).unwrap();

    let result = handler.send_release(&mut stream);
    assert_eq!(result, Err(SndError::InvalidState));
    assert_eq!(stream.state, StreamState::Start);
}

#[test]
fn test_illegal_release_from_set_parameters() {
    let config = VirtioSndConfig { jacks: 0, streams: 1, chmaps: 0 };
    let features = VIRTIO_SND_F_PCM_INFO;
    let (mut q, cfg, feat) = make_handler(config, features);
    let mut stream = make_stream(0);

    let mut handler = ControlHandler::new(&mut q, cfg, feat);
    let result = handler.send_release(&mut stream);
    assert_eq!(result, Err(SndError::InvalidState));
}

#[test]
fn test_illegal_stop_from_release() {
    let config = VirtioSndConfig { jacks: 0, streams: 1, chmaps: 0 };
    let features = VIRTIO_SND_F_PCM_INFO;
    let (mut q, cfg, feat) = make_handler(config, features);
    let mut stream = make_stream(0);

    let mut handler = ControlHandler::new(&mut q, cfg, feat);
    handler.send_set_params(&mut stream, 4096, 512).unwrap();
    handler.send_prepare(&mut stream).unwrap();
    handler.send_release(&mut stream).unwrap();

    let result = handler.send_stop(&mut stream);
    assert_eq!(result, Err(SndError::InvalidState));
}

#[test]
fn test_set_params_zero_buffer_rejected() {
    let config = VirtioSndConfig { jacks: 0, streams: 1, chmaps: 0 };
    let features = VIRTIO_SND_F_PCM_INFO;
    let (mut q, cfg, feat) = make_handler(config, features);
    let mut stream = make_stream(0);

    let mut handler = ControlHandler::new(&mut q, cfg, feat);
    let result = handler.send_set_params(&mut stream, 0, 512);
    assert_eq!(result, Err(SndError::InvalidParameter));
}

#[test]
fn test_set_params_period_larger_than_buffer_rejected() {
    let config = VirtioSndConfig { jacks: 0, streams: 1, chmaps: 0 };
    let features = VIRTIO_SND_F_PCM_INFO;
    let (mut q, cfg, feat) = make_handler(config, features);
    let mut stream = make_stream(0);

    let mut handler = ControlHandler::new(&mut q, cfg, feat);
    let result = handler.send_set_params(&mut stream, 256, 512);
    assert_eq!(result, Err(SndError::InvalidParameter));
}

#[test]
fn test_set_params_invalid_stream_id_rejected() {
    let config = VirtioSndConfig { jacks: 0, streams: 2, chmaps: 0 };
    let features = VIRTIO_SND_F_PCM_INFO;
    let (mut q, cfg, feat) = make_handler(config, features);
    let mut stream = make_stream(99);

    let mut handler = ControlHandler::new(&mut q, cfg, feat);
    let result = handler.send_set_params(&mut stream, 4096, 512);
    assert_eq!(result, Err(SndError::InvalidStreamId));
}

#[test]
fn test_mute_allowed_in_start_state() {
    let config = VirtioSndConfig { jacks: 0, streams: 1, chmaps: 0 };
    let features = VIRTIO_SND_F_PCM_INFO;
    let (mut q, cfg, feat) = make_handler(config, features);
    let mut stream = make_stream(0);

    let mut handler = ControlHandler::new(&mut q, cfg, feat);
    handler.send_set_params(&mut stream, 4096, 512).unwrap();
    handler.send_prepare(&mut stream).unwrap();
    handler.send_start(&mut stream).unwrap();

    let result = handler.send_mute(&mut stream, true);
    assert!(result.is_ok());
    assert!(stream.muted);
}

#[test]
fn test_mute_rejected_in_set_parameters_state() {
    let config = VirtioSndConfig { jacks: 0, streams: 1, chmaps: 0 };
    let features = VIRTIO_SND_F_PCM_INFO;
    let (mut q, cfg, feat) = make_handler(config, features);
    let mut stream = make_stream(0);

    let mut handler = ControlHandler::new(&mut q, cfg, feat);
    let result = handler.send_mute(&mut stream, true);
    assert_eq!(result, Err(SndError::InvalidState));
    assert!(!stream.muted);
}

#[test]
fn test_volume_update_on_success() {
    let config = VirtioSndConfig { jacks: 0, streams: 1, chmaps: 0 };
    let features = VIRTIO_SND_F_PCM_INFO;
    let (mut q, cfg, feat) = make_handler(config, features);
    let mut stream = make_stream(0);

    let mut handler = ControlHandler::new(&mut q, cfg, feat);
    handler.send_set_params(&mut stream, 4096, 512).unwrap();
    handler.send_prepare(&mut stream).unwrap();
    handler.send_start(&mut stream).unwrap();

    handler.send_volume(&mut stream, 128).unwrap();
    assert_eq!(stream.volume, 128);
}

#[test]
fn test_volume_rejected_in_release_state() {
    let config = VirtioSndConfig { jacks: 0, streams: 1, chmaps: 0 };
    let features = VIRTIO_SND_F_PCM_INFO;
    let (mut q, cfg, feat) = make_handler(config, features);
    let mut stream = make_stream(0);

    let mut handler = ControlHandler::new(&mut q, cfg, feat);
    handler.send_set_params(&mut stream, 4096, 512).unwrap();
    handler.send_prepare(&mut stream).unwrap();
    handler.send_release(&mut stream).unwrap();

    let original_volume = stream.volume;
    let result = handler.send_volume(&mut stream, 50);
    assert_eq!(result, Err(SndError::InvalidState));
    assert_eq!(stream.volume, original_volume);
}

#[test]
fn test_chmap_query_requires_feature_flag() {
    let config = VirtioSndConfig { jacks: 0, streams: 1, chmaps: 1 };

    let features = VIRTIO_SND_F_PCM_INFO;
    let (mut q, cfg, feat) = make_handler(config, features);
    let stream = make_stream(0);

    let mut handler = ControlHandler::new(&mut q, cfg, feat);
    let result = handler.query_chmap(&stream);
    assert_eq!(result, Err(SndError::UnsupportedFeature));
}

#[test]
fn test_chmap_query_invalid_stream_id() {
    let config = VirtioSndConfig { jacks: 0, streams: 1, chmaps: 1 };
    let features = VIRTIO_SND_F_PCM_INFO | VIRTIO_SND_F_CHMAP_INFO;
    let (mut q, cfg, feat) = make_handler(config, features);
    let stream = make_stream(99);

    let mut handler = ControlHandler::new(&mut q, cfg, feat);
    let result = handler.query_chmap(&stream);
    assert_eq!(result, Err(SndError::InvalidStreamId));
}

#[test]
fn test_rate_encode_decode_roundtrip() {
    let rates = [
        5512u32, 8000, 11025, 16000, 22050, 32000, 44100, 48000, 64000, 88200, 96000, 176400,
        192000, 384000,
    ];
    for &rate in &rates {
        let code = ControlHandler::encode_rate(rate).unwrap();
        let decoded = ControlHandler::decode_rate(code).unwrap();
        assert_eq!(rate, decoded);
    }
}

#[test]
fn test_rate_encode_invalid_rate_rejected() {
    let result = ControlHandler::encode_rate(12345);
    assert_eq!(result, Err(SndError::InvalidParameter));
}

#[test]
fn test_rate_decode_invalid_code_returns_none() {
    assert!(ControlHandler::decode_rate(200).is_none());
}

#[test]
fn test_error_display_messages_non_empty() {
    let errors = [
        SndError::UnsupportedFeature,
        SndError::InvalidStreamId,
        SndError::InvalidState,
        SndError::QueueFull,
        SndError::DeviceError,
        SndError::InvalidParameter,
        SndError::ChmapOutOfRange,
        SndError::VolumeOutOfRange,
        SndError::Timeout,
        SndError::QueueIndexOutOfRange,
    ];
    for e in &errors {
        let msg = e.message();
        assert!(!msg.is_empty());
    }
}

const ONE_STREAM: VirtioSndConfig = VirtioSndConfig { jacks: 0, streams: 1, chmaps: 1 };

#[test]
fn parameters_are_checked_in_order() {
    let mut q = VirtQueue::new(SndQueue::Control);
    let mut handler = ControlHandler::new(&mut q, ONE_STREAM, 0);
    let mut stream = make_stream(7);
    stream.channels = 0;
    stream.rate = 12345;
    stream.state = StreamState::Start;
    assert_eq!(handler.send_set_params(&mut stream, 0, 0), Err(SndError::InvalidState));
    stream.state = StreamState::Release;
    assert_eq!(handler.send_set_params(&mut stream, 64, 0), Err(SndError::InvalidParameter));
    assert_eq!(handler.send_set_params(&mut stream, 64, 64), Err(SndError::InvalidParameter));
    stream.channels = 19;
    assert_eq!(handler.send_set_params(&mut stream, 64, 64), Err(SndError::InvalidParameter));
    stream.channels = 18;
    assert_eq!(handler.send_set_params(&mut stream, 64, 64), Err(SndError::InvalidStreamId));
    stream.stream_id = 0;
    assert_eq!(handler.send_set_params(&mut stream, 64, 64), Err(SndError::InvalidParameter));
    stream.rate = 384000;
    assert_eq!(stream.state, StreamState::Release);
    assert_eq!(handler.send_set_params(&mut stream, 64, 64), Ok(()));
    assert_eq!(stream.state, StreamState::SetParameters);
    assert_eq!(q.avail.idx, 1);
}

#[test]
fn requests_have_two_buffers() {
    let mut q = VirtQueue::new(SndQueue::Control);
    let mut handler = ControlHandler::new(&mut q, ONE_STREAM, VIRTIO_SND_F_CHMAP_INFO);
    let mut stream = make_stream(0);
    handler.send_set_params(&mut stream, 4096, 512).unwrap();
    handler.send_prepare(&mut stream).unwrap();
    handler.send_mute(&mut stream, true).unwrap();
    handler.send_volume(&mut stream, 9).unwrap();
    handler.query_chmap(&stream).unwrap();
    let sizes: Vec<(u32, u32)> =
        (0..5).map(|i| (q.desc[2 * i].len, q.desc[2 * i + 1].len)).collect();
    assert_eq!(sizes, vec![(24, 4), (8, 4), (12, 4), (12, 4), (28, 22)]);
    for i in 0..5 {
        assert_eq!(q.desc[2 * i].flags, 1);
        assert_eq!(q.desc[2 * i + 1].flags, 2);
        assert_ne!(q.desc[2 * i].addr, 0);
        assert_ne!(q.desc[2 * i].addr, q.desc[2 * i + 1].addr);
    }
}

#[test]
fn a_full_queue_leaves_the_stream_alone() {
    let mut q = VirtQueue::new(SndQueue::Control);
    for _ in 0..128 {
        q.add_chain(&[
            rcore_os_virtio_snd::VirtqDesc::readable(1, 1),
            rcore_os_virtio_snd::VirtqDesc::writable(2, 1),
        ])
        .unwrap();
    }
    let mut handler = ControlHandler::new(&mut q, ONE_STREAM, VIRTIO_SND_F_CHMAP_INFO);
    let mut stream = make_stream(0);
    assert_eq!(handler.send_set_params(&mut stream, 64, 64), Err(SndError::QueueFull));
    assert_eq!(handler.send_prepare(&mut stream), Err(SndError::QueueFull));
    assert_eq!(handler.query_chmap(&stream), Err(SndError::QueueFull));
    assert_eq!(stream.state, StreamState::SetParameters);
    stream.state = StreamState::Stop;
    assert_eq!(handler.send_start(&mut stream), Err(SndError::QueueFull));
    assert_eq!(handler.send_release(&mut stream), Err(SndError::QueueFull));
    assert_eq!(handler.send_mute(&mut stream, true), Err(SndError::QueueFull));
    assert_eq!(handler.send_volume(&mut stream, 1), Err(SndError::QueueFull));
    assert_eq!((stream.muted, stream.volume), (false, 200));
    stream.state = StreamState::Start;
    assert_eq!(handler.send_stop(&mut stream), Err(SndError::QueueFull));
    assert_eq!(stream.state, StreamState::Start);
}

#[test]
fn commands_for_unknown_streams_are_refused() {
    let mut q = VirtQueue::new(SndQueue::Control);
    let mut handler = ControlHandler::new(&mut q, ONE_STREAM, 0);
    let mut stream = make_stream(1);
    assert_eq!(handler.send_prepare(&mut stream), Err(SndError::InvalidStreamId));
    stream.state = StreamState::Prepare;
    assert_eq!(handler.send_start(&mut stream), Err(SndError::InvalidStreamId));
    assert_eq!(handler.send_release(&mut stream), Err(SndError::InvalidStreamId));
    assert_eq!(handler.send_mute(&mut stream, true), Err(SndError::InvalidStreamId));
    assert_eq!(handler.send_volume(&mut stream, 1), Err(SndError::InvalidStreamId));
    assert_eq!(q.avail.idx, 0);
}

#[test]
fn every_transition_is_legal_or_refused() {
    let states = [
        StreamState::SetParameters,
        StreamState::Prepare,
        StreamState::Start,
        StreamState::Stop,
        StreamState::Release,
    ];
    for state in states {
        let mut q = VirtQueue::new(SndQueue::Control);
        let mut handler = ControlHandler::new(&mut q, ONE_STREAM, 0);
        let mut results = vec![];
        for command in 0..5 {
            let mut stream = make_stream(0);
            stream.state = state;
            let result = match command {
                0 => handler.send_set_params(&mut stream, 64, 64),
                1 => handler.send_prepare(&mut stream),
                2 => handler.send_start(&mut stream),
                3 => handler.send_stop(&mut stream),
                _ => handler.send_release(&mut stream),
            };
            if result.is_ok() {
                assert_eq!(stream.state, states[command]);
            } else {
                assert_eq!(result, Err(SndError::InvalidState));
                assert_eq!(stream.state, state);
            }
            results.push(result.is_ok());
        }
        let expected = match state {
            StreamState::SetParameters => vec![true, true, false, false, false],
            StreamState::Prepare => vec![false, false, true, false, true],
            StreamState::Start => vec![false, false, false, true, false],
            StreamState::Stop => vec![false, false, true, false, true],
            StreamState::Release => vec![true, false, false, false, false],
        };
        assert_eq!(results, expected);
    }
}

#[test]
fn mute_and_volume_need_a_prepared_stream() {
    let mut q = VirtQueue::new(SndQueue::Control);
    let mut handler = ControlHandler::new(&mut q, ONE_STREAM, 0);
    let mut stream = make_stream(0);
    for state in [StreamState::Prepare, StreamState::Start, StreamState::Stop] {
        stream.state = state;
        assert_eq!(handler.send_mute(&mut stream, true), Ok(()));
        assert_eq!(handler.send_mute(&mut stream, false), Ok(()));
        assert_eq!(handler.send_volume(&mut stream, 0), Ok(()));
        assert_eq!((stream.muted, stream.volume), (false, 0));
    }
    for state in [StreamState::SetParameters, StreamState::Release] {
        stream.state = state;
        assert_eq!(handler.send_mute(&mut stream, true), Err(SndError::InvalidState));
        assert_eq!(handler.send_volume(&mut stream, 5), Err(SndError::InvalidState));
        assert_eq!((stream.muted, stream.volume), (false, 0));
    }
}

#[test]
fn status_codes_are_interpreted() {
    let mut q = VirtQueue::new(SndQueue::Control);
    let handler = ControlHandler::new(&mut q, ONE_STREAM, 0);
    assert_eq!(handler.parse_response(VIRTIO_SND_S_OK), Ok(()));
    assert_eq!(handler.parse_response(0), Ok(()));
    assert_eq!(handler.parse_response(VIRTIO_SND_S_NOT_SUPP), Err(SndError::UnsupportedFeature));
    assert_eq!(handler.parse_response(VIRTIO_SND_S_IO_ERR), Err(SndError::DeviceError));
    assert_eq!(handler.parse_response(0xffff_ffff), Err(SndError::DeviceError));
}

#[test]
fn a_refusal_by_the_device_changes_nothing() {
    let mut q = VirtQueue::new(SndQueue::Control);
    let handler = ControlHandler::new(&mut q, ONE_STREAM, 0);
    let mut stream = make_stream(0);
    let refused = Err(SndError::UnsupportedFeature);
    let next = StreamState::Prepare;
    assert_eq!(handler.finish_transition(&mut stream, next, VIRTIO_SND_S_NOT_SUPP), refused);
    assert_eq!(stream.state, StreamState::SetParameters);
    assert_eq!(handler.finish_transition(&mut stream, next, VIRTIO_SND_S_OK), Ok(()));
    assert_eq!(stream.state, StreamState::Prepare);
    let broken = Err(SndError::DeviceError);
    assert_eq!(handler.finish_mute(&mut stream, true, VIRTIO_SND_S_IO_ERR), broken);
    assert!(!stream.muted);
    assert_eq!(handler.finish_mute(&mut stream, true, VIRTIO_SND_S_OK), Ok(()));
    assert!(stream.muted);
    assert_eq!(handler.finish_volume(&mut stream, 3, VIRTIO_SND_S_IO_ERR), broken);
    assert_eq!(stream.volume, 200);
    assert_eq!(handler.finish_volume(&mut stream, 3, 0), Ok(()));
    assert_eq!(stream.volume, 3);
}

#[test]
fn channel_maps_are_read_out_of_the_reply() {
    let mut q = VirtQueue::new(SndQueue::Control);
    let mut handler = ControlHandler::new(&mut q, ONE_STREAM, VIRTIO_SND_F_CHMAP_INFO);
    let mut stream = make_stream(0);
    assert_eq!(handler.query_chmap(&stream), Ok(vec![0, 0]));
    let mut reply = [0u8; 22];
    for i in 0..18 {
        reply[4 + i] = 3 + i as u8;
    }
    assert_eq!(handler.chmap_positions(&stream, &reply), Ok(vec![3, 4]));
    stream.channels = 18;
    assert_eq!(handler.chmap_positions(&stream, &reply).unwrap()[17], 20);
    stream.channels = 19;
    assert_eq!(handler.chmap_positions(&stream, &reply), Err(SndError::ChmapOutOfRange));
    assert_eq!(handler.query_chmap(&stream), Err(SndError::ChmapOutOfRange));
    reply[..4].copy_from_slice(&VIRTIO_SND_S_IO_ERR.to_le_bytes());
    assert_eq!(handler.chmap_positions(&stream, &reply), Err(SndError::DeviceError));
    stream.channels = 0;
    assert_eq!(handler.query_chmap(&stream), Ok(vec![]));
}

#[test]
fn every_rate_code_decodes_to_its_rate() {
    for code in 0..=255u8 {
        match ControlHandler::decode_rate(code) {
            Some(rate) => assert_eq!(ControlHandler::encode_rate(rate), Ok(code)),
            None => assert!(code > 13),
        }
    }
}
