//! The driver as a whole.
use rcore_os_virtio_snd::control::ControlHandler;
use rcore_os_virtio_snd::protocol::{
    VIRTIO_SND_F_CHMAP_INFO, VIRTIO_SND_F_JACK_INFO, VIRTIO_SND_F_PCM_INFO,
};
use rcore_os_virtio_snd::{
    PcmFormat, SndError, SndQueue, StreamDirection, StreamState, VirtioSndConfig, VirtioSound,
    VirtqDesc,
};

/// A driver for a device with four streams.
fn make_driver() -> VirtioSound {
    let config = VirtioSndConfig { jacks: 1, streams: 4, chmaps: 2 };
    let features = VIRTIO_SND_F_PCM_INFO | VIRTIO_SND_F_CHMAP_INFO | VIRTIO_SND_F_JACK_INFO;
    VirtioSound::new(config, features)
}

#[test]
fn test_register_stream_duplicate_rejected() {
    let mut drv = make_driver();
    drv.register_stream(0, StreamDirection::Output, 2, PcmFormat::S16Le, 44100).unwrap();
    let result = drv.register_stream(0, StreamDirection::Output, 2, PcmFormat::S16Le, 44100);
    assert_eq!(result, Err(SndError::InvalidParameter));
}

#[test]
fn test_register_stream_invalid_channels() {
    let mut drv = make_driver();
    let result = drv.register_stream(0, StreamDirection::Output, 0, PcmFormat::S16Le, 44100);
    assert_eq!(result, Err(SndError::InvalidParameter));

    let result2 = drv.register_stream(1, StreamDirection::Output, 19, PcmFormat::S16Le, 44100);
    assert_eq!(result2, Err(SndError::InvalidParameter));
}

#[test]
fn test_register_stream_out_of_range_id() {
    let mut drv = make_driver();
    let result = drv.register_stream(100, StreamDirection::Output, 2, PcmFormat::S16Le, 44100);
    assert_eq!(result, Err(SndError::InvalidStreamId));
}

#[test]
fn test_toggle_mute_via_driver() {
    let mut drv = make_driver();
    drv.register_stream(0, StreamDirection::Output, 2, PcmFormat::S16Le, 44100).unwrap();
    drv.setup_and_start(0).unwrap();

    assert!(!drv.get_stream(0).unwrap().muted);
    drv.toggle_mute(0).unwrap();
    assert!(drv.get_stream(0).unwrap().muted);
    drv.toggle_mute(0).unwrap();
    assert!(!drv.get_stream(0).unwrap().muted);
}

#[test]
fn test_set_volume_via_driver() {
    let mut drv = make_driver();
    drv.register_stream(0, StreamDirection::Output, 2, PcmFormat::S16Le, 44100).unwrap();
    drv.setup_and_start(0).unwrap();
    drv.set_volume(0, 64).unwrap();
    assert_eq!(drv.get_stream(0).unwrap().volume, 64);
}

#[test]
fn test_query_pcm_info_requires_feature() {
    let config = VirtioSndConfig { jacks: 0, streams: 2, chmaps: 0 };

    let features = VIRTIO_SND_F_JACK_INFO;
    let mut drv = VirtioSound::new(config, features);
    let result = drv.query_pcm_info();
    assert_eq!(result, Err(SndError::UnsupportedFeature));
}

#[test]
fn test_write_audio_frames_success_in_start_state() {
    let mut drv = make_driver();
    drv.register_stream(0, StreamDirection::Output, 2, PcmFormat::S16Le, 44100).unwrap();
    drv.setup_and_start(0).unwrap();

    let pcm_data = [0i16; 512];
    let bytes: Vec<u8> = pcm_data.iter().flat_map(|sample| sample.to_le_bytes()).collect();
    let result = drv.write_audio_frames(0, &bytes);
    assert!(result.is_ok());
    assert_eq!(result.unwrap(), 1024);
}

#[test]
fn test_write_audio_frames_rejected_in_prepare_state() {
    let config = VirtioSndConfig { jacks: 0, streams: 1, chmaps: 0 };
    let features = VIRTIO_SND_F_PCM_INFO;
    let mut drv = VirtioSound::new(config, features);
    drv.register_stream(0, StreamDirection::Output, 2, PcmFormat::S16Le, 44100).unwrap();

    {
        let stream = &mut drv.streams[0];
        let mut handler = ControlHandler::new(&mut drv.control_queue, drv.config, drv.features);
        handler.send_set_params(stream, 4096, 512).unwrap();
        handler.send_prepare(stream).unwrap();
    }

    let buf = [0u8; 64];
    let result = drv.write_audio_frames(0, &buf);
    assert_eq!(result, Err(SndError::InvalidState));
}

#[test]
fn test_write_audio_frames_empty_buffer_returns_zero() {
    let mut drv = make_driver();
    drv.register_stream(0, StreamDirection::Output, 2, PcmFormat::S16Le, 44100).unwrap();
    drv.setup_and_start(0).unwrap();

    let result = drv.write_audio_frames(0, &[]);
    assert_eq!(result, Ok(0));
}

#[test]
fn test_write_audio_frames_nonexistent_stream_rejected() {
    let mut drv = make_driver();
    let result = drv.write_audio_frames(99, &[0u8; 8]);
    assert_eq!(result, Err(SndError::InvalidStreamId));
}

#[test]
fn test_full_lifecycle_output_stream() {
    let mut drv = make_driver();
    drv.register_stream(0, StreamDirection::Output, 2, PcmFormat::S16Le, 44100).unwrap();

    drv.setup_and_start(0).unwrap();
    assert_eq!(drv.get_stream(0).unwrap().state, StreamState::Start);

    let data = [0u8; 256];
    drv.write_audio_frames(0, &data).unwrap();

    drv.stop_and_release(0).unwrap();
    assert_eq!(drv.get_stream(0).unwrap().state, StreamState::Release);
}

#[test]
fn test_multiple_streams_independent() {
    let mut drv = make_driver();
    drv.register_stream(0, StreamDirection::Output, 2, PcmFormat::S16Le, 44100).unwrap();
    drv.register_stream(1, StreamDirection::Input, 1, PcmFormat::S16Le, 16000).unwrap();

    drv.setup_and_start(0).unwrap();

    assert_eq!(drv.get_stream(1).unwrap().state, StreamState::SetParameters);

    assert_eq!(drv.get_stream(0).unwrap().state, StreamState::Start);
}

#[test]
fn test_stream_count_after_registration() {
    let mut drv = make_driver();
    assert_eq!(drv.stream_count(), 0);
    drv.register_stream(0, StreamDirection::Output, 2, PcmFormat::S16Le, 44100).unwrap();
    assert_eq!(drv.stream_count(), 1);
    drv.register_stream(1, StreamDirection::Input, 1, PcmFormat::S16Le, 8000).unwrap();
    assert_eq!(drv.stream_count(), 2);
}

#[test]
fn test_stop_and_release_from_stop_state() {
    let mut drv = make_driver();
    drv.register_stream(0, StreamDirection::Output, 2, PcmFormat::S16Le, 44100).unwrap();
    drv.setup_and_start(0).unwrap();

    {
        let stream = &mut drv.streams[0];
        let mut handler = ControlHandler::new(&mut drv.control_queue, drv.config, drv.features);
        handler.send_stop(stream).unwrap();
    }
    assert_eq!(drv.get_stream(0).unwrap().state, StreamState::Stop);
    drv.stop_and_release(0).unwrap();
    assert_eq!(drv.get_stream(0).unwrap().state, StreamState::Release);
}

#[test]
fn test_global_mute_sets_all_streams() {
    let mut drv = make_driver();
    drv.register_stream(0, StreamDirection::Output, 2, PcmFormat::S16Le, 44100).unwrap();
    drv.register_stream(1, StreamDirection::Output, 2, PcmFormat::S16Le, 44100).unwrap();

    drv.setup_and_start(0).unwrap();
    drv.setup_and_start(1).unwrap();

    drv.set_global_mute(true).unwrap();
    assert!(drv.get_stream(0).unwrap().muted);
    assert!(drv.get_stream(1).unwrap().muted);

    drv.set_global_mute(false).unwrap();
    assert!(!drv.get_stream(0).unwrap().muted);
    assert!(!drv.get_stream(1).unwrap().muted);
}

/// A driver with one stream, whose control queue has room for `free` descriptors.
fn driver_with_room(free: usize) -> VirtioSound {
    let mut drv = make_driver();
    drv.register_stream(0, StreamDirection::Output, 2, PcmFormat::S16Le, 44100).unwrap();
    for i in free..256 {
        drv.control_queue.add_chain(&[VirtqDesc::readable(i as u64, 1)]).unwrap();
    }
    drv
}

#[test]
fn a_new_driver_has_four_queues_and_no_streams() {
    let drv = make_driver();
    assert_eq!(drv.control_queue.queue_id, SndQueue::Control);
    assert_eq!(drv.event_queue.queue_id, SndQueue::Event);
    assert_eq!(drv.tx_queue.queue_id, SndQueue::Tx);
    assert_eq!(drv.rx_queue.queue_id, SndQueue::Rx);
    assert_eq!(drv.stream_count(), 0);
    assert!(!drv.global_mute);
    assert_eq!((drv.config.jacks, drv.config.streams, drv.config.chmaps), (1, 4, 2));
    assert_eq!(drv.features, 7);
}

#[test]
fn a_registered_stream_has_the_defaults() {
    let mut drv = make_driver();
    drv.register_stream(3, StreamDirection::Input, 18, PcmFormat::Float, 1).unwrap();
    let stream = drv.get_stream(3).unwrap();
    assert_eq!(stream.stream_id, 3);
    assert_eq!(stream.direction, StreamDirection::Input);
    assert_eq!(stream.state, StreamState::SetParameters);
    assert_eq!((stream.channels, stream.rate), (18, 1));
    assert_eq!(stream.format, PcmFormat::Float);
    assert_eq!((stream.muted, stream.volume), (false, 200));
    assert!(drv.get_stream(2).is_none());
    assert!(drv.get_stream_mut(2).is_none());
    drv.get_stream_mut(3).unwrap().volume = 1;
    assert_eq!(drv.get_stream(3).unwrap().volume, 1);
}

#[test]
fn setting_up_posts_three_requests() {
    let mut drv = driver_with_room(256);
    drv.setup_and_start(0).unwrap();
    assert_eq!(drv.control_queue.avail.idx, 3);
    let sizes: Vec<u32> = (0..6).map(|i| drv.control_queue.desc[i].len).collect();
    assert_eq!(sizes, vec![24, 4, 8, 4, 8, 4]);
    assert_eq!(drv.setup_and_start(0), Err(SndError::InvalidState));
    assert_eq!(drv.get_stream(0).unwrap().state, StreamState::Start);
    assert_eq!(drv.setup_and_start(1), Err(SndError::InvalidStreamId));
}

#[test]
fn a_failed_set_up_goes_back_to_the_parameters() {
    for (free, posted) in [(0, 0), (2, 1), (4, 2), (5, 2)] {
        let mut drv = driver_with_room(free);
        let before = drv.control_queue.avail.idx;
        assert_eq!(drv.setup_and_start(0), Err(SndError::QueueFull));
        assert_eq!(drv.get_stream(0).unwrap().state, StreamState::SetParameters);
        assert_eq!(drv.control_queue.avail.idx, before + posted);
    }
    let mut drv = driver_with_room(6);
    assert_eq!(drv.setup_and_start(0), Ok(()));
    assert_eq!(drv.control_queue.free_count, 0);
}

#[test]
fn setting_up_needs_a_known_rate() {
    let mut drv = make_driver();
    drv.register_stream(0, StreamDirection::Output, 2, PcmFormat::S16Le, 12345).unwrap();
    assert_eq!(drv.setup_and_start(0), Err(SndError::InvalidParameter));
    assert_eq!(drv.control_queue.avail.idx, 0);
}

#[test]
fn releasing_an_idle_stream_does_nothing() {
    let mut drv = driver_with_room(256);
    assert_eq!(drv.stop_and_release(0), Ok(()));
    assert_eq!(drv.get_stream(0).unwrap().state, StreamState::SetParameters);
    assert_eq!(drv.control_queue.avail.idx, 0);
    assert_eq!(drv.stop_and_release(9), Err(SndError::InvalidStreamId));
}

#[test]
fn a_stream_is_stopped_before_it_is_released() {
    let mut drv = driver_with_room(8);
    drv.setup_and_start(0).unwrap();
    assert_eq!(drv.stop_and_release(0), Err(SndError::QueueFull));
    assert_eq!(drv.get_stream(0).unwrap().state, StreamState::Stop);
    let mut drv = driver_with_room(10);
    drv.setup_and_start(0).unwrap();
    assert_eq!(drv.stop_and_release(0), Ok(()));
    assert_eq!(drv.get_stream(0).unwrap().state, StreamState::Release);
}

#[test]
fn a_prepared_stream_is_released_at_once() {
    let mut drv = driver_with_room(256);
    drv.streams[0].state = StreamState::Prepare;
    assert_eq!(drv.stop_and_release(0), Ok(()));
    assert_eq!(drv.get_stream(0).unwrap().state, StreamState::Release);
    assert_eq!(drv.control_queue.avail.idx, 1);
}

#[test]
fn the_life_cycle_begins_anew_after_a_release() {
    let mut drv = driver_with_room(256);
    for _ in 0..3 {
        drv.setup_and_start(0).unwrap();
        drv.stop_and_release(0).unwrap();
    }
    let stream = drv.get_stream(0).unwrap();
    assert_eq!(stream.state, StreamState::Release);
    assert_eq!((stream.muted, stream.volume, stream.rate), (false, 200, 44100));
}

#[test]
fn frames_are_posted_as_three_buffers() {
    let mut drv = driver_with_room(256);
    drv.setup_and_start(0).unwrap();
    let data = vec![1u8; 300];
    assert_eq!(drv.write_audio_frames(0, &data), Ok(300));
    let sizes: Vec<(u32, u16)> =
        (0..3).map(|i| (drv.tx_queue.desc[i].len, drv.tx_queue.desc[i].flags)).collect();
    assert_eq!(sizes, vec![(8, 1), (300, 1), (4, 2)]);
    assert_eq!(drv.tx_queue.desc[1].addr, data.as_ptr() as u64);
    assert_eq!(drv.tx_queue.avail.idx, 1);
    assert_eq!(drv.control_queue.avail.idx, 3);
}

#[test]
fn playback_fills_up_and_drains() {
    let mut drv = driver_with_room(256);
    drv.setup_and_start(0).unwrap();
    for _ in 0..85 {
        assert_eq!(drv.write_audio_frames(0, &[0u8; 16]), Ok(16));
    }
    assert_eq!(drv.write_audio_frames(0, &[0u8; 16]), Err(SndError::QueueFull));
    drv.tx_queue.simulate_device_complete(3, 4);
    assert_eq!(drv.process_tx_completions(), vec![(3, 4)]);
    assert_eq!(drv.write_audio_frames(0, &[0u8; 16]), Ok(16));
    assert_eq!(drv.process_tx_completions(), vec![]);
}

#[test]
fn capture_completions_are_taken_back() {
    let mut drv = make_driver();
    let head = drv.rx_queue.add_chain(&[VirtqDesc::writable(0x1000, 512)]).unwrap();
    drv.rx_queue.simulate_device_complete(head, 512);
    assert_eq!(drv.process_rx_completions(), vec![(head, 512)]);
    assert_eq!(drv.process_rx_completions(), vec![]);
}

#[test]
fn pcm_info_is_a_request() {
    let mut drv = driver_with_room(2);
    assert_eq!(drv.query_pcm_info(), Ok(()));
    assert_eq!(drv.query_pcm_info(), Err(SndError::QueueFull));
}

#[test]
fn unknown_streams_have_neither_mute_nor_volume() {
    let mut drv = driver_with_room(256);
    assert_eq!(drv.toggle_mute(1), Err(SndError::InvalidStreamId));
    assert_eq!(drv.set_volume(1, 3), Err(SndError::InvalidStreamId));
    assert_eq!(drv.toggle_mute(0), Err(SndError::InvalidState));
    assert_eq!(drv.set_volume(0, 3), Err(SndError::InvalidState));
}

#[test]
fn global_mute_passes_over_streams_that_cannot_be_muted() {
    let mut drv = make_driver();
    for id in 0..4 {
        drv.register_stream(id, StreamDirection::Output, 2, PcmFormat::S16Le, 44100).unwrap();
    }
    drv.setup_and_start(1).unwrap();
    drv.setup_and_start(3).unwrap();
    let before = drv.control_queue.avail.idx;
    assert_eq!(drv.set_global_mute(true), Ok(()));
    let muted: Vec<bool> = drv.streams.iter().map(|stream| stream.muted).collect();
    assert_eq!(muted, vec![false, true, false, true]);
    assert!(drv.global_mute);
    assert_eq!(drv.control_queue.avail.idx, before + 2);
}

#[test]
fn global_mute_stops_where_the_queue_is_full() {
    let mut drv = make_driver();
    for id in 0..3 {
        drv.register_stream(id, StreamDirection::Output, 2, PcmFormat::S16Le, 44100).unwrap();
        drv.setup_and_start(id).unwrap();
    }
    while drv.control_queue.free_count > 5 {
        drv.control_queue.add_chain(&[VirtqDesc::readable(1, 1)]).unwrap();
    }
    assert_eq!(drv.set_global_mute(true), Ok(()));
    let muted: Vec<bool> = drv.streams.iter().map(|stream| stream.muted).collect();
    assert_eq!(muted, vec![true, true, false]);
    assert!(drv.global_mute);
}

#[test]
fn registrations_last() {
    let mut drv = make_driver();
    for id in [2, 0, 3, 1] {
        drv.register_stream(id, StreamDirection::Output, id as u8 + 1, PcmFormat::S16Le, 44100)
            .unwrap();
    }
    for id in 0..6 {
        let again = drv.register_stream(id, StreamDirection::Input, 1, PcmFormat::U8, 8000);
        assert!(again.is_err());
    }
    drv.setup_and_start(3).unwrap();
    drv.set_volume(3, 1).unwrap();
    drv.set_global_mute(true).unwrap();
    drv.stop_and_release(3).unwrap();
    assert_eq!(drv.stream_count(), 4);
    for id in 0..4 {
        let stream = drv.get_stream(id).unwrap();
        assert_eq!((stream.stream_id, stream.channels, stream.rate), (id, id as u8 + 1, 44100));
        assert_eq!(stream.direction, StreamDirection::Output);
    }
}

#[test]
fn enough_descriptors_mean_that_frames_can_be_written() {
    let mut drv = driver_with_room(256);
    drv.setup_and_start(0).unwrap();
    while drv.tx_queue.has_free_descs(3) {
        assert_eq!(drv.write_audio_frames(0, &[0u8; 4]), Ok(4));
    }
    assert_eq!(drv.write_audio_frames(0, &[0u8; 4]), Err(SndError::QueueFull));
    assert_eq!(drv.tx_queue.free_desc_count(), 1);
}

#[test]
fn a_stream_can_be_set_up_after_a_roll_back() {
    let mut drv = driver_with_room(4);
    assert_eq!(drv.setup_and_start(0), Err(SndError::QueueFull));
    assert_eq!(drv.write_audio_frames(0, &[0u8; 4]), Err(SndError::InvalidState));
    for i in 0..6 {
        drv.control_queue.simulate_device_complete(i, 0);
    }
    assert_eq!(drv.control_queue.process_used().len(), 6);
    let before = drv.control_queue.avail.idx;
    assert_eq!(drv.setup_and_start(0), Ok(()));
    assert_eq!(drv.control_queue.avail.idx, before + 3);
    assert_eq!(drv.get_stream(0).unwrap().state, StreamState::Start);
    assert_eq!(drv.write_audio_frames(0, &[0u8; 4]), Ok(4));
}

#[test]
fn a_stream_runs_only_after_it_was_prepared_and_started() {
    let mut drv = driver_with_room(256);
    let mut asked = vec![];
    let states =
        [StreamState::Prepare, StreamState::Start, StreamState::Stop, StreamState::Release];
    for state in states {
        let stream = &mut drv.streams[0];
        let mut handler = ControlHandler::new(&mut drv.control_queue, drv.config, drv.features);
        match state {
            StreamState::Prepare => handler.send_prepare(stream).unwrap(),
            StreamState::Start => handler.send_start(stream).unwrap(),
            StreamState::Stop => handler.send_stop(stream).unwrap(),
            _ => handler.send_release(stream).unwrap(),
        }
        asked.push((drv.control_queue.avail.idx, drv.streams[0].state));
        let written = drv.write_audio_frames(0, &[0u8; 4]);
        assert_eq!(written.is_ok(), state == StreamState::Start);
    }
    assert_eq!(asked, vec![(1, states[0]), (2, states[1]), (3, states[2]), (4, states[3])]);
}
