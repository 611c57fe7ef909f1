//! Requests as bytes.
use rcore_os_virtio_snd::protocol::{
    frame_header, VIRTIO_SND_R_CHMAP_INFO, VIRTIO_SND_R_PCM_MUTE, VIRTIO_SND_R_PCM_SET_PARAMS,
    VIRTIO_SND_R_PCM_START, VIRTIO_SND_R_PCM_VOLUME,
};
use rcore_os_virtio_snd::{
    PcmFormat, SndError, VirtioSndChmapInfo, VirtioSndHdr, VirtioSndMuteCmd, VirtioSndPcmHdr,
    VirtioSndPcmSetParams, VirtioSndResp, VirtioSndVolumeCmd,
};

#[test]
fn set_params_bytes() {
    let request = VirtioSndPcmSetParams {
        hdr: VirtioSndHdr { code: VIRTIO_SND_R_PCM_SET_PARAMS },
        stream_id: 3,
        buffer_bytes: 0x0102_0304,
        period_bytes: 512,
        features: 0,
        channels: 2,
        format: PcmFormat::S16Le.code(),
        rate: 6,
        _padding: 0,
    };
    assert_eq!(
        request.to_bytes(),
        vec![1, 1, 0, 0, 3, 0, 0, 0, 4, 3, 2, 1, 0, 2, 0, 0, 0, 0, 0, 0, 2, 1, 6, 0]
    );
}

#[test]
fn stream_command_bytes() {
    let hdr = VirtioSndHdr { code: VIRTIO_SND_R_PCM_START };
    assert_eq!(hdr.to_bytes(), vec![3, 1, 0, 0]);
    let request = VirtioSndPcmHdr { hdr, stream_id: 0xffff_fffe };
    assert_eq!(request.to_bytes(), vec![3, 1, 0, 0, 0xfe, 0xff, 0xff, 0xff]);
}

#[test]
fn mute_and_volume_bytes() {
    let mute = VirtioSndMuteCmd {
        hdr: VirtioSndHdr { code: VIRTIO_SND_R_PCM_MUTE },
        stream_id: 1,
        mute: 1,
        _padding: [0; 3],
    };
    assert_eq!(mute.to_bytes(), vec![0, 3, 0, 0, 1, 0, 0, 0, 1, 0, 0, 0]);
    let volume = VirtioSndVolumeCmd {
        hdr: VirtioSndHdr { code: VIRTIO_SND_R_PCM_VOLUME },
        stream_id: 1,
        volume: 77,
        _padding: [0; 3],
    };
    assert_eq!(volume.to_bytes(), vec![1, 3, 0, 0, 1, 0, 0, 0, 77, 0, 0, 0]);
}

#[test]
fn chmap_bytes() {
    let request = VirtioSndChmapInfo {
        hdr: VirtioSndHdr { code: VIRTIO_SND_R_CHMAP_INFO },
        stream_id: 2,
        channels: 6,
        positions: [0; 18],
        _padding: 0,
    };
    let bytes = request.to_bytes();
    assert_eq!(bytes.len(), 28);
    assert_eq!(bytes[..9], [0, 2, 0, 0, 2, 0, 0, 0, 6]);
    assert!(bytes[9..].iter().all(|&byte| byte == 0));
}

#[test]
fn replies_are_little_endian() {
    assert_eq!(VirtioSndResp::from_bytes(&[0x78, 0x56, 0x34, 0x12]).code, 0x1234_5678);
    for code in [0u32, 1, 0x8000, 0xffff_ffff] {
        assert_eq!(VirtioSndResp::from_bytes(&VirtioSndHdr { code }.to_bytes()).code, code);
    }
}

#[test]
fn frame_header_bytes() {
    assert_eq!(frame_header(0x0a0b), vec![0x0b, 0x0a, 0, 0, 0xad, 0xde, 0, 0]);
}

#[test]
fn format_codes() {
    let codes: Vec<u8> = [
        PcmFormat::U8,
        PcmFormat::S16Le,
        PcmFormat::S24Le,
        PcmFormat::S32Le,
        PcmFormat::Float,
    ]
    .iter()
    .map(|format| format.code())
    .collect();
    assert_eq!(codes, vec![0, 1, 2, 3, 4]);
}

#[test]
fn error_messages() {
    assert_eq!(SndError::QueueFull.message(), "Virtqueue is full");
    assert_eq!(SndError::InvalidStreamId.message(), "Invalid PCM stream ID");
    assert_eq!(SndError::VolumeOutOfRange.message(), "Volume value out of range [0, 255]");
}

#[test]
fn different_errors_show_different_texts() {
    let errors = [
        SndError::UnsupportedFeature,
        SndError::InvalidStreamId,
        SndError::InvalidState,
        SndError::QueueFull,
        SndError::DeviceError,
        SndError::InvalidParameter,
        SndError::ChmapOutOfRange,
        SndError::VolumeOutOfRange,
        SndError::Timeout,
        SndError::QueueIndexOutOfRange,
    ];
    for (i, error) in errors.iter().enumerate() {
        for other in &errors[..i] {
            assert_ne!(error.message(), other.message());
        }
    }
}
