//! Control requests: stream life cycle, mute, volume and channel maps.
use crate::protocol;
use crate::protocol::{
    PcmStream, SndError, StreamState, VirtioSndChmapInfo, VirtioSndConfig, VirtioSndHdr,
    VirtioSndMuteCmd, VirtioSndPcmHdr, VirtioSndPcmSetParams, VirtioSndResp, VirtioSndVolumeCmd,
    CHMAP_INFO_BYTES, CHMAP_REPLY_BYTES, MAX_CHANNELS, MUTE_CMD_BYTES, PCM_HDR_BYTES,
    PCM_SET_PARAMS_BYTES, STATUS_REPLY_BYTES, VIRTIO_SND_F_CHMAP_INFO, VOLUME_CMD_BYTES,
    VIRTIO_SND_R_CHMAP_INFO, VIRTIO_SND_R_PCM_MUTE, VIRTIO_SND_R_PCM_PREPARE,
    VIRTIO_SND_R_PCM_RELEASE, VIRTIO_SND_R_PCM_SET_PARAMS, VIRTIO_SND_R_PCM_START,
    VIRTIO_SND_R_PCM_STOP, VIRTIO_SND_R_PCM_VOLUME, VIRTIO_SND_S_IO_ERR, VIRTIO_SND_S_NOT_SUPP,
    VIRTIO_SND_S_OK,
};
use crate::virtqueue::VirtQueue;
use vstd::prelude::*;

verus! {

/// What a status code says. A reply that was never written reads as zero and counts as success.
pub open spec fn status_result(code: u32) -> Result<(), SndError> {
    if code == VIRTIO_SND_S_OK || code == 0 {
        Ok(())
    } else if code == VIRTIO_SND_S_NOT_SUPP {
        Err(SndError::UnsupportedFeature)
    } else {
        Err(SndError::DeviceError)
    }
}

/// The number by which a request names a sample rate.
pub open spec fn rate_code(rate: u32) -> Option<u8> {
    if rate == 5512 {
        Some(0)
    } else if rate == 8000 {
        Some(1)
    } else if rate == 11025 {
        Some(2)
    } else if rate == 16000 {
        Some(3)
    } else if rate == 22050 {
        Some(4)
    } else if rate == 32000 {
        Some(5)
    } else if rate == 44100 {
        Some(6)
    } else if rate == 48000 {
        Some(7)
    } else if rate == 64000 {
        Some(8)
    } else if rate == 88200 {
        Some(9)
    } else if rate == 96000 {
        Some(10)
    } else if rate == 176400 {
        Some(11)
    } else if rate == 192000 {
        Some(12)
    } else if rate == 384000 {
        Some(13)
    } else {
        None
    }
}

/// The set-parameters request of a stream.
pub open spec fn set_params_wire(stream: PcmStream, buffer_bytes: u32, period_bytes: u32) -> Seq<
    u8,
> {
    protocol::le_bytes(VIRTIO_SND_R_PCM_SET_PARAMS) + protocol::le_bytes(stream.stream_id)
        + protocol::le_bytes(buffer_bytes) + protocol::le_bytes(period_bytes) + protocol::le_bytes(
        0,
    ) + seq![stream.channels, stream.format.spec_code(), rate_code(stream.rate).unwrap(), 0]
}

/// The request that prepares, starts, stops or releases a stream.
pub open spec fn stream_wire(command: u32, stream_id: u32) -> Seq<u8> {
    protocol::le_bytes(command) + protocol::le_bytes(stream_id)
}

/// The request that mutes or unmutes a stream.
pub open spec fn mute_wire(stream_id: u32, mute: bool) -> Seq<u8> {
    protocol::le_bytes(VIRTIO_SND_R_PCM_MUTE) + protocol::le_bytes(stream_id) + seq![
        if mute {
            1u8
        } else {
            0u8
        },
        0u8,
        0u8,
        0u8,
    ]
}

/// The request that sets the volume of a stream.
pub open spec fn volume_wire(stream_id: u32, volume: u8) -> Seq<u8> {
    protocol::le_bytes(VIRTIO_SND_R_PCM_VOLUME) + protocol::le_bytes(stream_id) + seq![
        volume,
        0u8,
        0u8,
        0u8,
    ]
}

/// The request for the channel map of a stream.
pub open spec fn chmap_wire(stream_id: u32, channels: u8) -> Seq<u8> {
    protocol::le_bytes(VIRTIO_SND_R_CHMAP_INFO) + protocol::le_bytes(stream_id) + seq![channels]
        + Seq::new(19, |i: int| 0u8)
}

/// Why a request for a stream cannot be posted, where `free` descriptors are free.
pub open spec fn post_error(config: VirtioSndConfig, stream_id: u32, free: nat) -> Option<
    SndError,
> {
    if stream_id >= config.streams {
        Some(SndError::InvalidStreamId)
    } else if free < 2 {
        Some(SndError::QueueFull)
    } else {
        None
    }
}

/// Why the parameters of a stream cannot be set: the first of the reasons, in this order.
pub open spec fn set_params_error(
    config: VirtioSndConfig,
    stream: PcmStream,
    buffer_bytes: u32,
    period_bytes: u32,
    free: nat,
) -> Option<SndError> {
    if !(stream.state is SetParameters || stream.state is Release) {
        Some(SndError::InvalidState)
    } else if buffer_bytes == 0 || period_bytes == 0 || period_bytes > buffer_bytes {
        Some(SndError::InvalidParameter)
    } else if stream.channels == 0 || stream.channels > MAX_CHANNELS {
        Some(SndError::InvalidParameter)
    } else if stream.stream_id >= config.streams {
        Some(SndError::InvalidStreamId)
    } else if rate_code(stream.rate) is None {
        Some(SndError::InvalidParameter)
    } else if free < 2 {
        Some(SndError::QueueFull)
    } else {
        None
    }
}

/// Whether a life cycle command may take a stream from one state to another.
pub open spec fn legal_transition(from: StreamState, to: StreamState) -> bool {
    match to {
        StreamState::SetParameters => from is SetParameters || from is Release,
        StreamState::Prepare => from is SetParameters,
        StreamState::Start => from is Prepare || from is Stop,
        StreamState::Stop => from is Start,
        StreamState::Release => from is Prepare || from is Stop,
    }
}

/// Why a life cycle command that leads to `to` fails.
pub open spec fn transition_error(
    config: VirtioSndConfig,
    stream: PcmStream,
    to: StreamState,
    free: nat,
) -> Option<SndError> {
    if !legal_transition(stream.state, to) {
        Some(SndError::InvalidState)
    } else {
        post_error(config, stream.stream_id, free)
    }
}

/// Whether mute and volume may be changed.
pub open spec fn adjustable(state: StreamState) -> bool {
    state is Prepare || state is Start || state is Stop
}

/// Why the mute flag or the volume of a stream cannot be changed.
pub open spec fn adjust_error(config: VirtioSndConfig, stream: PcmStream, free: nat) -> Option<
    SndError,
> {
    if !adjustable(stream.state) {
        Some(SndError::InvalidState)
    } else {
        post_error(config, stream.stream_id, free)
    }
}

/// Why a channel map cannot be queried.
pub open spec fn chmap_error(
    config: VirtioSndConfig,
    features: u64,
    stream: PcmStream,
    free: nat,
) -> Option<SndError> {
    if features & VIRTIO_SND_F_CHMAP_INFO == 0 {
        Some(SndError::UnsupportedFeature)
    } else {
        post_error(config, stream.stream_id, free)
    }
}

/// Turns stream operations into control requests and interprets the replies.
pub struct ControlHandler<'a> {
    /// The control queue.
    pub ctrl_queue: &'a mut VirtQueue,
    /// Device configuration, for range checks.
    pub config: VirtioSndConfig,
    /// Negotiated features.
    pub features: u64,
}

impl<'a> ControlHandler<'a> {
    /// Creates a handler for a control queue.
    pub fn new(ctrl_queue: &'a mut VirtQueue, config: VirtioSndConfig, features: u64) -> (handler:
        Self)
        ensures
            *handler.ctrl_queue == *old(ctrl_queue),
            *final(handler.ctrl_queue) == *final(ctrl_queue),
            handler.config == config,
            handler.features == features,
    {
        Self { ctrl_queue, config, features }
    }

    /// Interprets a status code.
    pub fn parse_response(&self, code: u32) -> (result: Result<(), SndError>)
        ensures
            result == status_result(code),
    {
        if code == VIRTIO_SND_S_OK {
            Ok(())
        } else if code == VIRTIO_SND_S_NOT_SUPP {
            Err(SndError::UnsupportedFeature)
        } else if code == VIRTIO_SND_S_IO_ERR {
            Err(SndError::DeviceError)
        } else if code == 0 {
            Ok(())
        } else {
            Err(SndError::DeviceError)
        }
    }

    /// Encodes a sample rate in Hz.
    pub fn encode_rate(rate: u32) -> (code: Result<u8, SndError>)
        ensures
            match rate_code(rate) {
                Some(c) => code == Ok::<u8, SndError>(c),
                None => code == Err::<u8, SndError>(SndError::InvalidParameter),
            },
    {
        match rate {
            5512 => Ok(0),
            8000 => Ok(1),
            11025 => Ok(2),
            16000 => Ok(3),
            22050 => Ok(4),
            32000 => Ok(5),
            44100 => Ok(6),
            48000 => Ok(7),
            64000 => Ok(8),
            88200 => Ok(9),
            96000 => Ok(10),
            176400 => Ok(11),
            192000 => Ok(12),
            384000 => Ok(13),
            _ => Err(SndError::InvalidParameter),
        }
    }

    /// Decodes a sample rate to Hz.
    pub fn decode_rate(code: u8) -> (rate: Option<u32>)
        ensures
            rate is Some <==> code <= 13,
            rate matches Some(hz) ==> rate_code(hz) == Some(code),
    {
        match code {
            0 => Some(5512),
            1 => Some(8000),
            2 => Some(11025),
            3 => Some(16000),
            4 => Some(22050),
            5 => Some(32000),
            6 => Some(44100),
            7 => Some(48000),
            8 => Some(64000),
            9 => Some(88200),
            10 => Some(96000),
            11 => Some(176400),
            12 => Some(192000),
            13 => Some(384000),
            _ => None,
        }
    }

    /// Acts on the status of a life cycle command: the stream reaches `next` if the device
    /// accepted, and stays where it is if not.
    pub fn finish_transition(
        &self,
        stream: &mut PcmStream,
        next: StreamState,
        status: u32,
    ) -> (result: Result<(), SndError>)
        ensures
            result == status_result(status),
            *final(stream) == (if status_result(status) is Ok {
                PcmStream { state: next, ..*old(stream) }
            } else {
                *old(stream)
            }),
    {
        self.parse_response(status)?;
        stream.state = next;
        Ok(())
    }

    /// Posts a request that prepares, starts, stops or releases a stream. Returns the status.
    ///
    /// No device answers within the call, so the reply buffer still reads as zero.
    fn send_stream_cmd(&mut self, stream_id: u32, cmd_code: u32) -> (status: Result<u32, SndError>)
        requires
            (*old(self).ctrl_queue).wf(),
        ensures
            match post_error(
                old(self).config,
                stream_id,
                (*old(self).ctrl_queue).model@.free.len(),
            ) {
                Some(error) => {
                    &&& status == Err::<u32, SndError>(error)
                    &&& *final(self).ctrl_queue == *old(self).ctrl_queue
                },
                None => {
                    &&& status == Ok::<u32, SndError>(0)
                    &&& VirtQueue::request_posted(
                        *old(self).ctrl_queue,
                        *final(self).ctrl_queue,
                        stream_wire(cmd_code, stream_id),
                        STATUS_REPLY_BYTES,
                    )
                },
            },
            (*final(self).ctrl_queue).wf(),
            final(self).config == old(self).config,
            final(self).features == old(self).features,
            *final(final(self).ctrl_queue) == *final(old(self).ctrl_queue),
    {
        if stream_id >= self.config.streams {
            return Err(SndError::InvalidStreamId);
        }
        let cmd = VirtioSndPcmHdr { hdr: VirtioSndHdr { code: cmd_code }, stream_id };
        let request: Vec<u8> = cmd.to_bytes();
        let reply: [u8; 4] = [0;4];
        self.ctrl_queue.post_request(request.as_slice(), &reply)?;
        Ok(VirtioSndResp::from_bytes(&reply).code)
    }

    /// Posts the parameters of a stream.
    pub fn send_set_params(
        &mut self,
        stream: &mut PcmStream,
        buffer_bytes: u32,
        period_bytes: u32,
    ) -> (result: Result<(), SndError>)
        requires
            (*old(self).ctrl_queue).wf(),
        ensures
            match set_params_error(
                old(self).config,
                *old(stream),
                buffer_bytes,
                period_bytes,
                (*old(self).ctrl_queue).model@.free.len(),
            ) {
                Some(error) => {
                    &&& result == Err::<(), SndError>(error)
                    &&& *final(stream) == *old(stream)
                    &&& *final(self).ctrl_queue == *old(self).ctrl_queue
                },
                None => {
                    &&& result == Ok::<(), SndError>(())
                    &&& *final(stream) == (PcmStream {
                        state: StreamState::SetParameters,
                        ..*old(stream)
                    })
                    &&& VirtQueue::request_posted(
                        *old(self).ctrl_queue,
                        *final(self).ctrl_queue,
                        set_params_wire(*old(stream), buffer_bytes, period_bytes),
                        STATUS_REPLY_BYTES,
                    )
                },
            },
            (*final(self).ctrl_queue).wf(),
            final(self).config == old(self).config,
            final(self).features == old(self).features,
            *final(final(self).ctrl_queue) == *final(old(self).ctrl_queue),
    {
        match stream.state {
            StreamState::SetParameters | StreamState::Release => {},
            _ => {
                return Err(SndError::InvalidState);
            },
        }
        if buffer_bytes == 0 || period_bytes == 0 {
            return Err(SndError::InvalidParameter);
        }
        if period_bytes > buffer_bytes {
            return Err(SndError::InvalidParameter);
        }
        if stream.channels == 0 || stream.channels > MAX_CHANNELS {
            return Err(SndError::InvalidParameter);
        }
        if stream.stream_id >= self.config.streams {
            return Err(SndError::InvalidStreamId);
        }
        let req = VirtioSndPcmSetParams {
            hdr: VirtioSndHdr { code: VIRTIO_SND_R_PCM_SET_PARAMS },
            stream_id: stream.stream_id,
            buffer_bytes,
            period_bytes,
            features: 0,
            channels: stream.channels,
            format: stream.format.code(),
            rate: Self::encode_rate(stream.rate)?,
            _padding: 0,
        };
        let request: Vec<u8> = req.to_bytes();
        let reply: [u8; 4] = [0;4];
        self.ctrl_queue.post_request(request.as_slice(), &reply)?;
        let status: u32 = VirtioSndResp::from_bytes(&reply).code;
        self.finish_transition(stream, StreamState::SetParameters, status)
    }

    /// Prepares a stream whose parameters are set.
    pub fn send_prepare(&mut self, stream: &mut PcmStream) -> (result: Result<(), SndError>)
        requires
            (*old(self).ctrl_queue).wf(),
        ensures
            match transition_error(
                old(self).config,
                *old(stream),
                StreamState::Prepare,
                (*old(self).ctrl_queue).model@.free.len(),
            ) {
                Some(error) => {
                    &&& result == Err::<(), SndError>(error)
                    &&& *final(stream) == *old(stream)
                    &&& *final(self).ctrl_queue == *old(self).ctrl_queue
                },
                None => {
                    &&& result == Ok::<(), SndError>(())
                    &&& *final(stream) == (PcmStream {
                        state: StreamState::Prepare,
                        ..*old(stream)
                    })
                    &&& VirtQueue::request_posted(
                        *old(self).ctrl_queue,
                        *final(self).ctrl_queue,
                        stream_wire(VIRTIO_SND_R_PCM_PREPARE, old(stream).stream_id),
                        STATUS_REPLY_BYTES,
                    )
                },
            },
            (*final(self).ctrl_queue).wf(),
            final(self).config == old(self).config,
            final(self).features == old(self).features,
            *final(final(self).ctrl_queue) == *final(old(self).ctrl_queue),
    {
        if stream.state != StreamState::SetParameters {
            return Err(SndError::InvalidState);
        }
        let status: u32 = self.send_stream_cmd(stream.stream_id, VIRTIO_SND_R_PCM_PREPARE)?;
        self.finish_transition(stream, StreamState::Prepare, status)
    }

    /// Starts a prepared stream, or resumes a stopped one.
    pub fn send_start(&mut self, stream: &mut PcmStream) -> (result: Result<(), SndError>)
        requires
            (*old(self).ctrl_queue).wf(),
        ensures
            match transition_error(
                old(self).config,
                *old(stream),
                StreamState::Start,
                (*old(self).ctrl_queue).model@.free.len(),
            ) {
                Some(error) => {
                    &&& result == Err::<(), SndError>(error)
                    &&& *final(stream) == *old(stream)
                    &&& *final(self).ctrl_queue == *old(self).ctrl_queue
                },
                None => {
                    &&& result == Ok::<(), SndError>(())
                    &&& *final(stream) == (PcmStream { state: StreamState::Start, ..*old(stream) })
                    &&& VirtQueue::request_posted(
                        *old(self).ctrl_queue,
                        *final(self).ctrl_queue,
                        stream_wire(VIRTIO_SND_R_PCM_START, old(stream).stream_id),
                        STATUS_REPLY_BYTES,
                    )
                },
            },
            (*final(self).ctrl_queue).wf(),
            final(self).config == old(self).config,
            final(self).features == old(self).features,
            *final(final(self).ctrl_queue) == *final(old(self).ctrl_queue),
    {
        match stream.state {
            StreamState::Prepare | StreamState::Stop => {},
            _ => {
                return Err(SndError::InvalidState);
            },
        }
        let status: u32 = self.send_stream_cmd(stream.stream_id, VIRTIO_SND_R_PCM_START)?;
        self.finish_transition(stream, StreamState::Start, status)
    }

    /// Stops a running stream.
    pub fn send_stop(&mut self, stream: &mut PcmStream) -> (result: Result<(), SndError>)
        requires
            (*old(self).ctrl_queue).wf(),
        ensures
            match transition_error(
                old(self).config,
                *old(stream),
                StreamState::Stop,
                (*old(self).ctrl_queue).model@.free.len(),
            ) {
                Some(error) => {
                    &&& result == Err::<(), SndError>(error)
                    &&& *final(stream) == *old(stream)
                    &&& *final(self).ctrl_queue == *old(self).ctrl_queue
                },
                None => {
                    &&& result == Ok::<(), SndError>(())
                    &&& *final(stream) == (PcmStream { state: StreamState::Stop, ..*old(stream) })
                    &&& VirtQueue::request_posted(
                        *old(self).ctrl_queue,
                        *final(self).ctrl_queue,
                        stream_wire(VIRTIO_SND_R_PCM_STOP, old(stream).stream_id),
                        STATUS_REPLY_BYTES,
                    )
                },
            },
            (*final(self).ctrl_queue).wf(),
            final(self).config == old(self).config,
            final(self).features == old(self).features,
            *final(final(self).ctrl_queue) == *final(old(self).ctrl_queue),
    {
        if stream.state != StreamState::Start {
            return Err(SndError::InvalidState);
        }
        let status: u32 = self.send_stream_cmd(stream.stream_id, VIRTIO_SND_R_PCM_STOP)?;
        self.finish_transition(stream, StreamState::Stop, status)
    }

    /// Releases a prepared or stopped stream. It can be given parameters again.
    pub fn send_release(&mut self, stream: &mut PcmStream) -> (result: Result<(), SndError>)
        requires
            (*old(self).ctrl_queue).wf(),
        ensures
            match transition_error(
                old(self).config,
                *old(stream),
                StreamState::Release,
                (*old(self).ctrl_queue).model@.free.len(),
            ) {
                Some(error) => {
                    &&& result == Err::<(), SndError>(error)
                    &&& *final(stream) == *old(stream)
                    &&& *final(self).ctrl_queue == *old(self).ctrl_queue
                },
                None => {
                    &&& result == Ok::<(), SndError>(())
                    &&& *final(stream) == (PcmStream {
                        state: StreamState::Release,
                        ..*old(stream)
                    })
                    &&& VirtQueue::request_posted(
                        *old(self).ctrl_queue,
                        *final(self).ctrl_queue,
                        stream_wire(VIRTIO_SND_R_PCM_RELEASE, old(stream).stream_id),
                        STATUS_REPLY_BYTES,
                    )
                },
            },
            (*final(self).ctrl_queue).wf(),
            final(self).config == old(self).config,
            final(self).features == old(self).features,
            *final(final(self).ctrl_queue) == *final(old(self).ctrl_queue),
    {
        match stream.state {
            StreamState::Prepare | StreamState::Stop => {},
            _ => {
                return Err(SndError::InvalidState);
            },
        }
        let status: u32 = self.send_stream_cmd(stream.stream_id, VIRTIO_SND_R_PCM_RELEASE)?;
        self.finish_transition(stream, StreamState::Release, status)
    }

    /// Acts on the status of a mute request: the flag changes only if the device accepted.
    pub fn finish_mute(
        &self,
        stream: &mut PcmStream,
        mute: bool,
        status: u32,
    ) -> (result: Result<(), SndError>)
        ensures
            result == status_result(status),
            *final(stream) == (if status_result(status) is Ok {
                PcmStream { muted: mute, ..*old(stream) }
            } else {
                *old(stream)
            }),
    {
        self.parse_response(status)?;
        stream.muted = mute;
        Ok(())
    }

    /// Mutes or unmutes a stream that is prepared, running or stopped.
    pub fn send_mute(
        &mut self,
        stream: &mut PcmStream,
        mute: bool,
    ) -> (result: Result<(), SndError>)
        requires
            (*old(self).ctrl_queue).wf(),
        ensures
            match adjust_error(
                old(self).config,
                *old(stream),
                (*old(self).ctrl_queue).model@.free.len(),
            ) {
                Some(error) => {
                    &&& result == Err::<(), SndError>(error)
                    &&& *final(stream) == *old(stream)
                    &&& *final(self).ctrl_queue == *old(self).ctrl_queue
                },
                None => {
                    &&& result == Ok::<(), SndError>(())
                    &&& *final(stream) == (PcmStream { muted: mute, ..*old(stream) })
                    &&& VirtQueue::request_posted(
                        *old(self).ctrl_queue,
                        *final(self).ctrl_queue,
                        mute_wire(old(stream).stream_id, mute),
                        STATUS_REPLY_BYTES,
                    )
                },
            },
            (*final(self).ctrl_queue).wf(),
            final(self).config == old(self).config,
            final(self).features == old(self).features,
            *final(final(self).ctrl_queue) == *final(old(self).ctrl_queue),
    {
        match stream.state {
            StreamState::Start | StreamState::Stop | StreamState::Prepare => {},
            _ => {
                return Err(SndError::InvalidState);
            },
        }
        if stream.stream_id >= self.config.streams {
            return Err(SndError::InvalidStreamId);
        }
        let cmd = VirtioSndMuteCmd {
            hdr: VirtioSndHdr { code: VIRTIO_SND_R_PCM_MUTE },
            stream_id: stream.stream_id,
            mute: if mute {
                1
            } else {
                0
            },
            _padding: [0;3],
        };
        let request: Vec<u8> = cmd.to_bytes();
        assert(request@ =~= mute_wire(stream.stream_id, mute));
        let reply: [u8; 4] = [0;4];
        self.ctrl_queue.post_request(request.as_slice(), &reply)?;
        let status: u32 = VirtioSndResp::from_bytes(&reply).code;
        self.finish_mute(stream, mute, status)
    }

    /// Acts on the status of a volume request: the volume changes only if the device accepted.
    pub fn finish_volume(
        &self,
        stream: &mut PcmStream,
        volume: u8,
        status: u32,
    ) -> (result: Result<(), SndError>)
        ensures
            result == status_result(status),
            *final(stream) == (if status_result(status) is Ok {
                PcmStream { volume, ..*old(stream) }
            } else {
                *old(stream)
            }),
    {
        self.parse_response(status)?;
        stream.volume = volume;
        Ok(())
    }

    /// Sets the volume of a stream that is prepared, running or stopped.
    pub fn send_volume(
        &mut self,
        stream: &mut PcmStream,
        volume: u8,
    ) -> (result: Result<(), SndError>)
        requires
            (*old(self).ctrl_queue).wf(),
        ensures
            match adjust_error(
                old(self).config,
                *old(stream),
                (*old(self).ctrl_queue).model@.free.len(),
            ) {
                Some(error) => {
                    &&& result == Err::<(), SndError>(error)
                    &&& *final(stream) == *old(stream)
                    &&& *final(self).ctrl_queue == *old(self).ctrl_queue
                },
                None => {
                    &&& result == Ok::<(), SndError>(())
                    &&& *final(stream) == (PcmStream { volume, ..*old(stream) })
                    &&& VirtQueue::request_posted(
                        *old(self).ctrl_queue,
                        *final(self).ctrl_queue,
                        volume_wire(old(stream).stream_id, volume),
                        STATUS_REPLY_BYTES,
                    )
                },
            },
            (*final(self).ctrl_queue).wf(),
            final(self).config == old(self).config,
            final(self).features == old(self).features,
            *final(final(self).ctrl_queue) == *final(old(self).ctrl_queue),
    {
        match stream.state {
            StreamState::Start | StreamState::Stop | StreamState::Prepare => {},
            _ => {
                return Err(SndError::InvalidState);
            },
        }
        if stream.stream_id >= self.config.streams {
            return Err(SndError::InvalidStreamId);
        }
        let cmd = VirtioSndVolumeCmd {
            hdr: VirtioSndHdr { code: VIRTIO_SND_R_PCM_VOLUME },
            stream_id: stream.stream_id,
            volume,
            _padding: [0;3],
        };
        let request: Vec<u8> = cmd.to_bytes();
        assert(request@ =~= volume_wire(stream.stream_id, volume));
        let reply: [u8; 4] = [0;4];
        self.ctrl_queue.post_request(request.as_slice(), &reply)?;
        let status: u32 = VirtioSndResp::from_bytes(&reply).code;
        self.finish_volume(stream, volume, status)
    }

    /// Reads the channel positions out of a channel map reply: a status, then the positions.
    pub fn chmap_positions(
        &self,
        stream: &PcmStream,
        reply: &[u8],
    ) -> (positions: Result<Vec<u8>, SndError>)
        requires
            reply@.len() == CHMAP_REPLY_BYTES,
        ensures
            match status_result(protocol::le_value(reply@) as u32) {
                Err(error) => positions == Err::<Vec<u8>, SndError>(error),
                Ok(_) => if stream.channels > MAX_CHANNELS {
                    positions == Err::<Vec<u8>, SndError>(SndError::ChmapOutOfRange)
                } else {
                    positions matches Ok(list) && list@ == reply@.subrange(
                        4,
                        4 + stream.channels as int,
                    )
                },
            },
    {
        self.parse_response(VirtioSndResp::from_bytes(reply).code)?;
        let ch_count: usize = stream.channels as usize;
        if ch_count > MAX_CHANNELS as usize {
            return Err(SndError::ChmapOutOfRange);
        }
        let mut positions: Vec<u8> = Vec::new();
        for i in 0..ch_count
            invariant
                ch_count <= MAX_CHANNELS,
                reply@.len() == CHMAP_REPLY_BYTES,
                positions@ == reply@.subrange(4, 4 + i as int),
        {
            positions.push(reply[4 + i]);
            assert(reply@.subrange(4, 4 + i as int + 1) =~= reply@.subrange(4, 4 + i as int).push(
                reply@[4 + i as int],
            ));
        }
        Ok(positions)
    }

    /// Queries the channel map of a stream. Returns a position for each of its channels.
    pub fn query_chmap(&mut self, stream: &PcmStream) -> (positions: Result<Vec<u8>, SndError>)
        requires
            (*old(self).ctrl_queue).wf(),
        ensures
            match chmap_error(
                old(self).config,
                old(self).features,
                *stream,
                (*old(self).ctrl_queue).model@.free.len(),
            ) {
                Some(error) => {
                    &&& positions == Err::<Vec<u8>, SndError>(error)
                    &&& *final(self).ctrl_queue == *old(self).ctrl_queue
                },
                None => {
                    &&& if stream.channels > MAX_CHANNELS {
                        positions == Err::<Vec<u8>, SndError>(SndError::ChmapOutOfRange)
                    } else {
                        positions matches Ok(list) && list@ == Seq::new(
                            stream.channels as nat,
                            |i: int| 0u8,
                        )
                    }
                    &&& VirtQueue::request_posted(
                        *old(self).ctrl_queue,
                        *final(self).ctrl_queue,
                        chmap_wire(stream.stream_id, stream.channels),
                        CHMAP_REPLY_BYTES,
                    )
                },
            },
            (*final(self).ctrl_queue).wf(),
            final(self).config == old(self).config,
            final(self).features == old(self).features,
            *final(final(self).ctrl_queue) == *final(old(self).ctrl_queue),
    {
        if self.features & VIRTIO_SND_F_CHMAP_INFO == 0 {
            return Err(SndError::UnsupportedFeature);
        }
        if stream.stream_id >= self.config.streams {
            return Err(SndError::InvalidStreamId);
        }
        let req = VirtioSndChmapInfo {
            hdr: VirtioSndHdr { code: VIRTIO_SND_R_CHMAP_INFO },
            stream_id: stream.stream_id,
            channels: stream.channels,
            positions: [0;18],
            _padding: 0,
        };
        let request: Vec<u8> = req.to_bytes();
        assert(request@ =~= chmap_wire(stream.stream_id, stream.channels));
        let reply: [u8; 22] = [0;22];
        self.ctrl_queue.post_request(request.as_slice(), &reply)?;
        let positions = self.chmap_positions(stream, &reply);
        assert(stream.channels <= MAX_CHANNELS ==> reply@.subrange(4, 4 + stream.channels as int)
            =~= Seq::new(stream.channels as nat, |i: int| 0u8));
        positions
    }
}

/// No two sample rates have the same code, so that decoding a code gives back the rate that was
/// encoded.
pub proof fn law_rate_codes_are_unique(rate: u32, other: u32)
    ensures
        rate_code(rate) is Some && rate_code(rate) == rate_code(other) ==> rate == other,
        rate_code(rate) matches Some(code) ==> code <= 13,
{
}

/// Every request starts with its command and the number of its stream, and has a fixed length.
pub proof fn law_requests_read_back(stream: PcmStream, command: u32, mute: bool, volume: u8)
    ensures
        forall|buffer_bytes: u32, period_bytes: u32| {
            let wire = #[trigger] set_params_wire(stream, buffer_bytes, period_bytes);
            &&& wire.len() == PCM_SET_PARAMS_BYTES
            &&& protocol::le_value(wire) == VIRTIO_SND_R_PCM_SET_PARAMS
            &&& protocol::le_value(wire.skip(4)) == stream.stream_id
            &&& protocol::le_value(wire.skip(8)) == buffer_bytes
            &&& protocol::le_value(wire.skip(12)) == period_bytes
            &&& wire[20] == stream.channels
            &&& wire[21] == stream.format.spec_code()
            &&& rate_code(stream.rate) matches Some(code) ==> wire[22] == code
            &&& wire[23] == 0
        },
        ({
            let wire = stream_wire(command, stream.stream_id);
            &&& wire.len() == PCM_HDR_BYTES
            &&& protocol::le_value(wire) == command
            &&& protocol::le_value(wire.skip(4)) == stream.stream_id
        }),
        ({
            let wire = mute_wire(stream.stream_id, mute);
            &&& wire.len() == MUTE_CMD_BYTES
            &&& protocol::le_value(wire) == VIRTIO_SND_R_PCM_MUTE
            &&& protocol::le_value(wire.skip(4)) == stream.stream_id
            &&& wire[8] == 1 <==> mute
        }),
        ({
            let wire = volume_wire(stream.stream_id, volume);
            &&& wire.len() == VOLUME_CMD_BYTES
            &&& protocol::le_value(wire) == VIRTIO_SND_R_PCM_VOLUME
            &&& protocol::le_value(wire.skip(4)) == stream.stream_id
            &&& wire[8] == volume
        }),
        ({
            let wire = chmap_wire(stream.stream_id, stream.channels);
            &&& wire.len() == CHMAP_INFO_BYTES
            &&& protocol::le_value(wire) == VIRTIO_SND_R_CHMAP_INFO
            &&& protocol::le_value(wire.skip(4)) == stream.stream_id
            &&& wire[8] == stream.channels
        }),
{
    protocol::law_le_round_trip(stream.stream_id);
    protocol::law_le_round_trip(command);
    protocol::law_le_round_trip(VIRTIO_SND_R_PCM_SET_PARAMS);
    protocol::law_le_round_trip(VIRTIO_SND_R_PCM_MUTE);
    protocol::law_le_round_trip(VIRTIO_SND_R_PCM_VOLUME);
    protocol::law_le_round_trip(VIRTIO_SND_R_CHMAP_INFO);
    assert forall|buffer_bytes: u32, period_bytes: u32| {
        let wire = #[trigger] set_params_wire(stream, buffer_bytes, period_bytes);
        &&& wire.len() == PCM_SET_PARAMS_BYTES
        &&& protocol::le_value(wire) == VIRTIO_SND_R_PCM_SET_PARAMS
        &&& protocol::le_value(wire.skip(4)) == stream.stream_id
        &&& protocol::le_value(wire.skip(8)) == buffer_bytes
        &&& protocol::le_value(wire.skip(12)) == period_bytes
        &&& wire[20] == stream.channels
        &&& wire[21] == stream.format.spec_code()
        &&& rate_code(stream.rate) matches Some(code) ==> wire[22] == code
        &&& wire[23] == 0
    } by {
        protocol::law_le_round_trip(buffer_bytes);
        protocol::law_le_round_trip(period_bytes);
    }
}

/// Whether every state follows legally from the one before.
pub open spec fn legal_history(states: Seq<StreamState>) -> bool {
    forall|i: int, j: int|
        #![trigger states[i], states[j]]
        0 <= i && j == i + 1 && j < states.len() ==> legal_transition(states[i], states[j])
}

/// The state that a posted request asks for a stream, if it asks for one.
pub open spec fn asks_for(posted: Seq<Seq<u8>>, stream_id: u32) -> Option<StreamState> {
    let request = posted[0];
    let command = protocol::le_value(request);
    if posted.len() != 1 || request.len() < PCM_HDR_BYTES || protocol::le_value(request.skip(4))
        != stream_id {
        None
    } else if command == VIRTIO_SND_R_PCM_SET_PARAMS {
        Some(StreamState::SetParameters)
    } else if command == VIRTIO_SND_R_PCM_PREPARE {
        Some(StreamState::Prepare)
    } else if command == VIRTIO_SND_R_PCM_START {
        Some(StreamState::Start)
    } else if command == VIRTIO_SND_R_PCM_STOP {
        Some(StreamState::Stop)
    } else if command == VIRTIO_SND_R_PCM_RELEASE {
        Some(StreamState::Release)
    } else {
        None
    }
}

/// Each life cycle request asks for its own state, and for its own stream alone. Mute and volume
/// requests ask for none.
pub proof fn law_requests_ask_for_states(
    stream: PcmStream,
    buffer_bytes: u32,
    period_bytes: u32,
    command: u32,
    mute: bool,
    volume: u8,
    other_id: u32,
)
    ensures
        other_id != stream.stream_id ==> {
            &&& asks_for(
                seq![set_params_wire(stream, buffer_bytes, period_bytes)],
                other_id,
            ) is None
            &&& asks_for(seq![stream_wire(command, stream.stream_id)], other_id) is None
        },
        asks_for(seq![set_params_wire(stream, buffer_bytes, period_bytes)], stream.stream_id)
            == Some(StreamState::SetParameters),
        asks_for(
            seq![stream_wire(VIRTIO_SND_R_PCM_PREPARE, stream.stream_id)],
            stream.stream_id,
        ) == Some(StreamState::Prepare),
        asks_for(seq![stream_wire(VIRTIO_SND_R_PCM_START, stream.stream_id)], stream.stream_id)
            == Some(StreamState::Start),
        asks_for(seq![stream_wire(VIRTIO_SND_R_PCM_STOP, stream.stream_id)], stream.stream_id)
            == Some(StreamState::Stop),
        asks_for(
            seq![stream_wire(VIRTIO_SND_R_PCM_RELEASE, stream.stream_id)],
            stream.stream_id,
        ) == Some(StreamState::Release),
        asks_for(seq![mute_wire(stream.stream_id, mute)], other_id) is None,
        asks_for(seq![volume_wire(stream.stream_id, volume)], other_id) is None,
{
    assert(set_params_wire(stream, buffer_bytes, period_bytes).len() == PCM_SET_PARAMS_BYTES);
    law_requests_read_back(stream, command, mute, volume);
    law_requests_read_back(stream, VIRTIO_SND_R_PCM_PREPARE, mute, volume);
    law_requests_read_back(stream, VIRTIO_SND_R_PCM_START, mute, volume);
    law_requests_read_back(stream, VIRTIO_SND_R_PCM_STOP, mute, volume);
    law_requests_read_back(stream, VIRTIO_SND_R_PCM_RELEASE, mute, volume);
}

/// Whether requests for the `wanted` states of a stream were posted in this order.
pub open spec fn asked_in_order(
    posted: Seq<Seq<Seq<u8>>>,
    stream_id: u32,
    wanted: Seq<StreamState>,
) -> bool
    decreases wanted.len(),
{
    wanted.len() == 0 || exists|at: int|
        {
            &&& 0 <= at < posted.len()
            &&& asks_for(#[trigger] posted[at], stream_id) == Some(wanted.last())
            &&& asked_in_order(posted.take(at), stream_id, wanted.drop_last())
        }
}

/// What must have been asked of the device before a stream can be in a state: a prepared stream
/// was prepared, a running one was prepared and then started, a stopped one was stopped after that,
/// and a released one was prepared and then released.
pub open spec fn way_to(state: StreamState) -> Seq<StreamState> {
    match state {
        StreamState::SetParameters => seq![],
        StreamState::Prepare => seq![StreamState::Prepare],
        StreamState::Start => seq![StreamState::Prepare, StreamState::Start],
        StreamState::Stop => seq![StreamState::Prepare, StreamState::Start, StreamState::Stop],
        StreamState::Release => seq![StreamState::Prepare, StreamState::Release],
    }
}

/// What was asked stays asked when more is posted.
pub(crate) proof fn lemma_asked_stays(
    posted: Seq<Seq<Seq<u8>>>,
    more: Seq<Seq<Seq<u8>>>,
    stream_id: u32,
    wanted: Seq<StreamState>,
)
    requires
        posted.len() <= more.len(),
        forall|k: int| 0 <= k < posted.len() ==> #[trigger] more[k] == posted[k],
        asked_in_order(posted, stream_id, wanted),
    ensures
        asked_in_order(more, stream_id, wanted),
{
    if wanted.len() > 0 {
        let at = choose|at: int|
            {
                &&& 0 <= at < posted.len()
                &&& asks_for(#[trigger] posted[at], stream_id) == Some(wanted.last())
                &&& asked_in_order(posted.take(at), stream_id, wanted.drop_last())
            };
        assert(more[at] == posted[at]);
        assert(more.take(at) =~= posted.take(at));
    }
}

/// The first states that were asked for in order were asked for in order.
proof fn lemma_asked_before(
    posted: Seq<Seq<Seq<u8>>>,
    stream_id: u32,
    wanted: Seq<StreamState>,
)
    requires
        wanted.len() > 0,
        asked_in_order(posted, stream_id, wanted),
    ensures
        asked_in_order(posted, stream_id, wanted.drop_last()),
{
    let at = choose|at: int|
        {
            &&& 0 <= at < posted.len()
            &&& asks_for(#[trigger] posted[at], stream_id) == Some(wanted.last())
            &&& asked_in_order(posted.take(at), stream_id, wanted.drop_last())
        };
    lemma_asked_stays(posted.take(at), posted, stream_id, wanted.drop_last());
}

/// One more state is asked for by one more request.
proof fn lemma_asked_next(
    posted: Seq<Seq<Seq<u8>>>,
    request: Seq<Seq<u8>>,
    stream_id: u32,
    wanted: Seq<StreamState>,
    next: StreamState,
)
    requires
        asked_in_order(posted, stream_id, wanted),
        asks_for(request, stream_id) == Some(next),
    ensures
        asked_in_order(posted.push(request), stream_id, wanted.push(next)),
{
    let longer = posted.push(request);
    let at = posted.len() as int;
    assert(longer[at] == request);
    assert(longer.take(at) =~= posted);
    assert(wanted.push(next).drop_last() =~= wanted);
}

/// A legal transition that was asked for leads from one state whose way was asked for to another.
pub(crate) proof fn lemma_way_goes_on(
    posted: Seq<Seq<Seq<u8>>>,
    request: Seq<Seq<u8>>,
    stream_id: u32,
    from: StreamState,
    to: StreamState,
)
    requires
        asked_in_order(posted, stream_id, way_to(from)),
        legal_transition(from, to),
        asks_for(request, stream_id) == Some(to),
    ensures
        asked_in_order(posted.push(request), stream_id, way_to(to)),
{
    let prepared = seq![StreamState::Prepare];
    let started = prepared.push(StreamState::Start);
    match to {
        StreamState::SetParameters => {},
        StreamState::Prepare => {
            assert(way_to(to) =~= Seq::empty().push(to));
            lemma_asked_next(posted, request, stream_id, Seq::empty(), to);
        },
        StreamState::Start => {
            if from is Stop {
                assert(way_to(from).drop_last() =~= started);
                lemma_asked_before(posted, stream_id, way_to(from));
                lemma_asked_stays(posted, posted.push(request), stream_id, started);
                assert(way_to(to) =~= started);
            } else {
                assert(way_to(to) =~= prepared.push(to));
                lemma_asked_next(posted, request, stream_id, prepared, to);
            }
        },
        StreamState::Stop => {
            assert(way_to(to) =~= way_to(from).push(to));
            lemma_asked_next(posted, request, stream_id, way_to(from), to);
        },
        StreamState::Release => {
            if from is Stop {
                assert(way_to(from).drop_last() =~= started);
                lemma_asked_before(posted, stream_id, way_to(from));
                assert(started.drop_last() =~= prepared);
                lemma_asked_before(posted, stream_id, started);
            }
            assert(way_to(to) =~= prepared.push(to));
            lemma_asked_next(posted, request, stream_id, prepared, to);
        },
    }
}

/// A released stream can be given parameters exactly where a registered one can.
pub proof fn law_released_streams_can_be_used_again(
    config: VirtioSndConfig,
    stream: PcmStream,
    buffer_bytes: u32,
    period_bytes: u32,
    free: nat,
)
    ensures
        set_params_error(
            config,
            PcmStream { state: StreamState::Release, ..stream },
            buffer_bytes,
            period_bytes,
            free,
        ) == set_params_error(
            config,
            PcmStream { state: StreamState::SetParameters, ..stream },
            buffer_bytes,
            period_bytes,
            free,
        ),
{
}

/// Status 0x8000 is success, and so is a reply that was never written. Status 0x8001 says that the
/// device lacks the feature, and every other status is a device error.
pub proof fn law_status_codes(code: u32)
    ensures
        status_result(code) is Ok <==> code == 0x8000 || code == 0,
        status_result(code) == Err::<(), SndError>(SndError::UnsupportedFeature) <==> code
            == 0x8001,
        status_result(code) == Err::<(), SndError>(SndError::DeviceError) <==> code != 0x8000
            && code != 0x8001 && code != 0,
{
}

/// Fourteen sample rates have a code, from 0 to 13, and a higher rate has a higher code: the code
/// of a rate is the number of lower rates that have one.
pub proof fn law_rate_codes_ascend(rate: u32, other: u32)
    ensures
        rate_code(rate) is Some <==> seq![
            5512u32,
            8000,
            11025,
            16000,
            22050,
            32000,
            44100,
            48000,
            64000,
            88200,
            96000,
            176400,
            192000,
            384000,
        ].contains(rate),
        rate_code(rate) matches Some(code) ==> code <= 13,
        rate_code(rate) matches Some(code) ==> (rate_code(other) matches Some(other_code) ==> (rate
            < other <==> code < other_code)),
{
    let rates = seq![
        5512u32,
        8000,
        11025,
        16000,
        22050,
        32000,
        44100,
        48000,
        64000,
        88200,
        96000,
        176400,
        192000,
        384000,
    ];
    assert(rates[0] == 5512 && rates[1] == 8000 && rates[2] == 11025 && rates[3] == 16000);
    assert(rates[4] == 22050 && rates[5] == 32000 && rates[6] == 44100 && rates[7] == 48000);
    assert(rates[8] == 64000 && rates[9] == 88200 && rates[10] == 96000 && rates[11] == 176400);
    assert(rates[12] == 192000 && rates[13] == 384000);
    if rates.contains(rate) {
        let i = choose|i: int| 0 <= i < rates.len() && rates[i] == rate;
        assert(rate_code(rates[i]) == Some(i as u8));
    }
}

/// The set-parameters request is command 0x101. Behind the stream it holds the sizes of buffer and
/// period, no feature bits, and then a byte each for channels, format and rate.
pub proof fn law_set_params_bytes(stream: PcmStream, buffer_bytes: u32, period_bytes: u32)
    ensures
        ({
            let wire = set_params_wire(stream, buffer_bytes, period_bytes);
            &&& wire.len() == 24
            &&& protocol::number_at(wire, 0, 0x101)
            &&& protocol::number_at(wire, 4, stream.stream_id)
            &&& protocol::number_at(wire, 8, buffer_bytes)
            &&& protocol::number_at(wire, 12, period_bytes)
            &&& protocol::number_at(wire, 16, 0)
            &&& wire[20] == stream.channels
            &&& wire[21] == stream.format.spec_code()
            &&& rate_code(stream.rate) matches Some(code) ==> wire[22] == code
            &&& wire[23] == 0
        }),
{
    protocol::law_little_endian(stream.stream_id);
    protocol::law_little_endian(buffer_bytes);
    protocol::law_little_endian(period_bytes);
}

/// Preparing is command 0x102, starting 0x103, stopping 0x104 and releasing 0x105, each followed by
/// the stream alone. Asking for the PCM streams is command 0x100.
pub proof fn law_stream_command_bytes(stream_id: u32)
    ensures
        forall|command: u32|
            {
                let wire = #[trigger] stream_wire(command, stream_id);
                &&& wire.len() == 8
                &&& protocol::number_at(wire, 0, command)
                &&& protocol::number_at(wire, 4, stream_id)
            },
        protocol::number_at(stream_wire(VIRTIO_SND_R_PCM_PREPARE, stream_id), 0, 0x102),
        protocol::number_at(stream_wire(VIRTIO_SND_R_PCM_START, stream_id), 0, 0x103),
        protocol::number_at(stream_wire(VIRTIO_SND_R_PCM_STOP, stream_id), 0, 0x104),
        protocol::number_at(stream_wire(VIRTIO_SND_R_PCM_RELEASE, stream_id), 0, 0x105),
        protocol::le_bytes(protocol::VIRTIO_SND_R_PCM_INFO) == seq![0u8, 1u8, 0u8, 0u8],
{
    protocol::law_little_endian(stream_id);
    assert forall|command: u32|
        {
            let wire = #[trigger] stream_wire(command, stream_id);
            &&& wire.len() == 8
            &&& protocol::number_at(wire, 0, command)
            &&& protocol::number_at(wire, 4, stream_id)
        } by {
        protocol::law_little_endian(command);
    }
    assert(protocol::le_bytes(protocol::VIRTIO_SND_R_PCM_INFO) =~= seq![0u8, 1u8, 0u8, 0u8]);
}

/// A mute request is command 0x300 for the stream, then a byte that is 1 where the stream is to be
/// muted and 0 where it is to be unmuted, then three bytes 0. So the requests for muting and for
/// unmuting a stream differ in that byte alone.
pub proof fn law_mute_bytes(stream_id: u32, mute: bool)
    ensures
        ({
            let wire = mute_wire(stream_id, mute);
            &&& wire.len() == 12
            &&& protocol::number_at(wire, 0, 0x300)
            &&& protocol::number_at(wire, 4, stream_id)
            &&& wire[8] == 1 <==> mute
            &&& wire[8] == 0 <==> !mute
            &&& wire[9] == 0 && wire[10] == 0 && wire[11] == 0
        }),
        mute_wire(stream_id, !mute) == mute_wire(stream_id, mute).update(
            8,
            (1 - mute_wire(stream_id, mute)[8]) as u8,
        ),
{
    protocol::law_little_endian(stream_id);
    assert(mute_wire(stream_id, !mute) =~= mute_wire(stream_id, mute).update(
        8,
        (1 - mute_wire(stream_id, mute)[8]) as u8,
    ));
}

/// A volume request is command 0x301 for the stream, then the volume itself, then three bytes 0.
pub proof fn law_volume_bytes(stream_id: u32, volume: u8)
    ensures
        ({
            let wire = volume_wire(stream_id, volume);
            &&& wire.len() == 12
            &&& protocol::number_at(wire, 0, 0x301)
            &&& protocol::number_at(wire, 4, stream_id)
            &&& wire[8] == volume
            &&& wire[9] == 0 && wire[10] == 0 && wire[11] == 0
        }),
{
    protocol::law_little_endian(stream_id);
}

/// A channel map request is command 0x200 for the stream, then its number of channels, then bytes 0
/// up to a length of 28.
pub proof fn law_chmap_bytes(stream_id: u32, channels: u8)
    ensures
        ({
            let wire = chmap_wire(stream_id, channels);
            &&& wire.len() == 28
            &&& protocol::number_at(wire, 0, 0x200)
            &&& protocol::number_at(wire, 4, stream_id)
            &&& wire[8] == channels
            &&& forall|i: int| 9 <= i < 28 ==> #[trigger] wire[i] == 0
        }),
{
    protocol::law_little_endian(stream_id);
}

/// The device must have feature bit 2 for a channel map to be queried and feature bit 1 for its PCM
/// streams to be queried; no other bit matters.
pub proof fn law_feature_bits(config: VirtioSndConfig, features: u64, stream: PcmStream, free: nat)
    ensures
        chmap_error(config, features, stream, free) == Some(SndError::UnsupportedFeature) <==> (
        features / 4) % 2 == 0,
        features & protocol::VIRTIO_SND_F_PCM_INFO == 0 <==> (features / 2) % 2 == 0,
{
    assert(features & 4 == 0 <==> (features / 4) % 2 == 0) by (bit_vector);
    assert(features & 2 == 0 <==> (features / 2) % 2 == 0) by (bit_vector);
}

/// What it takes for a request to be posted: a stream that the device has and two free descriptors.
/// An unknown stream is reported first.
pub proof fn law_when_requests_can_be_posted(
    config: VirtioSndConfig,
    features: u64,
    stream: PcmStream,
    free: nat,
)
    ensures
        post_error(config, stream.stream_id, free) is None <==> stream.stream_id < config.streams
            && free >= 2,
        post_error(config, stream.stream_id, free) == Some(SndError::InvalidStreamId)
            <==> stream.stream_id >= config.streams,
        post_error(config, stream.stream_id, free) == Some(SndError::QueueFull)
            <==> stream.stream_id < config.streams && free < 2,
        chmap_error(config, features, stream, free) is None <==> features & 4 != 0
            && stream.stream_id < config.streams && free >= 2,
        chmap_error(config, features, stream, free) == Some(SndError::InvalidStreamId) <==> features
            & 4 != 0 && stream.stream_id >= config.streams,
        chmap_error(config, features, stream, free) == Some(SndError::QueueFull) <==> features & 4
            != 0 && stream.stream_id < config.streams && free < 2,
{
}

/// What it takes for parameters to be set: a stream that waits for them or was released, a period
/// of at least a byte that is no longer than the buffer, 1 to 18 channels, a stream that the device
/// has, a rate that has a code, and two free descriptors. A wrong state is reported first, a full
/// queue last.
pub proof fn law_when_parameters_can_be_set(
    config: VirtioSndConfig,
    stream: PcmStream,
    buffer_bytes: u32,
    period_bytes: u32,
    free: nat,
)
    ensures
        ({
            let error = set_params_error(config, stream, buffer_bytes, period_bytes, free);
            let waits = stream.state is SetParameters || stream.state is Release;
            let sized = 1 <= period_bytes <= buffer_bytes && 1 <= stream.channels <= 18;
            let known = stream.stream_id < config.streams;
            let coded = rate_code(stream.rate) is Some;
            &&& error is None <==> waits && sized && known && coded && free >= 2
            &&& error == Some(SndError::InvalidState) <==> !waits
            &&& error == Some(SndError::InvalidStreamId) <==> waits && sized && !known
            &&& error == Some(SndError::InvalidParameter) <==> waits && (!sized || known && !coded)
            &&& error == Some(SndError::QueueFull) <==> waits && sized && known && coded && free < 2
        }),
{
}

/// What it takes for a life cycle command: the state that comes before in the cycle, and a request
/// that can be posted. A stream is prepared once it waits for parameters, started once it is
/// prepared or stopped, stopped once it runs, and released once it is prepared or stopped.
pub proof fn law_when_streams_can_move(
    config: VirtioSndConfig,
    stream: PcmStream,
    to: StreamState,
    free: nat,
)
    ensures
        to is Prepare ==> (legal_transition(stream.state, to) <==> stream.state is SetParameters),
        to is Start ==> (legal_transition(stream.state, to) <==> stream.state is Prepare
            || stream.state is Stop),
        to is Stop ==> (legal_transition(stream.state, to) <==> stream.state is Start),
        to is Release ==> (legal_transition(stream.state, to) <==> stream.state is Prepare
            || stream.state is Stop),
        to is SetParameters ==> (legal_transition(stream.state, to)
            <==> stream.state is SetParameters || stream.state is Release),
        transition_error(config, stream, to, free) == Some(SndError::InvalidState)
            <==> !legal_transition(stream.state, to),
        legal_transition(stream.state, to) ==> transition_error(config, stream, to, free)
            == post_error(config, stream.stream_id, free),
{
}

/// What it takes for mute and volume to be changed: a stream that is prepared, runs or is stopped,
/// and a request that can be posted.
pub proof fn law_when_streams_can_be_adjusted(
    config: VirtioSndConfig,
    stream: PcmStream,
    free: nat,
)
    ensures
        adjust_error(config, stream, free) == Some(SndError::InvalidState)
            <==> stream.state is SetParameters || stream.state is Release,
        stream.state is Prepare || stream.state is Start || stream.state is Stop ==> adjust_error(
            config,
            stream,
            free,
        ) == post_error(config, stream.stream_id, free),
{
}

} // verus!
