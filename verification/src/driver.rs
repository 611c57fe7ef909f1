//! The driver: streams, their life cycle, and the queues of the device.
use crate::control;
use crate::control::ControlHandler;
use crate::protocol;
use crate::protocol::{
    frame_header, PcmFormat, PcmStream, SndError, SndQueue, StreamDirection, StreamState,
    VirtioSndConfig, VirtioSndHdr, VirtioSndResp, MAX_CHANNELS, STATUS_REPLY_BYTES,
    VIRTIO_SND_F_PCM_INFO, VIRTIO_SND_R_PCM_INFO, VIRTIO_SND_R_PCM_PREPARE,
    VIRTIO_SND_R_PCM_RELEASE, VIRTIO_SND_R_PCM_START, VIRTIO_SND_R_PCM_STOP,
};
use crate::virtqueue::VirtQueue;
use vstd::prelude::*;

verus! {

/// Buffer size that a stream is set up with.
pub const SETUP_BUFFER_BYTES: u32 = 4096;

/// Period size that a stream is set up with.
pub const SETUP_PERIOD_BYTES: u32 = 512;

/// Volume of a stream that was just registered.
pub const DEFAULT_VOLUME: u8 = 200;

/// Position of the first stream with an identifier.
pub open spec fn position(streams: Seq<PcmStream>, stream_id: u32) -> Option<int>
    decreases streams.len(),
{
    if streams.len() == 0 {
        None
    } else {
        match position(streams.drop_last(), stream_id) {
            Some(at) => Some(at),
            None => if streams.last().stream_id == stream_id {
                Some(streams.len() - 1)
            } else {
                None
            },
        }
    }
}

/// What `position` finds has the identifier, and nothing before it does.
pub proof fn lemma_position(streams: Seq<PcmStream>, stream_id: u32)
    ensures
        match position(streams, stream_id) {
            Some(at) => {
                &&& 0 <= at < streams.len()
                &&& streams[at].stream_id == stream_id
                &&& forall|i: int| 0 <= i < at ==> (#[trigger] streams[i]).stream_id != stream_id
            },
            None => forall|i: int|
                0 <= i < streams.len() ==> (#[trigger] streams[i]).stream_id != stream_id,
        },
    decreases streams.len(),
{
    if streams.len() > 0 {
        lemma_position(streams.drop_last(), stream_id);
        assert forall|i: int| 0 <= i < streams.len() - 1 implies #[trigger] streams[i]
            == streams.drop_last()[i] by {}
    }
}

/// A stream that was just registered.
pub open spec fn registered(
    stream_id: u32,
    direction: StreamDirection,
    channels: u8,
    format: PcmFormat,
    rate: u32,
) -> PcmStream {
    PcmStream {
        stream_id,
        direction,
        state: StreamState::SetParameters,
        channels,
        format,
        rate,
        muted: false,
        volume: DEFAULT_VOLUME,
    }
}

/// Why a stream cannot be registered.
pub open spec fn register_error(
    config: VirtioSndConfig,
    streams: Seq<PcmStream>,
    stream_id: u32,
    channels: u8,
) -> Option<SndError> {
    if stream_id >= config.streams {
        Some(SndError::InvalidStreamId)
    } else if position(streams, stream_id) is Some {
        Some(SndError::InvalidParameter)
    } else if channels == 0 || channels > MAX_CHANNELS {
        Some(SndError::InvalidParameter)
    } else {
        None
    }
}

/// The identifiers of streams.
pub open spec fn stream_ids(streams: Seq<PcmStream>) -> Seq<u32> {
    streams.map_values(|stream: PcmStream| stream.stream_id)
}

/// No two streams have the same identifier.
pub open spec fn unique_ids(streams: Seq<PcmStream>) -> bool {
    forall|i: int, j: int|
        #![trigger streams[i], streams[j]]
        0 <= i < j < streams.len() ==> streams[i].stream_id != streams[j].stream_id
}

/// What holds of the registered streams at all times: their identifiers are distinct and known to
/// the device, and each has a channel or more, but no more than there can be.
pub open spec fn valid_registry(config: VirtioSndConfig, streams: Seq<PcmStream>) -> bool {
    &&& unique_ids(streams)
    &&& forall|i: int|
        0 <= i < streams.len() ==> (#[trigger] streams[i]).stream_id < config.streams && 1
            <= streams[i].channels <= MAX_CHANNELS
}

/// Whether two streams were registered alike: they differ at most in state, mute flag and volume.
pub open spec fn registered_alike(stream: PcmStream, other: PcmStream) -> bool {
    other == (PcmStream {
        state: other.state,
        muted: other.muted,
        volume: other.volume,
        ..stream
    })
}

/// The same streams are registered, in the same places.
pub open spec fn registrations_kept(before: Seq<PcmStream>, after: Seq<PcmStream>) -> bool {
    &&& after.len() == before.len()
    &&& forall|i: int|
        #![trigger before[i]]
        #![trigger after[i]]
        0 <= i < before.len() ==> registered_alike(before[i], after[i])
}

/// Streams and control queue while several streams are muted or unmuted.
#[verifier::ext_equal]
pub struct MuteRun {
    /// The streams.
    pub streams: Seq<PcmStream>,
    /// Number of free descriptors.
    pub free: nat,
    /// The requests posted.
    pub requests: Seq<Seq<u8>>,
}

impl MuteRun {
    /// The first stream with an identifier was muted or unmuted, if it could be.
    pub open spec fn step(self, config: VirtioSndConfig, stream_id: u32, mute: bool) -> MuteRun {
        match position(self.streams, stream_id) {
            Some(at) => if control::adjust_error(config, self.streams[at], self.free) is None {
                MuteRun {
                    streams: self.streams.update(
                        at,
                        PcmStream { muted: mute, ..self.streams[at] },
                    ),
                    free: (self.free - 2) as nat,
                    requests: self.requests.push(control::mute_wire(stream_id, mute)),
                }
            } else {
                self
            },
            None => self,
        }
    }

    /// The streams with the identifiers were muted or unmuted in turn, those that could be.
    pub open spec fn steps(self, config: VirtioSndConfig, ids: Seq<u32>, mute: bool) -> MuteRun
        decreases ids.len(),
    {
        if ids.len() == 0 {
            self
        } else {
            self.steps(config, ids.drop_last(), mute).step(config, ids.last(), mute)
        }
    }
}

/// A VirtIO sound device.
pub struct VirtioSound {
    /// Device configuration.
    pub config: VirtioSndConfig,
    /// Negotiated features.
    pub features: u64,
    /// Control queue.
    pub control_queue: VirtQueue,
    /// Event queue.
    pub event_queue: VirtQueue,
    /// Playback queue.
    pub tx_queue: VirtQueue,
    /// Capture queue.
    pub rx_queue: VirtQueue,
    /// Registered streams, in the order of their registration.
    pub streams: Vec<PcmStream>,
    /// Whether everything was muted last.
    pub global_mute: bool,
}

impl VirtioSound {
    /// All queues are well formed.
    pub open spec fn wf(self) -> bool {
        &&& self.control_queue.wf()
        &&& self.event_queue.wf()
        &&& self.tx_queue.wf()
        &&& self.rx_queue.wf()
    }

    /// The registered streams are in order.
    pub open spec fn registry_valid(self) -> bool {
        valid_registry(self.config, self.streams@)
    }

    /// Nothing that the driver knows has changed.
    pub open spec fn unchanged(pre: VirtioSound, post: VirtioSound) -> bool {
        &&& post.streams@ == pre.streams@
        &&& post == (VirtioSound { streams: post.streams, ..pre })
    }

    /// Only the control queue and the stream at `at` differ; the stream is now `stream`.
    pub open spec fn only_changes(
        pre: VirtioSound,
        post: VirtioSound,
        at: int,
        stream: PcmStream,
    ) -> bool {
        &&& post.streams@ == pre.streams@.update(at, stream)
        &&& post == (VirtioSound {
            control_queue: post.control_queue,
            streams: post.streams,
            ..pre
        })
    }

    /// Initialises the driver of a device, with its four queues and no streams.
    pub fn new(config: VirtioSndConfig, negotiated_features: u64) -> (driver: Self)
        ensures
            driver.wf(),
            driver.config == config,
            driver.features == negotiated_features,
            driver.control_queue.fresh(SndQueue::Control),
            driver.event_queue.fresh(SndQueue::Event),
            driver.tx_queue.fresh(SndQueue::Tx),
            driver.rx_queue.fresh(SndQueue::Rx),
            driver.streams@ == Seq::<PcmStream>::empty(),
            !driver.global_mute,
            driver.registry_valid(),
    {
        Self {
            config,
            features: negotiated_features,
            control_queue: VirtQueue::new(SndQueue::Control),
            event_queue: VirtQueue::new(SndQueue::Event),
            tx_queue: VirtQueue::new(SndQueue::Tx),
            rx_queue: VirtQueue::new(SndQueue::Rx),
            streams: Vec::with_capacity(config.streams as usize),
            global_mute: false,
        }
    }

    /// Finds the first stream with an identifier.
    fn find(&self, stream_id: u32) -> (at: Option<usize>)
        ensures
            match at {
                Some(i) => {
                    &&& position(self.streams@, stream_id) == Some(i as int)
                    &&& i < self.streams@.len()
                },
                None => position(self.streams@, stream_id) is None,
            },
    {
        proof {
            lemma_position(self.streams@, stream_id);
        }
        let n: usize = self.streams.len();
        let mut i: usize = 0;
        while i < n
            invariant
                n == self.streams@.len(),
                forall|k: int| 0 <= k < i ==> (#[trigger] self.streams@[k]).stream_id != stream_id,
            decreases n - i,
        {
            if self.streams[i].stream_id == stream_id {
                proof {
                    lemma_position(self.streams@, stream_id);
                }
                return Some(i);
            }
            i = i + 1;
        }
        None
    }

    /// Registers a stream.
    pub fn register_stream(
        &mut self,
        stream_id: u32,
        direction: StreamDirection,
        channels: u8,
        format: PcmFormat,
        rate: u32,
    ) -> (result: Result<(), SndError>)
        ensures
            old(self).registry_valid() ==> final(self).registry_valid(),
            life_step(*old(self), *final(self)),
            match register_error(old(self).config, old(self).streams@, stream_id, channels) {
                Some(error) => result == Err::<(), SndError>(error) && *final(self) == *old(self),
                None => {
                    &&& result == Ok::<(), SndError>(())
                    &&& final(self).streams@ == old(self).streams@.push(
                        registered(stream_id, direction, channels, format, rate),
                    )
                    &&& *final(self) == (VirtioSound { streams: final(self).streams, ..*old(self) })
                },
            },
    {
        if stream_id >= self.config.streams {
            return Err(SndError::InvalidStreamId);
        }
        if self.find(stream_id).is_some() {
            return Err(SndError::InvalidParameter);
        }
        if channels == 0 || channels > MAX_CHANNELS {
            return Err(SndError::InvalidParameter);
        }
        proof {
            lemma_position(self.streams@, stream_id);
        }
        self.streams.push(
            PcmStream {
                stream_id,
                direction,
                state: StreamState::SetParameters,
                channels,
                format,
                rate,
                muted: false,
                volume: DEFAULT_VOLUME,
            },
        );
        Ok(())
    }

    /// The request that sets a stream up.
    pub open spec fn setup_wire(stream: PcmStream) -> Seq<u8> {
        control::set_params_wire(stream, SETUP_BUFFER_BYTES, SETUP_PERIOD_BYTES)
    }

    /// The requests that set a stream up, prepare it and start it.
    pub open spec fn setup_requests(stream: PcmStream) -> Seq<Seq<u8>> {
        seq![
            Self::setup_wire(stream),
            control::stream_wire(VIRTIO_SND_R_PCM_PREPARE, stream.stream_id),
            control::stream_wire(VIRTIO_SND_R_PCM_START, stream.stream_id),
        ]
    }

    /// Sets the parameters of a stream, prepares it and starts it.
    ///
    /// Where a later step fails, the stream is back to waiting for parameters.
    pub fn setup_and_start(&mut self, stream_id: u32) -> (result: Result<(), SndError>)
        requires
            old(self).control_queue.wf(),
        ensures
            final(self).control_queue.wf(),
            registrations_kept(old(self).streams@, final(self).streams@),
            old(self).registry_valid() ==> final(self).registry_valid(),
            life_step(*old(self), *final(self)),
            match position(old(self).streams@, stream_id) {
                None => {
                    &&& result == Err::<(), SndError>(SndError::InvalidStreamId)
                    &&& Self::unchanged(*old(self), *final(self))
                },
                Some(at) => {
                    let stream = old(self).streams@[at];
                    let free = old(self).control_queue.model@.free.len();
                    match control::set_params_error(
                        old(self).config,
                        stream,
                        SETUP_BUFFER_BYTES,
                        SETUP_PERIOD_BYTES,
                        free,
                    ) {
                        Some(error) => {
                            &&& result == Err::<(), SndError>(error)
                            &&& Self::unchanged(*old(self), *final(self))
                        },
                        None => {
                            &&& result == (if free < 6 {
                                Err::<(), SndError>(SndError::QueueFull)
                            } else {
                                Ok::<(), SndError>(())
                            })
                            &&& Self::only_changes(
                                *old(self),
                                *final(self),
                                at,
                                PcmStream {
                                    state: if free < 6 {
                                        StreamState::SetParameters
                                    } else {
                                        StreamState::Start
                                    },
                                    ..stream
                                },
                            )
                            &&& VirtQueue::requests_posted(
                                old(self).control_queue,
                                final(self).control_queue,
                                Self::setup_requests(stream).take(if free < 6 {
                                    (free / 2) as int
                                } else {
                                    3
                                }),
                                STATUS_REPLY_BYTES,
                            )
                        },
                    }
                },
            },
    {
        let stream_idx: usize = match self.find(stream_id) {
            Some(at) => at,
            None => {
                return Err(SndError::InvalidStreamId);
            },
        };
        proof {
            lemma_position(self.streams@, stream_id);
        }
        let ghost q0 = self.control_queue;
        let ghost stream0 = self.streams@[stream_idx as int];
        let ghost requests = Self::setup_requests(stream0);
        proof {
            lemma_sent(q0);
            if stream0.state is SetParameters || stream0.state is Release {
                lemma_setup_step(stream0, 1);
                lemma_setup_step(stream0, 2);
                lemma_setup_step(stream0, 3);
            }
        }
        assert(self.streams@.update(stream_idx as int, stream0) =~= self.streams@);
        let stream = &mut self.streams[stream_idx];
        let mut handler = ControlHandler::new(&mut self.control_queue, self.config, self.features);
        handler.send_set_params(stream, SETUP_BUFFER_BYTES, SETUP_PERIOD_BYTES)?;
        let ghost q1 = *handler.ctrl_queue;
        proof {
            VirtQueue::lemma_request_posted(
                q0,
                q0,
                q1,
                requests.take(0),
                requests[0],
                STATUS_REPLY_BYTES,
            );
            assert(requests.take(1) =~= requests.take(0).push(requests[0]));
        }
        handler.send_prepare(stream)?;
        let ghost q2 = *handler.ctrl_queue;
        proof {
            VirtQueue::lemma_request_posted(
                q0,
                q1,
                q2,
                requests.take(1),
                requests[1],
                STATUS_REPLY_BYTES,
            );
            assert(requests.take(2) =~= requests.take(1).push(requests[1]));
        }
        match handler.send_start(stream) {
            Ok(_) => {
                proof {
                    VirtQueue::lemma_request_posted(
                        q0,
                        q2,
                        *handler.ctrl_queue,
                        requests.take(2),
                        requests[2],
                        STATUS_REPLY_BYTES,
                    );
                    assert(requests.take(3) =~= requests.take(2).push(requests[2]));
                }
                Ok(())
            },
            Err(error) => {
                stream.state = StreamState::SetParameters;
                Err(error)
            },
        }
    }

    /// Stops a stream if it is running, and releases it if it is stopped or prepared.
    pub fn stop_and_release(&mut self, stream_id: u32) -> (result: Result<(), SndError>)
        requires
            old(self).control_queue.wf(),
        ensures
            final(self).control_queue.wf(),
            registrations_kept(old(self).streams@, final(self).streams@),
            old(self).registry_valid() ==> final(self).registry_valid(),
            life_step(*old(self), *final(self)),
            match position(old(self).streams@, stream_id) {
                None => {
                    &&& result == Err::<(), SndError>(SndError::InvalidStreamId)
                    &&& Self::unchanged(*old(self), *final(self))
                },
                Some(at) => {
                    let stream = old(self).streams@[at];
                    let free = old(self).control_queue.model@.free.len();
                    let error = control::post_error(old(self).config, stream_id, free);
                    if stream.state is SetParameters || stream.state is Release {
                        &&& result == Ok::<(), SndError>(())
                        &&& Self::unchanged(*old(self), *final(self))
                    } else if error is Some {
                        &&& result == Err::<(), SndError>(error.unwrap())
                        &&& Self::unchanged(*old(self), *final(self))
                    } else if stream.state is Start && free < 4 {
                        &&& result == Err::<(), SndError>(SndError::QueueFull)
                        &&& Self::only_changes(
                            *old(self),
                            *final(self),
                            at,
                            PcmStream { state: StreamState::Stop, ..stream },
                        )
                        &&& VirtQueue::requests_posted(
                            old(self).control_queue,
                            final(self).control_queue,
                            seq![control::stream_wire(VIRTIO_SND_R_PCM_STOP, stream_id)],
                            STATUS_REPLY_BYTES,
                        )
                    } else {
                        &&& result == Ok::<(), SndError>(())
                        &&& Self::only_changes(
                            *old(self),
                            *final(self),
                            at,
                            PcmStream { state: StreamState::Release, ..stream },
                        )
                        &&& VirtQueue::requests_posted(
                            old(self).control_queue,
                            final(self).control_queue,
                            if stream.state is Start {
                                seq![
                                    control::stream_wire(VIRTIO_SND_R_PCM_STOP, stream_id),
                                    control::stream_wire(VIRTIO_SND_R_PCM_RELEASE, stream_id),
                                ]
                            } else {
                                seq![control::stream_wire(VIRTIO_SND_R_PCM_RELEASE, stream_id)]
                            },
                            STATUS_REPLY_BYTES,
                        )
                    }
                },
            },
    {
        let stream_idx: usize = match self.find(stream_id) {
            Some(at) => at,
            None => {
                return Err(SndError::InvalidStreamId);
            },
        };
        proof {
            lemma_position(self.streams@, stream_id);
        }
        let ghost q0 = self.control_queue;
        let ghost stream0 = self.streams@[stream_idx as int];
        let ghost stop = control::stream_wire(VIRTIO_SND_R_PCM_STOP, stream_id);
        let ghost release = control::stream_wire(VIRTIO_SND_R_PCM_RELEASE, stream_id);
        proof {
            lemma_sent(q0);
            lemma_release_step(stream0);
        }
        assert(self.streams@.update(stream_idx as int, stream0) =~= self.streams@);
        let stream = &mut self.streams[stream_idx];
        let mut handler = ControlHandler::new(&mut self.control_queue, self.config, self.features);
        let ghost mut requests: Seq<Seq<u8>> = Seq::empty();
        if stream.state == StreamState::Start {
            handler.send_stop(stream)?;
            proof {
                VirtQueue::lemma_request_posted(
                    q0,
                    q0,
                    *handler.ctrl_queue,
                    requests,
                    stop,
                    STATUS_REPLY_BYTES,
                );
                requests = requests.push(stop);
                assert(requests =~= seq![stop]);
            }
        }
        if stream.state == StreamState::Stop || stream.state == StreamState::Prepare {
            let ghost q1 = *handler.ctrl_queue;
            handler.send_release(stream)?;
            proof {
                VirtQueue::lemma_request_posted(
                    q0,
                    q1,
                    *handler.ctrl_queue,
                    requests,
                    release,
                    STATUS_REPLY_BYTES,
                );
                assert(requests.push(release) =~= if stream0.state is Start {
                    seq![stop, release]
                } else {
                    seq![release]
                });
            }
        }
        Ok(())
    }

    /// Posts PCM data of a running stream on the playback queue: a header, the data, and room for
    /// the status of the transfer. Returns the number of bytes posted.
    pub fn write_audio_frames(
        &mut self,
        stream_id: u32,
        buffer: &[u8],
    ) -> (written: Result<usize, SndError>)
        requires
            old(self).tx_queue.wf(),
        ensures
            final(self).tx_queue.wf(),
            life_step(*old(self), *final(self)),
            *final(self) == (VirtioSound { tx_queue: final(self).tx_queue, ..*old(self) }),
            match position(old(self).streams@, stream_id) {
                None => {
                    &&& written == Err::<usize, SndError>(SndError::InvalidStreamId)
                    &&& final(self).tx_queue == old(self).tx_queue
                },
                Some(at) => if !(old(self).streams@[at].state is Start) {
                    &&& written == Err::<usize, SndError>(SndError::InvalidState)
                    &&& final(self).tx_queue == old(self).tx_queue
                } else if buffer@.len() == 0 {
                    &&& written == Ok::<usize, SndError>(0)
                    &&& final(self).tx_queue == old(self).tx_queue
                } else if old(self).tx_queue.model@.free.len() < 3 {
                    &&& written == Err::<usize, SndError>(SndError::QueueFull)
                    &&& final(self).tx_queue == old(self).tx_queue
                } else {
                    &&& written == Ok::<usize, SndError>(buffer@.len() as usize)
                    &&& VirtQueue::frames_posted(
                        old(self).tx_queue,
                        final(self).tx_queue,
                        protocol::spec_frame_header(stream_id),
                        buffer@,
                        STATUS_REPLY_BYTES,
                    )
                },
            },
    {
        let stream_idx: usize = match self.find(stream_id) {
            Some(at) => at,
            None => {
                return Err(SndError::InvalidStreamId);
            },
        };
        proof {
            lemma_position(self.streams@, stream_id);
        }
        if self.streams[stream_idx].state != StreamState::Start {
            return Err(SndError::InvalidState);
        }
        if buffer.len() == 0 {
            return Ok(0);
        }
        let header: Vec<u8> = frame_header(stream_id);
        let status: [u8; 4] = [0;4];
        self.tx_queue.post_frames(header.as_slice(), buffer, &status)?;
        Ok(buffer.len())
    }

    /// Takes back the playback chains that the device is done with.
    pub fn process_tx_completions(&mut self) -> (completed: Vec<(u16, u32)>)
        requires
            old(self).tx_queue.in_range(),
            old(self).tx_queue.pending_in_range(),
        ensures
            life_step(*old(self), *final(self)),
            *final(self) == (VirtioSound { tx_queue: final(self).tx_queue, ..*old(self) }),
            completed@ == old(self).tx_queue.pending(),
            VirtQueue::used_processed(old(self).tx_queue, final(self).tx_queue),
    {
        self.tx_queue.process_used()
    }

    /// Takes back the capture chains that the device has filled.
    pub fn process_rx_completions(&mut self) -> (completed: Vec<(u16, u32)>)
        requires
            old(self).rx_queue.in_range(),
            old(self).rx_queue.pending_in_range(),
        ensures
            life_step(*old(self), *final(self)),
            *final(self) == (VirtioSound { rx_queue: final(self).rx_queue, ..*old(self) }),
            completed@ == old(self).rx_queue.pending(),
            VirtQueue::used_processed(old(self).rx_queue, final(self).rx_queue),
    {
        self.rx_queue.process_used()
    }

    /// Queries the PCM streams of the device.
    pub fn query_pcm_info(&mut self) -> (result: Result<(), SndError>)
        requires
            old(self).control_queue.wf(),
        ensures
            final(self).control_queue.wf(),
            life_step(*old(self), *final(self)),
            *final(self) == (VirtioSound {
                control_queue: final(self).control_queue,
                ..*old(self)
            }),
            if old(self).features & VIRTIO_SND_F_PCM_INFO == 0 {
                &&& result == Err::<(), SndError>(SndError::UnsupportedFeature)
                &&& final(self).control_queue == old(self).control_queue
            } else if old(self).control_queue.model@.free.len() < 2 {
                &&& result == Err::<(), SndError>(SndError::QueueFull)
                &&& final(self).control_queue == old(self).control_queue
            } else {
                &&& result == Ok::<(), SndError>(())
                &&& VirtQueue::request_posted(
                    old(self).control_queue,
                    final(self).control_queue,
                    protocol::le_bytes(VIRTIO_SND_R_PCM_INFO),
                    STATUS_REPLY_BYTES,
                )
            },
    {
        if self.features & VIRTIO_SND_F_PCM_INFO == 0 {
            return Err(SndError::UnsupportedFeature);
        }
        let req = VirtioSndHdr { code: VIRTIO_SND_R_PCM_INFO };
        let request: Vec<u8> = req.to_bytes();
        let reply: [u8; 4] = [0;4];
        let handler = ControlHandler::new(&mut self.control_queue, self.config, self.features);
        handler.ctrl_queue.post_request(request.as_slice(), &reply)?;
        handler.parse_response(VirtioSndResp::from_bytes(&reply).code)
    }

    /// Mutes a stream, or unmutes it if it is muted.
    pub fn toggle_mute(&mut self, stream_id: u32) -> (result: Result<(), SndError>)
        requires
            old(self).control_queue.wf(),
        ensures
            final(self).control_queue.wf(),
            registrations_kept(old(self).streams@, final(self).streams@),
            old(self).registry_valid() ==> final(self).registry_valid(),
            life_step(*old(self), *final(self)),
            match position(old(self).streams@, stream_id) {
                None => {
                    &&& result == Err::<(), SndError>(SndError::InvalidStreamId)
                    &&& Self::unchanged(*old(self), *final(self))
                },
                Some(at) => {
                    let stream = old(self).streams@[at];
                    match control::adjust_error(
                        old(self).config,
                        stream,
                        old(self).control_queue.model@.free.len(),
                    ) {
                        Some(error) => {
                            &&& result == Err::<(), SndError>(error)
                            &&& Self::unchanged(*old(self), *final(self))
                        },
                        None => {
                            &&& result == Ok::<(), SndError>(())
                            &&& Self::only_changes(
                                *old(self),
                                *final(self),
                                at,
                                PcmStream { muted: !stream.muted, ..stream },
                            )
                            &&& VirtQueue::request_posted(
                                old(self).control_queue,
                                final(self).control_queue,
                                control::mute_wire(stream_id, !stream.muted),
                                STATUS_REPLY_BYTES,
                            )
                        },
                    }
                },
            },
    {
        let stream_idx: usize = match self.find(stream_id) {
            Some(at) => at,
            None => {
                return Err(SndError::InvalidStreamId);
            },
        };
        proof {
            lemma_position(self.streams@, stream_id);
        }
        assert(self.streams@.update(stream_idx as int, self.streams@[stream_idx as int])
            =~= self.streams@);
        let new_mute: bool = !self.streams[stream_idx].muted;
        let stream = &mut self.streams[stream_idx];
        let mut handler = ControlHandler::new(&mut self.control_queue, self.config, self.features);
        handler.send_mute(stream, new_mute)
    }

    /// Sets the volume of a stream.
    pub fn set_volume(&mut self, stream_id: u32, volume: u8) -> (result: Result<(), SndError>)
        requires
            old(self).control_queue.wf(),
        ensures
            final(self).control_queue.wf(),
            registrations_kept(old(self).streams@, final(self).streams@),
            old(self).registry_valid() ==> final(self).registry_valid(),
            life_step(*old(self), *final(self)),
            match position(old(self).streams@, stream_id) {
                None => {
                    &&& result == Err::<(), SndError>(SndError::InvalidStreamId)
                    &&& Self::unchanged(*old(self), *final(self))
                },
                Some(at) => {
                    let stream = old(self).streams@[at];
                    match control::adjust_error(
                        old(self).config,
                        stream,
                        old(self).control_queue.model@.free.len(),
                    ) {
                        Some(error) => {
                            &&& result == Err::<(), SndError>(error)
                            &&& Self::unchanged(*old(self), *final(self))
                        },
                        None => {
                            &&& result == Ok::<(), SndError>(())
                            &&& Self::only_changes(
                                *old(self),
                                *final(self),
                                at,
                                PcmStream { volume, ..stream },
                            )
                            &&& VirtQueue::request_posted(
                                old(self).control_queue,
                                final(self).control_queue,
                                control::volume_wire(stream_id, volume),
                                STATUS_REPLY_BYTES,
                            )
                        },
                    }
                },
            },
    {
        let stream_idx: usize = match self.find(stream_id) {
            Some(at) => at,
            None => {
                return Err(SndError::InvalidStreamId);
            },
        };
        proof {
            lemma_position(self.streams@, stream_id);
        }
        assert(self.streams@.update(stream_idx as int, self.streams@[stream_idx as int])
            =~= self.streams@);
        let stream = &mut self.streams[stream_idx];
        let mut handler = ControlHandler::new(&mut self.control_queue, self.config, self.features);
        handler.send_volume(stream, volume)
    }

    /// The stream with an identifier.
    pub fn get_stream(&self, stream_id: u32) -> (stream: Option<&PcmStream>)
        ensures
            match position(self.streams@, stream_id) {
                Some(at) => stream == Some(&self.streams@[at]),
                None => stream is None,
            },
    {
        match self.find(stream_id) {
            Some(at) => Some(&self.streams[at]),
            None => None,
        }
    }

    /// The stream with an identifier, to be changed. The same streams stay registered as long as
    /// nothing but state, mute flag and volume is changed.
    pub fn get_stream_mut(&mut self, stream_id: u32) -> (stream: Option<&mut PcmStream>)
        ensures
            *final(self) == (VirtioSound { streams: final(self).streams, ..*old(self) }),
            match position(old(self).streams@, stream_id) {
                Some(at) => stream matches Some(found) && *found == old(self).streams@[at]
                    && final(self).streams@ == old(self).streams@.update(at, *final(found)),
                None => stream is None && final(self).streams@ == old(self).streams@,
            },
            (stream matches Some(found) ==> registered_alike(*found, *final(found)))
                ==> registrations_kept(old(self).streams@, final(self).streams@),
            (stream matches Some(found) ==> registered_alike(*found, *final(found))
                && (*final(found)).state == (*found).state) ==> life_step(
                *old(self),
                *final(self),
            ),
    {
        match self.find(stream_id) {
            Some(at) => Some(&mut self.streams[at]),
            None => None,
        }
    }

    /// Number of registered streams.
    pub fn stream_count(&self) -> (count: usize)
        ensures
            count == self.streams@.len(),
    {
        self.streams.len()
    }

    /// Mutes or unmutes every stream that can be, in the order of their registration. A stream
    /// that cannot be is passed over.
    pub fn set_global_mute(&mut self, mute: bool) -> (result: Result<(), SndError>)
        requires
            old(self).control_queue.wf(),
        ensures
            result == Ok::<(), SndError>(()),
            final(self).control_queue.wf(),
            registrations_kept(old(self).streams@, final(self).streams@),
            old(self).registry_valid() ==> final(self).registry_valid(),
            life_step(*old(self), *final(self)),
            final(self).global_mute == mute,
            ({
                let run = (MuteRun {
                    streams: old(self).streams@,
                    free: old(self).control_queue.model@.free.len(),
                    requests: Seq::empty(),
                }).steps(old(self).config, stream_ids(old(self).streams@), mute);
                &&& final(self).streams@ == run.streams
                &&& final(self).control_queue.model@.free.len() == run.free
                &&& VirtQueue::requests_posted(
                    old(self).control_queue,
                    final(self).control_queue,
                    run.requests,
                    STATUS_REPLY_BYTES,
                )
            }),
            *final(self) == (VirtioSound {
                control_queue: final(self).control_queue,
                streams: final(self).streams,
                global_mute: mute,
                ..*old(self)
            }),
    {
        let n: usize = self.streams.len();
        let ghost ids = stream_ids(self.streams@);
        let mut stream_list: Vec<u32> = Vec::new();
        for i in 0..n
            invariant
                n == self.streams@.len(),
                ids == stream_ids(self.streams@),
                stream_list@ == ids.take(i as int),
        {
            stream_list.push(self.streams[i].stream_id);
            assert(ids.take(i as int + 1) =~= ids.take(i as int).push(ids[i as int]));
        }
        assert(ids.take(n as int) =~= ids);
        let ghost pre = *self;
        let ghost start = MuteRun {
            streams: pre.streams@,
            free: pre.control_queue.model@.free.len(),
            requests: Seq::empty(),
        };
        assert(ids.take(0) =~= Seq::empty());
        for i in 0..n
            invariant
                n == ids.len(),
                stream_list@ == ids,
                ids == stream_ids(pre.streams@),
                start == (MuteRun {
                    streams: pre.streams@,
                    free: pre.control_queue.model@.free.len(),
                    requests: Seq::empty(),
                }),
                self.control_queue.wf(),
                *self == (VirtioSound {
                    control_queue: self.control_queue,
                    streams: self.streams,
                    ..pre
                }),
                stream_ids(self.streams@) == ids,
                registrations_kept(pre.streams@, self.streams@),
                forall|k: int|
                    0 <= k < pre.streams@.len() ==> (#[trigger] self.streams@[k]).state
                        == pre.streams@[k].state,
                ({
                    let run = start.steps(pre.config, ids.take(i as int), mute);
                    &&& self.streams@ == run.streams
                    &&& self.control_queue.model@.free.len() == run.free
                    &&& VirtQueue::requests_posted(
                        pre.control_queue,
                        self.control_queue,
                        run.requests,
                        STATUS_REPLY_BYTES,
                    )
                }),
        {
            let id: u32 = stream_list[i];
            let ghost run = start.steps(pre.config, ids.take(i as int), mute);
            let ghost q0 = self.control_queue;
            proof {
                lemma_position(self.streams@, id);
                assert(stream_ids(self.streams@)[i as int] == self.streams@[i as int].stream_id);
                assert(ids.take(i as int + 1).drop_last() =~= ids.take(i as int));
                assert(ids.take(i as int + 1).last() == id);
            }
            match self.find(id) {
                Some(at) => {
                    let ghost streams0 = self.streams@;
                    assert(streams0.update(at as int, streams0[at as int]) =~= streams0);
                    let stream = &mut self.streams[at];
                    let mut handler = ControlHandler::new(
                        &mut self.control_queue,
                        self.config,
                        self.features,
                    );
                    let sent = handler.send_mute(stream, mute);
                    proof {
                        if sent is Ok {
                            VirtQueue::lemma_request_posted(
                                pre.control_queue,
                                q0,
                                *handler.ctrl_queue,
                                run.requests,
                                control::mute_wire(id, mute),
                                STATUS_REPLY_BYTES,
                            );
                        }
                    }
                    assert(stream_ids(self.streams@) =~= stream_ids(streams0));
                },
                None => {},
            }
        }
        assert(ids.take(n as int) =~= ids);
        proof {
            lemma_sent(pre.control_queue);
        }
        self.global_mute = mute;
        Ok(())
    }
}

/// Where identifiers are unique, a stream is found where it stands.
proof fn lemma_position_of(streams: Seq<PcmStream>, at: int)
    requires
        unique_ids(streams),
        0 <= at < streams.len(),
    ensures
        position(streams, streams[at].stream_id) == Some(at),
{
    lemma_position(streams, streams[at].stream_id);
}

/// Registering a stream keeps the registry valid. The new stream is found under its identifier,
/// every other identifier finds what it found before, and the identifier is taken from then on.
pub proof fn law_registering_adds_one_stream(
    config: VirtioSndConfig,
    streams: Seq<PcmStream>,
    stream: PcmStream,
    other_id: u32,
)
    requires
        valid_registry(config, streams),
        register_error(config, streams, stream.stream_id, stream.channels) is None,
        other_id != stream.stream_id,
    ensures
        valid_registry(config, streams.push(stream)),
        position(streams.push(stream), stream.stream_id) == Some(streams.len() as int),
        position(streams.push(stream), other_id) == position(streams, other_id),
        register_error(
            config,
            streams.push(stream),
            stream.stream_id,
            stream.channels,
        ) == Some(SndError::InvalidParameter),
{
    lemma_position(streams, stream.stream_id);
    assert(streams.push(stream).drop_last() =~= streams);
}

/// In a valid registry there are no more streams than the device has. Looking an identifier up
/// finds the one stream that has it, wherever it stands, and nothing where no stream has it.
pub proof fn law_valid_registry(config: VirtioSndConfig, streams: Seq<PcmStream>, stream_id: u32)
    requires
        valid_registry(config, streams),
    ensures
        streams.len() <= config.streams,
        forall|at: int|
            0 <= at < streams.len() ==> ((#[trigger] streams[at]).stream_id == stream_id
                <==> position(streams, stream_id) == Some(at)),
        position(streams, stream_id) is Some <==> exists|at: int|
            0 <= at < streams.len() && (#[trigger] streams[at]).stream_id == stream_id,
{
    lemma_position(streams, stream_id);
    let ids = stream_ids(streams);
    assert forall|i: int, j: int| 0 <= i < j < ids.len() implies ids[i] != ids[j] by {
        assert(streams[i].stream_id != streams[j].stream_id);
    }
    ids.unique_seq_to_set();
    let known = Seq::new(config.streams as nat, |i: int| i as u32);
    known.unique_seq_to_set();
    assert(ids.to_set().subset_of(known.to_set())) by {
        assert forall|id: u32| ids.to_set().contains(id) implies known.to_set().contains(id) by {
            let i = choose|i: int| 0 <= i < ids.len() && ids[i] == id;
            assert(streams[i].stream_id == id);
            assert(known[id as int] == id);
        }
    }
    vstd::set_lib::lemma_len_subset(ids.to_set(), known.to_set());
}

/// Where the same streams stay registered, the registry stays valid and every identifier finds
/// what it found before, registered alike.
pub proof fn law_kept_registrations_stay_valid(
    config: VirtioSndConfig,
    before: Seq<PcmStream>,
    after: Seq<PcmStream>,
    stream_id: u32,
)
    requires
        valid_registry(config, before),
        registrations_kept(before, after),
    ensures
        valid_registry(config, after),
        position(after, stream_id) == position(before, stream_id),
        position(before, stream_id) matches Some(at) ==> registered_alike(before[at], after[at]),
{
    lemma_position(before, stream_id);
    lemma_position(after, stream_id);
    if position(before, stream_id) is Some {
        lemma_position_of(after, position(before, stream_id).unwrap());
    } else if position(after, stream_id) is Some {
        let at = position(after, stream_id).unwrap();
        assert(before[at].stream_id == stream_id);
    }
}

/// What any call does to the registered streams: it keeps them, or it adds a stream that may be
/// registered.
pub open spec fn registry_step(pre: VirtioSound, post: VirtioSound) -> bool {
    &&& post.config == pre.config
    &&& {
        ||| registrations_kept(pre.streams@, post.streams@)
        ||| {
            let added = post.streams@.last();
            &&& post.streams@.len() > 0
            &&& post.streams@ == pre.streams@.push(added)
            &&& register_error(
                pre.config,
                pre.streams@,
                added.stream_id,
                added.channels,
            ) is None
        }
    }
}

/// The requests `sent` move a stream: each of them asks for a state of the stream and takes it one
/// legal transition further. Where the first asks for parameters, the stream may also be back to
/// waiting for them.
#[verifier::opaque]
pub open spec fn stream_moved(
    before: PcmStream,
    after: PcmStream,
    sent: Seq<Seq<Seq<u8>>>,
) -> bool {
    let states = seq![before.state] + Seq::new(
        sent.len(),
        |k: int| control::asks_for(sent[k], before.stream_id).unwrap(),
    );
    &&& sent.len() > 0
    &&& forall|k: int|
        0 <= k < sent.len() ==> control::asks_for(#[trigger] sent[k], before.stream_id) is Some
    &&& control::legal_history(states)
    &&& after.state == states.last() || (states[1] is SetParameters
        && after.state is SetParameters)
}

/// How a call may treat a stream, where it posted the requests `sent`: it leaves the state alone,
/// or the requests move the stream.
pub open spec fn stream_step(
    before: PcmStream,
    after: PcmStream,
    sent: Seq<Seq<Seq<u8>>>,
) -> bool {
    after.state == before.state || stream_moved(before, after, sent)
}

/// The requests posted on the control queue between two states of a driver.
pub open spec fn sent_between(pre: VirtioSound, post: VirtioSound) -> Seq<Seq<Seq<u8>>> {
    post.control_queue.posted@.skip(pre.control_queue.posted@.len() as int)
}

/// What any call does to the driver: the registered streams are kept or grow by one that waits for
/// its parameters, the record of the control queue only grows, and every stream moves as the
/// requests posted allow.
pub open spec fn life_step(pre: VirtioSound, post: VirtioSound) -> bool {
    &&& registry_step(pre, post)
    &&& pre.control_queue.posted@.len() <= post.control_queue.posted@.len()
    &&& forall|k: int|
        0 <= k < pre.control_queue.posted@.len() ==> #[trigger] post.control_queue.posted@[k]
            == pre.control_queue.posted@[k]
    &&& forall|i: int|
        #![trigger pre.streams@[i]]
        #![trigger post.streams@[i]]
        0 <= i < pre.streams@.len() ==> stream_step(
            pre.streams@[i],
            post.streams@[i],
            sent_between(pre, post),
        )
    &&& forall|i: int|
        pre.streams@.len() <= i < post.streams@.len() ==> (
        #[trigger] post.streams@[i]).state is SetParameters
}

/// A call that posts the requests of a set-up, or the first of them, moves the stream as it may.
proof fn lemma_setup_step(stream: PcmStream, n: int)
    requires
        stream.state is SetParameters || stream.state is Release,
        1 <= n <= 3,
    ensures
        stream_step(
            stream,
            PcmStream {
                state: if n < 3 {
                    StreamState::SetParameters
                } else {
                    StreamState::Start
                },
                ..stream
            },
            VirtQueue::recorded(VirtioSound::setup_requests(stream).take(n)),
        ),
{
    reveal(stream_moved);
    let id = stream.stream_id;
    let sent = VirtQueue::recorded(VirtioSound::setup_requests(stream).take(n));
    control::law_requests_ask_for_states(
        stream,
        SETUP_BUFFER_BYTES,
        SETUP_PERIOD_BYTES,
        0,
        false,
        0,
        id,
    );
    assert(control::asks_for(sent[0], id) == Some(StreamState::SetParameters));
    assert(n > 1 ==> control::asks_for(sent[1], id) == Some(StreamState::Prepare));
    assert(n > 2 ==> control::asks_for(sent[2], id) == Some(StreamState::Start));
}

/// A call that stops a running stream, releases it, or does one after the other moves it as it may.
proof fn lemma_release_step(stream: PcmStream)
    ensures
        stream.state is Start ==> {
            &&& stream_step(
                stream,
                PcmStream { state: StreamState::Stop, ..stream },
                VirtQueue::recorded(
                    seq![control::stream_wire(VIRTIO_SND_R_PCM_STOP, stream.stream_id)],
                ),
            )
            &&& stream_step(
                stream,
                PcmStream { state: StreamState::Release, ..stream },
                VirtQueue::recorded(
                    seq![
                        control::stream_wire(VIRTIO_SND_R_PCM_STOP, stream.stream_id),
                        control::stream_wire(VIRTIO_SND_R_PCM_RELEASE, stream.stream_id),
                    ],
                ),
            )
        },
        stream.state is Prepare || stream.state is Stop ==> stream_step(
            stream,
            PcmStream { state: StreamState::Release, ..stream },
            VirtQueue::recorded(
                seq![control::stream_wire(VIRTIO_SND_R_PCM_RELEASE, stream.stream_id)],
            ),
        ),
{
    reveal(stream_moved);
    let id = stream.stream_id;
    let stop = control::stream_wire(VIRTIO_SND_R_PCM_STOP, id);
    let release = control::stream_wire(VIRTIO_SND_R_PCM_RELEASE, id);
    control::law_requests_ask_for_states(
        stream,
        SETUP_BUFFER_BYTES,
        SETUP_PERIOD_BYTES,
        0,
        false,
        0,
        id,
    );
    assert(VirtQueue::recorded(seq![stop])[0] =~= seq![stop]);
    assert(VirtQueue::recorded(seq![release])[0] =~= seq![release]);
    assert(VirtQueue::recorded(seq![stop, release])[0] =~= seq![stop]);
    assert(VirtQueue::recorded(seq![stop, release])[1] =~= seq![release]);
}

/// What was sent are the requests posted.
proof fn lemma_sent(pre: VirtQueue)
    ensures
        forall|post: VirtQueue, requests: Seq<Seq<u8>>|
            #[trigger] VirtQueue::requests_posted(pre, post, requests, STATUS_REPLY_BYTES) ==> {
                &&& pre.posted@.len() <= post.posted@.len()
                &&& forall|k: int|
                    0 <= k < pre.posted@.len() ==> #[trigger] post.posted@[k] == pre.posted@[k]
                &&& post.posted@.skip(pre.posted@.len() as int) == VirtQueue::recorded(requests)
            },
{
    assert forall|post: VirtQueue, requests: Seq<Seq<u8>>|
        #[trigger] VirtQueue::requests_posted(pre, post, requests, STATUS_REPLY_BYTES) implies {
        &&& pre.posted@.len() <= post.posted@.len()
        &&& forall|k: int|
            0 <= k < pre.posted@.len() ==> #[trigger] post.posted@[k] == pre.posted@[k]
        &&& post.posted@.skip(pre.posted@.len() as int) == VirtQueue::recorded(requests)
    } by {
        VirtQueue::lemma_recorded(pre, post, requests, STATUS_REPLY_BYTES);
        assert(post.posted@.skip(pre.posted@.len() as int) =~= VirtQueue::recorded(requests));
    }
}

/// Over any sequence of calls on a driver that starts without streams, the registry is valid
/// throughout, and what an identifier finds at one time it finds at every later time, in the same
/// place and registered alike.
pub proof fn law_registry_is_valid_throughout(
    history: Seq<VirtioSound>,
    earlier: int,
    later: int,
    stream_id: u32,
)
    requires
        0 <= earlier <= later < history.len(),
        history[0].streams@.len() == 0,
        forall|i: int, j: int|
            #![trigger history[i], history[j]]
            0 <= i && j == i + 1 && j < history.len() ==> registry_step(history[i], history[j]),
    ensures
        history[earlier].registry_valid(),
        history[later].registry_valid(),
        history[later].config == history[earlier].config,
        position(history[earlier].streams@, stream_id) matches Some(at) ==> {
            &&& position(history[later].streams@, stream_id) == Some(at)
            &&& registered_alike(history[earlier].streams@[at], history[later].streams@[at])
        },
    decreases later,
{
    lemma_position(history[earlier].streams@, stream_id);
    if later > 0 {
        let now = history[later];
        let last = history[later - 1];
        assert(registry_step(history[later - 1], history[later]));
        if earlier < later {
            law_registry_is_valid_throughout(history, earlier, later - 1, stream_id);
        } else {
            law_registry_is_valid_throughout(history, later - 1, later - 1, stream_id);
        }
        lemma_position(last.streams@, stream_id);
        if registrations_kept(last.streams@, now.streams@) {
            law_kept_registrations_stay_valid(
                now.config,
                last.streams@,
                now.streams@,
                stream_id,
            );
        } else {
            let added = now.streams@.last();
            lemma_position(last.streams@, added.stream_id);
            assert(now.streams@.drop_last() =~= last.streams@);
        }
    }
}

/// The requests sent by a call make up the way to the state that a stream is in after it.
proof fn lemma_step_keeps_way(
    posted: Seq<Seq<Seq<u8>>>,
    sent: Seq<Seq<Seq<u8>>>,
    before: PcmStream,
    after: PcmStream,
)
    requires
        stream_step(before, after, sent),
        control::asked_in_order(posted, before.stream_id, control::way_to(before.state)),
    ensures
        control::asked_in_order(
            posted + sent,
            before.stream_id,
            control::way_to(after.state),
        ),
{
    let id = before.stream_id;
    if after.state == before.state {
        control::lemma_asked_stays(posted, posted + sent, id, control::way_to(after.state));
    } else {
        reveal(stream_moved);
        let states = seq![before.state] + Seq::new(
            sent.len(),
            |k: int| control::asks_for(sent[k], id).unwrap(),
        );
        lemma_way_along(posted, sent, id, states, sent.len() as int);
        assert(sent.take(sent.len() as int) =~= sent);
        assert(states[sent.len() as int] == states.last());
    }
}

/// The first requests that move a stream make up the way to the state that they lead to.
proof fn lemma_way_along(
    posted: Seq<Seq<Seq<u8>>>,
    sent: Seq<Seq<Seq<u8>>>,
    stream_id: u32,
    states: Seq<StreamState>,
    k: int,
)
    requires
        states.len() == sent.len() + 1,
        control::legal_history(states),
        forall|j: int|
            0 <= j < sent.len() ==> control::asks_for(#[trigger] sent[j], stream_id) == Some(
                states[j + 1],
            ),
        control::asked_in_order(posted, stream_id, control::way_to(states[0])),
        0 <= k <= sent.len(),
    ensures
        control::asked_in_order(posted + sent.take(k), stream_id, control::way_to(states[k])),
    decreases k,
{
    if k == 0 {
        assert(posted + sent.take(0) =~= posted);
    } else {
        lemma_way_along(posted, sent, stream_id, states, k - 1);
        assert(control::asks_for(sent[k - 1], stream_id) == Some(states[k]));
        assert(control::legal_transition(states[k - 1], states[k]));
        control::lemma_way_goes_on(
            posted + sent.take(k - 1),
            sent[k - 1],
            stream_id,
            states[k - 1],
            states[k],
        );
        assert(posted + sent.take(k) =~= (posted + sent.take(k - 1)).push(sent[k - 1]));
    }
}

/// Over any sequence of calls on a driver that starts without streams, a stream is in a state only
/// where the device was asked for what leads there, in order: it runs only where it was prepared
/// and then started, it is stopped only where it was stopped after that, and it is released only
/// where it was prepared and then released.
pub proof fn law_streams_are_prepared_before_they_run(
    history: Seq<VirtioSound>,
    now: int,
    at: int,
)
    requires
        0 <= now < history.len(),
        history[0].streams@.len() == 0,
        forall|i: int, j: int|
            #![trigger history[i], history[j]]
            0 <= i && j == i + 1 && j < history.len() ==> life_step(history[i], history[j]),
        0 <= at < history[now].streams@.len(),
    ensures
        control::asked_in_order(
            history[now].control_queue.posted@,
            history[now].streams@[at].stream_id,
            control::way_to(history[now].streams@[at].state),
        ),
    decreases now,
{
    let post = history[now];
    let pre = history[now - 1];
    assert(life_step(history[now - 1], history[now]));
    if at < pre.streams@.len() {
        law_streams_are_prepared_before_they_run(history, now - 1, at);
        let sent = sent_between(pre, post);
        lemma_step_keeps_way(
            pre.control_queue.posted@,
            sent,
            pre.streams@[at],
            post.streams@[at],
        );
        assert(post.control_queue.posted@ =~= pre.control_queue.posted@ + sent);
    }
}

/// An operation on one stream keeps identifiers unique, and every other identifier finds the
/// stream that it found before, unchanged.
pub proof fn law_streams_are_independent(
    pre: VirtioSound,
    post: VirtioSound,
    at: int,
    stream: PcmStream,
    other_id: u32,
)
    requires
        unique_ids(pre.streams@),
        0 <= at < pre.streams@.len(),
        stream.stream_id == pre.streams@[at].stream_id,
        VirtioSound::only_changes(pre, post, at, stream),
    ensures
        unique_ids(post.streams@),
        position(post.streams@, other_id) == position(pre.streams@, other_id),
        other_id != stream.stream_id ==> (position(pre.streams@, other_id) matches Some(other)
            ==> post.streams@[other] == pre.streams@[other]),
        pre.wf() && post.control_queue.wf() ==> post.wf(),
{
    assert(stream_ids(post.streams@) =~= stream_ids(pre.streams@));
    lemma_position(pre.streams@, other_id);
    lemma_position(post.streams@, other_id);
    assert forall|i: int| 0 <= i < pre.streams@.len() implies (
    #[trigger] post.streams@[i]).stream_id == pre.streams@[i].stream_id by {}
    if position(pre.streams@, other_id) is Some {
        let found = position(pre.streams@, other_id).unwrap();
        lemma_position_of(post.streams@, found);
    } else if position(post.streams@, other_id) is Some {
        let found = position(post.streams@, other_id).unwrap();
        assert(pre.streams@[found].stream_id == other_id);
    }
}

/// An operation that keeps the identifier of a stream leaves it in its place.
proof fn lemma_position_kept(pre: VirtioSound, post: VirtioSound, stream: PcmStream, stream_id: u32)
    requires
        position(pre.streams@, stream_id) is Some,
        stream.stream_id == stream_id,
        VirtioSound::only_changes(
            pre,
            post,
            position(pre.streams@, stream_id).unwrap(),
            stream,
        ),
    ensures
        position(post.streams@, stream_id) == position(pre.streams@, stream_id),
{
    lemma_position(pre.streams@, stream_id);
    lemma_position(post.streams@, stream_id);
    let before = position(pre.streams@, stream_id).unwrap();
    assert(post.streams@[before].stream_id == stream_id);
    let after = position(post.streams@, stream_id).unwrap();
    if after < before {
        assert(pre.streams@[after].stream_id != stream_id);
    }
}

/// A stream that was set up, started, stopped and released differs from before in its state alone,
/// and the other streams do not differ at all.
pub proof fn law_life_cycle_moves_only_the_state(
    pre: VirtioSound,
    running: VirtioSound,
    post: VirtioSound,
    stream_id: u32,
)
    requires
        position(pre.streams@, stream_id) matches Some(at) && VirtioSound::only_changes(
            pre,
            running,
            at,
            PcmStream { state: StreamState::Start, ..pre.streams@[at] },
        ),
        position(running.streams@, stream_id) matches Some(at) && VirtioSound::only_changes(
            running,
            post,
            at,
            PcmStream { state: StreamState::Release, ..running.streams@[at] },
        ),
    ensures
        position(post.streams@, stream_id) == position(pre.streams@, stream_id),
        position(pre.streams@, stream_id) matches Some(at) && post.streams@ == pre.streams@.update(
            at,
            PcmStream { state: StreamState::Release, ..pre.streams@[at] },
        ),
{
    lemma_position(pre.streams@, stream_id);
    let at = position(pre.streams@, stream_id).unwrap();
    lemma_position_kept(
        pre,
        running,
        PcmStream { state: StreamState::Start, ..pre.streams@[at] },
        stream_id,
    );
    lemma_position_kept(
        running,
        post,
        PcmStream { state: StreamState::Release, ..running.streams@[at] },
        stream_id,
    );
    assert(post.streams@ =~= pre.streams@.update(
        at,
        PcmStream { state: StreamState::Release, ..pre.streams@[at] },
    ));
}

/// Toggling the mute flag of a stream twice leaves every stream as it was.
pub proof fn law_toggling_twice_restores(
    pre: VirtioSound,
    mid: VirtioSound,
    post: VirtioSound,
    stream_id: u32,
)
    requires
        position(pre.streams@, stream_id) matches Some(at) && VirtioSound::only_changes(
            pre,
            mid,
            at,
            PcmStream { muted: !pre.streams@[at].muted, ..pre.streams@[at] },
        ),
        position(mid.streams@, stream_id) matches Some(at) && VirtioSound::only_changes(
            mid,
            post,
            at,
            PcmStream { muted: !mid.streams@[at].muted, ..mid.streams@[at] },
        ),
    ensures
        post.streams@ == pre.streams@,
{
    lemma_position(pre.streams@, stream_id);
    let at = position(pre.streams@, stream_id).unwrap();
    lemma_position_kept(
        pre,
        mid,
        PcmStream { muted: !pre.streams@[at].muted, ..pre.streams@[at] },
        stream_id,
    );
    assert(post.streams@ =~= pre.streams@);
}

/// Whether a stream can be muted as far as the stream itself is concerned.
pub open spec fn mutable(config: VirtioSndConfig, stream: PcmStream) -> bool {
    control::adjustable(stream.state) && stream.stream_id < config.streams
}

/// How many of some streams can be muted.
pub open spec fn mutable_count(config: VirtioSndConfig, streams: Seq<PcmStream>) -> nat
    decreases streams.len(),
{
    if streams.len() == 0 {
        0
    } else {
        mutable_count(config, streams.drop_last()) + if mutable(config, streams.last()) {
            1nat
        } else {
            0nat
        }
    }
}

/// What muting the first streams one after the other has done.
proof fn lemma_mute_steps(
    config: VirtioSndConfig,
    streams: Seq<PcmStream>,
    free: nat,
    mute: bool,
    k: int,
)
    requires
        unique_ids(streams),
        0 <= k <= streams.len(),
    ensures
        ({
            let run = (MuteRun { streams, free, requests: Seq::empty() }).steps(
                config,
                stream_ids(streams).take(k),
                mute,
            );
            let count = mutable_count(config, streams.take(k));
            &&& run.streams.len() == streams.len()
            &&& run.free == (if 2 * count <= free {
                free - 2 * count
            } else {
                free as int % 2
            })
            &&& forall|i: int|
                0 <= i < streams.len() ==> #[trigger] run.streams[i] == (if i < k && mutable(
                    config,
                    streams[i],
                ) && 2 * (mutable_count(config, streams.take(i)) + 1) <= free {
                    PcmStream { muted: mute, ..streams[i] }
                } else {
                    streams[i]
                })
        }),
    decreases k,
{
    let start = MuteRun { streams, free, requests: Seq::empty() };
    let ids = stream_ids(streams);
    if k == 0 {
        assert(ids.take(0) =~= Seq::empty());
        assert(streams.take(0) =~= Seq::empty());
    } else {
        lemma_mute_steps(config, streams, free, mute, k - 1);
        assert(ids.take(k).drop_last() =~= ids.take(k - 1));
        assert(ids.take(k).last() == streams[k - 1].stream_id);
        assert(streams.take(k).drop_last() =~= streams.take(k - 1));
        assert(streams.take(k).last() == streams[k - 1]);
        let before = start.steps(config, ids.take(k - 1), mute);
        assert(stream_ids(before.streams) =~= ids) by {
            assert forall|i: int| 0 <= i < streams.len() implies (
            #[trigger] before.streams[i]).stream_id == streams[i].stream_id by {}
        }
        assert(before.streams[k - 1] == streams[k - 1]);
        lemma_position_of(before.streams, k - 1);
    }
}

/// Muting or unmuting everything sets the flag of every stream that can be muted, as long as the
/// control queue has room for the requests, and changes nothing else about any stream.
pub proof fn law_global_mute_reaches_every_stream(
    config: VirtioSndConfig,
    streams: Seq<PcmStream>,
    free: nat,
    mute: bool,
    i: int,
)
    requires
        unique_ids(streams),
        0 <= i < streams.len(),
    ensures
        ({
            let run = (MuteRun { streams, free, requests: Seq::empty() }).steps(
                config,
                stream_ids(streams),
                mute,
            );
            run.streams[i] == (if mutable(config, streams[i]) && 2 * (mutable_count(
                config,
                streams.take(i),
            ) + 1) <= free {
                PcmStream { muted: mute, ..streams[i] }
            } else {
                streams[i]
            })
        }),
{
    lemma_mute_steps(config, streams, free, mute, streams.len() as int);
    assert(stream_ids(streams).take(streams.len() as int) =~= stream_ids(streams));
}

/// A stream is set up with a buffer of 4096 bytes in periods of 512 bytes, and with its own number,
/// channels and format; the requests that follow prepare it and start it.
pub proof fn law_setup_requests(stream: PcmStream)
    ensures
        ({
            let requests = VirtioSound::setup_requests(stream);
            &&& requests.len() == 3
            &&& requests[0].len() == 24
            &&& protocol::number_at(requests[0], 0, 0x101)
            &&& protocol::number_at(requests[0], 4, stream.stream_id)
            &&& protocol::number_at(requests[0], 8, 4096)
            &&& protocol::number_at(requests[0], 12, 512)
            &&& requests[0][20] == stream.channels
            &&& requests[0][21] == stream.format.spec_code()
            &&& control::rate_code(stream.rate) matches Some(code) ==> requests[0][22] == code
            &&& requests[1].len() == 8
            &&& protocol::number_at(requests[1], 0, 0x102)
            &&& protocol::number_at(requests[1], 4, stream.stream_id)
            &&& requests[2].len() == 8
            &&& protocol::number_at(requests[2], 0, 0x103)
            &&& protocol::number_at(requests[2], 4, stream.stream_id)
        }),
{
    control::law_set_params_bytes(stream, 4096, 512);
    control::law_stream_command_bytes(stream.stream_id);
    let prepare = control::stream_wire(VIRTIO_SND_R_PCM_PREPARE, stream.stream_id);
    let start = control::stream_wire(VIRTIO_SND_R_PCM_START, stream.stream_id);
    assert(prepare.len() == 8 && start.len() == 8);
}

/// A stream is registered as it was described. It waits for its parameters, is audible, and has the
/// volume 200.
pub proof fn law_registered_stream(
    stream_id: u32,
    direction: StreamDirection,
    channels: u8,
    format: PcmFormat,
    rate: u32,
)
    ensures
        ({
            let stream = registered(stream_id, direction, channels, format, rate);
            &&& stream.stream_id == stream_id
            &&& stream.direction == direction
            &&& stream.channels == channels
            &&& stream.format == format
            &&& stream.rate == rate
            &&& stream.state is SetParameters
            &&& !stream.muted
            &&& stream.volume == 200
        }),
{
}

/// What it takes for a stream to be registered: a number that the device has and that no stream has
/// yet, and 1 to 18 channels. A number that the device lacks is reported first.
pub proof fn law_when_streams_can_be_registered(
    config: VirtioSndConfig,
    streams: Seq<PcmStream>,
    stream_id: u32,
    channels: u8,
)
    ensures
        ({
            let error = register_error(config, streams, stream_id, channels);
            let known = stream_id < config.streams;
            let taken = exists|i: int|
                0 <= i < streams.len() && (#[trigger] streams[i]).stream_id == stream_id;
            &&& error is None <==> known && !taken && 1 <= channels <= 18
            &&& error == Some(SndError::InvalidStreamId) <==> !known
            &&& error == Some(SndError::InvalidParameter) <==> known && (taken || !(1 <= channels
                <= 18))
        }),
{
    lemma_position(streams, stream_id);
}

/// Muting or unmuting everything posts one mute request for each stream whose flag it sets and
/// nothing else: two descriptors are gone for each of them.
pub proof fn law_global_mute_posts_mute_requests(
    config: VirtioSndConfig,
    streams: Seq<PcmStream>,
    ids: Seq<u32>,
    free: nat,
    mute: bool,
)
    ensures
        ({
            let run = (MuteRun { streams, free, requests: Seq::empty() }).steps(config, ids, mute);
            &&& run.free + 2 * run.requests.len() == free
            &&& run.requests.len() <= ids.len()
            &&& forall|k: int|
                0 <= k < run.requests.len() ==> {
                    let request = #[trigger] run.requests[k];
                    &&& request.len() == 12
                    &&& protocol::number_at(request, 0, 0x300)
                    &&& request[8] == 1 <==> mute
                    &&& request[8] == 0 <==> !mute
                    &&& exists|i: int|
                        0 <= i < ids.len() && protocol::number_at(request, 4, #[trigger] ids[i])
                }
        }),
    decreases ids.len(),
{
    if ids.len() > 0 {
        let shorter = ids.drop_last();
        law_global_mute_posts_mute_requests(config, streams, shorter, free, mute);
        let before = (MuteRun { streams, free, requests: Seq::empty() }).steps(
            config,
            shorter,
            mute,
        );
        let run = before.step(config, ids.last(), mute);
        control::law_mute_bytes(ids.last(), mute);
        assert forall|k: int| 0 <= k < run.requests.len() implies {
            let request = #[trigger] run.requests[k];
            &&& request.len() == 12
            &&& protocol::number_at(request, 0, 0x300)
            &&& request[8] == 1 <==> mute
            &&& request[8] == 0 <==> !mute
            &&& exists|i: int|
                0 <= i < ids.len() && protocol::number_at(request, 4, #[trigger] ids[i])
        } by {
            if k < before.requests.len() {
                let request = before.requests[k];
                assert(run.requests[k] == request);
                let i = choose|i: int|
                    0 <= i < shorter.len() && protocol::number_at(
                        request,
                        4,
                        #[trigger] shorter[i],
                    );
                assert(ids[i] == shorter[i]);
            } else {
                assert(ids[ids.len() - 1] == ids.last());
            }
        }
    }
}

/// An operation on one stream leaves everything else alone: the other streams and their order, the
/// configuration and the features, the event, playback and capture queues, and the global mute
/// flag. An operation that changes nothing leaves the control queue and that stream alone too.
pub proof fn law_operations_leave_the_rest_alone(
    pre: VirtioSound,
    post: VirtioSound,
    at: int,
    stream: PcmStream,
    i: int,
)
    requires
        0 <= at < pre.streams@.len(),
        0 <= i < pre.streams@.len(),
    ensures
        VirtioSound::only_changes(pre, post, at, stream) || VirtioSound::unchanged(pre, post) ==> {
            &&& post.streams@.len() == pre.streams@.len()
            &&& i != at ==> post.streams@[i] == pre.streams@[i]
            &&& post.config == pre.config
            &&& post.features == pre.features
            &&& post.event_queue == pre.event_queue
            &&& post.tx_queue == pre.tx_queue
            &&& post.rx_queue == pre.rx_queue
            &&& post.global_mute == pre.global_mute
        },
        VirtioSound::only_changes(pre, post, at, stream) ==> post.streams@[at] == stream,
        VirtioSound::unchanged(pre, post) ==> {
            &&& post.streams@[at] == pre.streams@[at]
            &&& post.control_queue == pre.control_queue
        },
{
}

} // verus!
