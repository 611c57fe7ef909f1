//! Constants, enumerations and request records of the VirtIO sound protocol.
use vstd::prelude::*;

verus! {

/// Feature bit: the device answers jack queries.
pub const VIRTIO_SND_F_JACK_INFO: u64 = 1;

/// Feature bit: the device answers PCM stream queries.
pub const VIRTIO_SND_F_PCM_INFO: u64 = 2;

/// Feature bit: the device answers channel map queries.
pub const VIRTIO_SND_F_CHMAP_INFO: u64 = 4;

/// Descriptor flag: the `next` field is valid.
pub const VIRTQ_DESC_F_NEXT: u16 = 1;

/// Descriptor flag: the buffer is device-writable.
pub const VIRTQ_DESC_F_WRITE: u16 = 2;

/// Descriptor flag: the buffer holds an indirect descriptor table.
pub const VIRTQ_DESC_F_INDIRECT: u16 = 4;

/// Command: query jack information.
pub const VIRTIO_SND_R_JACK_INFO: u32 = 1;

/// Command: remap a jack.
pub const VIRTIO_SND_R_JACK_REMAP: u32 = 2;

/// Command: query PCM stream information.
pub const VIRTIO_SND_R_PCM_INFO: u32 = 0x0100;

/// Command: set the parameters of a PCM stream.
pub const VIRTIO_SND_R_PCM_SET_PARAMS: u32 = 0x0101;

/// Command: prepare a PCM stream.
pub const VIRTIO_SND_R_PCM_PREPARE: u32 = 0x0102;

/// Command: start a PCM stream.
pub const VIRTIO_SND_R_PCM_START: u32 = 0x0103;

/// Command: stop a PCM stream.
pub const VIRTIO_SND_R_PCM_STOP: u32 = 0x0104;

/// Command: release a PCM stream.
pub const VIRTIO_SND_R_PCM_RELEASE: u32 = 0x0105;

/// Command: query a channel map.
pub const VIRTIO_SND_R_CHMAP_INFO: u32 = 0x0200;

/// Command: mute or unmute a stream.
pub const VIRTIO_SND_R_PCM_MUTE: u32 = 0x0300;

/// Command: set the volume of a stream.
pub const VIRTIO_SND_R_PCM_VOLUME: u32 = 0x0301;

/// Status: the request succeeded.
pub const VIRTIO_SND_S_OK: u32 = 0x8000;

/// Status: the request is not supported.
pub const VIRTIO_SND_S_NOT_SUPP: u32 = 0x8001;

/// Status: the request failed with an I/O error.
pub const VIRTIO_SND_S_IO_ERR: u32 = 0x8002;

/// Number of entries of a descriptor table (a power of two).
pub const QUEUE_SIZE: usize = 256;

/// Largest number of channels a stream can have.
pub const MAX_CHANNELS: u8 = 18;

/// Placeholder sequence number of every transmitted frame header.
pub const FRAME_SEQUENCE: u32 = 0xDEAD;

/// Length in bytes of a bare request header.
pub const HDR_BYTES: u32 = 4;

/// Length in bytes of a set-parameters request.
pub const PCM_SET_PARAMS_BYTES: u32 = 24;

/// Length in bytes of a stream operation request.
pub const PCM_HDR_BYTES: u32 = 8;

/// Length in bytes of a channel map request.
pub const CHMAP_INFO_BYTES: u32 = 28;

/// Length in bytes of a mute request.
pub const MUTE_CMD_BYTES: u32 = 12;

/// Length in bytes of a volume request.
pub const VOLUME_CMD_BYTES: u32 = 12;

/// Length in bytes of a status reply.
pub const STATUS_REPLY_BYTES: u32 = 4;

/// Length in bytes of a channel map reply: a status and 18 positions.
pub const CHMAP_REPLY_BYTES: u32 = 22;

/// Length in bytes of the header in front of transmitted PCM data.
pub const FRAME_HDR_BYTES: u32 = 8;

/// Device configuration space.
#[derive(Debug, Clone, Copy)]
pub struct VirtioSndConfig {
    /// Number of jacks.
    pub jacks: u32,
    /// Number of PCM streams.
    pub streams: u32,
    /// Number of channel maps.
    pub chmaps: u32,
}

/// The queues of the device, in the order of their indices.
#[derive(Debug, Clone, Copy, PartialEq, Eq, Structural)]
pub enum SndQueue {
    /// Queue 0: control requests and their replies.
    Control,
    /// Queue 1: device events.
    Event,
    /// Queue 2: playback.
    Tx,
    /// Queue 3: capture.
    Rx,
}

/// Life cycle of a PCM stream.
///
/// ```text
/// SetParameters -> Prepare -> Start <-> Stop -> Release
/// ```
///
/// A stream that is only prepared can be released too, and a released stream can be
/// given parameters again.
#[derive(Debug, PartialEq, Eq, Clone, Copy, Structural)]
pub enum StreamState {
    /// Waiting for parameters.
    SetParameters,
    /// Parameters set, buffers allocated, waiting to be started.
    Prepare,
    /// Running.
    Start,
    /// Paused.
    Stop,
    /// Released, resources returned.
    Release,
}

/// Direction of a stream.
#[derive(Debug, Clone, Copy, PartialEq, Eq, Structural)]
pub enum StreamDirection {
    /// Playback, served by the TX queue.
    Output,
    /// Capture, served by the RX queue.
    Input,
}

/// Sample format of a stream.
#[derive(Debug, Clone, Copy, PartialEq, Eq, Structural)]
pub enum PcmFormat {
    /// Unsigned 8 bit.
    U8,
    /// Signed 16 bit, little endian.
    S16Le,
    /// Signed 24 bit, little endian, padded to 32 bit.
    S24Le,
    /// Signed 32 bit, little endian.
    S32Le,
    /// 32 bit float.
    Float,
}

impl PcmFormat {
    /// The number by which a request names the format.
    pub open spec fn spec_code(self) -> u8 {
        match self {
            PcmFormat::U8 => 0,
            PcmFormat::S16Le => 1,
            PcmFormat::S24Le => 2,
            PcmFormat::S32Le => 3,
            PcmFormat::Float => 4,
        }
    }

    /// The number by which a request names the format.
    pub fn code(self) -> (code: u8)
        ensures
            code == self.spec_code(),
    {
        match self {
            PcmFormat::U8 => 0,
            PcmFormat::S16Le => 1,
            PcmFormat::S24Le => 2,
            PcmFormat::S32Le => 3,
            PcmFormat::Float => 4,
        }
    }
}

/// A PCM stream as the driver knows it.
pub struct PcmStream {
    /// Index of the stream in the device.
    pub stream_id: u32,
    /// Playback or capture.
    pub direction: StreamDirection,
    /// Current life cycle state.
    pub state: StreamState,
    /// Number of channels.
    pub channels: u8,
    /// Sample format.
    pub format: PcmFormat,
    /// Sample rate in Hz.
    pub rate: u32,
    /// Whether the stream is muted.
    pub muted: bool,
    /// Volume, 0 to 255.
    pub volume: u8,
}

/// Errors of the driver.
#[derive(Debug, PartialEq, Eq, Structural)]
pub enum SndError {
    /// The device lacks the feature.
    UnsupportedFeature,
    /// No such PCM stream.
    InvalidStreamId,
    /// The operation is not allowed in the current state.
    InvalidState,
    /// The descriptor table is full.
    QueueFull,
    /// The device reported a hardware error.
    DeviceError,
    /// A parameter is invalid.
    InvalidParameter,
    /// A channel map index is out of range.
    ChmapOutOfRange,
    /// A volume is out of range.
    VolumeOutOfRange,
    /// A command timed out.
    Timeout,
    /// A queue index is out of range.
    QueueIndexOutOfRange,
}

impl SndError {
    /// The text shown for an error.
    pub open spec fn spec_message(self) -> Seq<char> {
        match self {
            SndError::UnsupportedFeature => "Feature not supported by device"@,
            SndError::InvalidStreamId => "Invalid PCM stream ID"@,
            SndError::InvalidState => "Stream is in an invalid state for this operation"@,
            SndError::QueueFull => "Virtqueue is full"@,
            SndError::DeviceError => "Hardware/Device error occurred"@,
            SndError::InvalidParameter => "Invalid command parameter"@,
            SndError::ChmapOutOfRange => "Channel map index out of range"@,
            SndError::VolumeOutOfRange => "Volume value out of range [0, 255]"@,
            SndError::Timeout => "Command timed out"@,
            SndError::QueueIndexOutOfRange => "Queue index out of range"@,
        }
    }

    /// The text shown for an error.
    pub fn message(&self) -> (text: &'static str)
        ensures
            text@ == self.spec_message(),
    {
        match self {
            SndError::UnsupportedFeature => "Feature not supported by device",
            SndError::InvalidStreamId => "Invalid PCM stream ID",
            SndError::InvalidState => "Stream is in an invalid state for this operation",
            SndError::QueueFull => "Virtqueue is full",
            SndError::DeviceError => "Hardware/Device error occurred",
            SndError::InvalidParameter => "Invalid command parameter",
            SndError::ChmapOutOfRange => "Channel map index out of range",
            SndError::VolumeOutOfRange => "Volume value out of range [0, 255]",
            SndError::Timeout => "Command timed out",
            SndError::QueueIndexOutOfRange => "Queue index out of range",
        }
    }
}

/// Every error has a text to show, and different errors show different texts.
pub proof fn law_messages_tell_errors_apart(error: SndError, other: SndError)
    ensures
        error.spec_message().len() > 0,
        error != other ==> error.spec_message() != other.spec_message(),
{
    reveal_strlit("Feature not supported by device");
    reveal_strlit("Invalid PCM stream ID");
    reveal_strlit("Stream is in an invalid state for this operation");
    reveal_strlit("Virtqueue is full");
    reveal_strlit("Hardware/Device error occurred");
    reveal_strlit("Invalid command parameter");
    reveal_strlit("Channel map index out of range");
    reveal_strlit("Volume value out of range [0, 255]");
    reveal_strlit("Command timed out");
    reveal_strlit("Queue index out of range");
    assert("Feature not supported by device"@.len() == 31);
    assert("Invalid PCM stream ID"@.len() == 21);
    assert("Stream is in an invalid state for this operation"@.len() == 48);
    assert("Virtqueue is full"@.len() == 17);
    assert("Hardware/Device error occurred"@.len() == 30);
    assert("Invalid command parameter"@.len() == 25);
    assert("Channel map index out of range"@.len() == 30);
    assert("Volume value out of range [0, 255]"@.len() == 34);
    assert("Command timed out"@.len() == 17);
    assert("Queue index out of range"@.len() == 24);
    assert("Hardware/Device error occurred"@[0] != "Channel map index out of range"@[0]);
    assert("Virtqueue is full"@[0] != "Command timed out"@[0]);
}

/// Header of every request.
#[derive(Debug, Clone, Copy)]
pub struct VirtioSndHdr {
    /// Command code.
    pub code: u32,
}

/// Header of every reply.
#[derive(Debug, Clone, Copy)]
pub struct VirtioSndResp {
    /// Status code.
    pub code: u32,
}

/// Request that sets the parameters of a stream.
#[derive(Debug, Clone, Copy)]
pub struct VirtioSndPcmSetParams {
    /// Request header.
    pub hdr: VirtioSndHdr,
    /// Target stream.
    pub stream_id: u32,
    /// Size of the buffer in bytes.
    pub buffer_bytes: u32,
    /// Size of a period in bytes.
    pub period_bytes: u32,
    /// Feature bit map.
    pub features: u32,
    /// Number of channels.
    pub channels: u8,
    /// Sample format.
    pub format: u8,
    /// Encoded sample rate.
    pub rate: u8,
    /// Reserved, zero.
    pub _padding: u8,
}

/// Request that prepares, starts, stops or releases a stream.
#[derive(Debug, Clone, Copy)]
pub struct VirtioSndPcmHdr {
    /// Request header.
    pub hdr: VirtioSndHdr,
    /// Target stream.
    pub stream_id: u32,
}

/// Request for the channel map of a stream.
#[derive(Debug, Clone, Copy)]
pub struct VirtioSndChmapInfo {
    /// Request header.
    pub hdr: VirtioSndHdr,
    /// Target stream.
    pub stream_id: u32,
    /// Number of channels.
    pub channels: u8,
    /// Positions of the channels.
    pub positions: [u8; 18],
    /// Reserved, zero.
    pub _padding: u8,
}

/// Request that mutes or unmutes a stream.
#[derive(Debug, Clone, Copy)]
pub struct VirtioSndMuteCmd {
    /// Request header.
    pub hdr: VirtioSndHdr,
    /// Target stream.
    pub stream_id: u32,
    /// 1 to mute, 0 to unmute.
    pub mute: u8,
    /// Reserved, zero.
    pub _padding: [u8; 3],
}

/// Request that sets the volume of a stream.
#[derive(Debug, Clone, Copy)]
pub struct VirtioSndVolumeCmd {
    /// Request header.
    pub hdr: VirtioSndHdr,
    /// Target stream.
    pub stream_id: u32,
    /// Volume, 0 to 255.
    pub volume: u8,
    /// Reserved, zero.
    pub _padding: [u8; 3],
}

/// The four bytes of a number, least significant first.
pub open spec fn le_bytes(value: u32) -> Seq<u8> {
    seq![
        (value % 0x100) as u8,
        (value / 0x100 % 0x100) as u8,
        (value / 0x1_0000 % 0x100) as u8,
        (value / 0x100_0000) as u8,
    ]
}

/// The number that the first four of `bytes` stand for, least significant first.
pub open spec fn le_value(bytes: Seq<u8>) -> int {
    bytes[0] + bytes[1] * 0x100 + bytes[2] * 0x1_0000 + bytes[3] * 0x100_0000
}

/// Reading back the bytes of a number gives the number.
pub proof fn law_le_round_trip(value: u32)
    ensures
        le_value(le_bytes(value)) == value,
{
}

/// Appends a number to `out`, least significant byte first.
fn push_le_u32(out: &mut Vec<u8>, value: u32)
    ensures
        final(out)@ == old(out)@ + le_bytes(value),
{
    out.push((value % 0x100) as u8);
    out.push((value / 0x100 % 0x100) as u8);
    out.push((value / 0x1_0000 % 0x100) as u8);
    out.push((value / 0x100_0000) as u8);
    assert(out@ =~= old(out)@ + le_bytes(value));
}

impl VirtioSndHdr {
    /// The request as the device reads it.
    pub open spec fn wire(self) -> Seq<u8> {
        le_bytes(self.code)
    }

    /// The request as the device reads it.
    pub fn to_bytes(&self) -> (bytes: Vec<u8>)
        ensures
            bytes@ == self.wire(),
            bytes@.len() == HDR_BYTES,
    {
        let mut out: Vec<u8> = Vec::new();
        push_le_u32(&mut out, self.code);
        assert(out@ =~= self.wire());
        out
    }
}

impl VirtioSndResp {
    /// Reads the status at the start of a reply.
    pub fn from_bytes(reply: &[u8]) -> (resp: VirtioSndResp)
        requires
            reply@.len() >= STATUS_REPLY_BYTES,
        ensures
            resp.code == le_value(reply@),
    {
        VirtioSndResp {
            code: reply[0] as u32 + reply[1] as u32 * 0x100 + reply[2] as u32 * 0x1_0000 + reply[3]
                as u32 * 0x100_0000,
        }
    }
}

impl VirtioSndPcmSetParams {
    /// The request as the device reads it.
    pub open spec fn wire(self) -> Seq<u8> {
        self.hdr.wire() + le_bytes(self.stream_id) + le_bytes(self.buffer_bytes) + le_bytes(
            self.period_bytes,
        ) + le_bytes(self.features) + seq![self.channels, self.format, self.rate, self._padding]
    }

    /// The request as the device reads it.
    pub fn to_bytes(&self) -> (bytes: Vec<u8>)
        ensures
            bytes@ == self.wire(),
            bytes@.len() == PCM_SET_PARAMS_BYTES,
    {
        let mut out: Vec<u8> = self.hdr.to_bytes();
        push_le_u32(&mut out, self.stream_id);
        push_le_u32(&mut out, self.buffer_bytes);
        push_le_u32(&mut out, self.period_bytes);
        push_le_u32(&mut out, self.features);
        out.push(self.channels);
        out.push(self.format);
        out.push(self.rate);
        out.push(self._padding);
        assert(out@ =~= self.wire());
        out
    }
}

impl VirtioSndPcmHdr {
    /// The request as the device reads it.
    pub open spec fn wire(self) -> Seq<u8> {
        self.hdr.wire() + le_bytes(self.stream_id)
    }

    /// The request as the device reads it.
    pub fn to_bytes(&self) -> (bytes: Vec<u8>)
        ensures
            bytes@ == self.wire(),
            bytes@.len() == PCM_HDR_BYTES,
    {
        let mut out: Vec<u8> = self.hdr.to_bytes();
        push_le_u32(&mut out, self.stream_id);
        assert(out@ =~= self.wire());
        out
    }
}

impl VirtioSndChmapInfo {
    /// The request as the device reads it.
    pub open spec fn wire(self) -> Seq<u8> {
        self.hdr.wire() + le_bytes(self.stream_id) + seq![self.channels] + self.positions@ + seq![
            self._padding,
        ]
    }

    /// The request as the device reads it.
    pub fn to_bytes(&self) -> (bytes: Vec<u8>)
        ensures
            bytes@ == self.wire(),
            bytes@.len() == CHMAP_INFO_BYTES,
    {
        let mut out: Vec<u8> = self.hdr.to_bytes();
        push_le_u32(&mut out, self.stream_id);
        out.push(self.channels);
        let ghost front = out@;
        for i in 0..18usize
            invariant
                out@ == front + self.positions@.take(i as int),
        {
            out.push(self.positions[i]);
            assert(self.positions@.take(i as int + 1) =~= self.positions@.take(i as int).push(
                self.positions@[i as int],
            ));
        }
        assert(self.positions@.take(18) =~= self.positions@);
        out.push(self._padding);
        assert(out@ =~= self.wire());
        out
    }
}

impl VirtioSndMuteCmd {
    /// The request as the device reads it.
    pub open spec fn wire(self) -> Seq<u8> {
        self.hdr.wire() + le_bytes(self.stream_id) + seq![self.mute] + self._padding@
    }

    /// The request as the device reads it.
    pub fn to_bytes(&self) -> (bytes: Vec<u8>)
        ensures
            bytes@ == self.wire(),
            bytes@.len() == MUTE_CMD_BYTES,
    {
        let mut out: Vec<u8> = self.hdr.to_bytes();
        push_le_u32(&mut out, self.stream_id);
        out.push(self.mute);
        out.push(self._padding[0]);
        out.push(self._padding[1]);
        out.push(self._padding[2]);
        assert(out@ =~= self.wire());
        out
    }
}

impl VirtioSndVolumeCmd {
    /// The request as the device reads it.
    pub open spec fn wire(self) -> Seq<u8> {
        self.hdr.wire() + le_bytes(self.stream_id) + seq![self.volume] + self._padding@
    }

    /// The request as the device reads it.
    pub fn to_bytes(&self) -> (bytes: Vec<u8>)
        ensures
            bytes@ == self.wire(),
            bytes@.len() == VOLUME_CMD_BYTES,
    {
        let mut out: Vec<u8> = self.hdr.to_bytes();
        push_le_u32(&mut out, self.stream_id);
        out.push(self.volume);
        out.push(self._padding[0]);
        out.push(self._padding[1]);
        out.push(self._padding[2]);
        assert(out@ =~= self.wire());
        out
    }
}

/// The header in front of the PCM data of a stream: the stream and a sequence number.
pub open spec fn spec_frame_header(stream_id: u32) -> Seq<u8> {
    le_bytes(stream_id) + le_bytes(FRAME_SEQUENCE)
}

/// The header in front of the PCM data of a stream: the stream and a sequence number.
pub fn frame_header(stream_id: u32) -> (header: Vec<u8>)
    ensures
        header@ == spec_frame_header(stream_id),
        header@.len() == FRAME_HDR_BYTES,
{
    let mut out: Vec<u8> = Vec::new();
    push_le_u32(&mut out, stream_id);
    push_le_u32(&mut out, FRAME_SEQUENCE);
    assert(out@ =~= spec_frame_header(stream_id));
    out
}

/// A number becomes four bytes, the least significant one first.
pub proof fn law_little_endian(value: u32)
    ensures
        le_bytes(value).len() == 4,
        value == le_bytes(value)[0] + 256 * le_bytes(value)[1] + 65536 * le_bytes(value)[2]
            + 16777216 * le_bytes(value)[3],
{
}

/// Formats are numbered from 0 to 4, unsigned bytes first, then the signed formats by width, then
/// floating point.
pub proof fn law_format_codes(format: PcmFormat)
    ensures
        format is U8 <==> format.spec_code() == 0,
        format is S16Le <==> format.spec_code() == 1,
        format is S24Le <==> format.spec_code() == 2,
        format is S32Le <==> format.spec_code() == 3,
        format is Float <==> format.spec_code() == 4,
{
}

/// Each error is shown by the text that tells what went wrong.
pub proof fn law_messages_tell_what_went_wrong(error: SndError)
    ensures
        error is UnsupportedFeature ==> error.spec_message() == "Feature not supported by device"@,
        error is InvalidStreamId ==> error.spec_message() == "Invalid PCM stream ID"@,
        error is InvalidState ==> error.spec_message()
            == "Stream is in an invalid state for this operation"@,
        error is QueueFull ==> error.spec_message() == "Virtqueue is full"@,
        error is DeviceError ==> error.spec_message() == "Hardware/Device error occurred"@,
        error is InvalidParameter ==> error.spec_message() == "Invalid command parameter"@,
        error is ChmapOutOfRange ==> error.spec_message() == "Channel map index out of range"@,
        error is VolumeOutOfRange ==> error.spec_message() == "Volume value out of range [0, 255]"@,
        error is Timeout ==> error.spec_message() == "Command timed out"@,
        error is QueueIndexOutOfRange ==> error.spec_message() == "Queue index out of range"@,
{
}

/// The header in front of PCM data is eight bytes: the number of the stream, least significant byte
/// first, and the fixed sequence number 0xDEAD.
pub proof fn law_frame_header(stream_id: u32)
    ensures
        spec_frame_header(stream_id).len() == 8,
        stream_id == spec_frame_header(stream_id)[0] + 256 * spec_frame_header(stream_id)[1] + 65536
            * spec_frame_header(stream_id)[2] + 16777216 * spec_frame_header(stream_id)[3],
        spec_frame_header(stream_id).skip(4) == seq![0xadu8, 0xdeu8, 0u8, 0u8],
{
    law_little_endian(stream_id);
    assert(spec_frame_header(stream_id).skip(4) =~= seq![0xadu8, 0xdeu8, 0u8, 0u8]);
}

/// Whether four bytes from `at` on are a number, least significant byte first.
pub open spec fn number_at(wire: Seq<u8>, at: int, value: u32) -> bool {
    value == wire[at] + 256 * wire[at + 1] + 65536 * wire[at + 2] + 16777216 * wire[at + 3]
}

/// A set-parameters request is its fields in order, without gaps.
pub proof fn law_set_params_fields(request: VirtioSndPcmSetParams)
    ensures
        request.wire().len() == 24,
        number_at(request.wire(), 0, request.hdr.code),
        number_at(request.wire(), 4, request.stream_id),
        number_at(request.wire(), 8, request.buffer_bytes),
        number_at(request.wire(), 12, request.period_bytes),
        number_at(request.wire(), 16, request.features),
        request.wire()[20] == request.channels,
        request.wire()[21] == request.format,
        request.wire()[22] == request.rate,
        request.wire()[23] == request._padding,
{
    law_little_endian(request.hdr.code);
    law_little_endian(request.stream_id);
    law_little_endian(request.buffer_bytes);
    law_little_endian(request.period_bytes);
    law_little_endian(request.features);
}

/// A stream command is its command and its stream, without gaps; a header is its command alone.
pub proof fn law_stream_command_fields(request: VirtioSndPcmHdr)
    ensures
        request.hdr.wire().len() == 4,
        number_at(request.hdr.wire(), 0, request.hdr.code),
        request.wire().len() == 8,
        number_at(request.wire(), 0, request.hdr.code),
        number_at(request.wire(), 4, request.stream_id),
{
    law_little_endian(request.hdr.code);
    law_little_endian(request.stream_id);
}

/// A channel map request is its fields in order, without gaps.
pub proof fn law_chmap_fields(request: VirtioSndChmapInfo)
    ensures
        request.wire().len() == 28,
        number_at(request.wire(), 0, request.hdr.code),
        number_at(request.wire(), 4, request.stream_id),
        request.wire()[8] == request.channels,
        forall|i: int| 0 <= i < 18 ==> request.wire()[9 + i] == #[trigger] request.positions@[i],
        request.wire()[27] == request._padding,
{
    law_little_endian(request.hdr.code);
    law_little_endian(request.stream_id);
}

/// A mute request is its fields in order, without gaps.
pub proof fn law_mute_fields(request: VirtioSndMuteCmd)
    ensures
        request.wire().len() == 12,
        number_at(request.wire(), 0, request.hdr.code),
        number_at(request.wire(), 4, request.stream_id),
        request.wire()[8] == request.mute,
        forall|i: int| 0 <= i < 3 ==> request.wire()[9 + i] == #[trigger] request._padding@[i],
{
    law_little_endian(request.hdr.code);
    law_little_endian(request.stream_id);
}

/// A volume request is its fields in order, without gaps.
pub proof fn law_volume_fields(request: VirtioSndVolumeCmd)
    ensures
        request.wire().len() == 12,
        number_at(request.wire(), 0, request.hdr.code),
        number_at(request.wire(), 4, request.stream_id),
        request.wire()[8] == request.volume,
        forall|i: int| 0 <= i < 3 ==> request.wire()[9 + i] == #[trigger] request._padding@[i],
{
    law_little_endian(request.hdr.code);
    law_little_endian(request.stream_id);
}

} // verus!
