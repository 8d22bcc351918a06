use vstd::prelude::*;

verus! {

/// Opcode of an ArtDmx (DMX output) frame.
pub const ARTNET_OPCODE_DMX: u16 = 0x5000;

/// Protocol revision that the frames declare.
pub const ARTNET_PROTOCOL_VERSION: u16 = 14;

/// Number of channels in one DMX universe.
pub const DMX_CHANNELS: usize = 512;

/// Size of the fixed part of the frame that precedes the channel data.
pub const ARTNET_HEADER_LEN: usize = 18;

/// The eight magic bytes that open every frame: ASCII `Art-Net` and a zero.
pub open spec fn artnet_magic() -> Seq<u8> {
    seq![0x41u8, 0x72u8, 0x74u8, 0x2Du8, 0x4Eu8, 0x65u8, 0x74u8, 0x00u8]
}

/// A 16-bit value as two bytes, low byte first.
pub open spec fn le_u16(x: u16) -> Seq<u8> {
    seq![(x % 256) as u8, (x / 256) as u8]
}

/// A 16-bit value as two bytes, high byte first.
pub open spec fn be_u16(x: u16) -> Seq<u8> {
    seq![(x / 256) as u8, (x % 256) as u8]
}

/// What a packet holds beyond the protocol constants.
pub ghost struct DmxPacketView {
    pub sequence: u8,
    pub physical: u8,
    pub universe: u16,
    /// Channel values; index 0 is channel 1.
    pub channels: Seq<u8>,
}

/// The wire frame of a packet: magic, opcode (little-endian), protocol
/// version (big-endian), sequence, physical, universe (little-endian),
/// data length (big-endian), then the channel data.
pub open spec fn frame_bytes(p: DmxPacketView) -> Seq<u8> {
    artnet_magic() + le_u16(ARTNET_OPCODE_DMX) + be_u16(ARTNET_PROTOCOL_VERSION) + seq![
        p.sequence,
        p.physical,
    ] + le_u16(p.universe) + be_u16(DMX_CHANNELS as u16) + p.channels
}

/// Every frame is 530 bytes: the magic `Art-Net\0`, the opcode 0x5000 low byte
/// first, protocol version 14 high byte first, sequence, physical, universe
/// low byte first, the data length 512 high byte first, and then the channel
/// data in channel order.
pub proof fn lemma_frame_layout(p: DmxPacketView)
    requires
        p.channels.len() == DMX_CHANNELS,
    ensures
        frame_bytes(p).len() == 530,
        frame_bytes(p).subrange(0, 8) == seq![
            0x41u8,
            0x72u8,
            0x74u8,
            0x2Du8,
            0x4Eu8,
            0x65u8,
            0x74u8,
            0x00u8,
        ],
        frame_bytes(p).subrange(8, 10) == seq![0x00u8, 0x50u8],
        frame_bytes(p).subrange(10, 12) == seq![0x00u8, 0x0Eu8],
        frame_bytes(p)[12] == p.sequence,
        frame_bytes(p)[13] == p.physical,
        frame_bytes(p).subrange(14, 16) == le_u16(p.universe),
        frame_bytes(p).subrange(16, 18) == seq![0x02u8, 0x00u8],
        frame_bytes(p).subrange(18, 530) == p.channels,
{
    let f = frame_bytes(p);
    assert(f.subrange(0, 8) =~= artnet_magic());
    assert(f.subrange(8, 10) =~= seq![0x00u8, 0x50u8]);
    assert(f.subrange(10, 12) =~= seq![0x00u8, 0x0Eu8]);
    assert(f.subrange(14, 16) =~= le_u16(p.universe));
    assert(f.subrange(16, 18) =~= seq![0x02u8, 0x00u8]);
    assert(f.subrange(18, 530) =~= p.channels);
}

/// Serialising an unchanged packet again gives the same bytes: the frame
/// depends on the packet's contents alone.
pub proof fn lemma_frame_repeatable(p: DmxPacketView, q: DmxPacketView)
    requires
        p == q,
    ensures
        frame_bytes(p) == frame_bytes(q),
{
}

/// Channels after writing `value` to 1-based `channel`; unchanged when the
/// channel lies outside `1..=512`.
pub open spec fn channel_written(channels: Seq<u8>, channel: int, value: u8) -> Seq<u8> {
    if 1 <= channel <= DMX_CHANNELS {
        channels.update(channel - 1, value)
    } else {
        channels
    }
}

/// How many of `len` values fit from 1-based `start` up to channel 512.
pub open spec fn written_count(start: int, len: int) -> int {
    if len < DMX_CHANNELS - start + 1 {
        len
    } else {
        DMX_CHANNELS - start + 1
    }
}

/// Channels after writing `values` from 1-based `start` onwards, dropping what
/// would pass channel 512; unchanged when `start` lies outside `1..=512`.
pub open spec fn channels_written(channels: Seq<u8>, start: int, values: Seq<u8>) -> Seq<u8> {
    if 1 <= start <= DMX_CHANNELS {
        Seq::new(
            channels.len(),
            |i: int|
                if start - 1 <= i < start - 1 + written_count(start, values.len() as int) {
                    values[i - (start - 1)]
                } else {
                    channels[i]
                },
        )
    } else {
        channels
    }
}

/// Appends every byte of `src` to `out`, in order.
fn append_bytes(out: &mut Vec<u8>, src: &[u8])
    ensures
        final(out)@ == old(out)@ + src@,
{
    let mut i: usize = 0;
    while i < src.len()
        invariant
            i <= src@.len(),
            out@ == old(out)@ + src@.subrange(0, i as int),
        decreases src@.len() - i,
    {
        out.push(src[i]);
        i = i + 1;
        assert(out@ =~= old(out)@ + src@.subrange(0, i as int));
    }
    assert(src@.subrange(0, i as int) =~= src@);
}

/// Appends `x` to `out` low byte first.
fn push_le_u16(out: &mut Vec<u8>, x: u16)
    ensures
        final(out)@ == old(out)@ + le_u16(x),
{
    out.push((x % 256) as u8);
    out.push((x / 256) as u8);
    assert(out@ =~= old(out)@ + le_u16(x));
}

/// Appends `x` to `out` high byte first.
fn push_be_u16(out: &mut Vec<u8>, x: u16)
    ensures
        final(out)@ == old(out)@ + be_u16(x),
{
    out.push((x / 256) as u8);
    out.push((x % 256) as u8);
    assert(out@ =~= old(out)@ + be_u16(x));
}

/// One DMX universe frame.
pub struct ArtNetDmxPacket {
    header: [u8; 8],
    opcode: u16,
    protocol_version: u16,
    sequence: u8,
    physical: u8,
    universe: u16,
    length: u16,
    data: [u8; 512],
}

impl View for ArtNetDmxPacket {
    type V = DmxPacketView;

    closed spec fn view(&self) -> DmxPacketView {
        DmxPacketView {
            sequence: self.sequence,
            physical: self.physical,
            universe: self.universe,
            channels: self.data@,
        }
    }
}

impl ArtNetDmxPacket {
    /// The magic, opcode, protocol version, data length and physical port
    /// hold their fixed values.
    #[verifier::type_invariant]
    spec fn well_formed(&self) -> bool {
        &&& self.header@ == artnet_magic()
        &&& self.opcode == ARTNET_OPCODE_DMX
        &&& self.protocol_version == ARTNET_PROTOCOL_VERSION
        &&& self.length == DMX_CHANNELS as u16
        &&& self.physical == 0
    }

    /// A blacked-out frame for `universe`, with sequencing disabled.
    pub fn new(universe: u16) -> (r: Self)
        ensures
            r@.universe == universe,
            r@.sequence == 0,
            r@.physical == 0,
            r@.channels == Seq::new(DMX_CHANNELS as nat, |i: int| 0u8),
    {
        let r = ArtNetDmxPacket {
            header: [0x41u8, 0x72u8, 0x74u8, 0x2Du8, 0x4Eu8, 0x65u8, 0x74u8, 0x00u8],
            opcode: ARTNET_OPCODE_DMX,
            protocol_version: ARTNET_PROTOCOL_VERSION,
            sequence: 0,
            physical: 0,
            universe,
            length: DMX_CHANNELS as u16,
            data: [0u8; 512],
        };
        assert(r.header@ =~= artnet_magic());
        assert(r.data@ =~= Seq::new(DMX_CHANNELS as nat, |i: int| 0u8));
        r
    }

    /// Writes `value` to 1-based `channel`; a channel outside `1..=512` is
    /// silently ignored.
    pub fn set_channel(&mut self, channel: usize, value: u8)
        ensures
            final(self)@.channels == channel_written(old(self)@.channels, channel as int, value),
            final(self)@.sequence == old(self)@.sequence,
            final(self)@.physical == old(self)@.physical,
            final(self)@.universe == old(self)@.universe,
    {
        proof {
            use_type_invariant(&*self);
        }
        if channel > 0 && channel <= DMX_CHANNELS {
            self.data[channel - 1] = value;
        }
    }

    /// Writes `values` from 1-based `start_channel` onwards, dropping the
    /// values that would pass channel 512; a start outside `1..=512` is
    /// silently ignored.
    pub fn set_channels(&mut self, start_channel: usize, values: &[u8])
        ensures
            final(self)@.channels == channels_written(
                old(self)@.channels,
                start_channel as int,
                values@,
            ),
            final(self)@.sequence == old(self)@.sequence,
            final(self)@.physical == old(self)@.physical,
            final(self)@.universe == old(self)@.universe,
    {
        proof {
            use_type_invariant(&*self);
        }
        if start_channel > 0 && start_channel <= DMX_CHANNELS {
            let base: usize = start_channel - 1;
            let room: usize = DMX_CHANNELS - base;
            let count: usize = if values.len() < room {
                values.len()
            } else {
                room
            };
            assert(count == written_count(start_channel as int, values@.len() as int));
            let mut i: usize = 0;
            while i < count
                invariant
                    base + count <= DMX_CHANNELS,
                    count <= values@.len(),
                    i <= count,
                    self.data@.len() == DMX_CHANNELS,
                    forall|k: int|
                        #![trigger self.data@[k]]
                        0 <= k < DMX_CHANNELS ==> self.data@[k] == if base <= k < base + i {
                            values@[k - base]
                        } else {
                            old(self).data@[k]
                        },
                    self.well_formed(),
                    self.sequence == old(self).sequence,
                    self.physical == old(self).physical,
                    self.universe == old(self).universe,
                decreases count - i,
            {
                self.data[base + i] = values[i];
                i = i + 1;
            }
            assert(self.data@ =~= channels_written(
                old(self).data@,
                start_channel as int,
                values@,
            ));
        }
    }

    /// Overwrites the sequence number that the frame carries.
    pub fn set_sequence(&mut self, seq: u8)
        ensures
            final(self)@ == (DmxPacketView { sequence: seq, ..old(self)@ }),
    {
        proof {
            use_type_invariant(&*self);
        }
        self.sequence = seq;
    }

    /// The 530-byte wire frame of this packet.
    pub fn to_bytes(&self) -> (bytes: Vec<u8>)
        ensures
            bytes@ == frame_bytes(self@),
            bytes@.len() == ARTNET_HEADER_LEN + DMX_CHANNELS,
    {
        proof {
            use_type_invariant(self);
        }
        let mut bytes: Vec<u8> = Vec::with_capacity(ARTNET_HEADER_LEN + DMX_CHANNELS);
        append_bytes(&mut bytes, &self.header);
        push_le_u16(&mut bytes, self.opcode);
        push_be_u16(&mut bytes, self.protocol_version);
        bytes.push(self.sequence);
        bytes.push(self.physical);
        push_le_u16(&mut bytes, self.universe);
        push_be_u16(&mut bytes, self.length);
        append_bytes(&mut bytes, &self.data);
        assert(bytes@ =~= frame_bytes(self@));
        bytes
    }
}

} // verus!
