use vstd::prelude::*;

use crate::package::{frame_bytes, ArtNetDmxPacket, DmxPacketView};

verus! {

/// The sequence number that follows `s`, wrapping from 255 to 0.
pub open spec fn next_sequence(s: u8) -> u8 {
    ((s as int + 1) % 256) as u8
}

/// The counter after `n` frames have been prepared from counter `s`.
pub open spec fn sequence_after(s: u8, n: nat) -> u8
    decreases n,
{
    if n == 0 {
        s
    } else {
        next_sequence(sequence_after(s, (n - 1) as nat))
    }
}

/// The frame that a session prepares for `packet` when its counter is `s`:
/// the packet's own frame with `s` as its sequence number.
pub open spec fn stamped_frame(packet: DmxPacketView, s: u8) -> Seq<u8> {
    frame_bytes(DmxPacketView { sequence: s, ..packet })
}

/// What a session holds: where its frames go and the number the next carries.
pub ghost struct SessionView {
    pub node_host: Seq<char>,
    pub sequence: u8,
}

/// The state of a controller that sends to one node: the destination, as
/// `host:port`, and the sequence counter.
pub struct ArtNetSession {
    node_host: String,
    sequence: u8,
}

impl View for ArtNetSession {
    type V = SessionView;

    closed spec fn view(&self) -> SessionView {
        SessionView { node_host: self.node_host@, sequence: self.sequence }
    }
}

impl ArtNetSession {
    /// A session towards `node_host` whose first frame carries sequence 0.
    pub fn new(node_host: String) -> (r: Self)
        ensures
            r@.node_host == node_host@,
            r@.sequence == 0,
    {
        ArtNetSession { node_host, sequence: 0 }
    }

    /// The destination, as `host:port`.
    pub fn node_host(&self) -> (r: &String)
        ensures
            r@ == self@.node_host,
    {
        &self.node_host
    }

    /// The sequence number that the next frame will carry.
    pub fn sequence(&self) -> (r: u8)
        ensures
            r == self@.sequence,
    {
        self.sequence
    }

    /// Stamps `packet` with the current counter, advances the counter with
    /// 8-bit wraparound and returns the serialised frame to send.
    pub fn prepare_dmx(&mut self, packet: ArtNetDmxPacket) -> (bytes: Vec<u8>)
        ensures
            bytes@ == stamped_frame(packet@, old(self)@.sequence),
            final(self)@.sequence == next_sequence(old(self)@.sequence),
            final(self)@.node_host == old(self)@.node_host,
    {
        let mut packet = packet;
        packet.set_sequence(self.sequence);
        self.sequence = self.sequence.wrapping_add(1);
        packet.to_bytes()
    }
}

/// Counting frames wraps modulo 256: after `n` frames the counter of a
/// session that started at `s` reads `(s + n) mod 256`. So 256 frames
/// bring it back to where it started, and from counter 0 the 256th frame
/// carries 255 and the 257th carries 0 again.
pub proof fn lemma_sequence_wraps(s: u8, n: nat)
    ensures
        sequence_after(s, n) == (s as int + n) % 256,
        sequence_after(s, 256) == s,
        sequence_after(0, 255) == 255,
        sequence_after(0, 256) == 0,
{
    lemma_sequence_at(s, n);
    lemma_sequence_at(s, 256);
    lemma_sequence_at(0, 255);
    lemma_sequence_at(0, 256);
}

/// The counter after `n` frames, in closed form.
proof fn lemma_sequence_at(s: u8, n: nat)
    ensures
        sequence_after(s, n) == (s as int + n) % 256,
    decreases n,
{
    if n > 0 {
        lemma_sequence_at(s, (n - 1) as nat);
        let prev = sequence_after(s, (n - 1) as nat);
        assert(((prev as int + 1) % 256) == ((s as int + n) % 256)) by (nonlinear_arith)
            requires
                prev as int == (s as int + (n - 1)) % 256,
        ;
    }
}

} // verus!
