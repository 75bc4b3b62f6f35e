//! The secure packet transport: frame reassembly, optional authenticated
//! encryption, and translation to and from the message codec.
//!
//! A [`NetManager`] owns one connection's state: an accumulating byte buffer,
//! the cached length prefix of the frame being assembled, the encryption
//! mode, the two direction keys, and one monotonic frame counter per
//! direction. Frames are length-prefixed with two big-endian bytes; in
//! encrypted mode a frame body is the AES-256-GCM sealing of the encoded
//! message, authenticated together with the length prefix, under a nonce
//! derived from the direction's frame counter.

use vstd::prelude::*;
use crate::codec::{Message, RawMessage};
use crate::wire::{be16, be64, u16_of_be, encode_u16_be, decode_u16_be, append_bytes, take_front,
    drop_front};

verus! {

/// Largest body length a frame may declare.
pub const MAX_PACKET_LEN: u16 = 1024;

#[derive(Clone, Copy, Debug, PartialEq, Eq, Structural, Hash)]
pub enum Error {
    BadEncryption,
    InvalidPacketLength,
    InvalidPacket,
}

/// The abstract state of a channel.
#[verifier::ext_equal]
pub ghost struct ChannelView {
    /// Bytes received and not yet consumed into a frame.
    pub incoming: Seq<u8>,
    /// The declared body length of the frame being assembled, once its
    /// two-byte prefix has been consumed from `incoming`.
    pub pending: Option<u16>,
    /// Whether the authenticated-encryption mode is on.
    pub encrypted: bool,
    /// Key for opening received frames.
    pub receive_key: Seq<u8>,
    /// Key for sealing sent frames.
    pub send_key: Seq<u8>,
    /// Frames successfully received so far in encrypted mode.
    pub receive_counter: u64,
    /// Frames sent so far in encrypted mode.
    pub send_counter: u64,
}

impl ChannelView {
    /// Whether a length prefix is at hand, cached or buffered.
    pub open spec fn prefix_ready(self) -> bool {
        self.pending is Some || self.incoming.len() >= 2
    }

    /// The declared body length of the frame being assembled.
    pub open spec fn declared_len(self) -> u16 {
        match self.pending {
            Some(l) => l,
            None => u16_of_be(self.incoming[0], self.incoming[1]),
        }
    }

    /// The buffered bytes past the length prefix.
    pub open spec fn body_buf(self) -> Seq<u8> {
        match self.pending {
            Some(_) => self.incoming,
            None => self.incoming.skip(2),
        }
    }

    /// Whether the frame being assembled declares an oversized body.
    pub open spec fn oversized(self) -> bool {
        self.prefix_ready() && self.declared_len() > MAX_PACKET_LEN
    }

    /// Whether one complete, acceptable frame is buffered.
    pub open spec fn frame_ready(self) -> bool {
        &&& self.prefix_ready()
        &&& self.declared_len() <= MAX_PACKET_LEN
        &&& self.body_buf().len() >= self.declared_len()
    }

    /// The body of the completed frame.
    pub open spec fn frame_body(self) -> Seq<u8> {
        self.body_buf().take(self.declared_len() as int)
    }
}

/// The channel after new bytes arrive: pure accumulation.
pub open spec fn feed_model(v: ChannelView, bytes: Seq<u8>) -> ChannelView {
    ChannelView { incoming: v.incoming + bytes, ..v }
}

/// The channel after one extraction attempt: the length prefix, once
/// present, is consumed from the buffer and cached; a completed frame's
/// bytes are removed and the cache cleared.
pub open spec fn take_post(v: ChannelView) -> ChannelView {
    if !v.prefix_ready() {
        v
    } else if v.declared_len() > MAX_PACKET_LEN || v.body_buf().len() < v.declared_len() {
        ChannelView { incoming: v.body_buf(), pending: Some(v.declared_len()), ..v }
    } else {
        ChannelView {
            incoming: v.body_buf().skip(v.declared_len() as int),
            pending: None,
            ..v
        }
    }
}

/// The 96-bit nonce for a frame counter: the counter big-endian in the first
/// eight bytes, the last four zero. Uniqueness rests entirely on counter
/// monotonicity.
pub open spec fn nonce_bytes(ctr: u64) -> Seq<u8> {
    be64(ctr) + seq![0u8, 0u8, 0u8, 0u8]
}

/// The sealed form (ciphertext and tag) that AES-256-GCM gives a plaintext
/// under a key, nonce and associated data.
pub uninterp spec fn sealed_of(key: Seq<u8>, nonce: Seq<u8>, aad: Seq<u8>, plain: Seq<u8>) -> Seq<
    u8,
>;

/// How a decode outcome is classified: a frame body the codec can decode
/// yields its message; any other body yields `InvalidPacket`.
pub open spec fn decode_outcome<M: Message>(payload: Seq<u8>, r: Result<Option<M>, Error>) -> bool {
    match r {
        Ok(Some(m)) => M::decodes_to(payload, m) && m.valid(),
        Ok(None) => false,
        Err(e) => e == Error::InvalidPacket && !M::decodable(payload),
    }
}

/// Relies on ring's AES-256-GCM `seal_in_place_append_tag`: the sealed output
/// is a function of key, nonce, associated data and plaintext alone, and is
/// the plaintext followed by a 16-byte authentication tag's worth of bytes.
#[verifier::external_body]
fn aead_seal(key: &[u8; 32], nonce: &Vec<u8>, aad: &Vec<u8>, body: Vec<u8>) -> (r: Vec<u8>)
    requires
        nonce@.len() == 12,
        body@.len() <= 65519,
    ensures
        r@ == sealed_of(key@, nonce@, aad@, body@),
        r@.len() == body@.len() + 16,
{
    let k = ring::aead::LessSafeKey::new(
        ring::aead::UnboundKey::new(&ring::aead::AES_256_GCM, key).unwrap(),
    );
    let n = ring::aead::Nonce::try_assume_unique_for_key(nonce.as_slice()).unwrap();
    let mut buf = body;
    k.seal_in_place_append_tag(n, ring::aead::Aad::from(aad), &mut buf).unwrap();
    buf
}

/// Relies on ring's AES-256-GCM `open_in_place`: it recovers the plaintext of
/// exactly the bodies sealed with the same key, nonce and associated data,
/// and rejects every other input.
#[verifier::external_body]
fn aead_open(key: &[u8; 32], nonce: &Vec<u8>, aad: &Vec<u8>, body: Vec<u8>) -> (r: Option<
    Vec<u8>,
>)
    requires
        nonce@.len() == 12,
    ensures
        match r {
            Some(pp) => body@ == sealed_of(key@, nonce@, aad@, pp@) && pp@.len() + 16
                == body@.len() && (forall|p: Seq<u8>|
                body@ == sealed_of(key@, nonce@, aad@, p) ==> p == pp@),
            None => forall|p: Seq<u8>| body@ != sealed_of(key@, nonce@, aad@, p),
        },
{
    let k = ring::aead::LessSafeKey::new(
        ring::aead::UnboundKey::new(&ring::aead::AES_256_GCM, key).unwrap(),
    );
    let n = ring::aead::Nonce::try_assume_unique_for_key(nonce.as_slice()).unwrap();
    let mut buf = body;
    match k.open_in_place(n, ring::aead::Aad::from(aad), buf.as_mut_slice()) {
        Ok(plain) => Some(plain.to_vec()),
        Err(_) => None,
    }
}

fn make_nonce(ctr: u64) -> (r: Vec<u8>)
    ensures
        r@ == nonce_bytes(ctr),
        r@.len() == 12,
{
    let mut r: Vec<u8> = Vec::new();
    r.push((ctr >> 56) as u8);
    r.push((ctr >> 48) as u8);
    r.push((ctr >> 40) as u8);
    r.push((ctr >> 32) as u8);
    r.push((ctr >> 24) as u8);
    r.push((ctr >> 16) as u8);
    r.push((ctr >> 8) as u8);
    r.push(ctr as u8);
    r.push(0);
    r.push(0);
    r.push(0);
    r.push(0);
    proof {
        assert(r@ =~= nonce_bytes(ctr));
    }
    r
}

/// One connection's transport state.
pub struct NetManager {
    incoming: Vec<u8>,
    next_packet_len: Option<u16>,
    encryption_enabled: bool,
    receive_key: [u8; 32],
    send_key: [u8; 32],
    /// These fields are used as nonces.
    packet_receive_counter: u64,
    packet_send_counter: u64,
}

impl View for NetManager {
    type V = ChannelView;

    closed spec fn view(&self) -> ChannelView {
        ChannelView {
            incoming: self.incoming@,
            pending: self.next_packet_len,
            encrypted: self.encryption_enabled,
            receive_key: self.receive_key@,
            send_key: self.send_key@,
            receive_counter: self.packet_receive_counter,
            send_counter: self.packet_send_counter,
        }
    }
}

impl NetManager {
    /// A channel at connection start: plaintext mode, empty buffer, both
    /// counters at zero.
    pub fn new() -> (r: NetManager)
        ensures
            r@.incoming == Seq::<u8>::empty(),
            r@.pending is None,
            !r@.encrypted,
            r@.receive_counter == 0,
            r@.send_counter == 0,
    {
        NetManager {
            incoming: Vec::new(),
            next_packet_len: None,
            encryption_enabled: false,
            receive_key: [0u8; 32],
            send_key: [0u8; 32],
            packet_receive_counter: 0,
            packet_send_counter: 0,
        }
    }

    /// Appends newly arrived bytes to the incoming buffer. Pure
    /// accumulation, nothing else changes.
    pub fn feed(&mut self, bytes: &Vec<u8>)
        ensures
            final(self)@ == feed_model(old(self)@, bytes@),
    {
        append_bytes(&mut self.incoming, bytes);
        proof {
            assert(self@ =~= feed_model(old(self)@, bytes@));
        }
    }

    /// Installs the two direction keys and turns encryption on, exactly once
    /// per channel lifetime. The buffer, the cached prefix and both counters
    /// are kept.
    pub fn enable_encryption(&mut self, rx: [u8; 32], tx: [u8; 32])
        requires
            !old(self)@.encrypted,
        ensures
            final(self)@ == (ChannelView {
                encrypted: true,
                receive_key: rx@,
                send_key: tx@,
                ..old(self)@
            }),
    {
        self.encryption_enabled = true;
        self.receive_key = rx;
        self.send_key = tx;
        proof {
            assert(self@ =~= (ChannelView {
                encrypted: true,
                receive_key: rx@,
                send_key: tx@,
                ..old(self)@
            }));
        }
    }

    /// The bytes received and not yet consumed into a frame.
    pub fn data(&self) -> (r: &Vec<u8>)
        ensures
            r@ == self@.incoming,
    {
        &self.incoming
    }

    pub fn is_encryption_enabled(&self) -> (r: bool)
        ensures
            r == self@.encrypted,
    {
        self.encryption_enabled
    }

    /// Frames sent so far in encrypted mode.
    pub fn send_counter(&self) -> (r: u64)
        ensures
            r == self@.send_counter,
    {
        self.packet_send_counter
    }

    /// Frames successfully received so far in encrypted mode.
    pub fn receive_counter(&self) -> (r: u64)
        ensures
            r == self@.receive_counter,
    {
        self.packet_receive_counter
    }

    /// Attempts to extract one complete frame body from the buffer.
    ///
    /// With fewer than two buffered bytes and no cached prefix, or with a
    /// complete prefix but an incomplete body, returns `Ok(None)`: not an
    /// error, the caller feeds more bytes and retries. A declared length
    /// over the maximum is rejected at once, whether or not that many bytes
    /// ever arrive. Otherwise exactly the prefix and the declared body leave
    /// the buffer and the body is returned.
    pub fn try_take_frame(&mut self) -> (r: Result<Option<Vec<u8>>, Error>)
        ensures
            final(self)@ == take_post(old(self)@),
            r is Err <==> old(self)@.oversized(),
            r is Err ==> r == Err::<Option<Vec<u8>>, Error>(Error::InvalidPacketLength),
            (r matches Ok(Some(b))) <==> old(self)@.frame_ready(),
            r matches Ok(Some(b)) ==> b@ == old(self)@.frame_body(),
    {
        let l: u16;
        match self.next_packet_len {
            None => {
                if self.incoming.len() < 2 {
                    proof {
                        assert(self@ =~= take_post(old(self)@));
                    }
                    return Ok(None);
                }
                let b0 = self.incoming[0];
                let b1 = self.incoming[1];
                l = decode_u16_be(b0, b1);
                self.incoming = drop_front(&self.incoming, 2);
                self.next_packet_len = Some(l);
            },
            Some(cached) => {
                l = cached;
            },
        }
        if l > MAX_PACKET_LEN {
            proof {
                assert(self@ =~= take_post(old(self)@));
            }
            return Err(Error::InvalidPacketLength);
        }
        if self.incoming.len() < l as usize {
            proof {
                assert(self@ =~= take_post(old(self)@));
            }
            return Ok(None);
        }
        let body = take_front(&self.incoming, l as usize);
        self.incoming = drop_front(&self.incoming, l as usize);
        self.next_packet_len = None;
        proof {
            assert(self@ =~= take_post(old(self)@));
        }
        Ok(Some(body))
    }

    /// Processes buffered bytes into at most one decoded message.
    ///
    /// Extracts one complete frame if present; in encrypted mode
    /// authenticates and decrypts it under the receive key, the nonce of the
    /// receive counter, and the length prefix as associated data, counting
    /// the frame only on success; then hands the payload to the codec.
    /// `Ok(None)` means no complete frame is buffered yet.
    pub fn process_data<M: Message>(&mut self) -> (r: Result<Option<M>, Error>)
        requires
            old(self)@.encrypted ==> old(self)@.receive_counter < u64::MAX,
        ensures
            final(self)@.encrypted == old(self)@.encrypted,
            final(self)@.receive_key == old(self)@.receive_key,
            final(self)@.send_key == old(self)@.send_key,
            final(self)@.send_counter == old(self)@.send_counter,
            final(self)@.incoming == take_post(old(self)@).incoming,
            final(self)@.pending == take_post(old(self)@).pending,
            !old(self)@.oversized() && !old(self)@.frame_ready() ==> r == Ok::<Option<M>, Error>(
                None,
            ) && final(self)@.receive_counter == old(self)@.receive_counter,
            old(self)@.oversized() ==> r == Err::<Option<M>, Error>(Error::InvalidPacketLength)
                && final(self)@.receive_counter == old(self)@.receive_counter,
            old(self)@.frame_ready() && !old(self)@.encrypted ==> decode_outcome::<M>(
                old(self)@.frame_body(),
                r,
            ) && final(self)@.receive_counter == old(self)@.receive_counter,
            old(self)@.frame_ready() && old(self)@.encrypted ==> ({
                let body = old(self)@.frame_body();
                let key = old(self)@.receive_key;
                let nonce = nonce_bytes(old(self)@.receive_counter);
                let aad = be16(old(self)@.declared_len());
                &&& ((r == Err::<Option<M>, Error>(Error::BadEncryption)) <==> !(exists|p: Seq<u8>|
                    body == sealed_of(key, nonce, aad, p)))
                &&& (r == Err::<Option<M>, Error>(Error::BadEncryption)
                    ==> final(self)@.receive_counter == old(self)@.receive_counter)
                &&& (forall|p: Seq<u8>|
                    body == sealed_of(key, nonce, aad, p) ==> decode_outcome::<M>(p, r)
                        && final(self)@.receive_counter == old(self)@.receive_counter + 1)
            }),
    {
        let frame = match self.try_take_frame() {
            Err(e) => {
                return Err(e);
            },
            Ok(None) => {
                return Ok(None);
            },
            Ok(Some(frame)) => frame,
        };
        if !self.encryption_enabled {
            match M::decode(&frame) {
                Ok(m) => Ok(Some(m)),
                Err(_) => Err(Error::InvalidPacket),
            }
        } else {
            proof {
                assert(frame@.len() == old(self)@.declared_len() as int);
            }
            let aad = encode_u16_be(frame.len() as u16);
            let nonce = make_nonce(self.packet_receive_counter);
            match aead_open(&self.receive_key, &nonce, &aad, frame) {
                Some(plain) => {
                    self.packet_receive_counter = self.packet_receive_counter + 1;
                    match M::decode(&plain) {
                        Ok(m) => Ok(Some(m)),
                        Err(_) => Err(Error::InvalidPacket),
                    }
                },
                None => Err(Error::BadEncryption),
            }
        }
    }

    /// Encodes one message into a transmittable frame.
    ///
    /// In plaintext mode the wire bytes are the two-byte big-endian length
    /// of the encoding followed by the encoding. In encrypted mode the
    /// encoding is sealed under the send key, the nonce of the send counter,
    /// and the transmitted length prefix as associated data; the send
    /// counter always advances by exactly one.
    pub fn serialize_packet<M: Message>(&mut self, packet: M) -> (r: Vec<u8>)
        requires
            packet.valid(),
            !old(self)@.encrypted ==> packet.encoding().len() <= u16::MAX,
            old(self)@.encrypted ==> packet.encoding().len() + 16 <= u16::MAX,
            old(self)@.encrypted ==> old(self)@.send_counter < u64::MAX,
        ensures
            !old(self)@.encrypted ==> final(self)@ == old(self)@ && r@ == be16(
                packet.encoding().len() as u16,
            ) + packet.encoding(),
            old(self)@.encrypted ==> ({
                let wire_len = (packet.encoding().len() + 16) as u16;
                &&& r@ == be16(wire_len) + sealed_of(
                    old(self)@.send_key,
                    nonce_bytes(old(self)@.send_counter),
                    be16(wire_len),
                    packet.encoding(),
                )
                &&& r@.len() == 2 + packet.encoding().len() + 16
                &&& final(self)@ == (ChannelView {
                    send_counter: (old(self)@.send_counter + 1) as u64,
                    ..old(self)@
                })
            }),
    {
        let body = packet.encode();
        if !self.encryption_enabled {
            let mut r = encode_u16_be(body.len() as u16);
            append_bytes(&mut r, &body);
            r
        } else {
            let wire_len: u16 = (body.len() + 16) as u16;
            let aad = encode_u16_be(wire_len);
            let nonce = make_nonce(self.packet_send_counter);
            let sealed = aead_seal(&self.send_key, &nonce, &aad, body);
            self.packet_send_counter = self.packet_send_counter + 1;
            let mut r = encode_u16_be(wire_len);
            append_bytes(&mut r, &sealed);
            proof {
                assert(self@ =~= (ChannelView {
                    send_counter: (old(self)@.send_counter + 1) as u64,
                    ..old(self)@
                }));
            }
            r
        }
    }
}

/// Feeding bytes in two pieces leaves the channel exactly as feeding them
/// whole.
pub proof fn lemma_feed_split(v: ChannelView, a: Seq<u8>, b: Seq<u8>)
    ensures
        feed_model(feed_model(v, a), b) == feed_model(v, a + b),
{
    assert(feed_model(feed_model(v, a), b) =~= feed_model(v, a + b));
}

/// The channel state after feeding every chunk, in order.
pub open spec fn feed_all_model(v: ChannelView, chunks: Seq<Seq<u8>>) -> ChannelView
    decreases chunks.len(),
{
    if chunks.len() == 0 {
        v
    } else {
        feed_all_model(feed_model(v, chunks.first()), chunks.drop_first())
    }
}

/// Fragmentation invariance: feeding a byte sequence in any split into
/// chunks, down to one byte at a time, leaves the channel exactly as feeding
/// it whole — so the frames it completes are the same.
pub proof fn lemma_fragmentation_invariance(v: ChannelView, chunks: Seq<Seq<u8>>)
    ensures
        feed_all_model(v, chunks) == feed_model(v, chunks.flatten()),
    decreases chunks.len(),
{
    if chunks.len() == 0 {
        assert(feed_model(v, chunks.flatten()) =~= v);
    } else {
        lemma_fragmentation_invariance(feed_model(v, chunks.first()), chunks.drop_first());
        lemma_feed_split(v, chunks.first(), chunks.drop_first().flatten());
    }
}

/// Nonce uniqueness rests on counter monotonicity alone: distinct frame
/// counters give distinct nonces.
pub proof fn lemma_nonce_injective(a: u64, b: u64)
    requires
        nonce_bytes(a) == nonce_bytes(b),
    ensures
        a == b,
{
    assert(be64(a) =~= nonce_bytes(a).take(8));
    assert(be64(b) =~= nonce_bytes(b).take(8));
    crate::wire::lemma_be64_injective(a, b);
}

/// Framing does not depend on the encryption mode: installing keys leaves
/// the reassembler's state and its decisions unchanged, so frames assembled
/// before the transition are exactly the frames assembled after it.
pub proof fn lemma_mode_transition_framing(v: ChannelView, rk: Seq<u8>, sk: Seq<u8>)
    ensures
        ({
            let w = ChannelView { encrypted: true, receive_key: rk, send_key: sk, ..v };
            &&& w.prefix_ready() == v.prefix_ready()
            &&& w.oversized() == v.oversized()
            &&& w.frame_ready() == v.frame_ready()
            &&& w.frame_body() == v.frame_body()
            &&& take_post(w) == (ChannelView {
                encrypted: true,
                receive_key: rk,
                send_key: sk,
                ..take_post(v)
            })
        }),
{
    let w = ChannelView { encrypted: true, receive_key: rk, send_key: sk, ..v };
    assert(take_post(w) =~= (ChannelView {
        encrypted: true,
        receive_key: rk,
        send_key: sk,
        ..take_post(v)
    }));
}

/// Round trip, plaintext mode: the wire bytes the send path produces, fed to
/// a receiver with an empty buffer, form one complete frame whose body is
/// exactly the message encoding.
pub proof fn lemma_round_trip_plaintext(receiver: ChannelView, enc: Seq<u8>)
    requires
        receiver.incoming.len() == 0,
        receiver.pending is None,
        enc.len() <= MAX_PACKET_LEN,
    ensures
        ({
            let wire = be16(enc.len() as u16) + enc;
            let fed = feed_model(receiver, wire);
            &&& fed.frame_ready()
            &&& !fed.oversized()
            &&& fed.frame_body() == enc
        }),
{
    let wire = be16(enc.len() as u16) + enc;
    let fed = feed_model(receiver, wire);
    crate::wire::lemma_be16_roundtrip(enc.len() as u16);
    assert(fed.incoming =~= wire);
    assert(fed.incoming[0] == be16(enc.len() as u16)[0]);
    assert(fed.incoming[1] == be16(enc.len() as u16)[1]);
    assert(fed.declared_len() == enc.len() as u16);
    assert(fed.body_buf() =~= enc);
    assert(fed.frame_body() =~= enc);
}

/// Round trip, encrypted mode: the wire bytes the send path produces for a
/// message encoding, fed to a matching receiver — same key, same frame
/// counter, empty buffer — form one complete frame whose body is exactly a
/// sealing, under the receiver's own key, nonce and associated data, of that
/// encoding. The receive path therefore authenticates it, decrypts it back
/// to the encoding, and the codec's laws return the message itself.
pub proof fn lemma_round_trip_sealed(
    sender: ChannelView,
    receiver: ChannelView,
    enc: Seq<u8>,
    sealed: Seq<u8>,
)
    requires
        receiver.receive_key == sender.send_key,
        receiver.receive_counter == sender.send_counter,
        receiver.incoming.len() == 0,
        receiver.pending is None,
        enc.len() + 16 <= MAX_PACKET_LEN,
        sealed.len() == enc.len() + 16,
    ensures
        ({
            let wire_len = (enc.len() + 16) as u16;
            let wire = be16(wire_len) + sealed;
            let fed = feed_model(receiver, wire);
            sealed == sealed_of(sender.send_key, nonce_bytes(sender.send_counter), be16(wire_len),
                enc) ==> {
                &&& fed.frame_ready()
                &&& !fed.oversized()
                &&& fed.declared_len() == wire_len
                &&& fed.frame_body() == sealed_of(
                    fed.receive_key,
                    nonce_bytes(fed.receive_counter),
                    be16(fed.declared_len()),
                    enc,
                )
            }
        }),
{
    let wire_len = (enc.len() + 16) as u16;
    let wire = be16(wire_len) + sealed;
    let fed = feed_model(receiver, wire);
    crate::wire::lemma_be16_roundtrip(wire_len);
    assert(fed.incoming =~= wire);
    assert(fed.incoming[0] == be16(wire_len)[0]);
    assert(fed.incoming[1] == be16(wire_len)[1]);
    assert(fed.declared_len() == wire_len);
    assert(fed.body_buf() =~= sealed);
    assert(fed.frame_body() =~= sealed);
}

/// Round trip, executed, plaintext mode: one message serialized on a sender
/// channel and fed to a receiver comes back exactly. The body returns the
/// received payload; the contract proves it equals the one sent.
pub fn round_trip_plaintext(payload: Vec<u8>) -> (r: Vec<u8>)
    requires
        payload@.len() <= MAX_PACKET_LEN,
    ensures
        r@ == payload@,
{
    let mut sender = NetManager::new();
    let mut receiver = NetManager::new();
    let ghost enc = payload@;
    let wire = sender.serialize_packet(RawMessage { bytes: payload });
    proof {
        lemma_round_trip_plaintext(receiver@, enc);
    }
    receiver.feed(&wire);
    let ghost fed = receiver@;
    let got = receiver.process_data::<RawMessage>();
    proof {
        assert(fed.frame_ready() && !fed.encrypted);
        assert(fed.frame_body() == enc);
        assert(decode_outcome::<RawMessage>(enc, got));
    }
    match got {
        Ok(Some(m)) => m.bytes,
        _ => {
            proof {
                assert(false);
            }
            Vec::new()
        },
    }
}

/// Round trip, executed, encrypted mode: for every pair of direction keys
/// and every message that fits a frame, sealing it on one channel and
/// feeding the wire bytes to the matching peer — keys swapped, counters
/// aligned — hands back exactly the message, and advances each side's
/// counter to one.
pub fn round_trip_encrypted(rx: [u8; 32], tx: [u8; 32], payload: Vec<u8>) -> (r: Vec<u8>)
    requires
        payload@.len() + 16 <= MAX_PACKET_LEN,
    ensures
        r@ == payload@,
{
    let mut sender = NetManager::new();
    let mut receiver = NetManager::new();
    sender.enable_encryption(rx, tx);
    receiver.enable_encryption(tx, rx);

    let ghost enc = payload@;
    let ghost sender_pre = sender@;
    let wire = sender.serialize_packet(RawMessage { bytes: payload });
    proof {
        assert(sender@.send_counter == 1);
        lemma_round_trip_sealed(sender_pre, receiver@, enc, wire@.skip(2));
        assert(wire@.skip(2) =~= sealed_of(
            receiver@.receive_key,
            nonce_bytes(receiver@.receive_counter),
            be16((enc.len() + 16) as u16),
            enc,
        ));
        assert(be16((enc.len() + 16) as u16) + wire@.skip(2) =~= wire@);
    }
    receiver.feed(&wire);
    let ghost fed = receiver@;
    let got = receiver.process_data::<RawMessage>();
    proof {
        assert(fed.frame_ready() && fed.encrypted);
        assert(fed.frame_body() == sealed_of(
            fed.receive_key,
            nonce_bytes(fed.receive_counter),
            be16(fed.declared_len()),
            enc,
        ));
        assert(decode_outcome::<RawMessage>(enc, got));
        assert(receiver@.receive_counter == 1);
    }
    match got {
        Ok(Some(m)) => m.bytes,
        _ => {
            proof {
                assert(false);
            }
            Vec::new()
        },
    }
}

} // verus!
