//! The boundary to the RaptorQ codec (the `raptorq` crate).
//!
//! RFC 6330 encoding is fully deterministic: the serialized transmission
//! parameters, the source packets and the repair packets of a block are
//! functions of the source bytes and the requested symbol size alone. The
//! spec functions without bodies below name those results; the trusted
//! wrappers state which call returns which name, plus the packet-shape facts
//! the crate's own proofs lean on (lengths, the block number byte, counts).
//!
//! Every wrapper keeps to the parameter range `single_block_fit`, under which
//! the codec partitions the data into exactly one source block, the symbol
//! size it picks equals the requested size, and none of its internal
//! assertions can fire.

use crate::wire::{be16_value, be40_value};
use vstd::arithmetic::div_mod::{
    lemma_div_multiples_vanish, lemma_div_pos_is_pos, lemma_fundamental_div_mod,
};
use vstd::arithmetic::mul::lemma_mul_inequality;
use vstd::prelude::*;

verus! {

/// The number of source symbols a block may hold at most (K'_max, RFC 6330
/// section 5.1.2).
pub const MAX_BLOCK_SYMBOLS: u64 = 56403;

/// Encoding parameters this harness works with: at least one data byte, a
/// symbol size the codec will not round down (below 64 or a multiple of 8),
/// and few enough symbols that the codec forms a single source block. The
/// symbol-size condition is stricter than the codec's own, which silently
/// rounds other sizes down to a multiple of its alignment: admitting only
/// sizes the codec keeps is what lets the parameter-byte contract state the
/// symbol size exactly. Every reference case satisfies it.
pub open spec fn single_block_fit(len: nat, mtu: u16) -> bool {
    &&& 1 <= len
    &&& 1 <= mtu
    &&& (mtu < 64 || mtu % 8 == 0)
    &&& len <= MAX_BLOCK_SYMBOLS * mtu
}

/// Whether encoding parameters are accepted, decided at run time, so
/// unverified callers can check before handing data to the codec.
pub fn encoding_fits(len: usize, mtu: u16) -> (r: bool)
    ensures
        r == single_block_fit(len as nat, mtu),
{
    1 <= len && 1 <= mtu && (mtu < 64 || mtu % 8 == 0) && len as u64 <= MAX_BLOCK_SYMBOLS
        * mtu as u64
}

/// The 12 serialized transmission-parameter bytes the codec derives from a
/// source length and a symbol size.
pub uninterp spec fn oti_bytes_of(len: nat, mtu: u16) -> Seq<u8>;

/// How many source symbols the single block holds: the data length in
/// symbols, rounded up.
pub open spec fn symbols_of(len: nat, mtu: u16) -> int
    recommends
        1 <= mtu,
{
    (len + mtu - 1) / (mtu as int)
}

/// Symbol sizes at which the codec always lays its symbols out as plain
/// consecutive chunks: up to 184 bytes, the codec's 10 MiB decoder-memory
/// default admits the largest block size for a single sub-block, so the
/// sub-block count is one whatever the data length. Above that, long enough
/// data makes the codec interleave two or more sub-blocks within each
/// symbol.
pub open spec fn plain_chunk_layout(mtu: u16) -> bool {
    mtu <= 184
}

/// The wire form of source packet `i` of the single block under
/// `plain_chunk_layout`: the payload id (block number zero, then the symbol
/// id big-endian) followed by the `i`-th symbol of the zero-padded source
/// data.
pub open spec fn source_packet_bytes(data: Seq<u8>, mtu: u16, i: int) -> Seq<u8> {
    seq![
        0u8,
        ((i / 0x10000) % 256) as u8,
        ((i / 0x100) % 256) as u8,
        (i % 256) as u8,
    ] + Seq::new(
        mtu as nat,
        |j: int|
            if i * mtu + j < data.len() {
                data[i * mtu + j]
            } else {
                0u8
            },
    )
}

/// The serialized source packets of the single source block, in ascending
/// encoding-symbol order.
pub uninterp spec fn source_packets_of(data: Seq<u8>, mtu: u16) -> Seq<Seq<u8>>;

/// The serialized repair packets `count` packets from repair index `start`
/// on, in ascending encoding-symbol order.
pub uninterp spec fn repair_packets_of(data: Seq<u8>, mtu: u16, start: u32, count: u32) -> Seq<
    Seq<u8>,
>;

/// What the codec's decoder reports after being handed, in order, the given
/// serialized packets for the transmission the parameter bytes describe:
/// the reconstructed bytes once the packets seen suffice, nothing before
/// that. The report is deterministic — a function of the parameters and the
/// packet sequence alone: the decoder keeps packets in arrival order, and no
/// hash order or other ambient state reaches its result.
pub uninterp spec fn decode_result_of(oti: Seq<u8>, fed: Seq<Seq<u8>>) -> Option<Seq<u8>>;

/// Well-formed transmission-parameter bytes: every field the decoder divides
/// by is nonzero, and the symbols per block — `ceil(ceil(F/T)/Z)` — stay
/// under the cap the codec asserts on every decode.
pub open spec fn oti_wf(oti: Seq<u8>) -> bool {
    let f = be40_value(oti.subrange(0, 5));
    let t = be16_value(oti[6], oti[7]);
    let z = oti[8] as int;
    &&& oti.len() == 12
    &&& 1 <= t
    &&& 1 <= oti[8]
    &&& 1 <= be16_value(oti[9], oti[10])
    &&& 1 <= oti[11]
    &&& ((f + t - 1) / t + z - 1) / z <= MAX_BLOCK_SYMBOLS
}

/// The parameter bytes the encoder serializes are well formed: under
/// `single_block_fit` the single block holds at most `MAX_BLOCK_SYMBOLS`
/// symbols, which is what `oti_wf`'s cap asks.
pub proof fn lemma_single_block_oti_wf(oti: Seq<u8>, len: nat, mtu: u16)
    requires
        single_block_fit(len, mtu),
        oti.len() == 12,
        be40_value(oti.subrange(0, 5)) == len,
        be16_value(oti[6], oti[7]) == mtu,
        oti[8] == 1,
        1 <= be16_value(oti[9], oti[10]),
        1 <= oti[11],
    ensures
        oti_wf(oti),
{
    let f = len as int;
    let t = mtu as int;
    let q = (f + t - 1) / t;
    lemma_fundamental_div_mod(f + t - 1, t);
    assert(q <= MAX_BLOCK_SYMBOLS) by {
        if q > MAX_BLOCK_SYMBOLS {
            lemma_mul_inequality(MAX_BLOCK_SYMBOLS as int + 1, q, t);
            assert(f >= MAX_BLOCK_SYMBOLS * t + 1);
        }
    }
    assert(q >= 0) by {
        lemma_div_pos_is_pos(f + t - 1, t);
    }
    lemma_div_multiples_vanish(q, 1);
}

#[verifier::external_type_specification]
#[verifier::external_body]
pub struct ExEncoder(raptorq::Encoder);

#[verifier::external_type_specification]
#[verifier::external_body]
pub struct ExDecoder(raptorq::Decoder);

/// A single-block RaptorQ encoder, remembering (in ghost state) the source
/// bytes and symbol size it was built from, so that its packets can be
/// spoken of as functions of those parameters.
pub struct RqEncoder {
    inner: raptorq::Encoder,
    params: Ghost<(Seq<u8>, u16)>,
}

/// Relies on `raptorq::Encoder::with_defaults`: a deterministic RFC 6330
/// encode of `data` at symbol size `mtu`, which partitions into exactly one
/// source block under `single_block_fit`.
#[verifier::external_body]
fn encoder_raw(data: &Vec<u8>, mtu: u16) -> raptorq::Encoder
    requires
        single_block_fit(data@.len(), mtu),
{
    raptorq::Encoder::with_defaults(data.as_slice(), mtu)
}

impl RqEncoder {
    /// The source bytes this encoder was built from.
    pub closed spec fn data(self) -> Seq<u8> {
        self.params@.0
    }

    /// The symbol size this encoder was built from.
    pub closed spec fn mtu(self) -> u16 {
        self.params@.1
    }

    pub open spec fn wf(self) -> bool {
        single_block_fit(self.data().len(), self.mtu())
    }

    /// Builds the encoder and records, in ghost state, the parameters the
    /// codec was handed, so the packet wrappers can speak of them.
    pub fn new(data: &Vec<u8>, mtu: u16) -> (r: RqEncoder)
        requires
            single_block_fit(data@.len(), mtu),
        ensures
            r.data() == data@,
            r.mtu() == mtu,
    {
        RqEncoder { inner: encoder_raw(data, mtu), params: Ghost((data@, mtu)) }
    }

    /// Relies on `Encoder::get_config` and
    /// `ObjectTransmissionInformation::serialize`: 12 bytes holding, big
    /// endian, the 40-bit transfer length, a reserved zero byte, the symbol
    /// size, the source-block count (one, under `single_block_fit`), the
    /// sub-block count and the symbol alignment (both at least one).
    #[verifier::external_body]
    pub fn oti(&self) -> (r: Vec<u8>)
        requires
            self.wf(),
        ensures
            r@ == oti_bytes_of(self.data().len(), self.mtu()),
            r@.len() == 12,
            be40_value(r@.subrange(0, 5)) == self.data().len(),
            r@[5] == 0,
            be16_value(r@[6], r@[7]) == self.mtu(),
            r@[8] == 1,
            1 <= be16_value(r@[9], r@[10]),
            1 <= r@[11],
    {
        self.inner.get_config().serialize().to_vec()
    }

    /// Relies on `SourceBlockEncoder::source_packets` and
    /// `EncodingPacket::serialize`: one packet per source symbol of the
    /// single block, each its 4-byte payload id followed by one symbol, in
    /// ascending symbol order. Under `plain_chunk_layout` the codec forms
    /// one sub-block, so the symbols are the consecutive symbol-size chunks
    /// of the zero-padded data; at larger symbol sizes it may interleave
    /// sub-blocks, and only the name `source_packets_of` speaks for the
    /// content.
    #[verifier::external_body]
    pub fn source_packets(&self) -> (r: Vec<Vec<u8>>)
        requires
            self.wf(),
        ensures
            r@.map_values(|p: Vec<u8>| p@) == source_packets_of(self.data(), self.mtu()),
            r@.len() == symbols_of(self.data().len(), self.mtu()),
            1 <= r@.len() <= MAX_BLOCK_SYMBOLS,
            plain_chunk_layout(self.mtu()) ==> forall|i: int|
                0 <= i < r@.len() ==> (#[trigger] r@[i])@ == source_packet_bytes(
                    self.data(),
                    self.mtu(),
                    i,
                ),
            forall|i: int|
                0 <= i < r@.len() ==> (#[trigger] r@[i])@.len() == 4 + self.mtu() && r@[i]@[0]
                    == 0,
    {
        let block = &self.inner.get_block_encoders()[0];
        block.source_packets().iter().map(|p| p.serialize()).collect()
    }

    /// Relies on `SourceBlockEncoder::repair_packets` and
    /// `EncodingPacket::serialize`: exactly `count` packets from repair
    /// index `start` on, in ascending symbol order, each 4 header bytes
    /// (block number zero first) plus one symbol of payload.
    #[verifier::external_body]
    pub fn repair_packets(&self, start: u32, count: u32) -> (r: Vec<Vec<u8>>)
        requires
            self.wf(),
            start + count + MAX_BLOCK_SYMBOLS + 1 <= 0x1000000,
        ensures
            r@.map_values(|p: Vec<u8>| p@) == repair_packets_of(
                self.data(),
                self.mtu(),
                start,
                count,
            ),
            r@.len() == count,
            forall|i: int|
                0 <= i < r@.len() ==> (#[trigger] r@[i])@.len() == 4 + self.mtu() && r@[i]@[0]
                    == 0,
    {
        let block = &self.inner.get_block_encoders()[0];
        block.repair_packets(start, count).iter().map(|p| p.serialize()).collect()
    }
}

/// A RaptorQ decoder for one transmission, remembering (in ghost state) the
/// parameter bytes it was built from and every packet fed to it, so that
/// what it reports can be spoken of as `decode_result_of` those two.
pub struct RqDecoder {
    inner: raptorq::Decoder,
    symbol_size: u16,
    blocks: u8,
    oti: Ghost<Seq<u8>>,
    fed: Ghost<Seq<Seq<u8>>>,
}

/// Relies on `ObjectTransmissionInformation::deserialize` and
/// `Decoder::new`: a fresh decoder for the transmission the 12 parameter
/// bytes describe. Under `oti_wf` no field the decoder divides by is zero
/// and no block exceeds the symbol cap it asserts, so neither construction
/// nor decoding can hit the codec's assertions.
#[verifier::external_body]
fn decoder_raw(oti: &Vec<u8>) -> raptorq::Decoder
    requires
        oti_wf(oti@),
{
    let mut bytes = [0u8; 12];
    bytes.copy_from_slice(oti.as_slice());
    raptorq::Decoder::new(raptorq::ObjectTransmissionInformation::deserialize(&bytes))
}

impl RqDecoder {
    /// The symbol size, from bytes 6..8 of the transmission parameters.
    pub closed spec fn spec_symbol_size(self) -> u16 {
        self.symbol_size
    }

    /// The source-block count, from byte 8 of the transmission parameters.
    pub closed spec fn spec_blocks(self) -> u8 {
        self.blocks
    }

    /// The transmission-parameter bytes this decoder was built from.
    pub closed spec fn spec_oti(self) -> Seq<u8> {
        self.oti@
    }

    /// Every packet fed to this decoder so far, in order.
    pub closed spec fn spec_fed(self) -> Seq<Seq<u8>> {
        self.fed@
    }

    /// Builds the decoder and records, in ghost state, the parameter bytes
    /// the codec was handed and the (empty) packet history.
    pub fn new(oti: &Vec<u8>) -> (r: RqDecoder)
        requires
            oti_wf(oti@),
        ensures
            r.spec_symbol_size() == be16_value(oti@[6], oti@[7]),
            r.spec_blocks() == oti@[8],
            r.spec_oti() == oti@,
            r.spec_fed() == Seq::<Seq<u8>>::empty(),
    {
        let symbol_size: u16 = (oti[6] as u16) * 256 + (oti[7] as u16);
        RqDecoder {
            inner: decoder_raw(oti),
            symbol_size,
            blocks: oti[8],
            oti: Ghost(oti@),
            fed: Ghost(Seq::empty()),
        }
    }

    /// Relies on `EncodingPacket::deserialize` and `Decoder::decode`: hands
    /// one serialized packet to the decoder, which reports the reconstructed
    /// data once the packets it has seen suffice and nothing before that —
    /// `decode_result_of` the parameter bytes and the full packet history.
    /// Whether and when a packet set suffices is the codec's affair.
    #[verifier::external_body]
    pub fn submit(&mut self, pkt: &Vec<u8>) -> (r: Option<Vec<u8>>)
        requires
            pkt@.len() == 4 + old(self).spec_symbol_size(),
            pkt@[0] < old(self).spec_blocks(),
        ensures
            final(self).spec_symbol_size() == old(self).spec_symbol_size(),
            final(self).spec_blocks() == old(self).spec_blocks(),
            final(self).spec_oti() == old(self).spec_oti(),
            final(self).spec_fed() == old(self).spec_fed().push(pkt@),
            decode_result_of(old(self).spec_oti(), old(self).spec_fed().push(pkt@)) == (match r {
                Some(v) => Some(v@),
                None => None::<Seq<u8>>,
            }),
    {
        self.inner.decode(raptorq::EncodingPacket::deserialize(pkt.as_slice()))
    }
}

} // verus!
