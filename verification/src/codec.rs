//! The datagram codec: `build` writes the three-layer data packet of one
//! universe, `parse` reads it back.
//!
//! Every contract here is stated over `Seq<u8>`, the bytes of a datagram, and
//! over `PacketView`, the fields that a datagram carries. Both functions
//! share one layout: 38 bytes of root layer, 77 bytes of framing layer, 11
//! bytes of DMP header and 512 channels.

use vstd::prelude::*;
use vstd::slice::slice_subrange;
use vstd::string::{StrSliceExecFns, StringSliceAdditionalSpecFns};
use vstd::utf8::{
    decode_utf8, decode_utf8_split, encode_utf8, encode_utf8_decode_utf8, encode_utf8_valid_utf8,
    is_ascii_chars, is_ascii_chars_encode_utf8, is_char_boundary_iff_not_is_continuation_byte,
    is_continuation_byte, valid_utf8, valid_utf8_concat,
};

verus! {

/// Number of channel bytes that a packet carries.
pub const CHANNEL_COUNT: usize = 512;

/// Shortest datagram that `parse` looks into: the three layers without
/// their channels.
pub const MIN_PACKET_LEN: usize = 126;

/// Length of a whole packet.
pub const PACKET_LEN: usize = 638;

/// Where the 12-byte packet identifier stands.
pub const IDENTIFIER_OFFSET: usize = 4;

/// Length of the packet identifier.
pub const IDENTIFIER_LEN: usize = 12;

/// Where the 16-byte correlation identifier stands.
pub const CID_OFFSET: usize = 22;

/// Length of the correlation identifier.
pub const CID_LEN: usize = 16;

/// Where the NUL-padded source name stands.
pub const NAME_OFFSET: usize = 44;

/// Length of the source name field.
pub const NAME_FIELD_LEN: usize = 64;

/// Most bytes of a source name that `build` keeps: the name field always
/// ends in a NUL.
pub const MAX_NAME_LEN: usize = 63;

/// Where the priority byte stands.
pub const PRIORITY_OFFSET: usize = 108;

/// Where the sequence number stands.
pub const SEQUENCE_OFFSET: usize = 111;

/// Where the universe stands, high byte first.
pub const UNIVERSE_OFFSET: usize = 113;

/// Where the first channel byte stands.
pub const CHANNELS_OFFSET: usize = 126;

/// Why a datagram was not accepted.
#[derive(Clone, Copy, Debug, PartialEq, Eq, Structural)]
pub enum MalformedPacket {
    /// The datagram has fewer than `MIN_PACKET_LEN` bytes.
    TooShort,
    /// Bytes 4 to 15 are not the packet identifier.
    BadIdentifier,
    /// The datagram ends before the 512th channel byte.
    TruncatedPayload,
}

/// The fields of one data packet.
#[derive(Clone, Debug)]
pub struct Packet {
    pub universe: u16,
    pub sequence: u8,
    pub priority: u8,
    pub source_name: String,
    pub channels: [u8; 512],
}

/// The mathematical value of a `Packet`.
pub struct PacketView {
    pub universe: u16,
    pub sequence: u8,
    pub priority: u8,
    pub source_name: Seq<char>,
    pub channels: Seq<u8>,
}

impl View for Packet {
    type V = PacketView;

    open spec fn view(&self) -> PacketView {
        PacketView {
            universe: self.universe,
            sequence: self.sequence,
            priority: self.priority,
            source_name: self.source_name@,
            channels: self.channels@,
        }
    }
}

/// The packet identifier, `ASC-E1.17` followed by three NUL bytes.
pub open spec fn packet_identifier() -> Seq<u8> {
    seq![0x41u8, 0x53u8, 0x43u8, 0x2du8, 0x45u8, 0x31u8, 0x2eu8, 0x31u8, 0x37u8, 0u8, 0u8, 0u8]
}

/// The text that lossy UTF-8 decoding makes of `bytes`: every invalid
/// sequence becomes U+FFFD, everything else is decoded as it stands.
pub uninterp spec fn utf8_lossy(bytes: Seq<u8>) -> Seq<char>;

/// The text that `bytes` are decoded to: their UTF-8 decoding where they
/// are valid UTF-8, and what lossy decoding makes of them where not.
pub open spec fn decoded_text(bytes: Seq<u8>) -> Seq<char> {
    if valid_utf8(bytes) {
        decode_utf8(bytes)
    } else {
        utf8_lossy(bytes)
    }
}

/// `text` without the NUL characters at its end.
pub open spec fn trim_trailing_nul(text: Seq<char>) -> Seq<char>
    decreases text.len(),
{
    if text.len() > 0 && text.last() == '\0' {
        trim_trailing_nul(text.drop_last())
    } else {
        text
    }
}

/// The 16-bit number whose high byte is `hi` and whose low byte is `lo`.
pub open spec fn be16(hi: u8, lo: u8) -> u16 {
    (hi as int * 256 + lo as int) as u16
}

/// Whether `bytes` carries the packet identifier at its place.
pub open spec fn has_identifier(bytes: Seq<u8>) -> bool {
    bytes.len() >= IDENTIFIER_OFFSET + IDENTIFIER_LEN && bytes.subrange(
        IDENTIFIER_OFFSET as int,
        IDENTIFIER_OFFSET + IDENTIFIER_LEN,
    ) == packet_identifier()
}

/// What `parse` makes of a datagram.
pub open spec fn parse_spec(bytes: Seq<u8>) -> Result<PacketView, MalformedPacket> {
    if bytes.len() < MIN_PACKET_LEN {
        Err(MalformedPacket::TooShort)
    } else if !has_identifier(bytes) {
        Err(MalformedPacket::BadIdentifier)
    } else if bytes.len() < PACKET_LEN {
        Err(MalformedPacket::TruncatedPayload)
    } else {
        Ok(
            PacketView {
                universe: be16(
                    bytes[UNIVERSE_OFFSET as int],
                    bytes[UNIVERSE_OFFSET + 1],
                ),
                sequence: bytes[SEQUENCE_OFFSET as int],
                priority: bytes[PRIORITY_OFFSET as int],
                source_name: trim_trailing_nul(
                    decoded_text(
                        bytes.subrange(NAME_OFFSET as int, NAME_OFFSET + NAME_FIELD_LEN),
                    ),
                ),
                channels: bytes.subrange(CHANNELS_OFFSET as int, PACKET_LEN as int),
            },
        )
    }
}

impl MalformedPacket {
    /// The words that describe this error.
    pub open spec fn reason_spec(self) -> Seq<char> {
        match self {
            MalformedPacket::TooShort => "too short"@,
            MalformedPacket::BadIdentifier => "bad identifier"@,
            MalformedPacket::TruncatedPayload => "truncated payload"@,
        }
    }

    /// Describes the error in words.
    pub fn reason(&self) -> (text: &'static str)
        ensures
            text@ == self.reason_spec(),
    {
        match self {
            MalformedPacket::TooShort => "too short",
            MalformedPacket::BadIdentifier => "bad identifier",
            MalformedPacket::TruncatedPayload => "truncated payload",
        }
    }
}

/// Calls `String::from_utf8_lossy`, which decodes `bytes` as UTF-8 and puts
/// U+FFFD in place of each invalid sequence. Trusted: the text is named
/// `utf8_lossy(bytes)`, and is the plain decoding where `bytes` is valid UTF-8.
#[verifier::external_body]
fn decode_utf8_lossy(bytes: &[u8]) -> (text: String)
    ensures
        text@ == utf8_lossy(bytes@),
        valid_utf8(bytes@) ==> text@ == decode_utf8(bytes@),
{
    String::from_utf8_lossy(bytes).into_owned()
}

/// Bytes below 128 are valid UTF-8 and are decoded one character each.
pub proof fn lemma_ascii_decoded(bytes: Seq<u8>)
    requires
        forall|i: int| 0 <= i < bytes.len() ==> bytes[i] < 128,
    ensures
        valid_utf8(bytes),
        decoded_text(bytes) == Seq::new(bytes.len(), |i: int| bytes[i] as char),
{
    let chars = Seq::new(bytes.len(), |i: int| bytes[i] as char);
    assert(is_ascii_chars(chars));
    is_ascii_chars_encode_utf8(chars);
    assert(encode_utf8(chars) =~= bytes);
    encode_utf8_valid_utf8(chars);
    encode_utf8_decode_utf8(chars);
}

/// Removes the NUL characters at the end of `text`.
pub fn trim_nul_padding(text: &str) -> (trimmed: String)
    ensures
        trimmed@ == trim_trailing_nul(text@),
{
    let mut end: usize = text.unicode_len();
    assert(text@.subrange(0, end as int) =~= text@);
    while end > 0 && text.get_char(end - 1) == '\0'
        invariant
            end <= text@.len(),
            trim_trailing_nul(text@) == trim_trailing_nul(text@.subrange(0, end as int)),
        decreases end,
    {
        proof {
            let cur = text@.subrange(0, end as int);
            assert(cur.last() == '\0');
            assert(cur.drop_last() =~= text@.subrange(0, end - 1));
        }
        end = end - 1;
    }
    proof {
        let cur = text@.subrange(0, end as int);
        assert(end > 0 ==> cur.last() != '\0');
        assert(trim_trailing_nul(cur) == cur);
    }
    text.substring_char(0, end).to_owned()
}

/// Whether the twelve bytes from `IDENTIFIER_OFFSET` on are the identifier.
fn identifier_matches(bytes: &[u8]) -> (ok: bool)
    requires
        bytes@.len() >= IDENTIFIER_OFFSET + IDENTIFIER_LEN,
    ensures
        ok == has_identifier(bytes@),
{
    let expected: [u8; 12] = [0x41, 0x53, 0x43, 0x2d, 0x45, 0x31, 0x2e, 0x31, 0x37, 0, 0, 0];
    assert(expected@ =~= packet_identifier());
    let mut i: usize = 0;
    while i < IDENTIFIER_LEN
        invariant
            i <= IDENTIFIER_LEN,
            bytes@.len() >= IDENTIFIER_OFFSET + IDENTIFIER_LEN,
            expected@ == packet_identifier(),
            forall|k: int| 0 <= k < i ==> bytes@[IDENTIFIER_OFFSET + k] == expected@[k],
        decreases IDENTIFIER_LEN - i,
    {
        if bytes[IDENTIFIER_OFFSET + i] != expected[i] {
            proof {
                let field = bytes@.subrange(
                    IDENTIFIER_OFFSET as int,
                    IDENTIFIER_OFFSET + IDENTIFIER_LEN,
                );
                assert(field[i as int] == bytes@[IDENTIFIER_OFFSET + i]);
            }
            return false;
        }
        i = i + 1;
    }
    assert(bytes@.subrange(IDENTIFIER_OFFSET as int, IDENTIFIER_OFFSET + IDENTIFIER_LEN)
        =~= packet_identifier());
    true
}

/// Reads a received datagram.
///
/// A datagram of fewer than 126 bytes is `TooShort`; one whose bytes 4 to 15
/// are not the packet identifier is `BadIdentifier`; one that ends before
/// byte 638 is `TruncatedPayload`. Every other datagram is accepted, and its
/// fields are those at the fixed offsets: the name in bytes 44 to 107, the
/// priority in byte 108, the sequence number in byte 111, the universe in
/// bytes 113 and 114 and the channels in bytes 126 to 637. Whether universe
/// and priority are in range is for the caller to decide.
pub fn parse(bytes: &[u8]) -> (result: Result<Packet, MalformedPacket>)
    ensures
        match result {
            Ok(packet) => parse_spec(bytes@) == Ok::<PacketView, MalformedPacket>(packet@),
            Err(e) => parse_spec(bytes@) == Err::<PacketView, MalformedPacket>(e),
        },
        bytes@.len() < MIN_PACKET_LEN ==> result == Err::<Packet, MalformedPacket>(
            MalformedPacket::TooShort,
        ),
        !has_identifier(bytes@) ==> result is Err,
        bytes@.len() >= MIN_PACKET_LEN && !has_identifier(bytes@) ==> result == Err::<
            Packet,
            MalformedPacket,
        >(MalformedPacket::BadIdentifier),
        result is Ok <==> bytes@.len() >= PACKET_LEN && has_identifier(bytes@),
{
    if bytes.len() < MIN_PACKET_LEN {
        return Err(MalformedPacket::TooShort);
    }
    if !identifier_matches(bytes) {
        return Err(MalformedPacket::BadIdentifier);
    }
    let raw_name = decode_utf8_lossy(
        slice_subrange(bytes, NAME_OFFSET, NAME_OFFSET + NAME_FIELD_LEN),
    );
    let source_name = trim_nul_padding(raw_name.as_str());
    let priority = bytes[PRIORITY_OFFSET];
    let sequence = bytes[SEQUENCE_OFFSET];
    let hi: u16 = bytes[UNIVERSE_OFFSET] as u16;
    let lo: u16 = bytes[UNIVERSE_OFFSET + 1] as u16;
    let universe: u16 = hi * 256 + lo;
    if bytes.len() < PACKET_LEN {
        return Err(MalformedPacket::TruncatedPayload);
    }
    let mut channels: [u8; 512] = [0u8; 512];
    let mut i: usize = 0;
    while i < CHANNEL_COUNT
        invariant
            i <= CHANNEL_COUNT,
            bytes@.len() >= PACKET_LEN,
            forall|k: int| 0 <= k < i ==> channels@[k] == bytes@[CHANNELS_OFFSET + k],
        decreases CHANNEL_COUNT - i,
    {
        channels[i] = bytes[CHANNELS_OFFSET + i];
        i = i + 1;
    }
    assert(channels@ =~= bytes@.subrange(CHANNELS_OFFSET as int, PACKET_LEN as int));
    Ok(Packet { universe, sequence, priority, source_name, channels })
}

/// The two bytes that open a layer: the flags `0x7` in the high four bits,
/// the layer's length in the low twelve.
pub open spec fn flags_and_length(length: int) -> Seq<u8> {
    seq![(0x70 + length / 256) as u8, (length % 256) as u8]
}

/// The 64-byte name field: the first 63 bytes of `name` at most, then NULs.
pub open spec fn name_field(name: Seq<u8>) -> Seq<u8> {
    Seq::new(
        NAME_FIELD_LEN as nat,
        |i: int|
            if i < name.len() && i < MAX_NAME_LEN {
                name[i]
            } else {
                0u8
            },
    )
}

/// The root layer: preamble and postamble sizes, the packet identifier,
/// flags and length, the vector for data, the correlation identifier.
pub open spec fn root_layer(cid: Seq<u8>) -> Seq<u8> {
    seq![0x00u8, 0x10u8, 0x00u8, 0x00u8] + packet_identifier() + flags_and_length(622) + seq![
        0u8,
        0u8,
        0u8,
        4u8,
    ] + cid
}

/// The framing layer: flags and length, the vector for a data packet, the
/// source name, the priority, no synchronisation address, the sequence
/// number, no options, the universe.
pub open spec fn framing_layer(universe: u16, name: Seq<u8>, priority: u8, sequence: u8) -> Seq<
    u8,
> {
    flags_and_length(600) + seq![0u8, 0u8, 0u8, 2u8] + name_field(name) + seq![
        priority,
        0u8,
        0u8,
        sequence,
        0u8,
        (universe / 256) as u8,
        (universe % 256) as u8,
    ]
}

/// The DMP layer: flags and length, the vector for setting properties, the
/// address and data type, first address 0, increment 1, 513 values, the
/// start code 0 and the channels.
pub open spec fn dmp_layer(channels: Seq<u8>) -> Seq<u8> {
    flags_and_length(523) + seq![
        0x02u8,
        0xa1u8,
        0x00u8,
        0x00u8,
        0x00u8,
        0x01u8,
        0x02u8,
        0x01u8,
        0x00u8,
    ] + channels
}

/// The datagram that `build` writes.
pub open spec fn build_spec(
    universe: u16,
    channels: Seq<u8>,
    name: Seq<u8>,
    priority: u8,
    sequence: u8,
    cid: Seq<u8>,
) -> Seq<u8> {
    root_layer(cid) + framing_layer(universe, name, priority, sequence) + dmp_layer(channels)
}

/// Appends the name field of `name` to `out`.
fn push_name_field(out: &mut Vec<u8>, name: &[u8])
    ensures
        final(out)@ == old(out)@ + name_field(name@),
{
    let ghost before = out@;
    let mut i: usize = 0;
    while i < NAME_FIELD_LEN
        invariant
            i <= NAME_FIELD_LEN,
            out@ == before + name_field(name@).subrange(0, i as int),
        decreases NAME_FIELD_LEN - i,
    {
        let byte: u8 = if i < name.len() && i < MAX_NAME_LEN {
            name[i]
        } else {
            0
        };
        out.push(byte);
        assert(out@ =~= before + name_field(name@).subrange(0, i + 1));
        i = i + 1;
    }
    assert(name_field(name@).subrange(0, NAME_FIELD_LEN as int) =~= name_field(name@));
}

/// Writes the data packet of one universe: root layer, framing layer and
/// DMP layer, 638 bytes in all.
///
/// The packet holds `cid` as its correlation identifier, the first 63 bytes
/// of `source_name` at most, `priority`, `sequence`, `universe` with its
/// high byte first, the start code 0 and the 512 `channels`. No input is
/// refused: whether `universe` and `priority` are in range is for the caller
/// to decide.
pub fn build(
    universe: u16,
    channels: &[u8; 512],
    source_name: &str,
    priority: u8,
    sequence: u8,
    cid: &[u8; 16],
) -> (datagram: Vec<u8>)
    ensures
        datagram@ == build_spec(
            universe,
            channels@,
            source_name.spec_bytes(),
            priority,
            sequence,
            cid@,
        ),
        datagram@.len() == PACKET_LEN,
{
    let mut out: Vec<u8> = Vec::with_capacity(PACKET_LEN);
    let root: [u8; 22] = [
        0x00, 0x10, 0x00, 0x00,
        0x41, 0x53, 0x43, 0x2d, 0x45, 0x31, 0x2e, 0x31, 0x37, 0x00, 0x00, 0x00,
        0x72, 0x6e,
        0x00, 0x00, 0x00, 0x04,
    ];
    out.extend_from_slice(root.as_slice());
    out.extend_from_slice(cid.as_slice());
    assert(out@ =~= root_layer(cid@));
    let framing: [u8; 6] = [0x72, 0x58, 0x00, 0x00, 0x00, 0x02];
    out.extend_from_slice(framing.as_slice());
    push_name_field(&mut out, source_name.as_bytes());
    assert(universe >> 8 == universe / 256) by (bit_vector);
    assert(universe & 0xff == universe % 256) by (bit_vector);
    let tail: [u8; 7] = [
        priority,
        0x00,
        0x00,
        sequence,
        0x00,
        (universe >> 8) as u8,
        (universe & 0xff) as u8,
    ];
    out.extend_from_slice(tail.as_slice());
    assert(out@ =~= root_layer(cid@) + framing_layer(
        universe,
        source_name.spec_bytes(),
        priority,
        sequence,
    ));
    let dmp: [u8; 11] = [0x72, 0x0b, 0x02, 0xa1, 0x00, 0x00, 0x00, 0x01, 0x02, 0x01, 0x00];
    out.extend_from_slice(dmp.as_slice());
    out.extend_from_slice(channels.as_slice());
    assert(out@ =~= build_spec(
        universe,
        channels@,
        source_name.spec_bytes(),
        priority,
        sequence,
        cid@,
    ));
    out
}

/// Where `build` puts each field: the layout of the three-layer packet.
pub proof fn lemma_build_layout(
    universe: u16,
    channels: Seq<u8>,
    name: Seq<u8>,
    priority: u8,
    sequence: u8,
    cid: Seq<u8>,
)
    requires
        channels.len() == CHANNEL_COUNT,
        cid.len() == CID_LEN,
    ensures
        ({
            let b = build_spec(universe, channels, name, priority, sequence, cid);
            &&& b.len() == PACKET_LEN
            &&& has_identifier(b)
            &&& b.subrange(CID_OFFSET as int, CID_OFFSET + CID_LEN) == cid
            &&& b.subrange(NAME_OFFSET as int, NAME_OFFSET + NAME_FIELD_LEN) == name_field(
                name,
            )
            &&& b[PRIORITY_OFFSET as int] == priority
            &&& b[SEQUENCE_OFFSET as int] == sequence
            &&& be16(b[UNIVERSE_OFFSET as int], b[UNIVERSE_OFFSET + 1]) == universe
            &&& b.subrange(CHANNELS_OFFSET as int, PACKET_LEN as int) == channels
        }),
{
    let b = build_spec(universe, channels, name, priority, sequence, cid);
    let root = root_layer(cid);
    let framing = framing_layer(universe, name, priority, sequence);
    let dmp = dmp_layer(channels);
    assert(root.len() == 38);
    assert(framing.len() == 77);
    assert(dmp.len() == 523);
    assert(b.subrange(IDENTIFIER_OFFSET as int, IDENTIFIER_OFFSET + IDENTIFIER_LEN)
        =~= packet_identifier());
    assert(b.subrange(CID_OFFSET as int, CID_OFFSET + CID_LEN) =~= cid);
    assert forall|i: int| 0 <= i < 64 implies b[44 + i] == name_field(name)[i] by {
        assert(b[44 + i] == framing[6 + i]);
    }
    assert(b.subrange(NAME_OFFSET as int, NAME_OFFSET + NAME_FIELD_LEN) =~= name_field(name));
    assert(b[108] == framing[70]);
    assert(b[111] == framing[73]);
    assert(b[113] == framing[75]);
    assert(b[114] == framing[76]);
    assert forall|i: int| 0 <= i < 512 implies b[126 + i] == channels[i] by {
        assert(b[126 + i] == dmp[11 + i]);
    }
    assert(b.subrange(CHANNELS_OFFSET as int, PACKET_LEN as int) =~= channels);
}

/// So many NUL characters.
pub open spec fn nuls(n: nat) -> Seq<char> {
    Seq::new(n, |i: int| '\0')
}

/// NULs behind a text are trimmed away with those that end the text.
pub proof fn lemma_trim_padding(text: Seq<char>, n: nat)
    ensures
        trim_trailing_nul(text + nuls(n)) == trim_trailing_nul(text),
    decreases n,
{
    if n == 0 {
        assert(text + nuls(0) =~= text);
    } else {
        let padded = text + nuls(n);
        assert(padded.last() == '\0');
        assert(padded.drop_last() =~= text + nuls((n - 1) as nat));
        lemma_trim_padding(text, (n - 1) as nat);
    }
}

/// The name field of a name of valid UTF-8 and no more than 63 bytes is
/// decoded to the text of the name and NULs behind it, so that the name is
/// read back as it was written, but for NULs at its own end.
pub proof fn lemma_name_round_trip(name: Seq<u8>)
    requires
        valid_utf8(name),
        name.len() <= MAX_NAME_LEN,
    ensures
        decoded_text(name_field(name)) == decode_utf8(name) + nuls(
            (NAME_FIELD_LEN - name.len()) as nat,
        ),
        trim_trailing_nul(decoded_text(name_field(name))) == trim_trailing_nul(decode_utf8(name)),
{
    let n = (NAME_FIELD_LEN - name.len()) as nat;
    let pad = Seq::new(n, |i: int| 0u8);
    let field = name + pad;
    assert(name_field(name) =~= field);
    lemma_ascii_decoded(pad);
    assert(decode_utf8(pad) =~= nuls(n));
    valid_utf8_concat(name, pad);
    assert(field[name.len() as int] == 0u8);
    assert(!is_continuation_byte(0u8));
    is_char_boundary_iff_not_is_continuation_byte(field, name.len() as int);
    decode_utf8_split(field, name.len() as int);
    assert(field.subrange(0, name.len() as int) =~= name);
    assert(field.subrange(name.len() as int, field.len() as int) =~= pad);
    lemma_trim_padding(decode_utf8(name), n);
}

/// A text whose UTF-8 form has no more than 63 bytes, written into the name
/// field as `build` writes it, is read back as that text without the NULs
/// at its end.
pub proof fn lemma_text_round_trip(text: Seq<char>)
    requires
        encode_utf8(text).len() <= MAX_NAME_LEN,
    ensures
        trim_trailing_nul(decoded_text(name_field(encode_utf8(text)))) == trim_trailing_nul(text),
{
    encode_utf8_valid_utf8(text);
    encode_utf8_decode_utf8(text);
    lemma_name_round_trip(encode_utf8(text));
}

/// What was built is read back: `parse` accepts every datagram that
/// `build` writes, and finds in it the universe, the channels byte for
/// byte, the priority and the sequence number that it was built from. The
/// name it finds is the text of the name field without the NULs at its end.
pub proof fn lemma_parse_build_round_trip(
    universe: u16,
    channels: Seq<u8>,
    name: Seq<u8>,
    priority: u8,
    sequence: u8,
    cid: Seq<u8>,
)
    requires
        channels.len() == CHANNEL_COUNT,
        cid.len() == CID_LEN,
    ensures
        parse_spec(build_spec(universe, channels, name, priority, sequence, cid)) == Ok::<
            PacketView,
            MalformedPacket,
        >(
            PacketView {
                universe,
                sequence,
                priority,
                source_name: trim_trailing_nul(decoded_text(name_field(name))),
                channels,
            },
        ),
{
    lemma_build_layout(universe, channels, name, priority, sequence, cid);
}

} // verus!
