//! The data frame protocol: a 32-bit bit-packed header and the frame that
//! binds that header, as associated data, to an authenticated-encrypted
//! payload.

use vstd::prelude::*;

verus! {

/// Indicates where data is sourced from i.e. its direction.
#[derive(Clone, Copy, Debug, PartialEq, Eq, Structural)]
pub enum DataSource {
    Client,
    Server,
}

/// There was an error parsing the data frame. Possibly due
/// to an incompatible data frame version.
#[derive(Clone, Copy, Debug, PartialEq, Eq, Structural)]
pub struct ParseError {}

/// The header fields of the data frame.
#[derive(Clone, Copy, Debug, PartialEq, Eq, Structural)]
pub struct Header {
    /// The protocol version. Should be 0.
    pub version: u8,
    /// The direction of data flow.
    pub source: DataSource,
    /// The address of the server 0..31.
    pub server_address: u8,
    /// The port of the server 0..31.
    pub server_port: u8,
    /// A frame counter for ensuring message authenticity by
    /// being able to vary a nonce. Should be incremented by
    /// the message source and is expected to overflow to zero
    /// after 0xFFFF (16 bits).
    pub frame_counter: u16,
}

/// The packed 32-bit word that `header` lays out on the wire. Bits, low to
/// high: [0:1] version (always written as 0), [2] source (0 = client,
/// 1 = server), [3:7] server address, [8:12] server port, [13:15] reserved
/// (zero), [16:31] frame counter. Out-of-range address and port values are
/// masked to their low 5 bits, never rejected.
pub open spec fn pack_word(header: Header) -> u32 {
    let source: u32 = if header.source == DataSource::Client {
        0
    } else {
        1
    };
    (source << 2) | (((header.server_address as u32) & 0x1F) << 3) | (((header.server_port
        as u32) & 0x1F) << 8) | (((header.frame_counter as u32) & 0xFFFF) << 16)
}

/// The header that a packed word decodes to. Both version bits are checked:
/// a word with either version bit set names a version other than 0 and is
/// rejected. The single source bit always decodes, so version is the only
/// error path.
pub open spec fn unpack_word(word: u32) -> Result<Header, ParseError> {
    if word & 0x03 != 0 {
        Err(ParseError {  })
    } else {
        Ok(
            Header {
                version: 0,
                source: if (word >> 2) & 0x01 == 0 {
                    DataSource::Client
                } else {
                    DataSource::Server
                },
                server_address: ((word >> 3) & 0x1F) as u8,
                server_port: ((word >> 8) & 0x1F) as u8,
                frame_counter: ((word >> 16) & 0xFFFF) as u16,
            },
        )
    }
}

/// A data frame encapsulates client and server packets
/// and provides for error checking.
pub struct DataFrame<'a> {
    // Bits as follows:
    // 0..=1   protocol version
    // 2..=2   source 0 = client, 1 = server
    // 3..=7   server address
    // 8..=12  server port
    // 13..=15 reserved - must be zero
    // 16..=31 frame counter
    header: u32,
    // Payload data appended with a Message Authentication Code (MAC).
    // This will be required to have a one byte length as the first byte.
    encrypted_payload: &'a [u8],
}

/// The size of a data frame header including the byte length for the payload.
/// The byte length value is not to exceed 127.
pub const HEADER_SIZE: usize = 5;

impl<'a> DataFrame<'a> {
    /// The packed header word the frame carries.
    pub closed spec fn header_word_spec(&self) -> u32 {
        self.header
    }

    /// The bytes of the encrypted payload, authentication tag included.
    pub closed spec fn payload_spec(&self) -> Seq<u8> {
        self.encrypted_payload@
    }

    /// Create a new dataframe with an encrypted payload inclusive of its MAC
    /// which is expected to be appended at the end. The header is packed into
    /// its 32-bit wire word; address and port are masked to their low 5 bits
    /// and the version bits are written as 0, whatever the fields hold.
    pub fn new(header: &'a Header, encrypted_payload: &'a [u8]) -> (frame: Self)
        ensures
            frame.header_word_spec() == pack_word(*header),
            frame.payload_spec() =~= encrypted_payload@,
    {
        let source: u32 = if header.source == DataSource::Client {
            0
        } else {
            1
        };
        Self {
            header: (source << 2) | (((header.server_address as u32) & 0x1F) << 3) | (((
            header.server_port as u32) & 0x1F) << 8) | (((header.frame_counter as u32)
                & 0xFFFF) << 16),
            encrypted_payload,
        }
    }

    /// Reassembles a frame as it arrived off the wire: the packed header word
    /// and the encrypted payload bytes that followed it.
    pub fn from_wire(header: u32, encrypted_payload: &'a [u8]) -> (frame: Self)
        ensures
            frame.header_word_spec() == header,
            frame.payload_spec() =~= encrypted_payload@,
    {
        Self { header, encrypted_payload }
    }

    /// The packed 32-bit header word, for placing the frame on the wire.
    pub fn header_word(&self) -> (word: u32)
        ensures
            word == self.header_word_spec(),
    {
        self.header
    }

    /// The encrypted payload bytes, authentication tag included.
    pub fn encrypted_payload(&self) -> (payload: &'a [u8])
        ensures
            payload@ =~= self.payload_spec(),
    {
        self.encrypted_payload
    }

    /// Parse the contents of the data frame.
    /// If the data frame version is an incompatible value
    /// then an error is returned. Otherwise, the header
    /// and encrypted payload (including a MAC at the end)
    /// are returned. Both version bits take part in the check.
    pub fn parse(&self) -> (r: Result<(Header, &'a [u8]), ParseError>)
        ensures
            match r {
                Ok(parts) => unpack_word(self.header_word_spec()) == Ok::<Header, ParseError>(
                    parts.0,
                ) && parts.1@ =~= self.payload_spec(),
                Err(e) => unpack_word(self.header_word_spec()) == Err::<Header, ParseError>(e),
            },
    {
        let w = self.header;
        proof {
            assert(((w >> 3) & 0x1F) < 256 && ((w >> 8) & 0x1F) < 256 && ((w >> 16) & 0xFFFF)
                < 0x10000 && (((w >> 2) & 0x01) == 0 || ((w >> 2) & 0x01) == 1)) by (bit_vector);
        }
        let version = self.header & 0x03;
        let source = match (self.header >> 2) & 0x01 {
            0 => Some(DataSource::Client),
            1 => Some(DataSource::Server),
            _ => None,
        };
        let server_address = (self.header >> 3) & 0x1F;
        let server_port = (self.header >> 8) & 0x1F;
        let frame_counter = (self.header >> 16) & 0xFFFF;

        match (version, source) {
            (0, Some(source)) => Ok(
                (
                    Header {
                        version: 0,
                        source,
                        server_address: server_address as u8,
                        server_port: server_port as u8,
                        frame_counter: frame_counter as u16,
                    },
                    self.encrypted_payload,
                ),
            ),
            _ => Err(ParseError {  }),
        }
    }
}

/// Round trip: every header that carries version 0 and in-range address and
/// port (below 32) decodes from its own packed word unchanged, whatever the
/// frame counter.
pub proof fn lemma_round_trip(h: Header)
    requires
        h.version == 0,
        h.server_address < 32,
        h.server_port < 32,
    ensures
        unpack_word(pack_word(h)) == Ok::<Header, ParseError>(h),
{
    let s: u32 = if h.source == DataSource::Client {
        0
    } else {
        1
    };
    let a: u32 = h.server_address as u32;
    let p: u32 = h.server_port as u32;
    let f: u32 = h.frame_counter as u32;
    let w: u32 = (s << 2) | ((a & 0x1F) << 3) | ((p & 0x1F) << 8) | ((f & 0xFFFF) << 16);
    assert((w & 0x03 == 0) && ((w >> 2) & 0x01 == s) && ((w >> 3) & 0x1F == a) && ((w >> 8) & 0x1F
        == p) && ((w >> 16) & 0xFFFF == f)) by (bit_vector)
        requires
            w == (s << 2) | ((a & 0x1F) << 3) | ((p & 0x1F) << 8) | ((f & 0xFFFF) << 16),
            s == 0 || s == 1,
            a < 32,
            p < 32,
            f < 0x10000,
    ;
    assert(pack_word(h) == w);
    assert(((w >> 3) & 0x1F) as u8 == h.server_address);
    assert(((w >> 8) & 0x1F) as u8 == h.server_port);
    assert(((w >> 16) & 0xFFFF) as u16 == h.frame_counter);
}

/// Version rejection: every packed word with a nonzero version field decodes
/// to a parse error.
pub proof fn lemma_version_rejected(word: u32)
    requires
        word & 0x03 != 0,
    ensures
        unpack_word(word) is Err,
{
}

/// Masking: the address and port fields of the packed word hold exactly the
/// low 5 bits of the given values; an out-of-range value is truncated, never
/// rejected. The version field is written as 0 whatever the header holds.
pub proof fn lemma_encode_masks(h: Header)
    ensures
        (pack_word(h) >> 3) & 0x1F == (h.server_address as u32) & 0x1F,
        (pack_word(h) >> 8) & 0x1F == (h.server_port as u32) & 0x1F,
        pack_word(h) & 0x03 == 0,
{
    let s: u32 = if h.source == DataSource::Client {
        0
    } else {
        1
    };
    let a: u32 = h.server_address as u32;
    let p: u32 = h.server_port as u32;
    let f: u32 = h.frame_counter as u32;
    let w: u32 = (s << 2) | ((a & 0x1F) << 3) | ((p & 0x1F) << 8) | ((f & 0xFFFF) << 16);
    assert(((w >> 3) & 0x1F == a & 0x1F) && ((w >> 8) & 0x1F == p & 0x1F) && (w & 0x03 == 0))
        by (bit_vector)
        requires
            w == (s << 2) | ((a & 0x1F) << 3) | ((p & 0x1F) << 8) | ((f & 0xFFFF) << 16),
            s == 0 || s == 1,
    ;
    assert(pack_word(h) == w);
}

} // verus!
