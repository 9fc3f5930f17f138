//! The on-disk layout: big-endian integers and fixed-size records.
//!
//! Every record type here is a window onto the bytes of the file. Nothing
//! is copied when a record is taken from its table; a field is decoded when
//! it is read. The view of a record is the record decoded as a whole.

use vstd::prelude::*;
use vstd::slice::slice_subrange;

verus! {

/// The first bytes of every database: the ASCII text `LOCDBXX`.
pub const MAGIC: [u8; 7] = [0x4c, 0x4f, 0x43, 0x44, 0x42, 0x58, 0x58];

/// The only format version this reader understands.
pub const VERSION: u8 = 1;

/// The number of bytes of the header, signatures and padding included.
pub const HEADER_SIZE: usize = 4200;

/// The number of bytes that the header keeps for each of its two
/// signatures.
pub const SIGNATURE_SIZE: usize = 2048;

/// The number of bytes of a record of an autonomous system.
pub const AS_SIZE: usize = 8;

/// The number of bytes of a record of a network.
pub const NETWORK_SIZE: usize = 12;

/// The number of bytes of a trie node.
pub const NETWORK_NODE_SIZE: usize = 12;

/// The number of bytes of a record of a country.
pub const COUNTRY_SIZE: usize = 8;

/// What a trie node holds in place of a network index when it bears none.
pub const NO_NETWORK: u32 = 0xffff_ffff;

/// Flag bit of a network that hosts anonymous proxies.
pub const NETWORK_FLAG_ANONYMOUS_PROXY: u16 = 0x1;

/// Flag bit of a network of a satellite provider.
pub const NETWORK_FLAG_SATELLITE_PROVIDER: u16 = 0x2;

/// Flag bit of a network of anycast addresses.
pub const NETWORK_FLAG_ANYCAST: u16 = 0x4;

/// Flag bit of a network whose traffic should be dropped.
pub const NETWORK_FLAG_DROP: u16 = 0x8;

/// The value of two bytes read as a big-endian integer.
pub open spec fn be_u16(b: Seq<u8>) -> u16
    recommends
        b.len() == 2,
{
    (b[0] as int * 0x100 + b[1] as int) as u16
}

/// The value of four bytes read as a big-endian integer.
pub open spec fn be_u32(b: Seq<u8>) -> u32
    recommends
        b.len() == 4,
{
    (b[0] as int * 0x100_0000 + b[1] as int * 0x1_0000 + b[2] as int * 0x100 + b[3] as int) as u32
}

/// The value of eight bytes read as a big-endian integer.
pub open spec fn be_u64(b: Seq<u8>) -> u64
    recommends
        b.len() == 8,
{
    (be_u32(b.subrange(0, 4)) as int * 0x1_0000_0000 + be_u32(b.subrange(4, 8)) as int) as u64
}

/// The big-endian `u16` that starts at `pos`.
pub open spec fn be_u16_at(b: Seq<u8>, pos: int) -> u16
    recommends
        0 <= pos,
        pos + 2 <= b.len(),
{
    be_u16(b.subrange(pos, pos + 2))
}

/// The big-endian `u32` that starts at `pos`.
pub open spec fn be_u32_at(b: Seq<u8>, pos: int) -> u32
    recommends
        0 <= pos,
        pos + 4 <= b.len(),
{
    be_u32(b.subrange(pos, pos + 4))
}

/// The big-endian `u64` that starts at `pos`.
pub open spec fn be_u64_at(b: Seq<u8>, pos: int) -> u64
    recommends
        0 <= pos,
        pos + 8 <= b.len(),
{
    be_u64(b.subrange(pos, pos + 8))
}

/// Decodes two bytes with `zerocopy::byteorder::U16::<BigEndian>::from_bytes`
/// and `U16::get`. Trusted: the result is the big-endian value of the bytes,
/// most significant byte first.
#[verifier::external_body]
fn read_be_u16(b: [u8; 2]) -> (r: u16)
    ensures
        r == be_u16(b@),
{
    zerocopy::byteorder::U16::<zerocopy::byteorder::BigEndian>::from_bytes(b).get()
}

/// Decodes four bytes with `zerocopy::byteorder::U32::<BigEndian>::from_bytes`
/// and `U32::get`. Trusted: the result is the big-endian value of the bytes,
/// most significant byte first.
#[verifier::external_body]
fn read_be_u32(b: [u8; 4]) -> (r: u32)
    ensures
        r == be_u32(b@),
{
    zerocopy::byteorder::U32::<zerocopy::byteorder::BigEndian>::from_bytes(b).get()
}

/// Decodes eight bytes with `zerocopy::byteorder::U64::<BigEndian>::from_bytes`
/// and `U64::get`. Trusted: the result is the big-endian value of the bytes,
/// most significant byte first.
#[verifier::external_body]
fn read_be_u64(b: [u8; 8]) -> (r: u64)
    ensures
        r == be_u64(b@),
{
    zerocopy::byteorder::U64::<zerocopy::byteorder::BigEndian>::from_bytes(b).get()
}

/// Reads the big-endian `u16` that starts at `pos`.
pub fn u16_at(bytes: &[u8], pos: usize) -> (r: u16)
    requires
        pos + 2 <= bytes@.len(),
    ensures
        r == be_u16_at(bytes@, pos as int),
{
    let b = [bytes[pos], bytes[pos + 1]];
    assert(b@ =~= bytes@.subrange(pos as int, pos + 2));
    read_be_u16(b)
}

/// Reads the big-endian `u32` that starts at `pos`.
pub fn u32_at(bytes: &[u8], pos: usize) -> (r: u32)
    requires
        pos + 4 <= bytes@.len(),
    ensures
        r == be_u32_at(bytes@, pos as int),
{
    let b = [bytes[pos], bytes[pos + 1], bytes[pos + 2], bytes[pos + 3]];
    assert(b@ =~= bytes@.subrange(pos as int, pos + 4));
    read_be_u32(b)
}

/// Reads the big-endian `u64` that starts at `pos`.
pub fn u64_at(bytes: &[u8], pos: usize) -> (r: u64)
    requires
        pos + 8 <= bytes@.len(),
    ensures
        r == be_u64_at(bytes@, pos as int),
{
    let b = [
        bytes[pos],
        bytes[pos + 1],
        bytes[pos + 2],
        bytes[pos + 3],
        bytes[pos + 4],
        bytes[pos + 5],
        bytes[pos + 6],
        bytes[pos + 7],
    ];
    assert(b@ =~= bytes@.subrange(pos as int, pos + 8));
    read_be_u64(b)
}

/// A reference to a string: the offset of its first byte in the string pool.
#[derive(Clone, Copy, Debug, PartialEq, Eq, Structural)]
pub struct StrRef {
    pub offset: u32,
}

/// Where a section lies in the file: the offset of its first byte, and its
/// length in bytes.
#[derive(Clone, Copy, Debug, PartialEq, Eq, Structural)]
pub struct FileRange {
    pub offset: u32,
    pub length: u32,
}

/// The string reference stored at `pos`.
pub open spec fn str_ref_at(b: Seq<u8>, pos: int) -> StrRef {
    StrRef { offset: be_u32_at(b, pos) }
}

/// The file range stored at `pos`.
pub open spec fn file_range_at(b: Seq<u8>, pos: int) -> FileRange {
    FileRange { offset: be_u32_at(b, pos), length: be_u32_at(b, pos + 4) }
}

/// The decoded fields of a header. The magic bytes and the padding are not
/// part of it. Each signature has a buffer of `SIGNATURE_SIZE` bytes, of
/// which the signature takes as many as its length says; no signature is
/// checked here.
pub struct HeaderRecord {
    pub version: u8,
    pub created_at: u64,
    pub vendor: StrRef,
    pub description: StrRef,
    pub license: StrRef,
    pub as_: FileRange,
    pub networks: FileRange,
    pub network_nodes: FileRange,
    pub countries: FileRange,
    pub string_pool: FileRange,
    pub signature1_length: u16,
    pub signature2_length: u16,
    pub signature1_buf: Seq<u8>,
    pub signature2_buf: Seq<u8>,
}

/// The header that the first `HEADER_SIZE` bytes of a file encode.
pub open spec fn decode_header(b: Seq<u8>) -> HeaderRecord
    recommends
        b.len() == HEADER_SIZE,
{
    HeaderRecord {
        version: b[7],
        created_at: be_u64_at(b, 8),
        vendor: str_ref_at(b, 16),
        description: str_ref_at(b, 20),
        license: str_ref_at(b, 24),
        as_: file_range_at(b, 28),
        networks: file_range_at(b, 36),
        network_nodes: file_range_at(b, 44),
        countries: file_range_at(b, 52),
        string_pool: file_range_at(b, 60),
        signature1_length: be_u16_at(b, 68),
        signature2_length: be_u16_at(b, 70),
        signature1_buf: b.subrange(72, 72 + SIGNATURE_SIZE),
        signature2_buf: b.subrange(72 + SIGNATURE_SIZE, 72 + 2 * SIGNATURE_SIZE),
    }
}

/// The decoded fields of the record of an autonomous system.
pub struct AsRecord {
    pub id: u32,
    pub name: StrRef,
}

/// The record that `AS_SIZE` bytes encode.
pub open spec fn decode_as(b: Seq<u8>) -> AsRecord
    recommends
        b.len() == AS_SIZE,
{
    AsRecord { id: be_u32_at(b, 0), name: str_ref_at(b, 4) }
}

/// The decoded fields of the record of a network.
pub struct NetworkRecord {
    pub country_code: Seq<u8>,
    pub asn: u32,
    pub flags: u16,
}

/// The record that `NETWORK_SIZE` bytes encode.
pub open spec fn decode_network(b: Seq<u8>) -> NetworkRecord
    recommends
        b.len() == NETWORK_SIZE,
{
    NetworkRecord { country_code: b.subrange(0, 2), asn: be_u32_at(b, 4), flags: be_u16_at(b, 8) }
}

/// The decoded fields of a trie node.
pub struct NetworkNodeRecord {
    /// The node reached by a 0 bit, and the node reached by a 1 bit;
    /// 0 where there is none.
    pub children: Seq<u32>,
    /// The index of the network that the node bears, or `NO_NETWORK`.
    pub network: u32,
}

impl NetworkNodeRecord {
    /// The node to go to on the given bit of the key; 0 where there is none.
    pub open spec fn child(self, bit: bool) -> u32 {
        self.children[if bit {
            1int
        } else {
            0int
        }]
    }

    /// Whether the node bears a network.
    pub open spec fn marked(self) -> bool {
        self.network != NO_NETWORK
    }
}

/// The node that `NETWORK_NODE_SIZE` bytes encode.
pub open spec fn decode_network_node(b: Seq<u8>) -> NetworkNodeRecord
    recommends
        b.len() == NETWORK_NODE_SIZE,
{
    NetworkNodeRecord { children: seq![be_u32_at(b, 0), be_u32_at(b, 4)], network: be_u32_at(b, 8) }
}

/// The decoded fields of the record of a country.
pub struct CountryRecord {
    pub code: Seq<u8>,
    pub continent_code: Seq<u8>,
    pub name: StrRef,
}

/// The record that `COUNTRY_SIZE` bytes encode.
pub open spec fn decode_country(b: Seq<u8>) -> CountryRecord
    recommends
        b.len() == COUNTRY_SIZE,
{
    CountryRecord {
        code: b.subrange(0, 2),
        continent_code: b.subrange(2, 4),
        name: str_ref_at(b, 4),
    }
}

/// The bytes of the record with the given index in a table of records of
/// `size` bytes each.
pub open spec fn record_bytes(table: Seq<u8>, size: int, index: int) -> Seq<u8>
    recommends
        size > 0,
        0 <= index < table.len() as int / size,
{
    table.subrange(index * size, index * size + size)
}

/// The table of autonomous systems that a section encodes.
pub open spec fn decode_as_table(table: Seq<u8>) -> Seq<AsRecord> {
    Seq::new(
        table.len() / (AS_SIZE as nat),
        |i: int| decode_as(record_bytes(table, AS_SIZE as int, i)),
    )
}

/// The table of networks that a section encodes.
pub open spec fn decode_network_table(table: Seq<u8>) -> Seq<NetworkRecord> {
    Seq::new(
        table.len() / (NETWORK_SIZE as nat),
        |i: int| decode_network(record_bytes(table, NETWORK_SIZE as int, i)),
    )
}

/// The table of trie nodes that a section encodes.
pub open spec fn decode_network_node_table(table: Seq<u8>) -> Seq<NetworkNodeRecord> {
    Seq::new(
        table.len() / (NETWORK_NODE_SIZE as nat),
        |i: int| decode_network_node(record_bytes(table, NETWORK_NODE_SIZE as int, i)),
    )
}

/// The table of countries that a section encodes.
pub open spec fn decode_country_table(table: Seq<u8>) -> Seq<CountryRecord> {
    Seq::new(
        table.len() / (COUNTRY_SIZE as nat),
        |i: int| decode_country(record_bytes(table, COUNTRY_SIZE as int, i)),
    )
}

/// Cuts the record with the given index out of a table.
fn record_at<'a>(table: &'a [u8], size: usize, index: usize) -> (r: &'a [u8])
    requires
        0 < size,
        index < table@.len() / (size as nat),
    ensures
        r@ == record_bytes(table@, size as int, index as int),
        r@.len() == size,
{
    let len = table.len();
    assert(index * size + size <= len) by (nonlinear_arith)
        requires
            0 < size,
            index < len as nat / (size as nat),
    ;
    assert(0 <= index * size) by (nonlinear_arith);
    let start = index * size;
    slice_subrange(table, start, start + size)
}

/// Tells whether the bytes start with the magic of the format.
pub fn has_magic(bytes: &[u8]) -> (r: bool)
    ensures
        r == (bytes@.len() >= 7 && bytes@.subrange(0, 7) == MAGIC@),
{
    if bytes.len() < 7 {
        return false;
    }
    let mut i: usize = 0;
    while i < 7
        invariant
            i <= 7,
            bytes@.len() >= 7,
            forall|j: int| 0 <= j < i ==> bytes@[j] == MAGIC@[j],
        decreases 7 - i,
    {
        if bytes[i] != MAGIC[i] {
            assert(bytes@.subrange(0, 7)[i as int] != MAGIC@[i as int]);
            return false;
        }
        i += 1;
    }
    assert(bytes@.subrange(0, 7) =~= MAGIC@);
    true
}

/// The header of a database: the first `HEADER_SIZE` bytes of the file.
pub struct Header<'a> {
    bytes: &'a [u8],
}

impl<'a> View for Header<'a> {
    type V = HeaderRecord;

    closed spec fn view(&self) -> HeaderRecord {
        decode_header(self.bytes@)
    }
}

impl<'a> Header<'a> {
    #[verifier::type_invariant]
    spec fn well_formed(self) -> bool {
        self.bytes@.len() == HEADER_SIZE
    }

    /// Takes the header from the start of a file. There is none if the file
    /// is shorter than a header.
    pub fn parse(file: &'a [u8]) -> (r: Option<Header<'a>>)
        ensures
            r is Some <==> file@.len() >= HEADER_SIZE,
            r matches Some(h) ==> h@ == decode_header(file@.subrange(0, HEADER_SIZE as int)),
    {
        if file.len() < HEADER_SIZE {
            None
        } else {
            Some(Header { bytes: slice_subrange(file, 0, HEADER_SIZE) })
        }
    }

    /// The format version.
    pub fn version(&self) -> (r: u8)
        ensures
            r == self@.version,
    {
        proof {
            use_type_invariant(self);
        }
        self.bytes[7]
    }

    /// The creation time, in seconds since the Unix epoch.
    pub fn created_at(&self) -> (r: u64)
        ensures
            r == self@.created_at,
    {
        proof {
            use_type_invariant(self);
        }
        u64_at(self.bytes, 8)
    }

    /// The name of the vendor.
    pub fn vendor(&self) -> (r: StrRef)
        ensures
            r == self@.vendor,
    {
        proof {
            use_type_invariant(self);
        }
        StrRef { offset: u32_at(self.bytes, 16) }
    }

    /// The description of the database.
    pub fn description(&self) -> (r: StrRef)
        ensures
            r == self@.description,
    {
        proof {
            use_type_invariant(self);
        }
        StrRef { offset: u32_at(self.bytes, 20) }
    }

    /// The license of the database.
    pub fn license(&self) -> (r: StrRef)
        ensures
            r == self@.license,
    {
        proof {
            use_type_invariant(self);
        }
        StrRef { offset: u32_at(self.bytes, 24) }
    }

    fn range_at(&self, pos: usize) -> (r: FileRange)
        requires
            pos + 8 <= HEADER_SIZE,
        ensures
            r == file_range_at(self.bytes@, pos as int),
    {
        proof {
            use_type_invariant(self);
        }
        FileRange { offset: u32_at(self.bytes, pos), length: u32_at(self.bytes, pos + 4) }
    }

    /// Where the table of autonomous systems lies.
    pub fn as_(&self) -> (r: FileRange)
        ensures
            r == self@.as_,
    {
        self.range_at(28)
    }

    /// Where the table of networks lies.
    pub fn networks(&self) -> (r: FileRange)
        ensures
            r == self@.networks,
    {
        self.range_at(36)
    }

    /// Where the table of trie nodes lies.
    pub fn network_nodes(&self) -> (r: FileRange)
        ensures
            r == self@.network_nodes,
    {
        self.range_at(44)
    }

    /// Where the table of countries lies.
    pub fn countries(&self) -> (r: FileRange)
        ensures
            r == self@.countries,
    {
        self.range_at(52)
    }

    /// Where the string pool lies.
    pub fn string_pool(&self) -> (r: FileRange)
        ensures
            r == self@.string_pool,
    {
        self.range_at(60)
    }

    /// The number of bytes of the first signature.
    pub fn signature1_length(&self) -> (r: u16)
        ensures
            r == self@.signature1_length,
    {
        proof {
            use_type_invariant(self);
        }
        u16_at(self.bytes, 68)
    }

    /// The number of bytes of the second signature.
    pub fn signature2_length(&self) -> (r: u16)
        ensures
            r == self@.signature2_length,
    {
        proof {
            use_type_invariant(self);
        }
        u16_at(self.bytes, 70)
    }

    /// The buffer of the first signature.
    pub fn signature1_buf(&self) -> (r: &'a [u8])
        ensures
            r@ == self@.signature1_buf,
    {
        proof {
            use_type_invariant(self);
        }
        slice_subrange(self.bytes, 72, 72 + SIGNATURE_SIZE)
    }

    /// The buffer of the second signature.
    pub fn signature2_buf(&self) -> (r: &'a [u8])
        ensures
            r@ == self@.signature2_buf,
    {
        proof {
            use_type_invariant(self);
        }
        slice_subrange(self.bytes, 72 + SIGNATURE_SIZE, 72 + 2 * SIGNATURE_SIZE)
    }
}

/// The record of an autonomous system.
pub struct As<'a> {
    bytes: &'a [u8],
}

impl<'a> View for As<'a> {
    type V = AsRecord;

    closed spec fn view(&self) -> AsRecord {
        decode_as(self.bytes@)
    }
}

impl<'a> As<'a> {
    #[verifier::type_invariant]
    spec fn well_formed(self) -> bool {
        self.bytes@.len() == AS_SIZE
    }

    /// The number of records in a table.
    pub fn count(table: &[u8]) -> (r: usize)
        ensures
            r == decode_as_table(table@).len(),
    {
        table.len() / AS_SIZE
    }

    /// The record with the given index in a table.
    pub fn at(table: &'a [u8], index: usize) -> (r: As<'a>)
        requires
            index < decode_as_table(table@).len(),
        ensures
            r@ == decode_as_table(table@)[index as int],
    {
        As { bytes: record_at(table, AS_SIZE, index) }
    }

    /// The number of the autonomous system.
    pub fn id(&self) -> (r: u32)
        ensures
            r == self@.id,
    {
        proof {
            use_type_invariant(self);
        }
        u32_at(self.bytes, 0)
    }

    /// The name of the autonomous system.
    pub fn name(&self) -> (r: StrRef)
        ensures
            r == self@.name,
    {
        proof {
            use_type_invariant(self);
        }
        StrRef { offset: u32_at(self.bytes, 4) }
    }
}

/// The record of a network.
pub struct Network<'a> {
    bytes: &'a [u8],
}

impl<'a> View for Network<'a> {
    type V = NetworkRecord;

    closed spec fn view(&self) -> NetworkRecord {
        decode_network(self.bytes@)
    }
}

impl<'a> Network<'a> {
    #[verifier::type_invariant]
    spec fn well_formed(self) -> bool {
        self.bytes@.len() == NETWORK_SIZE
    }

    /// The number of records in a table.
    pub fn count(table: &[u8]) -> (r: usize)
        ensures
            r == decode_network_table(table@).len(),
    {
        table.len() / NETWORK_SIZE
    }

    /// The record with the given index in a table.
    pub fn at(table: &'a [u8], index: usize) -> (r: Network<'a>)
        requires
            index < decode_network_table(table@).len(),
        ensures
            r@ == decode_network_table(table@)[index as int],
    {
        Network { bytes: record_at(table, NETWORK_SIZE, index) }
    }

    /// The two bytes of the country code.
    pub fn country_code(&self) -> (r: &'a [u8])
        ensures
            r@ == self@.country_code,
    {
        proof {
            use_type_invariant(self);
        }
        slice_subrange(self.bytes, 0, 2)
    }

    /// The number of the autonomous system that the network belongs to.
    pub fn asn(&self) -> (r: u32)
        ensures
            r == self@.asn,
    {
        proof {
            use_type_invariant(self);
        }
        u32_at(self.bytes, 4)
    }

    /// The flag bits of the network.
    pub fn flags(&self) -> (r: u16)
        ensures
            r == self@.flags,
    {
        proof {
            use_type_invariant(self);
        }
        u16_at(self.bytes, 8)
    }
}

/// A node of the trie.
pub struct NetworkNode<'a> {
    bytes: &'a [u8],
}

impl<'a> View for NetworkNode<'a> {
    type V = NetworkNodeRecord;

    closed spec fn view(&self) -> NetworkNodeRecord {
        decode_network_node(self.bytes@)
    }
}

impl<'a> NetworkNode<'a> {
    #[verifier::type_invariant]
    spec fn well_formed(self) -> bool {
        self.bytes@.len() == NETWORK_NODE_SIZE
    }

    /// The number of nodes in a table.
    pub fn count(table: &[u8]) -> (r: usize)
        ensures
            r == decode_network_node_table(table@).len(),
    {
        table.len() / NETWORK_NODE_SIZE
    }

    /// The node with the given index in a table.
    pub fn at(table: &'a [u8], index: usize) -> (r: NetworkNode<'a>)
        requires
            index < decode_network_node_table(table@).len(),
        ensures
            r@ == decode_network_node_table(table@)[index as int],
    {
        NetworkNode { bytes: record_at(table, NETWORK_NODE_SIZE, index) }
    }

    /// The node to go to on the given bit of the key; 0 where there is none.
    pub fn child(&self, bit: bool) -> (r: u32)
        ensures
            r == self@.child(bit),
    {
        proof {
            use_type_invariant(self);
        }
        if bit {
            u32_at(self.bytes, 4)
        } else {
            u32_at(self.bytes, 0)
        }
    }

    /// The index of the network that the node bears, if it bears one.
    pub fn network(&self) -> (r: Option<u32>)
        ensures
            r == (if self@.marked() {
                Some(self@.network)
            } else {
                None
            }),
    {
        proof {
            use_type_invariant(self);
        }
        let network = u32_at(self.bytes, 8);
        if network != NO_NETWORK {
            Some(network)
        } else {
            None
        }
    }
}

/// The record of a country.
pub struct Country<'a> {
    bytes: &'a [u8],
}

impl<'a> View for Country<'a> {
    type V = CountryRecord;

    closed spec fn view(&self) -> CountryRecord {
        decode_country(self.bytes@)
    }
}

impl<'a> Country<'a> {
    #[verifier::type_invariant]
    spec fn well_formed(self) -> bool {
        self.bytes@.len() == COUNTRY_SIZE
    }

    /// The number of records in a table.
    pub fn count(table: &[u8]) -> (r: usize)
        ensures
            r == decode_country_table(table@).len(),
    {
        table.len() / COUNTRY_SIZE
    }

    /// The record with the given index in a table.
    pub fn at(table: &'a [u8], index: usize) -> (r: Country<'a>)
        requires
            index < decode_country_table(table@).len(),
        ensures
            r@ == decode_country_table(table@)[index as int],
    {
        Country { bytes: record_at(table, COUNTRY_SIZE, index) }
    }

    /// The two bytes of the country code.
    pub fn code(&self) -> (r: &'a [u8])
        ensures
            r@ == self@.code,
    {
        proof {
            use_type_invariant(self);
        }
        slice_subrange(self.bytes, 0, 2)
    }

    /// The two bytes of the code of the continent.
    pub fn continent_code(&self) -> (r: &'a [u8])
        ensures
            r@ == self@.continent_code,
    {
        proof {
            use_type_invariant(self);
        }
        slice_subrange(self.bytes, 2, 4)
    }

    /// The name of the country.
    pub fn name(&self) -> (r: StrRef)
        ensures
            r == self@.name,
    {
        proof {
            use_type_invariant(self);
        }
        StrRef { offset: u32_at(self.bytes, 4) }
    }
}

} // verus!
