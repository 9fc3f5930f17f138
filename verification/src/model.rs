//! What a database is and what its queries answer, as mathematics.
//!
//! A `Database` is the decoded contents of a file. Every query of the
//! library is a function of it that is defined here, and the executable
//! queries are specified by these functions. A query answers `Err` where
//! the tables contradict each other on the way to the answer.

use crate::addr::{
    key_ipv4_root, key_v4, key_v6, network_v4, network_v6, IpAddr, IpNet, Ipv4Net, Ipv6Net,
};
use crate::error::{Corruption, OpenError};
use crate::format::{
    decode_as_table, decode_country_table, decode_header, decode_network_node_table,
    decode_network_table, AsRecord, CountryRecord, FileRange, HeaderRecord, NetworkNodeRecord,
    NetworkRecord, StrRef, AS_SIZE, COUNTRY_SIZE, HEADER_SIZE, MAGIC, NETWORK_FLAG_ANONYMOUS_PROXY,
    NETWORK_FLAG_ANYCAST, NETWORK_FLAG_DROP, NETWORK_FLAG_SATELLITE_PROVIDER, NETWORK_NODE_SIZE,
    NETWORK_SIZE, VERSION,
};
use crate::text::string_at;
use crate::time::on_utc_calendar;
use crate::trie::{find_marked, find_node, lemma_deeper_wins, lemma_match_is_deepest, marked_at};
use vstd::prelude::*;
use vstd::utf8::{decode_utf8, valid_utf8};

verus! {

/// What is known of an autonomous system.
pub struct AsView {
    pub asn: u32,
    pub name: Seq<char>,
}

/// What is known of a country.
pub struct CountryView {
    pub code: Seq<char>,
    pub continent_code: Seq<char>,
    pub name: Seq<char>,
}

/// What is known of a network, but for its addresses.
pub struct NetworkInnerView {
    pub country_code: Seq<char>,
    pub asn: u32,
    pub flags: u16,
}

impl NetworkInnerView {
    /// Whether the network hosts anonymous proxies.
    pub open spec fn is_anonymous_proxy(self) -> bool {
        self.flags & NETWORK_FLAG_ANONYMOUS_PROXY != 0
    }

    /// Whether the network is that of a satellite provider.
    pub open spec fn is_satellite_provider(self) -> bool {
        self.flags & NETWORK_FLAG_SATELLITE_PROVIDER != 0
    }

    /// Whether the network consists of anycast addresses.
    pub open spec fn is_anycast(self) -> bool {
        self.flags & NETWORK_FLAG_ANYCAST != 0
    }

    /// Whether traffic of the network should be dropped.
    pub open spec fn is_drop(self) -> bool {
        self.flags & NETWORK_FLAG_DROP != 0
    }
}

/// What is known of an IPv4 network.
pub struct NetworkV4View {
    pub inner: NetworkInnerView,
    pub addrs: Ipv4Net,
}

/// What is known of an IPv6 network.
pub struct NetworkV6View {
    pub inner: NetworkInnerView,
    pub addrs: Ipv6Net,
}

/// What is known of a network of either family.
pub struct NetworkView {
    pub inner: NetworkInnerView,
    pub addrs: IpNet,
}

impl NetworkV4View {
    /// The same network, with its family forgotten.
    pub open spec fn widen(self) -> NetworkView {
        NetworkView { inner: self.inner, addrs: IpNet::V4(self.addrs) }
    }
}

impl NetworkV6View {
    /// The same network, with its family forgotten.
    pub open spec fn widen(self) -> NetworkView {
        NetworkView { inner: self.inner, addrs: IpNet::V6(self.addrs) }
    }
}

/// The answer of the lookup of an IPv4 address, as that of a lookup of an
/// address of either family.
pub open spec fn widen_v4(r: Result<Option<NetworkV4View>, Corruption>) -> Result<
    Option<NetworkView>,
    Corruption,
> {
    match r {
        Ok(Some(network)) => Ok(Some(network.widen())),
        Ok(None) => Ok(None),
        Err(e) => Err(e),
    }
}

/// The answer of the lookup of an IPv6 address, as that of a lookup of an
/// address of either family.
pub open spec fn widen_v6(r: Result<Option<NetworkV6View>, Corruption>) -> Result<
    Option<NetworkView>,
    Corruption,
> {
    match r {
        Ok(Some(network)) => Ok(Some(network.widen())),
        Ok(None) => Ok(None),
        Err(e) => Err(e),
    }
}

/// The number that orders two-letter codes as their bytes are ordered.
pub open spec fn code_rank(code: Seq<u8>) -> int
    recommends
        code.len() == 2,
{
    code[0] as int * 0x100 + code[1] as int
}

/// The decoded contents of a database file.
pub struct Database {
    pub header: HeaderRecord,
    pub as_: Seq<AsRecord>,
    pub networks: Seq<NetworkRecord>,
    pub network_nodes: Seq<NetworkNodeRecord>,
    pub countries: Seq<CountryRecord>,
    pub string_pool: Seq<u8>,
}

impl Database {
    /// The string that a reference points to.
    pub open spec fn string(self, str_ref: StrRef) -> Result<Seq<char>, Corruption> {
        string_at(self.string_pool, str_ref.offset as int)
    }

    /// The vendor of the database.
    pub open spec fn vendor(self) -> Result<Seq<char>, Corruption> {
        self.string(self.header.vendor)
    }

    /// The description of the database.
    pub open spec fn description(self) -> Result<Seq<char>, Corruption> {
        self.string(self.header.description)
    }

    /// The license of the database.
    pub open spec fn license(self) -> Result<Seq<char>, Corruption> {
        self.string(self.header.license)
    }

    /// The creation time of the database, in seconds since the Unix epoch.
    pub open spec fn created_at(self) -> Result<i64, Corruption> {
        if self.header.created_at <= i64::MAX && on_utc_calendar(self.header.created_at as i64) {
            Ok(self.header.created_at as i64)
        } else {
            Err(Corruption::CreatedAt)
        }
    }

    /// What a record of the table of autonomous systems says.
    pub open spec fn as_info(self, record: AsRecord) -> Result<AsView, Corruption> {
        match self.string(record.name) {
            Ok(name) => Ok(AsView { asn: record.id, name }),
            Err(e) => Err(e),
        }
    }

    /// Whether the table of autonomous systems is strictly ascending by
    /// number, as the format demands.
    pub open spec fn as_sorted(self) -> bool {
        forall|i: int, j: int| 0 <= i < j < self.as_.len() ==> self.as_[i].id < self.as_[j].id
    }

    /// Whether the table holds the autonomous system with the given number.
    pub open spec fn has_as(self, asn: u32) -> bool {
        exists|i: int| 0 <= i < self.as_.len() && #[trigger] self.as_[i].id == asn
    }

    /// Whether every record of the given number has a name that can be
    /// read: whether the lookup of the number has an answer, whichever of
    /// these records it finds.
    pub open spec fn as_defined(self, asn: u32) -> bool {
        forall|i: int|
            0 <= i < self.as_.len() && #[trigger] self.as_[i].id == asn ==> self.as_info(
                self.as_[i],
            ) is Ok
    }

    /// The answer of a lookup that has found the record with the given
    /// index in the table of autonomous systems.
    pub open spec fn as_hit(self, index: int) -> Result<Option<AsView>, Corruption>
        recommends
            0 <= index < self.as_.len(),
    {
        match self.as_info(self.as_[index]) {
            Ok(info) => Ok(Some(info)),
            Err(e) => Err(e),
        }
    }

    /// The autonomous system with the given number, if the table holds it.
    pub open spec fn as_(self, asn: u32) -> Result<Option<AsView>, Corruption> {
        if self.has_as(asn) {
            self.as_hit(choose|i: int| 0 <= i < self.as_.len() && #[trigger] self.as_[i].id == asn)
        } else {
            Ok(None)
        }
    }

    /// What a record of the table of countries says.
    pub open spec fn country_info(self, record: CountryRecord) -> Result<CountryView, Corruption> {
        if !valid_utf8(record.code) {
            Err(Corruption::CountryCodeUtf8)
        } else if !valid_utf8(record.continent_code) {
            Err(Corruption::ContinentCodeUtf8)
        } else {
            match self.string(record.name) {
                Ok(name) => Ok(
                    CountryView {
                        code: decode_utf8(record.code),
                        continent_code: decode_utf8(record.continent_code),
                        name,
                    },
                ),
                Err(e) => Err(e),
            }
        }
    }

    /// Whether the table of countries is strictly ascending by code, as the
    /// format demands.
    pub open spec fn countries_sorted(self) -> bool {
        forall|i: int, j: int|
            0 <= i < j < self.countries.len() ==> code_rank(self.countries[i].code) < code_rank(
                self.countries[j].code,
            )
    }

    /// Whether the table holds the country with the given code.
    pub open spec fn has_country(self, code: Seq<u8>) -> bool {
        exists|i: int|
            0 <= i < self.countries.len() && code_rank(#[trigger] self.countries[i].code)
                == code_rank(code)
    }

    /// Whether every record of the given code can be read: whether the
    /// lookup of the code has an answer, whichever of these records it
    /// finds.
    pub open spec fn country_defined(self, code: Seq<u8>) -> bool {
        forall|i: int|
            0 <= i < self.countries.len() && code_rank(#[trigger] self.countries[i].code)
                == code_rank(code) ==> self.country_info(self.countries[i]) is Ok
    }

    /// The answer of a lookup that has found the record with the given
    /// index in the table of countries.
    pub open spec fn country_hit(self, index: int) -> Result<Option<CountryView>, Corruption>
        recommends
            0 <= index < self.countries.len(),
    {
        match self.country_info(self.countries[index]) {
            Ok(info) => Ok(Some(info)),
            Err(e) => Err(e),
        }
    }

    /// The country with the given code, if the code has two bytes and the
    /// table holds it.
    pub open spec fn country(self, code: Seq<u8>) -> Result<Option<CountryView>, Corruption> {
        if code.len() == 2 && self.has_country(code) {
            self.country_hit(
                choose|i: int|
                    0 <= i < self.countries.len() && code_rank(#[trigger] self.countries[i].code)
                        == code_rank(code),
            )
        } else {
            Ok(None)
        }
    }

    /// What a record of the table of networks says.
    pub open spec fn network_info(self, record: NetworkRecord) -> Result<
        NetworkInnerView,
        Corruption,
    > {
        if valid_utf8(record.country_code) {
            Ok(
                NetworkInnerView {
                    country_code: decode_utf8(record.country_code),
                    asn: record.asn,
                    flags: record.flags,
                },
            )
        } else {
            Err(Corruption::NetworkCountryCodeUtf8)
        }
    }

    /// What the network with the given index says.
    pub open spec fn network(self, index: u32) -> Result<NetworkInnerView, Corruption> {
        if index < self.networks.len() {
            self.network_info(self.networks[index as int])
        } else {
            Err(Corruption::NetworkIndex)
        }
    }

    /// The node under which the trie keeps the IPv4 networks: the one that
    /// the first 96 bits of the IPv4-mapped addresses lead to from the
    /// root. An empty trie has none.
    pub open spec fn ipv4_root(self) -> Result<Option<u32>, Corruption> {
        if self.network_nodes.len() == 0 {
            Ok(None)
        } else {
            find_node(self.network_nodes, 0, key_ipv4_root())
        }
    }

    /// The match of an IPv4 address in the trie: prefix length and index of
    /// the longest network that holds it.
    pub open spec fn match_v4(self, addr: u32) -> Result<Option<(u8, u32)>, Corruption> {
        match self.ipv4_root() {
            Ok(Some(root)) => find_marked(self.network_nodes, root, key_v4(addr)),
            Ok(None) => Ok(None),
            Err(e) => Err(e),
        }
    }

    /// The match of an IPv6 address in the trie: prefix length and index of
    /// the longest network that holds it. An empty trie has none.
    pub open spec fn match_v6(self, addr: u128) -> Result<Option<(u8, u32)>, Corruption> {
        if self.network_nodes.len() == 0 {
            Ok(None)
        } else {
            find_marked(self.network_nodes, 0, key_v6(addr))
        }
    }

    /// The longest network that holds an IPv4 address.
    pub open spec fn lookup_v4(self, addr: u32) -> Result<Option<NetworkV4View>, Corruption> {
        match self.match_v4(addr) {
            Ok(Some((prefix_len, index))) => match self.network(index) {
                Ok(inner) => Ok(
                    Some(NetworkV4View { inner, addrs: network_v4(addr, prefix_len) }),
                ),
                Err(e) => Err(e),
            },
            Ok(None) => Ok(None),
            Err(e) => Err(e),
        }
    }

    /// The longest network that holds an IPv6 address.
    pub open spec fn lookup_v6(self, addr: u128) -> Result<Option<NetworkV6View>, Corruption> {
        match self.match_v6(addr) {
            Ok(Some((prefix_len, index))) => match self.network(index) {
                Ok(inner) => Ok(
                    Some(NetworkV6View { inner, addrs: network_v6(addr, prefix_len) }),
                ),
                Err(e) => Err(e),
            },
            Ok(None) => Ok(None),
            Err(e) => Err(e),
        }
    }

    /// The longest network that holds an address.
    pub open spec fn lookup(self, addr: IpAddr) -> Result<Option<NetworkView>, Corruption> {
        match addr {
            IpAddr::V4(a) => widen_v4(self.lookup_v4(a)),
            IpAddr::V6(a) => widen_v6(self.lookup_v6(a)),
        }
    }
}

/// The bytes of a section of a file, if the range lies inside the file and
/// its length is a multiple of the size of a record.
pub open spec fn section(file: Seq<u8>, range: FileRange, record_size: nat) -> Option<Seq<u8>>
    recommends
        record_size > 0,
{
    if range.offset + range.length <= u32::MAX && range.offset + range.length <= file.len()
        && range.length as nat % record_size == 0 {
        Some(file.subrange(range.offset as int, range.offset + range.length))
    } else {
        None
    }
}

/// Whether a file starts with the magic of the format and is long enough
/// to hold a header.
pub open spec fn starts_as_database(file: Seq<u8>) -> bool {
    file.len() >= HEADER_SIZE && file.subrange(0, 7) == MAGIC@
}

/// The database that a file holds, or the reason why it holds none. The
/// checks are made in this order: magic and length, version, then the
/// ranges of the sections as the header lists them.
pub open spec fn parse(file: Seq<u8>) -> Result<Database, OpenError> {
    let header = decode_header(file.subrange(0, HEADER_SIZE as int));
    if !starts_as_database(file) {
        Err(OpenError::InvalidMagic)
    } else if header.version != VERSION {
        Err(OpenError::UnsupportedVersion(header.version))
    } else if section(file, header.as_, AS_SIZE as nat) is None {
        Err(OpenError::InvalidAsRange)
    } else if section(file, header.networks, NETWORK_SIZE as nat) is None {
        Err(OpenError::InvalidNetworkRange)
    } else if section(file, header.network_nodes, NETWORK_NODE_SIZE as nat) is None {
        Err(OpenError::InvalidNetworkNodeRange)
    } else if section(file, header.countries, COUNTRY_SIZE as nat) is None {
        Err(OpenError::InvalidCountryRange)
    } else if section(file, header.string_pool, 1) is None {
        Err(OpenError::InvalidStringPoolRange)
    } else {
        Ok(
            Database {
                header,
                as_: decode_as_table(section(file, header.as_, AS_SIZE as nat).unwrap()),
                networks: decode_network_table(
                    section(file, header.networks, NETWORK_SIZE as nat).unwrap(),
                ),
                network_nodes: decode_network_node_table(
                    section(file, header.network_nodes, NETWORK_NODE_SIZE as nat).unwrap(),
                ),
                countries: decode_country_table(
                    section(file, header.countries, COUNTRY_SIZE as nat).unwrap(),
                ),
                string_pool: section(file, header.string_pool, 1).unwrap(),
            },
        )
    }
}

/// What opening a file answers: the database that it holds, or why it
/// holds none; and `Err` on the outside where the trie of a database that
/// it does hold is corrupt on the way to the root of the IPv4 networks.
pub open spec fn open_result(file: Seq<u8>) -> Result<Result<Database, OpenError>, Corruption> {
    match parse(file) {
        Ok(database) => match database.ipv4_root() {
            Ok(_) => Ok(Ok(database)),
            Err(e) => Err(e),
        },
        Err(e) => Ok(Err(e)),
    }
}

/// A network that a lookup finds holds the address that was looked up: the
/// address has the prefix of the network, and the prefix is no longer than
/// an address of the family.
pub proof fn lemma_found_network_holds_address(database: Database, addr: IpAddr)
    ensures
        database.lookup(addr) matches Ok(Some(network)) ==> network.addrs.contains(addr),
        addr matches IpAddr::V4(a) ==> (database.lookup_v4(a) matches Ok(Some(network))
            ==> network.addrs.contains(a) && network.addrs.prefix_len <= 32),
        addr matches IpAddr::V6(a) ==> (database.lookup_v6(a) matches Ok(Some(network))
            ==> network.addrs.contains(a) && network.addrs.prefix_len <= 128),
{
    match addr {
        IpAddr::V4(a) => {
            if let Ok(Some(root)) = database.ipv4_root() {
                lemma_match_is_deepest(database.network_nodes, root, key_v4(a), 32);
            }
        },
        IpAddr::V6(a) => {
            lemma_match_is_deepest(database.network_nodes, 0, key_v6(a), 128);
        },
    }
}

/// Longest-prefix match for IPv4: where two nodes on the walk of an address
/// bear a network, the match of the address is at least as long as the
/// longer of the two prefixes, and so is the network that a lookup finds.
pub proof fn lemma_longer_prefix_wins_v4(
    database: Database,
    addr: u32,
    root: u32,
    shallow: nat,
    deep: nat,
)
    requires
        database.ipv4_root() == Ok::<Option<u32>, Corruption>(Some(root)),
        database.match_v4(addr) is Ok,
        shallow < deep <= 32,
        marked_at(database.network_nodes, root, key_v4(addr), shallow),
        marked_at(database.network_nodes, root, key_v4(addr), deep),
    ensures
        database.match_v4(addr) matches Ok(Some((prefix_len, _))) && prefix_len >= deep,
        database.lookup_v4(addr) matches Ok(Some(network)) ==> network.addrs.prefix_len >= deep,
{
    lemma_deeper_wins(database.network_nodes, root, key_v4(addr), 32, shallow, deep);
}

/// Longest-prefix match for IPv6: where two nodes on the walk of an address
/// bear a network, the match of the address is at least as long as the
/// longer of the two prefixes, and so is the network that a lookup finds.
pub proof fn lemma_longer_prefix_wins_v6(database: Database, addr: u128, shallow: nat, deep: nat)
    requires
        database.match_v6(addr) is Ok,
        shallow < deep <= 128,
        marked_at(database.network_nodes, 0, key_v6(addr), shallow),
        marked_at(database.network_nodes, 0, key_v6(addr), deep),
    ensures
        database.match_v6(addr) matches Ok(Some((prefix_len, _))) && prefix_len >= deep,
        database.lookup_v6(addr) matches Ok(Some(network)) ==> network.addrs.prefix_len >= deep,
{
    lemma_deeper_wins(database.network_nodes, 0, key_v6(addr), 128, shallow, deep);
}

/// A sorted table holds no number twice, so there is one record at most
/// that a lookup of a number can find.
pub proof fn lemma_sorted_as_is_unique(database: Database, asn: u32, i: int, j: int)
    requires
        database.as_sorted(),
        0 <= i < database.as_.len(),
        0 <= j < database.as_.len(),
        database.as_[i].id == asn,
        database.as_[j].id == asn,
    ensures
        i == j,
        database.as_(asn) == database.as_hit(i),
{
    if i < j {
        assert(database.as_[i].id < database.as_[j].id);
    } else if j < i {
        assert(database.as_[j].id < database.as_[i].id);
    }
    let k = choose|k: int| 0 <= k < database.as_.len() && #[trigger] database.as_[k].id == asn;
    if k < i {
        assert(database.as_[k].id < database.as_[i].id);
    } else if i < k {
        assert(database.as_[i].id < database.as_[k].id);
    }
}

/// A sorted table holds no code twice, so there is one record at most that
/// a lookup of a code can find.
pub proof fn lemma_sorted_country_is_unique(database: Database, code: Seq<u8>, i: int, j: int)
    requires
        database.countries_sorted(),
        code.len() == 2,
        0 <= i < database.countries.len(),
        0 <= j < database.countries.len(),
        code_rank(database.countries[i].code) == code_rank(code),
        code_rank(database.countries[j].code) == code_rank(code),
    ensures
        i == j,
        database.country(code) == database.country_hit(i),
{
    if i < j {
        assert(code_rank(database.countries[i].code) < code_rank(database.countries[j].code));
    } else if j < i {
        assert(code_rank(database.countries[j].code) < code_rank(database.countries[i].code));
    }
    let k = choose|k: int|
        0 <= k < database.countries.len() && code_rank(#[trigger] database.countries[k].code)
            == code_rank(code);
    if k < i {
        assert(code_rank(database.countries[k].code) < code_rank(database.countries[i].code));
    } else if i < k {
        assert(code_rank(database.countries[i].code) < code_rank(database.countries[k].code));
    }
}

/// The same file holds the same database, whenever it is opened: the same
/// vendor, description, license and creation time, and the same answer to
/// the lookup of any address.
pub proof fn lemma_same_file_same_answers(
    file: Seq<u8>,
    first: Database,
    second: Database,
    addr: IpAddr,
)
    requires
        open_result(file) == Ok::<Result<Database, OpenError>, Corruption>(Ok(first)),
        open_result(file) == Ok::<Result<Database, OpenError>, Corruption>(Ok(second)),
    ensures
        first == second,
        first.vendor() == second.vendor(),
        first.description() == second.description(),
        first.license() == second.license(),
        first.created_at() == second.created_at(),
        first.lookup(addr) == second.lookup(addr),
{
}

/// A file that does not start with the magic bytes is no database.
pub proof fn lemma_wrong_magic_is_refused(file: Seq<u8>)
    requires
        file.len() < 7 || file.subrange(0, 7) != MAGIC@,
    ensures
        parse(file) == Err::<Database, OpenError>(OpenError::InvalidMagic),
        open_result(file) == Ok::<Result<Database, OpenError>, Corruption>(
            Err(OpenError::InvalidMagic),
        ),
{
}

/// A file with the magic bytes and a whole header whose version is not the
/// supported one is refused for its version.
pub proof fn lemma_wrong_version_is_refused(file: Seq<u8>)
    requires
        starts_as_database(file),
        file[7] != VERSION,
    ensures
        parse(file) == Err::<Database, OpenError>(OpenError::UnsupportedVersion(file[7])),
        open_result(file) == Ok::<Result<Database, OpenError>, Corruption>(
            Err(OpenError::UnsupportedVersion(file[7])),
        ),
{
}

/// A range whose end overflows or lies behind the end of the file is the
/// range of no section.
pub proof fn lemma_range_outside_file_is_no_section(
    file: Seq<u8>,
    range: FileRange,
    record_size: nat,
)
    requires
        range.offset + range.length > u32::MAX || range.offset + range.length > file.len(),
    ensures
        section(file, range, record_size) is None,
{
}

/// A file with a good header is refused for the first of its sections, in
/// the order of the header, whose range is that of no section.
pub proof fn lemma_bad_section_is_refused(file: Seq<u8>)
    requires
        starts_as_database(file),
        file[7] == VERSION,
    ensures
        ({
            let header = decode_header(file.subrange(0, HEADER_SIZE as int));
            let as_ = section(file, header.as_, AS_SIZE as nat);
            let networks = section(file, header.networks, NETWORK_SIZE as nat);
            let network_nodes = section(file, header.network_nodes, NETWORK_NODE_SIZE as nat);
            let countries = section(file, header.countries, COUNTRY_SIZE as nat);
            let string_pool = section(file, header.string_pool, 1);
            &&& as_ is None ==> parse(file) == Err::<Database, OpenError>(
                OpenError::InvalidAsRange,
            )
            &&& as_ is Some && networks is None ==> parse(file) == Err::<Database, OpenError>(
                OpenError::InvalidNetworkRange,
            )
            &&& as_ is Some && networks is Some && network_nodes is None ==> parse(file) == Err::<
                Database,
                OpenError,
            >(OpenError::InvalidNetworkNodeRange)
            &&& as_ is Some && networks is Some && network_nodes is Some && countries is None
                ==> parse(file) == Err::<Database, OpenError>(OpenError::InvalidCountryRange)
            &&& as_ is Some && networks is Some && network_nodes is Some && countries is Some
                && string_pool is None ==> parse(file) == Err::<Database, OpenError>(
                OpenError::InvalidStringPoolRange,
            )
            &&& as_ is Some && networks is Some && network_nodes is Some && countries is Some
                && string_pool is Some ==> parse(file) is Ok
        }),
{
}

/// A database without trie nodes holds no network: every lookup finds
/// none.
pub proof fn lemma_empty_trie_finds_nothing(database: Database, addr: IpAddr)
    requires
        database.network_nodes.len() == 0,
    ensures
        database.lookup(addr) == Ok::<Option<NetworkView>, Corruption>(None),
        addr matches IpAddr::V4(a) ==> database.lookup_v4(a) == Ok::<
            Option<NetworkV4View>,
            Corruption,
        >(None),
        addr matches IpAddr::V6(a) ==> database.lookup_v6(a) == Ok::<
            Option<NetworkV6View>,
            Corruption,
        >(None),
{
}

} // verus!
