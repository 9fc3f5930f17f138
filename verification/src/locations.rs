//! The database: opening it, and the queries on it.

use crate::addr::{
    key_ipv4_root, key_v4, key_v6, reverse_bits_u128, reverse_bits_u32, truncated_v4,
    truncated_v6, IpAddr, IPV4_MAPPED_PREFIX,
};
use crate::error::{found, outcome, outcome_opt, Corruption, OpenError};
use crate::format::{
    has_magic, FileRange, Header, StrRef, AS_SIZE, COUNTRY_SIZE, HEADER_SIZE, NETWORK_NODE_SIZE,
    NETWORK_SIZE, VERSION,
};
use crate::info::{
    lemma_from_v4_keeps_view, lemma_from_v6_keeps_view, As, Country, Network, NetworkInner,
    NetworkV4, NetworkV6,
};
use crate::model::{code_rank, open_result, section, Database};
use crate::text::read_string;
use crate::time::{is_on_utc_calendar, timestamp_from};
use crate::trie::{
    deepest_marked, descend, find_marked, find_node, key_of_reversed, lemma_dead_end_keeps_match,
    lemma_in_bounds_extends, lemma_match_is_deepest, lemma_register_step,
    lemma_stopped_walk_stays_in_bounds, lemma_walk_stays_stopped, stays_in_bounds,
};
use vstd::pervasive::unreached;
use vstd::prelude::*;
use vstd::slice::slice_subrange;
use vstd::string::StringSliceAdditionalSpecFns;
use vstd::utf8::encode_utf8_decode_utf8;

verus! {

/// The bytes of a section of a file, if the range lies inside the file.
pub fn get_range<'a>(file: &'a [u8], range: FileRange) -> (r: Option<&'a [u8]>)
    ensures
        found(r) == section(file@, range, 1),
{
    let end = match range.offset.checked_add(range.length) {
        Some(end) => end,
        None => return None,
    };
    if end as usize > file.len() {
        return None;
    }
    Some(slice_subrange(file, range.offset as usize, end as usize))
}

/// The bytes of a table of a file, if the range lies inside the file and
/// its length is a multiple of the size of a record.
pub fn get_typed_range<'a>(file: &'a [u8], range: FileRange, record_size: usize) -> (r: Option<
    &'a [u8],
>)
    requires
        record_size > 0,
    ensures
        found(r) == section(file@, range, record_size as nat),
{
    match get_range(file, range) {
        Some(bytes) => {
            if bytes.len() % record_size == 0 {
                Some(bytes)
            } else {
                None
            }
        },
        None => None,
    }
}

/// The sections of a database, and the node under which its trie keeps the
/// IPv4 networks.
pub struct LocationsInner<'a> {
    header: Header<'a>,
    as_: &'a [u8],
    networks: &'a [u8],
    network_nodes: &'a [u8],
    countries: &'a [u8],
    string_pool: &'a [u8],
    ipv4_network_node: Option<u32>,
}

impl<'a> View for LocationsInner<'a> {
    type V = Database;

    closed spec fn view(&self) -> Database {
        Database {
            header: self.header@,
            as_: crate::format::decode_as_table(self.as_@),
            networks: crate::format::decode_network_table(self.networks@),
            network_nodes: crate::format::decode_network_node_table(self.network_nodes@),
            countries: crate::format::decode_country_table(self.countries@),
            string_pool: self.string_pool@,
        }
    }
}

impl<'a> LocationsInner<'a> {
    /// The header of the database.
    pub fn header(&self) -> (r: &Header<'a>)
        ensures
            r@ == self@.header,
    {
        &self.header
    }

    /// The number of records of autonomous systems.
    pub fn as_len(&self) -> (r: usize)
        ensures
            r == self@.as_.len(),
    {
        crate::format::As::count(self.as_)
    }

    /// The number of records of networks.
    pub fn networks_len(&self) -> (r: usize)
        ensures
            r == self@.networks.len(),
    {
        crate::format::Network::count(self.networks)
    }

    /// The number of nodes of the trie.
    pub fn network_nodes_len(&self) -> (r: usize)
        ensures
            r == self@.network_nodes.len(),
    {
        crate::format::NetworkNode::count(self.network_nodes)
    }

    /// The number of records of countries.
    pub fn countries_len(&self) -> (r: usize)
        ensures
            r == self@.countries.len(),
    {
        crate::format::Country::count(self.countries)
    }

    /// The record of an autonomous system.
    pub fn as_(&self, index: u32) -> (r: crate::format::As<'a>)
        requires
            index < self@.as_.len(),
        ensures
            r@ == self@.as_[index as int],
    {
        crate::format::As::at(self.as_, index as usize)
    }

    /// The record of a network.
    pub fn network(&self, index: u32) -> (r: crate::format::Network<'a>)
        requires
            index < self@.networks.len(),
        ensures
            r@ == self@.networks[index as int],
    {
        crate::format::Network::at(self.networks, index as usize)
    }

    /// A node of the trie.
    pub fn network_node(&self, index: u32) -> (r: crate::format::NetworkNode<'a>)
        requires
            index < self@.network_nodes.len(),
        ensures
            r@ == self@.network_nodes[index as int],
    {
        crate::format::NetworkNode::at(self.network_nodes, index as usize)
    }

    /// The record of a country.
    pub fn country(&self, index: u32) -> (r: crate::format::Country<'a>)
        requires
            index < self@.countries.len(),
        ensures
            r@ == self@.countries[index as int],
    {
        crate::format::Country::at(self.countries, index as usize)
    }

    /// The string that a reference points to, or what is corrupt about it.
    pub fn try_string(&self, str_ref: StrRef) -> (r: Result<&'a str, Corruption>)
        ensures
            outcome(r) == self@.string(str_ref),
    {
        read_string(self.string_pool, str_ref.offset as usize)
    }

    /// The string that a reference points to.
    pub fn string(&self, str_ref: StrRef) -> (r: &'a str)
        requires
            self@.string(str_ref) is Ok,
        ensures
            Ok::<Seq<char>, Corruption>(r@) == self@.string(str_ref),
    {
        match self.try_string(str_ref) {
            Ok(r) => r,
            Err(_) => unreached(),
        }
    }

    /// Walks the trie from `root` along the lowest `num_bits` bits of
    /// `bits_reverse`, the lowest first, and yields depth and network of the
    /// deepest node on the way that bears a network; or reports that the
    /// walk has left the node table.
    pub fn try_find_network(&self, root: u32, bits_reverse: u128, num_bits: u32) -> (r: Result<
        Option<(u8, u32)>,
        Corruption,
    >)
        requires
            num_bits <= 128,
        ensures
            r == find_marked(
                self@.network_nodes,
                root,
                key_of_reversed(bits_reverse, num_bits as nat),
            ),
    {
        let ghost nodes = self@.network_nodes;
        let ghost key = key_of_reversed(bits_reverse, num_bits as nat);
        let count = self.network_nodes_len();
        if root as usize >= count {
            assert(descend(nodes, root, key, 0) == Some(root));
            return Err(Corruption::NetworkNodeIndex);
        }
        let mut used_bits: u8 = 0;
        let mut bits = bits_reverse;
        let ghost mut cur_index = root;
        let mut cur = self.network_node(root);
        let mut last_network: Option<(u8, u32)> = None;
        let mut dead_end = false;
        assert(bits_reverse >> 0u128 == bits_reverse) by (bit_vector);
        while (used_bits as u32) < num_bits && !dead_end
            invariant
                num_bits <= 128,
                used_bits <= num_bits,
                nodes == self@.network_nodes,
                key == key_of_reversed(bits_reverse, num_bits as nat),
                count == nodes.len(),
                descend(nodes, root, key, used_bits as nat) == Some(cur_index),
                cur_index < count,
                cur@ == nodes[cur_index as int],
                stays_in_bounds(nodes, root, key, used_bits as nat + 1),
                last_network == (if used_bits == 0 {
                    None
                } else {
                    deepest_marked(nodes, root, key, (used_bits - 1) as nat)
                }),
                dead_end ==> descend(nodes, root, key, used_bits as nat + 1) is None,
                used_bits < 128 ==> bits == bits_reverse >> (used_bits as u128),
            decreases num_bits - used_bits + (if dead_end { 0int } else { 1int }),
        {
            let bit = bits & 1 != 0;
            proof {
                lemma_register_step(bits_reverse, used_bits as u128, bits);
            }
            let next_index = cur.child(bit);
            if next_index == 0 {
                dead_end = true;
            } else {
                if let Some(network) = cur.network() {
                    last_network = Some((used_bits, network));
                }
                if next_index as usize >= count {
                    assert(descend(nodes, root, key, used_bits as nat + 1) == Some(next_index));
                    return Err(Corruption::NetworkNodeIndex);
                }
                proof {
                    lemma_in_bounds_extends(nodes, root, key, used_bits as nat + 1);
                    cur_index = next_index;
                }
                bits = bits >> 1;
                used_bits += 1;
                cur = self.network_node(next_index);
            }
        }
        if let Some(network) = cur.network() {
            last_network = Some((used_bits, network));
        }
        proof {
            if dead_end {
                lemma_dead_end_keeps_match(nodes, root, key, used_bits as nat, num_bits as nat);
                lemma_stopped_walk_stays_in_bounds(
                    nodes,
                    root,
                    key,
                    used_bits as nat,
                    num_bits as nat + 1,
                );
            }
        }
        Ok(last_network)
    }

    /// Walks the trie from `root` along the lowest `num_bits` bits of
    /// `bits_reverse`, the lowest first, and yields depth and network of the
    /// deepest node on the way that bears a network.
    pub fn find_network(&self, root: u32, bits_reverse: u128, num_bits: u32) -> (r: Option<
        (u8, u32),
    >)
        requires
            num_bits <= 128,
            find_marked(
                self@.network_nodes,
                root,
                key_of_reversed(bits_reverse, num_bits as nat),
            ) is Ok,
        ensures
            Ok::<Option<(u8, u32)>, Corruption>(r) == find_marked(
                self@.network_nodes,
                root,
                key_of_reversed(bits_reverse, num_bits as nat),
            ),
    {
        match self.try_find_network(root, bits_reverse, num_bits) {
            Ok(r) => r,
            Err(_) => unreached(),
        }
    }

    /// Walks the trie from `root` along the lowest `num_bits` bits of
    /// `bits_reverse`, the lowest first, and yields the node that the last
    /// bit leads to, if the walk gets that far; or reports that the walk
    /// has left the node table.
    pub fn try_find_network_node(&self, root: u32, bits_reverse: u128, num_bits: u32) -> (r:
        Result<Option<u32>, Corruption>)
        requires
            num_bits <= 128,
        ensures
            r == find_node(
                self@.network_nodes,
                root,
                key_of_reversed(bits_reverse, num_bits as nat),
            ),
    {
        let ghost nodes = self@.network_nodes;
        let ghost key = key_of_reversed(bits_reverse, num_bits as nat);
        let count = self.network_nodes_len();
        let mut bits = bits_reverse;
        let mut cur_index = root;
        let mut used_bits: u32 = 0;
        assert(bits_reverse >> 0u128 == bits_reverse) by (bit_vector);
        while used_bits < num_bits
            invariant
                num_bits <= 128,
                used_bits <= num_bits,
                nodes == self@.network_nodes,
                key == key_of_reversed(bits_reverse, num_bits as nat),
                count == nodes.len(),
                descend(nodes, root, key, used_bits as nat) == Some(cur_index),
                stays_in_bounds(nodes, root, key, used_bits as nat),
                used_bits < 128 ==> bits == bits_reverse >> (used_bits as u128),
            decreases num_bits - used_bits,
        {
            if cur_index as usize >= count {
                return Err(Corruption::NetworkNodeIndex);
            }
            let bit = bits & 1 != 0;
            proof {
                lemma_register_step(bits_reverse, used_bits as u128, bits);
                lemma_in_bounds_extends(nodes, root, key, used_bits as nat);
            }
            cur_index = self.network_node(cur_index).child(bit);
            if cur_index == 0 {
                proof {
                    lemma_walk_stays_stopped(
                        nodes,
                        root,
                        key,
                        used_bits as nat + 1,
                        num_bits as nat,
                    );
                    lemma_stopped_walk_stays_in_bounds(
                        nodes,
                        root,
                        key,
                        used_bits as nat,
                        num_bits as nat,
                    );
                }
                return Ok(None);
            }
            bits = bits >> 1;
            used_bits += 1;
        }
        Ok(Some(cur_index))
    }

    /// Walks the trie from `root` along the lowest `num_bits` bits of
    /// `bits_reverse`, the lowest first, and yields the node that the last
    /// bit leads to, if the walk gets that far.
    pub fn find_network_node(&self, root: u32, bits_reverse: u128, num_bits: u32) -> (r: Option<
        u32,
    >)
        requires
            num_bits <= 128,
            find_node(
                self@.network_nodes,
                root,
                key_of_reversed(bits_reverse, num_bits as nat),
            ) is Ok,
        ensures
            Ok::<Option<u32>, Corruption>(r) == find_node(
                self@.network_nodes,
                root,
                key_of_reversed(bits_reverse, num_bits as nat),
            ),
    {
        match self.try_find_network_node(root, bits_reverse, num_bits) {
            Ok(r) => r,
            Err(_) => unreached(),
        }
    }
}

/// A database in libloc format, read from the bytes of its file.
pub struct Locations<'a> {
    inner: LocationsInner<'a>,
}

impl<'a> View for Locations<'a> {
    type V = Database;

    closed spec fn view(&self) -> Database {
        self.inner@
    }
}

/// What opening has answered, the database replaced by its view.
pub open spec fn open_view(r: Result<Locations, OpenError>) -> Result<Database, OpenError> {
    match r {
        Ok(locations) => Ok(locations@),
        Err(e) => Err(e),
    }
}

/// What opening has answered or found corrupt, the database replaced by its
/// view.
pub open spec fn try_open_view(r: Result<Result<Locations, OpenError>, Corruption>) -> Result<
    Result<Database, OpenError>,
    Corruption,
> {
    match r {
        Ok(opened) => Ok(open_view(opened)),
        Err(e) => Err(e),
    }
}

impl<'a> Locations<'a> {
    #[verifier::type_invariant]
    spec fn well_formed(self) -> bool {
        self.inner@.ipv4_root() == Ok::<Option<u32>, Corruption>(self.inner.ipv4_network_node)
    }

    /// The sections of the database.
    pub fn inner(&self) -> (r: &LocationsInner<'a>)
        ensures
            r@ == self@,
    {
        &self.inner
    }

    /// Opens the database that the bytes of a file hold, or tells why they
    /// hold none; or reports that the trie is corrupt on the way to the
    /// root of the IPv4 networks.
    pub fn try_open(data: &'a [u8]) -> (r: Result<Result<Locations<'a>, OpenError>, Corruption>)
        ensures
            try_open_view(r) == open_result(data@),
    {
        if !has_magic(data) || data.len() < HEADER_SIZE {
            return Ok(Err(OpenError::InvalidMagic));
        }
        let header = match Header::parse(data) {
            Some(header) => header,
            None => return Ok(Err(OpenError::CouldntReadHeader)),
        };
        if header.version() != VERSION {
            return Ok(Err(OpenError::UnsupportedVersion(header.version())));
        }
        let as_ = match get_typed_range(data, header.as_(), AS_SIZE) {
            Some(as_) => as_,
            None => return Ok(Err(OpenError::InvalidAsRange)),
        };
        let networks = match get_typed_range(data, header.networks(), NETWORK_SIZE) {
            Some(networks) => networks,
            None => return Ok(Err(OpenError::InvalidNetworkRange)),
        };
        let network_nodes = match get_typed_range(data, header.network_nodes(), NETWORK_NODE_SIZE) {
            Some(network_nodes) => network_nodes,
            None => return Ok(Err(OpenError::InvalidNetworkNodeRange)),
        };
        let countries = match get_typed_range(data, header.countries(), COUNTRY_SIZE) {
            Some(countries) => countries,
            None => return Ok(Err(OpenError::InvalidCountryRange)),
        };
        let string_pool = match get_range(data, header.string_pool()) {
            Some(string_pool) => string_pool,
            None => return Ok(Err(OpenError::InvalidStringPoolRange)),
        };
        let mut inner = LocationsInner {
            header,
            as_,
            networks,
            network_nodes,
            countries,
            string_pool,
            ipv4_network_node: None,
        };
        if inner.network_nodes_len() > 0 {
            let bits = reverse_bits_u128(IPV4_MAPPED_PREFIX);
            assert(key_of_reversed(bits, 96) =~= key_ipv4_root());
            match inner.try_find_network_node(0, bits, 96) {
                Ok(root) => {
                    inner.ipv4_network_node = root;
                },
                Err(e) => return Err(e),
            }
        }
        Ok(Ok(Locations { inner }))
    }

    /// Opens the database that the bytes of a file hold, or tells why they
    /// hold none.
    pub fn open(data: &'a [u8]) -> (r: Result<Locations<'a>, OpenError>)
        requires
            open_result(data@) is Ok,
        ensures
            Ok::<Result<Database, OpenError>, Corruption>(open_view(r)) == open_result(data@),
    {
        match Locations::try_open(data) {
            Ok(r) => r,
            Err(_) => unreached(),
        }
    }

    /// The creation time of the database, in seconds since the Unix epoch.
    pub fn created_at(&self) -> (r: i64)
        requires
            self@.created_at() is Ok,
        ensures
            Ok::<i64, Corruption>(r) == self@.created_at(),
    {
        match timestamp_from(self.inner.header.created_at(), true) {
            Ok(r) => r,
            Err(_) => unreached(),
        }
    }

    /// The creation time of the database, in seconds since the Unix epoch;
    /// or the report that it is no point in time.
    pub fn try_created_at(&self) -> (r: Result<i64, Corruption>)
        ensures
            r == self@.created_at(),
    {
        let raw = self.inner.header.created_at();
        if raw <= i64::MAX as u64 && is_on_utc_calendar(raw as i64) {
            Ok(self.created_at())
        } else {
            Err(Corruption::CreatedAt)
        }
    }

    /// The vendor of the database.
    pub fn vendor(&self) -> (r: &'a str)
        requires
            self@.vendor() is Ok,
        ensures
            Ok::<Seq<char>, Corruption>(r@) == self@.vendor(),
    {
        self.inner.string(self.inner.header.vendor())
    }

    /// The vendor of the database, or what is corrupt about the string.
    pub fn try_vendor(&self) -> (r: Result<&'a str, Corruption>)
        ensures
            outcome(r) == self@.vendor(),
    {
        self.inner.try_string(self.inner.header.vendor())
    }

    /// The description of the database.
    pub fn description(&self) -> (r: &'a str)
        requires
            self@.description() is Ok,
        ensures
            Ok::<Seq<char>, Corruption>(r@) == self@.description(),
    {
        self.inner.string(self.inner.header.description())
    }

    /// The description of the database, or what is corrupt about the
    /// string.
    pub fn try_description(&self) -> (r: Result<&'a str, Corruption>)
        ensures
            outcome(r) == self@.description(),
    {
        self.inner.try_string(self.inner.header.description())
    }

    /// The license of the database.
    pub fn license(&self) -> (r: &'a str)
        requires
            self@.license() is Ok,
        ensures
            Ok::<Seq<char>, Corruption>(r@) == self@.license(),
    {
        self.inner.string(self.inner.header.license())
    }

    /// The license of the database, or what is corrupt about the string.
    pub fn try_license(&self) -> (r: Result<&'a str, Corruption>)
        ensures
            outcome(r) == self@.license(),
    {
        self.inner.try_string(self.inner.header.license())
    }

    /// Searches the table of autonomous systems for a number by bisection.
    fn search_as(&self, asn: u32) -> (r: Option<usize>)
        ensures
            r matches Some(i) ==> i < self@.as_.len() && self@.as_[i as int].id == asn,
            r is None && self@.as_sorted() ==> !self@.has_as(asn),
    {
        let mut low: usize = 0;
        let mut high: usize = self.inner.as_len();
        while low < high
            invariant
                low <= high <= self@.as_.len(),
                self@.as_sorted() ==> forall|i: int| 0 <= i < low ==> self@.as_[i].id < asn,
                self@.as_sorted() ==> forall|i: int|
                    high <= i < self@.as_.len() ==> self@.as_[i].id > asn,
            decreases high - low,
        {
            let mid = low + (high - low) / 2;
            let id = crate::format::As::at(self.inner.as_, mid).id();
            if id == asn {
                return Some(mid);
            } else if id < asn {
                low = mid + 1;
            } else {
                high = mid;
            }
        }
        None
    }

    /// The autonomous system with the given number, if the table holds it;
    /// or what is corrupt about its record.
    pub fn try_as_(&self, asn: u32) -> (r: Result<Option<As<'a>>, Corruption>)
        ensures
            self@.as_sorted() ==> outcome_opt(r) == self@.as_(asn),
            outcome_opt(r) == Ok::<Option<crate::model::AsView>, Corruption>(None) || exists|
                i: int,
            |
                0 <= i < self@.as_.len() && #[trigger] self@.as_[i].id == asn && outcome_opt(r)
                    == self@.as_hit(i),
            r matches Ok(Some(info)) ==> info@.asn == asn,
    {
        let index = match self.search_as(asn) {
            Some(index) => index,
            None => return Ok(None),
        };
        let record = crate::format::As::at(self.inner.as_, index);
        match As::try_from(&self.inner, record) {
            Ok(info) => Ok(Some(info)),
            Err(e) => Err(e),
        }
    }

    /// The autonomous system with the given number, if the table holds it.
    pub fn as_(&self, asn: u32) -> (r: Option<As<'a>>)
        requires
            self@.as_defined(asn),
        ensures
            r matches Some(info) ==> info@.asn == asn && self@.has_as(asn),
            self@.as_sorted() ==> (r is Some <==> self@.has_as(asn)),
            self@.as_sorted() ==> Ok::<Option<crate::model::AsView>, Corruption>(found(r))
                == self@.as_(asn),
    {
        match self.try_as_(asn) {
            Ok(r) => r,
            Err(_) => unreached(),
        }
    }

    /// Searches the table of countries for a code by bisection.
    fn search_country(&self, rank: u16) -> (r: Option<usize>)
        ensures
            r matches Some(i) ==> i < self@.countries.len() && code_rank(
                self@.countries[i as int].code,
            ) == rank,
            r is None && self@.countries_sorted() ==> forall|i: int|
                0 <= i < self@.countries.len() ==> code_rank(#[trigger] self@.countries[i].code)
                    != rank,
    {
        let mut low: usize = 0;
        let mut high: usize = self.inner.countries_len();
        while low < high
            invariant
                low <= high <= self@.countries.len(),
                self@.countries_sorted() ==> forall|i: int|
                    0 <= i < low ==> code_rank(#[trigger] self@.countries[i].code) < rank,
                self@.countries_sorted() ==> forall|i: int|
                    high <= i < self@.countries.len() ==> code_rank(
                        #[trigger] self@.countries[i].code,
                    ) > rank,
            decreases high - low,
        {
            let mid = low + (high - low) / 2;
            let code = crate::format::Country::at(self.inner.countries, mid).code();
            let mid_rank = code[0] as u16 * 0x100 + code[1] as u16;
            if mid_rank == rank {
                return Some(mid);
            } else if mid_rank < rank {
                low = mid + 1;
            } else {
                high = mid;
            }
        }
        None
    }

    /// The country with the given code, if the code has two bytes and the
    /// table holds it; or what is corrupt about its record.
    pub fn try_country(&self, code: &str) -> (r: Result<Option<Country<'a>>, Corruption>)
        ensures
            self@.countries_sorted() ==> outcome_opt(r) == self@.country(code.spec_bytes()),
            outcome_opt(r) == Ok::<Option<crate::model::CountryView>, Corruption>(None) || (
            code.spec_bytes().len() == 2 && exists|i: int|
                0 <= i < self@.countries.len() && code_rank(#[trigger] self@.countries[i].code)
                    == code_rank(code.spec_bytes()) && outcome_opt(r) == self@.country_hit(i)),
            r matches Ok(Some(info)) ==> info@.code == code@,
    {
        if code.len() != 2 {
            return Ok(None);
        }
        let bytes = code.as_bytes();
        let rank = bytes[0] as u16 * 0x100 + bytes[1] as u16;
        let index = match self.search_country(rank) {
            Some(index) => index,
            None => return Ok(None),
        };
        let record = crate::format::Country::at(self.inner.countries, index);
        proof {
            assert(record@.code =~= code.spec_bytes());
            encode_utf8_decode_utf8(code@);
        }
        match Country::try_from(&self.inner, record) {
            Ok(info) => Ok(Some(info)),
            Err(e) => Err(e),
        }
    }

    /// The country with the given code, if the code has two bytes and the
    /// table holds it.
    pub fn country(&self, code: &str) -> (r: Option<Country<'a>>)
        requires
            self@.country_defined(code.spec_bytes()),
        ensures
            r is Some ==> code.spec_bytes().len() == 2 && self@.has_country(code.spec_bytes()),
            r matches Some(info) ==> info@.code == code@,
            self@.countries_sorted() ==> (r is Some <==> code.spec_bytes().len() == 2
                && self@.has_country(code.spec_bytes())),
            self@.countries_sorted() ==> Ok::<Option<crate::model::CountryView>, Corruption>(
                found(r),
            ) == self@.country(code.spec_bytes()),
    {
        match self.try_country(code) {
            Ok(r) => r,
            Err(_) => unreached(),
        }
    }

    /// The longest network that holds an IPv4 address, if there is one; or
    /// what is corrupt on the way to it.
    pub fn try_lookup_v4(&self, addr: u32) -> (r: Result<Option<NetworkV4<'a>>, Corruption>)
        ensures
            outcome_opt(r) == self@.lookup_v4(addr),
            r matches Ok(Some(network)) ==> network@.addrs.contains(addr)
                && network@.addrs.prefix_len <= 32,
    {
        proof {
            use_type_invariant(self);
        }
        let root = match self.inner.ipv4_network_node {
            Some(root) => root,
            None => return Ok(None),
        };
        let bits = reverse_bits_u32(addr) as u128;
        assert(key_of_reversed(bits, 32) =~= key_v4(addr));
        let (num_bits, network_idx) = match self.inner.try_find_network(root, bits, 32) {
            Ok(Some(found)) => found,
            Ok(None) => return Ok(None),
            Err(e) => return Err(e),
        };
        proof {
            lemma_match_is_deepest(self@.network_nodes, root, key_v4(addr), 32);
        }
        let addrs = truncated_v4(addr, num_bits);
        if network_idx as usize >= self.inner.networks_len() {
            return Err(Corruption::NetworkIndex);
        }
        match NetworkInner::try_from(&self.inner, self.inner.network(network_idx)) {
            Ok(inner) => Ok(Some(NetworkV4::new(inner, addrs))),
            Err(e) => Err(e),
        }
    }

    /// The longest network that holds an IPv4 address, if there is one.
    pub fn lookup_v4(&self, addr: u32) -> (r: Option<NetworkV4<'a>>)
        requires
            self@.lookup_v4(addr) is Ok,
        ensures
            Ok::<Option<crate::model::NetworkV4View>, Corruption>(found(r)) == self@.lookup_v4(
                addr,
            ),
            r matches Some(network) ==> network@.addrs.contains(addr)
                && network@.addrs.prefix_len <= 32,
    {
        match self.try_lookup_v4(addr) {
            Ok(r) => r,
            Err(_) => unreached(),
        }
    }

    /// The longest network that holds an IPv6 address, if there is one; or
    /// what is corrupt on the way to it.
    pub fn try_lookup_v6(&self, addr: u128) -> (r: Result<Option<NetworkV6<'a>>, Corruption>)
        ensures
            outcome_opt(r) == self@.lookup_v6(addr),
            r matches Ok(Some(network)) ==> network@.addrs.contains(addr)
                && network@.addrs.prefix_len <= 128,
    {
        if self.inner.network_nodes_len() == 0 {
            return Ok(None);
        }
        let bits = reverse_bits_u128(addr);
        assert(key_of_reversed(bits, 128) =~= key_v6(addr));
        let (num_bits, network_idx) = match self.inner.try_find_network(0, bits, 128) {
            Ok(Some(found)) => found,
            Ok(None) => return Ok(None),
            Err(e) => return Err(e),
        };
        proof {
            lemma_match_is_deepest(self@.network_nodes, 0, key_v6(addr), 128);
        }
        let addrs = truncated_v6(addr, num_bits);
        if network_idx as usize >= self.inner.networks_len() {
            return Err(Corruption::NetworkIndex);
        }
        match NetworkInner::try_from(&self.inner, self.inner.network(network_idx)) {
            Ok(inner) => Ok(Some(NetworkV6::new(inner, addrs))),
            Err(e) => Err(e),
        }
    }

    /// The longest network that holds an IPv6 address, if there is one.
    pub fn lookup_v6(&self, addr: u128) -> (r: Option<NetworkV6<'a>>)
        requires
            self@.lookup_v6(addr) is Ok,
        ensures
            Ok::<Option<crate::model::NetworkV6View>, Corruption>(found(r)) == self@.lookup_v6(
                addr,
            ),
            r matches Some(network) ==> network@.addrs.contains(addr)
                && network@.addrs.prefix_len <= 128,
    {
        match self.try_lookup_v6(addr) {
            Ok(r) => r,
            Err(_) => unreached(),
        }
    }

    /// The longest network that holds an address, if there is one; or what
    /// is corrupt on the way to it.
    pub fn try_lookup(&self, addr: IpAddr) -> (r: Result<Option<Network<'a>>, Corruption>)
        ensures
            outcome_opt(r) == self@.lookup(addr),
            addr matches IpAddr::V4(a) ==> outcome_opt(r) == crate::model::widen_v4(
                self@.lookup_v4(a),
            ),
            addr matches IpAddr::V6(a) ==> outcome_opt(r) == crate::model::widen_v6(
                self@.lookup_v6(a),
            ),
            r matches Ok(Some(network)) ==> network@.addrs.contains(addr),
    {
        match addr {
            IpAddr::V4(addr) => match self.try_lookup_v4(addr) {
                Ok(Some(network)) => {
                    proof {
                        lemma_from_v4_keeps_view(network);
                    }
                    Ok(Some(Network::from(network)))
                },
                Ok(None) => Ok(None),
                Err(e) => Err(e),
            },
            IpAddr::V6(addr) => match self.try_lookup_v6(addr) {
                Ok(Some(network)) => {
                    proof {
                        lemma_from_v6_keeps_view(network);
                    }
                    Ok(Some(Network::from(network)))
                },
                Ok(None) => Ok(None),
                Err(e) => Err(e),
            },
        }
    }

    /// The longest network that holds an address, if there is one: for an
    /// address of either family, what the lookup of that family finds.
    pub fn lookup(&self, addr: IpAddr) -> (r: Option<Network<'a>>)
        requires
            self@.lookup(addr) is Ok,
        ensures
            Ok::<Option<crate::model::NetworkView>, Corruption>(found(r)) == self@.lookup(addr),
            addr matches IpAddr::V4(a) ==> Ok::<Option<crate::model::NetworkView>, Corruption>(
                found(r),
            ) == crate::model::widen_v4(self@.lookup_v4(a)),
            addr matches IpAddr::V6(a) ==> Ok::<Option<crate::model::NetworkView>, Corruption>(
                found(r),
            ) == crate::model::widen_v6(self@.lookup_v6(a)),
            r matches Some(network) ==> network@.addrs.contains(addr),
    {
        match self.try_lookup(addr) {
            Ok(r) => r,
            Err(_) => unreached(),
        }
    }
}

} // verus!
