use libloc::{Corruption, IpAddr, IpNet, Locations, OpenError};

const HEADER_SIZE: usize = 4200;
const NO_NETWORK: u32 = 0xffff_ffff;
const ANONYMOUS_PROXY: u16 = 0x1;
const SATELLITE_PROVIDER: u16 = 0x2;
const ANYCAST: u16 = 0x4;
const DROP: u16 = 0x8;
const MAPPED: u128 = 0xffff_0000_0000;

/// A database under construction: the tables as values, to be laid out as
/// the bytes of a file.
struct Db {
    magic: [u8; 7],
    version: u8,
    created_at: u64,
    vendor: u32,
    description: u32,
    license: u32,
    ases: Vec<(u32, u32)>,
    networks: Vec<([u8; 2], u32, u16)>,
    nodes: Vec<([u32; 2], u32)>,
    countries: Vec<([u8; 2], [u8; 2], u32)>,
    pool: Vec<u8>,
}

impl Db {
    fn empty() -> Db {
        Db {
            magic: *b"LOCDBXX",
            version: 1,
            created_at: 0,
            vendor: 0,
            description: 0,
            license: 0,
            ases: Vec::new(),
            networks: Vec::new(),
            nodes: Vec::new(),
            countries: Vec::new(),
            pool: vec![0],
        }
    }

    fn string(&mut self, text: &str) -> u32 {
        let offset = self.pool.len() as u32;
        self.pool.extend_from_slice(text.as_bytes());
        self.pool.push(0);
        offset
    }

    fn add_as(&mut self, asn: u32, name: &str) {
        let name = self.string(name);
        self.ases.push((asn, name));
    }

    fn add_country(&mut self, code: &str, continent: &str, name: &str) {
        let name = self.string(name);
        let code = code.as_bytes();
        let continent = continent.as_bytes();
        self.countries.push(([code[0], code[1]], [continent[0], continent[1]], name));
    }

    fn add_network(&mut self, country: &str, asn: u32, flags: u16) -> u32 {
        let country = country.as_bytes();
        self.networks.push(([country[0], country[1]], asn, flags));
        (self.networks.len() - 1) as u32
    }

    /// The node that the first `prefix_len` bits of `addr` lead to, with
    /// the nodes on the way made where they are missing.
    fn path(&mut self, addr: u128, prefix_len: u8) -> usize {
        if self.nodes.is_empty() {
            self.nodes.push(([0, 0], NO_NETWORK));
        }
        let mut cur = 0usize;
        for depth in 0..prefix_len {
            let bit = ((addr >> (127 - depth)) & 1) as usize;
            if self.nodes[cur].0[bit] == 0 {
                self.nodes.push(([0, 0], NO_NETWORK));
                self.nodes[cur].0[bit] = (self.nodes.len() - 1) as u32;
            }
            cur = self.nodes[cur].0[bit] as usize;
        }
        cur
    }

    fn insert(&mut self, addr: u128, prefix_len: u8, network: u32) {
        let node = self.path(addr, prefix_len);
        self.nodes[node].1 = network;
    }

    fn insert_v4(&mut self, addr: u32, prefix_len: u8, network: u32) {
        self.insert(MAPPED | addr as u128, 96 + prefix_len, network);
    }

    fn section_lengths(&self) -> [u32; 5] {
        [
            (self.ases.len() * 8) as u32,
            (self.networks.len() * 12) as u32,
            (self.nodes.len() * 12) as u32,
            (self.countries.len() * 8) as u32,
            self.pool.len() as u32,
        ]
    }

    fn bytes(&self) -> Vec<u8> {
        let mut out = Vec::new();
        out.extend_from_slice(&self.magic);
        out.push(self.version);
        out.extend_from_slice(&self.created_at.to_be_bytes());
        out.extend_from_slice(&self.vendor.to_be_bytes());
        out.extend_from_slice(&self.description.to_be_bytes());
        out.extend_from_slice(&self.license.to_be_bytes());
        let mut offset = HEADER_SIZE as u32;
        for length in self.section_lengths() {
            out.extend_from_slice(&offset.to_be_bytes());
            out.extend_from_slice(&length.to_be_bytes());
            offset += length;
        }
        out.extend_from_slice(&3u16.to_be_bytes());
        out.extend_from_slice(&5u16.to_be_bytes());
        out.resize(HEADER_SIZE, 0);
        out[72..75].copy_from_slice(&[0xaa, 0xbb, 0xcc]);
        out[2120..2125].copy_from_slice(&[1, 2, 3, 4, 5]);
        for (asn, name) in &self.ases {
            out.extend_from_slice(&asn.to_be_bytes());
            out.extend_from_slice(&name.to_be_bytes());
        }
        for (country, asn, flags) in &self.networks {
            out.extend_from_slice(country);
            out.extend_from_slice(&[0, 0]);
            out.extend_from_slice(&asn.to_be_bytes());
            out.extend_from_slice(&flags.to_be_bytes());
            out.extend_from_slice(&[0, 0]);
        }
        for (children, network) in &self.nodes {
            out.extend_from_slice(&children[0].to_be_bytes());
            out.extend_from_slice(&children[1].to_be_bytes());
            out.extend_from_slice(&network.to_be_bytes());
        }
        for (code, continent, name) in &self.countries {
            out.extend_from_slice(code);
            out.extend_from_slice(continent);
            out.extend_from_slice(&name.to_be_bytes());
        }
        out.extend_from_slice(&self.pool);
        out
    }
}

/// Where the range of the section with the given number stands in the
/// header.
fn range_pos(section: usize) -> usize {
    28 + 8 * section
}

fn set_range(bytes: &mut [u8], section: usize, offset: u32, length: u32) {
    let pos = range_pos(section);
    bytes[pos..pos + 4].copy_from_slice(&offset.to_be_bytes());
    bytes[pos + 4..pos + 8].copy_from_slice(&length.to_be_bytes());
}

fn v4(text: &str) -> u32 {
    let net: ipnet::Ipv4Net = format!("{}/32", text).parse().unwrap();
    net.addr().into()
}

fn v6(text: &str) -> u128 {
    let net: ipnet::Ipv6Net = format!("{}/128", text).parse().unwrap();
    net.addr().into()
}

fn text_v4(net: libloc::Ipv4Net) -> String {
    ipnet::Ipv4Net::new(net.addr().into(), net.prefix_len()).unwrap().to_string()
}

fn text_v6(net: libloc::Ipv6Net) -> String {
    ipnet::Ipv6Net::new(net.addr().into(), net.prefix_len()).unwrap().to_string()
}

fn text(net: IpNet) -> String {
    match net {
        IpNet::V4(net) => text_v4(net),
        IpNet::V6(net) => text_v6(net),
    }
}

/// A small database with the entries that the tests ask for.
fn sample() -> Db {
    let mut db = Db::empty();
    db.created_at = 1707258629;
    db.vendor = db.string("IPFire Project");
    db.description = db.string("This is a geo location database");
    db.license = db.string("CC");
    db.add_as(64496, "Example AS");
    db.add_as(204867, "Lightning Wire Labs GmbH");
    db.add_as(4200000000, "Private AS");
    db.add_country("AT", "EU", "Austria");
    db.add_country("DE", "EU", "Germany");
    db.add_country("US", "NA", "United States of America");
    let lightning = db.add_network("DE", 204867, ANYCAST);
    let example = db.add_network("US", 64496, 0);
    let unknown = db.add_network("XX", 0, ANONYMOUS_PROXY | DROP);
    let austria = db.add_network("AT", 0, SATELLITE_PROVIDER);
    db.insert(v6("2a07:1c44::"), 32, austria);
    db.insert(v6("2a07:1c44:5800::"), 40, lightning);
    db.insert_v4(v4("10.0.0.0"), 8, example);
    db.insert_v4(v4("10.1.0.0"), 16, unknown);
    db.path(MAPPED | v4("10.1.128.0") as u128, 96 + 17);
    db.insert_v4(v4("192.0.2.0"), 24, example);
    db
}

fn open(bytes: &[u8]) -> Locations<'_> {
    match Locations::try_open(bytes) {
        Ok(Ok(locations)) => locations,
        Ok(Err(e)) => panic!("not opened: {:?}", e),
        Err(e) => panic!("corrupt: {:?}", e),
    }
}

fn open_error(bytes: &[u8]) -> OpenError {
    match Locations::try_open(bytes) {
        Ok(Err(e)) => e,
        Ok(Ok(_)) => panic!("opened"),
        Err(e) => panic!("corrupt: {:?}", e),
    }
}

#[test]
fn lookup_v6_finds_the_sample_network() {
    let bytes = sample().bytes();
    let locations = open(&bytes);
    let network = locations.lookup_v6(v6("2a07:1c44:5800::1")).unwrap();
    assert_eq!(network.country_code(), "DE");
    assert_eq!(network.asn(), 204867);
    assert_eq!(network.is_anycast(), true);
    assert_eq!(network.is_anonymous_proxy(), false);
    assert_eq!(network.is_satellite_provider(), false);
    assert_eq!(network.is_drop(), false);
    assert_eq!(text_v6(network.addrs()), "2a07:1c44:5800::/40");
    assert_eq!(network.addrs().addr(), 0x2a07_1c44_5800_0000_0000_0000_0000_0000);
    assert_eq!(network.addrs().prefix_len(), 40);
}

#[test]
fn lookup_through_the_unified_entry_finds_the_sample_network() {
    let bytes = sample().bytes();
    let locations = open(&bytes);
    let network = locations.lookup(IpAddr::V6(v6("2a07:1c44:5800::1"))).unwrap();
    assert_eq!(network.country_code(), "DE");
    assert_eq!(network.asn(), 204867);
    assert_eq!(network.is_anycast(), true);
    assert_eq!(network.is_anonymous_proxy(), false);
    assert_eq!(network.is_satellite_provider(), false);
    assert_eq!(network.is_drop(), false);
    assert_eq!(text(network.addrs()), "2a07:1c44:5800::/40");
}

#[test]
fn lookup_v4_of_loopback_finds_nothing() {
    let bytes = sample().bytes();
    let locations = open(&bytes);
    assert!(locations.lookup_v4(v4("127.0.0.1")).is_none());
    assert!(locations.lookup(IpAddr::V4(v4("127.0.0.1"))).is_none());
    assert!(matches!(locations.try_lookup_v4(v4("127.0.0.1")), Ok(None)));
}

#[test]
fn as_by_number() {
    let bytes = sample().bytes();
    let locations = open(&bytes);
    let found = locations.as_(204867).unwrap();
    assert_eq!(found.name(), "Lightning Wire Labs GmbH");
    assert_eq!(found.asn(), 204867);
    assert!(locations.as_(0).is_none());
    assert!(matches!(locations.try_as_(0), Ok(None)));
}

#[test]
fn as_is_found_exactly_if_the_table_holds_it() {
    let bytes = sample().bytes();
    let locations = open(&bytes);
    for asn in [64496u32, 204867, 4200000000] {
        assert_eq!(locations.as_(asn).unwrap().asn(), asn);
    }
    assert_eq!(locations.as_(64496).unwrap().name(), "Example AS");
    assert_eq!(locations.as_(4200000000).unwrap().name(), "Private AS");
    for asn in [0u32, 1, 64495, 64497, 204866, 204868, 4199999999, 4200000001, u32::MAX] {
        assert!(locations.as_(asn).is_none());
    }
}

#[test]
fn as_lookup_in_an_empty_table() {
    let bytes = Db::empty().bytes();
    let locations = open(&bytes);
    assert!(locations.as_(204867).is_none());
    assert!(locations.country("DE").is_none());
}

#[test]
fn country_by_code() {
    let bytes = sample().bytes();
    let locations = open(&bytes);
    let germany = locations.country("DE").unwrap();
    assert_eq!(germany.name(), "Germany");
    assert_eq!(germany.code(), "DE");
    assert_eq!(germany.continent_code(), "EU");
    assert!(locations.country("XX").is_none());
    assert!(matches!(locations.try_country("XX"), Ok(None)));
}

#[test]
fn country_is_found_exactly_if_the_table_holds_it() {
    let bytes = sample().bytes();
    let locations = open(&bytes);
    assert_eq!(locations.country("AT").unwrap().name(), "Austria");
    assert_eq!(locations.country("US").unwrap().name(), "United States of America");
    assert_eq!(locations.country("US").unwrap().continent_code(), "NA");
    for code in ["AA", "AS", "AU", "DD", "DF", "ED", "UR", "UT", "ZZ", "de", "\u{e9}"] {
        assert!(locations.country(code).is_none());
    }
}

#[test]
fn country_code_of_another_length_finds_nothing() {
    let bytes = sample().bytes();
    let locations = open(&bytes);
    for code in ["", "D", "DEU", "DE ", " DE", "Germany"] {
        assert!(locations.country(code).is_none());
        assert!(matches!(locations.try_country(code), Ok(None)));
    }
}

#[test]
fn country_with_a_code_that_is_no_ascii() {
    let mut db = sample();
    db.add_country("\u{e9}", "EU", "Nowhere");
    let bytes = db.bytes();
    let locations = open(&bytes);
    let found = locations.country("\u{e9}").unwrap();
    assert_eq!(found.name(), "Nowhere");
    assert_eq!(found.code(), "\u{e9}");
}

#[test]
fn metadata_of_the_sample() {
    let bytes = sample().bytes();
    let locations = open(&bytes);
    assert_eq!(locations.vendor(), "IPFire Project");
    assert_eq!(locations.description(), "This is a geo location database");
    assert_eq!(locations.license(), "CC");
    assert_eq!(locations.created_at(), 1707258629);
    let created_at = chrono::DateTime::from_timestamp(locations.created_at(), 0).unwrap();
    assert_eq!(created_at.to_string(), "2024-02-06 22:30:29 UTC");
    assert_eq!(locations.try_vendor(), Ok("IPFire Project"));
    assert_eq!(locations.try_description(), Ok("This is a geo location database"));
    assert_eq!(locations.try_license(), Ok("CC"));
    assert_eq!(locations.try_created_at(), Ok(1707258629));
}

#[test]
fn open_of_a_text_file_is_invalid_magic() {
    let text = b"[package]\nname = \"libloc\"\nversion = \"0.1.0\"\nedition = \"2021\"\n";
    assert!(matches!(open_error(text), OpenError::InvalidMagic));
    let mut long = text.to_vec();
    long.resize(3 * HEADER_SIZE, b'#');
    assert!(matches!(open_error(&long), OpenError::InvalidMagic));
    assert!(matches!(Locations::open(text), Err(OpenError::InvalidMagic)));
}

#[test]
fn open_with_wrong_magic_is_invalid_magic() {
    for i in 0..7 {
        let mut bytes = sample().bytes();
        bytes[i] ^= 0x20;
        assert!(matches!(open_error(&bytes), OpenError::InvalidMagic));
    }
    let mut db = sample();
    db.magic = *b"LOCDBXY";
    db.version = 2;
    assert!(matches!(open_error(&db.bytes()), OpenError::InvalidMagic));
}

#[test]
fn open_of_a_file_shorter_than_a_header_is_invalid_magic() {
    let bytes = sample().bytes();
    assert!(matches!(open_error(&[]), OpenError::InvalidMagic));
    assert!(matches!(open_error(&bytes[..6]), OpenError::InvalidMagic));
    assert!(matches!(open_error(&bytes[..7]), OpenError::InvalidMagic));
    assert!(matches!(open_error(&bytes[..8]), OpenError::InvalidMagic));
    assert!(matches!(open_error(&bytes[..HEADER_SIZE - 1]), OpenError::InvalidMagic));
}

#[test]
fn open_of_a_bare_header() {
    let mut bytes = Db::empty().bytes();
    set_range(&mut bytes, 4, HEADER_SIZE as u32, 0);
    bytes.truncate(HEADER_SIZE);
    let locations = open(&bytes);
    assert_eq!(locations.inner().network_nodes_len(), 0);
    assert_eq!(locations.try_vendor(), Err(Corruption::MissingNul));
}

#[test]
fn open_with_another_version_is_unsupported() {
    for version in [0u8, 2, 3, 255] {
        let mut db = sample();
        db.version = version;
        match open_error(&db.bytes()) {
            OpenError::UnsupportedVersion(v) => assert_eq!(v, version),
            e => panic!("{:?}", e),
        }
    }
    let mut db = sample();
    db.version = 7;
    let mut bytes = db.bytes();
    set_range(&mut bytes, 0, u32::MAX, u32::MAX);
    assert!(matches!(open_error(&bytes), OpenError::UnsupportedVersion(7)));
}

fn is_range_error(section: usize, e: &OpenError) -> bool {
    match section {
        0 => matches!(e, OpenError::InvalidAsRange),
        1 => matches!(e, OpenError::InvalidNetworkRange),
        2 => matches!(e, OpenError::InvalidNetworkNodeRange),
        3 => matches!(e, OpenError::InvalidCountryRange),
        _ => matches!(e, OpenError::InvalidStringPoolRange),
    }
}

#[test]
fn open_with_a_range_that_overflows() {
    for section in 0..5 {
        let mut bytes = sample().bytes();
        set_range(&mut bytes, section, 0xffff_fff0, 0x30);
        assert!(is_range_error(section, &open_error(&bytes)));
        let mut bytes = sample().bytes();
        set_range(&mut bytes, section, 1, u32::MAX);
        assert!(is_range_error(section, &open_error(&bytes)));
    }
}

#[test]
fn open_with_a_range_behind_the_end_of_the_file() {
    for section in 0..5 {
        let mut bytes = sample().bytes();
        let len = bytes.len() as u32;
        set_range(&mut bytes, section, len - 23, 24);
        assert!(is_range_error(section, &open_error(&bytes)));
        let mut bytes = sample().bytes();
        set_range(&mut bytes, section, len + 1, 0);
        assert!(is_range_error(section, &open_error(&bytes)));
        let mut bytes = sample().bytes();
        set_range(&mut bytes, section, 0, len + 24);
        assert!(is_range_error(section, &open_error(&bytes)));
    }
}

#[test]
fn open_with_a_range_up_to_the_end_of_the_file() {
    for section in 0..5 {
        let mut bytes = sample().bytes();
        let len = bytes.len() as u32;
        set_range(&mut bytes, section, len - 24, 24);
        assert!(!matches!(Locations::try_open(&bytes), Ok(Err(_))));
        let mut bytes = sample().bytes();
        set_range(&mut bytes, section, len, 0);
        assert!(matches!(Locations::try_open(&bytes), Ok(Ok(_))));
    }
}

#[test]
fn open_with_a_table_that_is_no_whole_number_of_records() {
    for section in 0..4 {
        let mut bytes = sample().bytes();
        set_range(&mut bytes, section, HEADER_SIZE as u32, 25);
        assert!(is_range_error(section, &open_error(&bytes)));
        let mut bytes = sample().bytes();
        set_range(&mut bytes, section, HEADER_SIZE as u32, 4);
        assert!(is_range_error(section, &open_error(&bytes)));
    }
    let mut bytes = sample().bytes();
    set_range(&mut bytes, 4, HEADER_SIZE as u32, 25);
    assert!(Locations::try_open(&bytes).unwrap().is_ok());
}

#[test]
fn open_reports_the_first_bad_range() {
    let mut bytes = sample().bytes();
    for section in 0..5 {
        set_range(&mut bytes, section, u32::MAX, 1);
    }
    for section in 0..5 {
        assert!(is_range_error(section, &open_error(&bytes)));
        set_range(&mut bytes, section, HEADER_SIZE as u32, 0);
    }
    assert!(Locations::try_open(&bytes).unwrap().is_ok());
}

#[test]
fn empty_trie_finds_nothing() {
    let mut db = sample();
    db.nodes.clear();
    let bytes = db.bytes();
    let locations = open(&bytes);
    assert_eq!(locations.inner().network_nodes_len(), 0);
    for addr in [0u32, 1, v4("10.0.0.1"), v4("127.0.0.1"), v4("192.0.2.7"), u32::MAX] {
        assert!(locations.lookup_v4(addr).is_none());
        assert!(locations.lookup(IpAddr::V4(addr)).is_none());
        assert!(matches!(locations.try_lookup_v4(addr), Ok(None)));
    }
    for addr in [0u128, 1, v6("2a07:1c44:5800::1"), MAPPED | 0x0a00_0001, u128::MAX] {
        assert!(locations.lookup_v6(addr).is_none());
        assert!(locations.lookup(IpAddr::V6(addr)).is_none());
        assert!(matches!(locations.try_lookup_v6(addr), Ok(None)));
    }
    assert_eq!(locations.vendor(), "IPFire Project");
}

#[test]
fn trie_of_a_bare_root_finds_nothing() {
    let mut db = sample();
    db.nodes = vec![([0, 0], NO_NETWORK)];
    let bytes = db.bytes();
    let locations = open(&bytes);
    assert!(locations.lookup_v4(v4("10.0.0.1")).is_none());
    assert!(locations.lookup_v6(v6("2a07:1c44:5800::1")).is_none());
    assert_eq!(locations.inner().find_network(0, 0, 128), None);
    assert_eq!(locations.inner().find_network_node(0, 0, 1), None);
    assert_eq!(locations.inner().find_network_node(0, 0, 0), Some(0));
}

#[test]
fn network_at_the_root_holds_every_address() {
    let mut db = sample();
    let everything = db.add_network("US", 1, 0);
    db.insert(0, 0, everything);
    let bytes = db.bytes();
    let locations = open(&bytes);
    let network = locations.lookup_v6(v6("2001:db8::1")).unwrap();
    assert_eq!(text_v6(network.addrs()), "::/0");
    assert_eq!(network.asn(), 1);
    assert_eq!(network.addrs().addr(), 0);
    assert_eq!(network.addrs().prefix_len(), 0);
    let network = locations.lookup_v6(v6("2a07:1c44:5800::1")).unwrap();
    assert_eq!(text_v6(network.addrs()), "2a07:1c44:5800::/40");
    assert!(locations.lookup_v4(v4("127.0.0.1")).is_none());
}

#[test]
fn network_at_the_root_of_ipv4_holds_every_ipv4_address() {
    let mut db = sample();
    let everything = db.add_network("AT", 2, DROP);
    db.insert_v4(0, 0, everything);
    let bytes = db.bytes();
    let locations = open(&bytes);
    let network = locations.lookup_v4(v4("127.0.0.1")).unwrap();
    assert_eq!(text_v4(network.addrs()), "0.0.0.0/0");
    assert_eq!(network.addrs().addr(), 0);
    assert_eq!(network.addrs().prefix_len(), 0);
    assert_eq!(network.asn(), 2);
    assert_eq!(network.is_drop(), true);
    let network = locations.lookup_v4(v4("10.200.0.1")).unwrap();
    assert_eq!(text_v4(network.addrs()), "10.0.0.0/8");
}

#[test]
fn host_network_of_full_length() {
    let mut db = sample();
    let host = db.add_network("DE", 3, 0);
    db.insert_v4(v4("198.51.100.77"), 32, host);
    db.insert(v6("2001:db8::77"), 128, host);
    let bytes = db.bytes();
    let locations = open(&bytes);
    let network = locations.lookup_v4(v4("198.51.100.77")).unwrap();
    assert_eq!(text_v4(network.addrs()), "198.51.100.77/32");
    assert_eq!(network.addrs().prefix_len(), 32);
    assert!(locations.lookup_v4(v4("198.51.100.76")).is_none());
    let network = locations.lookup_v6(v6("2001:db8::77")).unwrap();
    assert_eq!(text_v6(network.addrs()), "2001:db8::77/128");
    assert_eq!(network.addrs().prefix_len(), 128);
    assert!(locations.lookup_v6(v6("2001:db8::76")).is_none());
}

#[test]
fn deeper_network_wins() {
    let bytes = sample().bytes();
    let locations = open(&bytes);
    let deep = locations.lookup_v6(v6("2a07:1c44:5800::1")).unwrap();
    assert_eq!(text_v6(deep.addrs()), "2a07:1c44:5800::/40");
    assert_eq!(deep.country_code(), "DE");
    let shallow = locations.lookup_v6(v6("2a07:1c44:100::1")).unwrap();
    assert_eq!(text_v6(shallow.addrs()), "2a07:1c44::/32");
    assert_eq!(shallow.country_code(), "AT");
    assert_eq!(shallow.is_satellite_provider(), true);
    assert_eq!(shallow.is_anycast(), false);
    let deep = locations.lookup_v4(v4("10.1.2.3")).unwrap();
    assert_eq!(text_v4(deep.addrs()), "10.1.0.0/16");
    assert_eq!(deep.country_code(), "XX");
    assert_eq!(deep.asn(), 0);
    assert_eq!(deep.is_anonymous_proxy(), true);
    assert_eq!(deep.is_drop(), true);
    assert_eq!(deep.is_anycast(), false);
    assert_eq!(deep.is_satellite_provider(), false);
    let shallow = locations.lookup_v4(v4("10.2.3.4")).unwrap();
    assert_eq!(text_v4(shallow.addrs()), "10.0.0.0/8");
    assert_eq!(shallow.country_code(), "US");
    assert_eq!(shallow.asn(), 64496);
}

#[test]
fn barren_node_yields_the_match_of_its_ancestor() {
    let bytes = sample().bytes();
    let locations = open(&bytes);
    let network = locations.lookup_v4(v4("10.1.128.5")).unwrap();
    assert_eq!(text_v4(network.addrs()), "10.1.0.0/16");
    assert_eq!(network.country_code(), "XX");
    let mut db = Db::empty();
    db.path(v6("2001:db8::"), 32);
    let bytes = db.bytes();
    let locations = open(&bytes);
    assert!(locations.lookup_v6(v6("2001:db8::1")).is_none());
}

#[test]
fn dead_end_in_the_middle_yields_the_deepest_network() {
    let bytes = sample().bytes();
    let locations = open(&bytes);
    let network = locations.lookup_v4(v4("10.1.0.5")).unwrap();
    assert_eq!(text_v4(network.addrs()), "10.1.0.0/16");
    let network = locations.lookup_v4(v4("10.128.0.5")).unwrap();
    assert_eq!(text_v4(network.addrs()), "10.0.0.0/8");
    let network = locations.lookup_v6(v6("2a07:1c44:5880::")).unwrap();
    assert_eq!(text_v6(network.addrs()), "2a07:1c44:5800::/40");
    assert!(locations.lookup_v4(v4("11.0.0.1")).is_none());
    assert!(locations.lookup_v4(v4("192.0.3.1")).is_none());
    assert!(locations.lookup_v6(v6("2a07:1c45::1")).is_none());
}

#[test]
fn found_network_holds_the_address() {
    let bytes = sample().bytes();
    let locations = open(&bytes);
    for text in ["10.0.0.0", "10.1.2.3", "10.1.128.5", "10.255.255.255", "192.0.2.200"] {
        let addr = v4(text);
        let network = locations.lookup_v4(addr).unwrap();
        let net = network.addrs();
        let mask = if net.prefix_len() == 0 { 0 } else { u32::MAX << (32 - net.prefix_len()) };
        assert_eq!(addr & mask, net.addr());
        let cidr = ipnet::Ipv4Net::new(net.addr().into(), net.prefix_len()).unwrap();
        assert!(cidr.contains(&ipnet::Ipv4Net::new(addr.into(), 32).unwrap()));
        assert_eq!(cidr, cidr.trunc());
    }
    for text in ["2a07:1c44::", "2a07:1c44:5800::1", "2a07:1c44:58ff:ffff::", "2a07:1c44:ffff::9"] {
        let addr = v6(text);
        let network = locations.lookup_v6(addr).unwrap();
        let net = network.addrs();
        let mask = if net.prefix_len() == 0 { 0 } else { u128::MAX << (128 - net.prefix_len()) };
        assert_eq!(addr & mask, net.addr());
        let cidr = ipnet::Ipv6Net::new(net.addr().into(), net.prefix_len()).unwrap();
        assert!(cidr.contains(&ipnet::Ipv6Net::new(addr.into(), 128).unwrap()));
        assert_eq!(cidr, cidr.trunc());
    }
}

#[test]
fn lookup_agrees_with_the_lookup_of_the_family() {
    let bytes = sample().bytes();
    let locations = open(&bytes);
    for text in ["10.0.0.0", "10.1.2.3", "127.0.0.1", "192.0.2.200", "0.0.0.0", "255.255.255.255"] {
        let addr = v4(text);
        let by_family = locations.lookup_v4(addr);
        let unified = locations.lookup(IpAddr::V4(addr));
        assert_eq!(by_family.is_some(), unified.is_some());
        if let (Some(a), Some(b)) = (by_family, unified) {
            assert_eq!(IpNet::V4(a.addrs()), b.addrs());
            assert_eq!(a.country_code(), b.country_code());
            assert_eq!(a.asn(), b.asn());
            assert_eq!(a.is_anonymous_proxy(), b.is_anonymous_proxy());
            assert_eq!(a.is_satellite_provider(), b.is_satellite_provider());
            assert_eq!(a.is_anycast(), b.is_anycast());
            assert_eq!(a.is_drop(), b.is_drop());
        }
    }
    for text in ["2a07:1c44::", "2a07:1c44:5800::1", "::1", "::ffff:10.1.2.3", "ffff::"] {
        let addr = v6(text);
        let by_family = locations.lookup_v6(addr);
        let unified = locations.lookup(IpAddr::V6(addr));
        assert_eq!(by_family.is_some(), unified.is_some());
        if let (Some(a), Some(b)) = (by_family, unified) {
            assert_eq!(IpNet::V6(a.addrs()), b.addrs());
            assert_eq!(a.country_code(), b.country_code());
            assert_eq!(a.asn(), b.asn());
            assert_eq!(a.is_anonymous_proxy(), b.is_anonymous_proxy());
            assert_eq!(a.is_satellite_provider(), b.is_satellite_provider());
            assert_eq!(a.is_anycast(), b.is_anycast());
            assert_eq!(a.is_drop(), b.is_drop());
        }
    }
}

#[test]
fn network_converts_from_the_networks_of_a_family() {
    let bytes = sample().bytes();
    let locations = open(&bytes);
    let network = libloc::Network::from(locations.lookup_v4(v4("10.1.2.3")).unwrap());
    assert_eq!(text(network.addrs()), "10.1.0.0/16");
    assert_eq!(network.country_code(), "XX");
    assert_eq!(network.is_drop(), true);
    let network: libloc::Network = locations.lookup_v6(v6("2a07:1c44:5800::1")).unwrap().into();
    assert_eq!(text(network.addrs()), "2a07:1c44:5800::/40");
    assert_eq!(network.asn(), 204867);
}

#[test]
fn ipv4_address_is_found_under_its_mapped_form() {
    let bytes = sample().bytes();
    let locations = open(&bytes);
    let network = locations.lookup_v6(v6("::ffff:10.1.2.3")).unwrap();
    assert_eq!(network.addrs().prefix_len(), 96 + 16);
    assert_eq!(network.addrs().addr(), MAPPED | v4("10.1.0.0") as u128);
    assert_eq!(network.country_code(), "XX");
    assert!(locations.lookup_v6(v6("::ffff:127.0.0.1")).is_none());
}

#[test]
fn database_without_ipv4_networks() {
    let mut db = Db::empty();
    let network = db.add_network("DE", 5, 0);
    db.insert(v6("2001:db8::"), 32, network);
    let bytes = db.bytes();
    let locations = open(&bytes);
    assert!(locations.lookup_v4(v4("10.1.2.3")).is_none());
    assert!(locations.lookup_v4(0).is_none());
    assert_eq!(locations.lookup_v6(v6("2001:db8::5")).unwrap().asn(), 5);
    let reversed = MAPPED.reverse_bits();
    assert_eq!(locations.inner().find_network_node(0, reversed, 96), None);
}

#[test]
fn reopening_gives_the_same_answers() {
    let bytes = sample().bytes();
    let first = open(&bytes);
    let copy = bytes.clone();
    let second = open(&copy);
    assert_eq!(first.vendor(), second.vendor());
    assert_eq!(first.description(), second.description());
    assert_eq!(first.license(), second.license());
    assert_eq!(first.created_at(), second.created_at());
    for text in ["10.1.2.3", "127.0.0.1", "192.0.2.1"] {
        let a = first.lookup(IpAddr::V4(v4(text)));
        let b = second.lookup(IpAddr::V4(v4(text)));
        assert_eq!(a.is_some(), b.is_some());
        if let (Some(a), Some(b)) = (a, b) {
            assert_eq!(a.addrs(), b.addrs());
            assert_eq!(a.country_code(), b.country_code());
            assert_eq!(a.asn(), b.asn());
        }
    }
    let a = first.lookup(IpAddr::V6(v6("2a07:1c44:5800::1"))).unwrap();
    let b = second.lookup(IpAddr::V6(v6("2a07:1c44:5800::1"))).unwrap();
    assert_eq!(a.addrs(), b.addrs());
    assert_eq!(a.country_code(), b.country_code());
    assert_eq!(a.asn(), b.asn());
    assert_eq!(a.is_anycast(), b.is_anycast());
}

#[test]
fn walkers_on_reversed_bits() {
    let bytes = sample().bytes();
    let locations = open(&bytes);
    let inner = locations.inner();
    let reversed = v6("2a07:1c44:5800::1").reverse_bits();
    assert_eq!(inner.find_network(0, reversed, 128), Some((40, 0)));
    assert_eq!(inner.find_network(0, reversed, 40), Some((40, 0)));
    assert_eq!(inner.find_network(0, reversed, 39), Some((32, 3)));
    assert_eq!(inner.find_network(0, reversed, 32), Some((32, 3)));
    assert_eq!(inner.find_network(0, reversed, 31), None);
    assert_eq!(inner.find_network(0, reversed, 0), None);
    assert_eq!(inner.try_find_network(0, reversed, 128), Ok(Some((40, 0))));
    let root = inner.find_network_node(0, MAPPED.reverse_bits(), 96).unwrap();
    assert!(root != 0);
    assert!((root as usize) < inner.network_nodes_len());
    assert_eq!(inner.try_find_network_node(0, MAPPED.reverse_bits(), 96), Ok(Some(root)));
    assert_eq!(inner.find_network_node(0, MAPPED.reverse_bits(), 0), Some(0));
    assert_eq!(inner.find_network_node(0, 0, 96), None);
    let reversed = v4("10.1.2.3").reverse_bits() as u128;
    assert_eq!(inner.find_network(root, reversed, 32), Some((16, 2)));
    assert_eq!(inner.find_network(root, reversed, 15), Some((8, 1)));
    assert_eq!(inner.find_network(root, reversed, 7), None);
    let reversed = v4("127.0.0.1").reverse_bits() as u128;
    assert_eq!(inner.find_network(root, reversed, 32), None);
}

#[test]
fn records_by_index() {
    let bytes = sample().bytes();
    let locations = open(&bytes);
    let inner = locations.inner();
    assert_eq!(inner.as_len(), 3);
    assert_eq!(inner.networks_len(), 4);
    assert_eq!(inner.countries_len(), 3);
    let record = inner.as_(1);
    assert_eq!(record.id(), 204867);
    assert_eq!(inner.string(record.name()), "Lightning Wire Labs GmbH");
    assert_eq!(libloc::As::from(inner, record).name(), "Lightning Wire Labs GmbH");
    let record = inner.network(2);
    assert_eq!(record.country_code(), b"XX");
    assert_eq!(record.asn(), 0);
    assert_eq!(record.flags(), 9);
    assert!(libloc::NetworkInner::try_from(inner, record).is_ok());
    let record = inner.network(0);
    assert_eq!(record.country_code(), b"DE");
    assert_eq!(record.asn(), 204867);
    assert_eq!(record.flags(), 4);
    let _ = libloc::NetworkInner::from(inner, record);
    let record = inner.country(2);
    assert_eq!(record.code(), b"US");
    assert_eq!(record.continent_code(), b"NA");
    assert_eq!(inner.string(record.name()), "United States of America");
    let country = libloc::Country::from(inner, record);
    assert_eq!(country.code(), "US");
    assert_eq!(country.continent_code(), "NA");
    assert_eq!(country.name(), "United States of America");
    let root = inner.network_node(0);
    assert_eq!(root.network(), None);
    assert_eq!(root.child(false), 1);
    assert_eq!(root.child(true), 0);
    let node = inner.network_node(32);
    assert_eq!(node.network(), Some(3));
}

#[test]
fn header_fields() {
    let bytes = sample().bytes();
    let locations = open(&bytes);
    let header = locations.inner().header();
    assert_eq!(header.version(), 1);
    assert_eq!(header.created_at(), 1707258629);
    assert_eq!(header.vendor().offset, 1);
    assert_eq!(header.description().offset, 16);
    assert_eq!(header.license().offset, 48);
    assert_eq!(header.as_(), libloc::format::FileRange { offset: 4200, length: 24 });
    assert_eq!(header.networks(), libloc::format::FileRange { offset: 4224, length: 48 });
    assert_eq!(header.network_nodes().offset, 4272);
    assert_eq!(header.network_nodes().length as usize, 12 * locations.inner().network_nodes_len());
    assert_eq!(header.countries().length, 24);
    assert_eq!(header.string_pool().length as usize, sample().pool.len());
    assert_eq!(header.signature1_length(), 3);
    assert_eq!(header.signature2_length(), 5);
    assert_eq!(header.signature1_buf().len(), 2048);
    assert_eq!(header.signature1_buf()[..4], [0xaa, 0xbb, 0xcc, 0]);
    assert_eq!(header.signature2_buf().len(), 2048);
    assert_eq!(header.signature2_buf()[..6], [1, 2, 3, 4, 5, 0]);
    assert!(libloc::format::Header::parse(&bytes[..HEADER_SIZE - 1]).is_none());
    assert!(libloc::format::Header::parse(&bytes[..HEADER_SIZE]).is_some());
}

#[test]
fn big_endian_integers() {
    let bytes = [0x12u8, 0x34, 0x56, 0x78, 0x9a, 0xbc, 0xde, 0xf0, 0x01];
    assert_eq!(libloc::format::u16_at(&bytes, 0), 0x1234);
    assert_eq!(libloc::format::u16_at(&bytes, 7), 0xf001);
    assert_eq!(libloc::format::u32_at(&bytes, 0), 0x1234_5678);
    assert_eq!(libloc::format::u32_at(&bytes, 5), 0xbcde_f001);
    assert_eq!(libloc::format::u64_at(&bytes, 0), 0x1234_5678_9abc_def0);
    assert_eq!(libloc::format::u64_at(&bytes, 1), 0x3456_789a_bcde_f001);
}

#[test]
fn magic_bytes() {
    assert!(libloc::format::has_magic(b"LOCDBXX"));
    assert!(libloc::format::has_magic(b"LOCDBXX\x01 and more"));
    assert!(!libloc::format::has_magic(b"LOCDBX"));
    assert!(!libloc::format::has_magic(b""));
    assert!(!libloc::format::has_magic(b"locdbxx"));
    assert!(!libloc::format::has_magic(b"XLOCDBXX"));
    assert_eq!(&libloc::format::MAGIC, b"LOCDBXX");
}

#[test]
fn ranges_of_a_file() {
    let file = [1u8, 2, 3, 4, 5, 6, 7, 8, 9, 10];
    let range = |offset, length| libloc::format::FileRange { offset, length };
    assert_eq!(libloc::locations::get_range(&file, range(2, 3)), Some(&file[2..5]));
    assert_eq!(libloc::locations::get_range(&file, range(0, 10)), Some(&file[..]));
    assert_eq!(libloc::locations::get_range(&file, range(10, 0)), Some(&file[10..]));
    assert_eq!(libloc::locations::get_range(&file, range(0, 11)), None);
    assert_eq!(libloc::locations::get_range(&file, range(11, 0)), None);
    assert_eq!(libloc::locations::get_range(&file, range(u32::MAX, 1)), None);
    assert_eq!(libloc::locations::get_range(&file, range(1, u32::MAX)), None);
    assert_eq!(libloc::locations::get_typed_range(&file, range(2, 8), 4), Some(&file[2..10]));
    assert_eq!(libloc::locations::get_typed_range(&file, range(2, 8), 8), Some(&file[2..10]));
    assert_eq!(libloc::locations::get_typed_range(&file, range(2, 8), 3), None);
    assert_eq!(libloc::locations::get_typed_range(&file, range(2, 0), 12), Some(&file[2..2]));
    assert_eq!(libloc::locations::get_typed_range(&file, range(2, 9), 1), None);
}

#[test]
fn strings_of_the_pool() {
    let pool = b"\0first\0second\0\xc3\xa9t\xc3\xa9\0\xff\0open";
    assert_eq!(libloc::text::read_string(pool, 0), Ok(""));
    assert_eq!(libloc::text::read_string(pool, 1), Ok("first"));
    assert_eq!(libloc::text::read_string(pool, 3), Ok("rst"));
    assert_eq!(libloc::text::read_string(pool, 6), Ok(""));
    assert_eq!(libloc::text::read_string(pool, 7), Ok("second"));
    assert_eq!(libloc::text::read_string(pool, 14), Ok("\u{e9}t\u{e9}"));
    assert_eq!(libloc::text::read_string(pool, 15), Err(Corruption::StringUtf8));
    assert_eq!(libloc::text::read_string(pool, 20), Err(Corruption::StringUtf8));
    assert_eq!(libloc::text::read_string(pool, 21), Ok(""));
    assert_eq!(libloc::text::read_string(pool, 22), Err(Corruption::MissingNul));
    assert_eq!(libloc::text::read_string(pool, 25), Err(Corruption::MissingNul));
    assert_eq!(libloc::text::read_string(pool, 26), Err(Corruption::MissingNul));
    assert_eq!(libloc::text::read_string(pool, 27), Err(Corruption::StrRef));
    assert_eq!(libloc::text::read_string(pool, usize::MAX), Err(Corruption::StrRef));
    assert_eq!(libloc::text::read_string(b"", 0), Err(Corruption::MissingNul));
    assert_eq!(libloc::text::decode(b"DE"), Some("DE"));
    assert_eq!(libloc::text::decode(b""), Some(""));
    assert_eq!(libloc::text::decode(b"\xc3\xa9"), Some("\u{e9}"));
    assert_eq!(libloc::text::decode(b"\xc3"), None);
    assert_eq!(libloc::text::decode(b"D\x80"), None);
}

#[test]
fn corrupt_string_references() {
    let mut db = sample();
    db.vendor = db.pool.len() as u32 + 1;
    db.description = db.pool.len() as u32;
    let bytes = db.bytes();
    let locations = open(&bytes);
    assert_eq!(locations.try_vendor(), Err(Corruption::StrRef));
    assert_eq!(locations.try_description(), Err(Corruption::MissingNul));
    assert_eq!(locations.try_license(), Ok("CC"));

    let mut db = sample();
    db.license = db.pool.len() as u32;
    db.pool.extend_from_slice(b"no end");
    db.vendor = db.pool.len() as u32 - 1;
    let bytes = db.bytes();
    let locations = open(&bytes);
    assert_eq!(locations.try_license(), Err(Corruption::MissingNul));
    assert_eq!(locations.try_vendor(), Err(Corruption::MissingNul));
    assert_eq!(locations.try_description(), Ok("This is a geo location database"));

    let mut db = sample();
    db.vendor = db.pool.len() as u32;
    db.pool.extend_from_slice(b"caf\xe9\0");
    let bytes = db.bytes();
    let locations = open(&bytes);
    assert_eq!(locations.try_vendor(), Err(Corruption::StringUtf8));
    assert_eq!(locations.description(), "This is a geo location database");
}

#[test]
fn corrupt_name_of_an_as() {
    let mut db = sample();
    db.ases[1].1 = u32::MAX;
    let bytes = db.bytes();
    let locations = open(&bytes);
    assert!(matches!(locations.try_as_(204867), Err(Corruption::StrRef)));
    assert_eq!(locations.as_(64496).unwrap().name(), "Example AS");
    assert!(matches!(locations.try_as_(5), Ok(None)));
    let record = locations.inner().as_(1);
    assert!(matches!(libloc::As::try_from(locations.inner(), record), Err(Corruption::StrRef)));
}

#[test]
fn corrupt_country_records() {
    let mut db = sample();
    db.countries[0].0 = [b'A', 0xff];
    db.countries[0].1 = [0xff, 0xff];
    db.countries[1].1 = [0xc3, b'U'];
    db.countries[1].2 = u32::MAX;
    db.countries[2].2 = db.pool.len() as u32;
    db.pool.extend_from_slice(b"\xff\0");
    let bytes = db.bytes();
    let locations = open(&bytes);
    let inner = locations.inner();
    assert!(matches!(
        libloc::Country::try_from(inner, inner.country(0)),
        Err(Corruption::CountryCodeUtf8)
    ));
    assert!(matches!(locations.try_country("DE"), Err(Corruption::ContinentCodeUtf8)));
    assert!(matches!(locations.try_country("US"), Err(Corruption::StringUtf8)));
    assert!(matches!(locations.try_country("AT"), Ok(None)));
    assert!(matches!(locations.try_country("FR"), Ok(None)));
}

#[test]
fn corrupt_country_code_of_a_network() {
    let mut db = sample();
    db.networks[0].0 = [0xff, b'E'];
    let bytes = db.bytes();
    let locations = open(&bytes);
    assert!(matches!(
        locations.try_lookup_v6(v6("2a07:1c44:5800::1")),
        Err(Corruption::NetworkCountryCodeUtf8)
    ));
    assert!(matches!(
        locations.try_lookup(IpAddr::V6(v6("2a07:1c44:5800::1"))),
        Err(Corruption::NetworkCountryCodeUtf8)
    ));
    assert_eq!(locations.lookup_v6(v6("2a07:1c44:100::1")).unwrap().country_code(), "AT");
    assert_eq!(locations.lookup_v4(v4("10.1.2.3")).unwrap().country_code(), "XX");
}

#[test]
fn corrupt_network_index() {
    let mut db = sample();
    let node = db.path(v6("2a07:1c44:5800::"), 40);
    db.nodes[node].1 = db.networks.len() as u32;
    let node = db.path(MAPPED | v4("10.1.0.0") as u128, 96 + 16);
    db.nodes[node].1 = 0xffff_fffe;
    let bytes = db.bytes();
    let locations = open(&bytes);
    assert!(matches!(
        locations.try_lookup_v6(v6("2a07:1c44:5800::1")),
        Err(Corruption::NetworkIndex)
    ));
    assert!(matches!(locations.try_lookup_v4(v4("10.1.2.3")), Err(Corruption::NetworkIndex)));
    assert!(matches!(
        locations.try_lookup(IpAddr::V4(v4("10.1.2.3"))),
        Err(Corruption::NetworkIndex)
    ));
    assert_eq!(text_v4(locations.lookup_v4(v4("10.2.2.3")).unwrap().addrs()), "10.0.0.0/8");
    assert_eq!(text_v6(locations.lookup_v6(v6("2a07:1c44::1")).unwrap().addrs()), "2a07:1c44::/32");
}

#[test]
fn corrupt_node_index() {
    let mut db = sample();
    let node = db.path(v6("2a07:1c44:5800::"), 40);
    db.nodes[node].0[0] = db.nodes.len() as u32;
    let node = db.path(MAPPED | v4("10.0.0.0") as u128, 96 + 8);
    db.nodes[node].0[1] = u32::MAX;
    let bytes = db.bytes();
    let locations = open(&bytes);
    assert!(matches!(
        locations.try_lookup_v6(v6("2a07:1c44:5800::1")),
        Err(Corruption::NetworkNodeIndex)
    ));
    assert!(matches!(
        locations.try_lookup_v4(v4("10.128.0.1")),
        Err(Corruption::NetworkNodeIndex)
    ));
    let network = locations.lookup_v6(v6("2a07:1c44:5880::1")).unwrap();
    assert_eq!(text_v6(network.addrs()), "2a07:1c44:5800::/40");
    assert_eq!(text_v4(locations.lookup_v4(v4("10.1.2.3")).unwrap().addrs()), "10.1.0.0/16");
    let inner = locations.inner();
    let count = inner.network_nodes_len() as u32;
    assert_eq!(inner.try_find_network(count, 0, 8), Err(Corruption::NetworkNodeIndex));
    assert_eq!(inner.try_find_network(count, 0, 0), Err(Corruption::NetworkNodeIndex));
    assert_eq!(inner.try_find_network_node(count, 0, 8), Err(Corruption::NetworkNodeIndex));
    assert_eq!(inner.try_find_network_node(count, 0, 0), Ok(Some(count)));
}

#[test]
fn corrupt_node_index_on_the_way_to_the_ipv4_root() {
    let mut db = sample();
    let node = db.path(MAPPED, 50);
    db.nodes[node].0[0] = db.nodes.len() as u32 + 7;
    let bytes = db.bytes();
    assert!(matches!(Locations::try_open(&bytes), Err(Corruption::NetworkNodeIndex)));
}

#[test]
fn ipv4_root_outside_the_node_table() {
    let mut db = sample();
    let node = db.path(MAPPED, 95);
    db.nodes[node].0[1] = db.nodes.len() as u32;
    let bytes = db.bytes();
    let locations = open(&bytes);
    assert!(matches!(locations.try_lookup_v4(v4("10.1.2.3")), Err(Corruption::NetworkNodeIndex)));
    assert!(matches!(
        locations.try_lookup_v6(v6("::ffff:10.1.2.3")),
        Err(Corruption::NetworkNodeIndex)
    ));
    assert_eq!(locations.lookup_v6(v6("2a07:1c44:5800::1")).unwrap().asn(), 204867);
}

#[test]
fn corrupt_creation_time() {
    let mut db = sample();
    db.created_at = u64::MAX;
    assert_eq!(open(&db.bytes()).try_created_at(), Err(Corruption::CreatedAt));
    db.created_at = i64::MAX as u64 + 1;
    assert_eq!(open(&db.bytes()).try_created_at(), Err(Corruption::CreatedAt));
    db.created_at = i64::MAX as u64;
    assert_eq!(open(&db.bytes()).try_created_at(), Err(Corruption::CreatedAt));
    db.created_at = 0;
    assert_eq!(open(&db.bytes()).try_created_at(), Ok(0));
    assert_eq!(open(&db.bytes()).created_at(), 0);
    db.created_at = 253402300799;
    assert_eq!(open(&db.bytes()).try_created_at(), Ok(253402300799));
}

#[test]
fn creation_time_from_the_field() {
    assert_eq!(libloc::time::timestamp_from(1707258629, true), Ok(1707258629));
    assert_eq!(libloc::time::timestamp_from(0, true), Ok(0));
    assert_eq!(libloc::time::timestamp_from(i64::MAX as u64, true), Ok(i64::MAX));
    assert_eq!(libloc::time::timestamp_from(i64::MAX as u64 + 1, true), Err(Corruption::CreatedAt));
    assert_eq!(libloc::time::timestamp_from(u64::MAX, true), Err(Corruption::CreatedAt));
    assert_eq!(libloc::time::timestamp_from(1707258629, false), Err(Corruption::CreatedAt));
}

#[test]
fn open_without_the_prefix() {
    let bytes = sample().bytes();
    let locations = Locations::open(&bytes).unwrap();
    assert_eq!(locations.vendor(), "IPFire Project");
    assert_eq!(locations.lookup_v4(v4("10.1.2.3")).unwrap().country_code(), "XX");
    let mut db = sample();
    db.version = 9;
    assert!(matches!(Locations::open(&db.bytes()), Err(OpenError::UnsupportedVersion(9))));
}

#[test]
fn messages_of_open_errors() {
    let io = || std::io::Error::from(std::io::ErrorKind::NotFound);
    assert_eq!(OpenError::Open(io()).message(), "error opening database file");
    assert_eq!(OpenError::Mmap(io()).message(), "error memory-mapping database file");
    assert_eq!(
        OpenError::InvalidMagic.message(),
        "invalid database file magic, likely not the correct format"
    );
    assert_eq!(OpenError::UnsupportedVersion(3).message(), "unsupported database version");
    assert_eq!(
        OpenError::CouldntReadHeader.message(),
        "couldn't read database file header, database corrupted"
    );
    assert_eq!(
        OpenError::InvalidAsRange.message(),
        "invalid database header field: as, database corrupted"
    );
    assert_eq!(
        OpenError::InvalidNetworkRange.message(),
        "invalid database header field: network, database corrupted"
    );
    assert_eq!(
        OpenError::InvalidNetworkNodeRange.message(),
        "invalid database header field: network_node, database corrupted"
    );
    assert_eq!(
        OpenError::InvalidCountryRange.message(),
        "invalid database header field: country, database corrupted"
    );
    assert_eq!(
        OpenError::InvalidStringPoolRange.message(),
        "invalid database header field: string_pool, database corrupted"
    );
}

#[test]
fn sources_of_open_errors() {
    let io = || std::io::Error::from(std::io::ErrorKind::NotFound);
    assert_eq!(OpenError::Open(io()).source().unwrap().kind(), std::io::ErrorKind::NotFound);
    assert_eq!(OpenError::Mmap(io()).source().unwrap().kind(), std::io::ErrorKind::NotFound);
    assert!(OpenError::InvalidMagic.source().is_none());
    assert!(OpenError::UnsupportedVersion(2).source().is_none());
    assert!(OpenError::CouldntReadHeader.source().is_none());
    assert!(OpenError::InvalidAsRange.source().is_none());
    assert!(OpenError::InvalidStringPoolRange.source().is_none());
}

#[test]
fn messages_of_corruptions() {
    let all = [
        Corruption::NetworkNodeIndex,
        Corruption::NetworkIndex,
        Corruption::StrRef,
        Corruption::MissingNul,
        Corruption::StringUtf8,
        Corruption::NetworkCountryCodeUtf8,
        Corruption::CountryCodeUtf8,
        Corruption::ContinentCodeUtf8,
        Corruption::CreatedAt,
    ];
    for (i, a) in all.iter().enumerate() {
        assert!(a.message().starts_with("corrupt libloc db: "));
        for b in &all[i + 1..] {
            assert_ne!(a.message(), b.message());
        }
    }
    assert_eq!(
        Corruption::MissingNul.message(),
        "corrupt libloc db: missing null termination for str_ref"
    );
}
