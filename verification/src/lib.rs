//! Read-only access to location databases in the libloc format.
//!
//! A database maps IP networks to a country, an autonomous system and a few
//! flags. It is a single file: a header, four tables of fixed-size records
//! and a pool of NUL-terminated strings, all integers big-endian. The
//! networks are the marked nodes of a binary trie that is keyed by the bits
//! of an address, most significant bit first.
//!
//! `Locations::try_open` reads a database from the bytes of its file, and
//! the methods of `Locations` query it. Each query comes twice: under a
//! name that starts with `try_` it reports a corrupt database as an error;
//! under the plain name it is for databases that are known to be sound on
//! the way to the answer.

pub mod addr;
pub mod error;
pub mod format;
pub mod info;
pub mod locations;
pub mod model;
pub mod text;
pub mod time;
pub mod trie;

pub use addr::{IpAddr, IpNet, Ipv4Net, Ipv6Net};
pub use error::{Corruption, OpenError};
pub use info::{As, Country, Network, NetworkInner, NetworkV4, NetworkV6};
pub use locations::{Locations, LocationsInner};
