//! What can go wrong: a file that is no database, and a database whose
//! contents contradict each other.

use vstd::prelude::*;

verus! {

#[verifier::external_type_specification]
#[verifier::external_body]
pub struct ExIoError(std::io::Error);

/// Why a database could not be opened.
#[derive(Debug)]
#[non_exhaustive]
pub enum OpenError {
    /// The file could not be opened for reading.
    Open(std::io::Error),
    /// The file could not be mapped into memory.
    Mmap(std::io::Error),
    /// The file does not start with the magic bytes, or is too short to
    /// hold a header at all.
    InvalidMagic,
    /// The header announces a format version other than the supported one.
    UnsupportedVersion(u8),
    /// The header could not be read.
    CouldntReadHeader,
    /// The table of autonomous systems does not lie inside the file.
    InvalidAsRange,
    /// The table of networks does not lie inside the file.
    InvalidNetworkRange,
    /// The table of trie nodes does not lie inside the file.
    InvalidNetworkNodeRange,
    /// The table of countries does not lie inside the file.
    InvalidCountryRange,
    /// The string pool does not lie inside the file.
    InvalidStringPoolRange,
}

/// A contradiction inside a database that passed the checks of opening.
///
/// The functions whose name starts with `try_` report it as an error; their
/// counterparts without the prefix exclude it by their precondition.
#[derive(Clone, Copy, Debug, PartialEq, Eq, Structural)]
pub enum Corruption {
    /// A trie node is referenced that the node table does not hold.
    NetworkNodeIndex,
    /// A trie node names a network that the network table does not hold.
    NetworkIndex,
    /// A string reference points behind the end of the string pool.
    StrRef,
    /// A string runs to the end of the pool without a terminating NUL.
    MissingNul,
    /// A string of the pool is not UTF-8.
    StringUtf8,
    /// The country code of a network is not UTF-8.
    NetworkCountryCodeUtf8,
    /// The code of a country is not UTF-8.
    CountryCodeUtf8,
    /// The continent code of a country is not UTF-8.
    ContinentCodeUtf8,
    /// The creation time is no point in time on the calendar.
    CreatedAt,
}

/// The outcome of a fallible query, each value replaced by its view.
pub open spec fn outcome<T: View>(r: Result<T, Corruption>) -> Result<T::V, Corruption> {
    match r {
        Ok(t) => Ok(t@),
        Err(e) => Err(e),
    }
}

/// The outcome of a fallible lookup, each value replaced by its view.
pub open spec fn outcome_opt<T: View>(r: Result<Option<T>, Corruption>) -> Result<
    Option<T::V>,
    Corruption,
> {
    match r {
        Ok(Some(t)) => Ok(Some(t@)),
        Ok(None) => Ok(None),
        Err(e) => Err(e),
    }
}

/// The result of a lookup, replaced by its view.
pub open spec fn found<T: View>(r: Option<T>) -> Option<T::V> {
    match r {
        Some(t) => Some(t@),
        None => None,
    }
}

impl Corruption {
    /// What `message` says of each contradiction.
    pub open spec fn message_text(self) -> Seq<char> {
        match self {
            Corruption::NetworkNodeIndex => "corrupt libloc db: invalid network node index"@,
            Corruption::NetworkIndex => "corrupt libloc db: invalid network index"@,
            Corruption::StrRef => "corrupt libloc db: invalid str_ref"@,
            Corruption::MissingNul => "corrupt libloc db: missing null termination for str_ref"@,
            Corruption::StringUtf8 => "corrupt libloc db: invalid UTF-8 for str_ref"@,
            Corruption::NetworkCountryCodeUtf8 =>
                "corrupt libloc db: invalid UTF-8 in network country code"@,
            Corruption::CountryCodeUtf8 => "corrupt libloc db: invalid UTF-8 in country code"@,
            Corruption::ContinentCodeUtf8 =>
                "corrupt libloc db: invalid UTF-8 in country continent code"@,
            Corruption::CreatedAt => "corrupt libloc db: invalid created_at header"@,
        }
    }

    /// The contradiction in words.
    pub fn message(&self) -> (r: &'static str)
        ensures
            r@ == self.message_text(),
    {
        match self {
            Corruption::NetworkNodeIndex => "corrupt libloc db: invalid network node index",
            Corruption::NetworkIndex => "corrupt libloc db: invalid network index",
            Corruption::StrRef => "corrupt libloc db: invalid str_ref",
            Corruption::MissingNul => "corrupt libloc db: missing null termination for str_ref",
            Corruption::StringUtf8 => "corrupt libloc db: invalid UTF-8 for str_ref",
            Corruption::NetworkCountryCodeUtf8 =>
                "corrupt libloc db: invalid UTF-8 in network country code",
            Corruption::CountryCodeUtf8 => "corrupt libloc db: invalid UTF-8 in country code",
            Corruption::ContinentCodeUtf8 =>
                "corrupt libloc db: invalid UTF-8 in country continent code",
            Corruption::CreatedAt => "corrupt libloc db: invalid created_at header",
        }
    }
}

impl OpenError {
    /// What `message` says of each failure.
    pub open spec fn message_text(self) -> Seq<char> {
        match self {
            OpenError::Open(_) => "error opening database file"@,
            OpenError::Mmap(_) => "error memory-mapping database file"@,
            OpenError::InvalidMagic =>
                "invalid database file magic, likely not the correct format"@,
            OpenError::UnsupportedVersion(_) => "unsupported database version"@,
            OpenError::CouldntReadHeader =>
                "couldn't read database file header, database corrupted"@,
            OpenError::InvalidAsRange => "invalid database header field: as, database corrupted"@,
            OpenError::InvalidNetworkRange =>
                "invalid database header field: network, database corrupted"@,
            OpenError::InvalidNetworkNodeRange =>
                "invalid database header field: network_node, database corrupted"@,
            OpenError::InvalidCountryRange =>
                "invalid database header field: country, database corrupted"@,
            OpenError::InvalidStringPoolRange =>
                "invalid database header field: string_pool, database corrupted"@,
        }
    }

    /// The failure in words. Where the failure has a cause or names a
    /// version, that is not part of the text: it is for the caller to add.
    pub fn message(&self) -> (r: &'static str)
        ensures
            r@ == self.message_text(),
    {
        match self {
            OpenError::Open(_) => "error opening database file",
            OpenError::Mmap(_) => "error memory-mapping database file",
            OpenError::InvalidMagic => "invalid database file magic, likely not the correct format",
            OpenError::UnsupportedVersion(_) => "unsupported database version",
            OpenError::CouldntReadHeader =>
                "couldn't read database file header, database corrupted",
            OpenError::InvalidAsRange => "invalid database header field: as, database corrupted",
            OpenError::InvalidNetworkRange =>
                "invalid database header field: network, database corrupted",
            OpenError::InvalidNetworkNodeRange =>
                "invalid database header field: network_node, database corrupted",
            OpenError::InvalidCountryRange =>
                "invalid database header field: country, database corrupted",
            OpenError::InvalidStringPoolRange =>
                "invalid database header field: string_pool, database corrupted",
        }
    }

    /// The underlying operating-system error, for the two failures that
    /// have one.
    pub fn source(&self) -> (r: Option<&std::io::Error>)
        ensures
            r == (match *self {
                OpenError::Open(e) => Some(&e),
                OpenError::Mmap(e) => Some(&e),
                _ => None,
            }),
    {
        match self {
            OpenError::Open(e) => Some(e),
            OpenError::Mmap(e) => Some(e),
            _ => None,
        }
    }
}

} // verus!
