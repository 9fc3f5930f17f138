//! What the queries hand out: autonomous systems, countries and networks.
//!
//! Each value borrows its strings from the bytes of the database.

use crate::addr::{IpNet, Ipv4Net, Ipv6Net};
use crate::error::{outcome, Corruption};
use crate::format::{
    NETWORK_FLAG_ANONYMOUS_PROXY, NETWORK_FLAG_ANYCAST, NETWORK_FLAG_DROP,
    NETWORK_FLAG_SATELLITE_PROVIDER,
};
use crate::locations::LocationsInner;
use crate::model::{
    AsView, CountryView, NetworkInnerView, NetworkV4View, NetworkV6View, NetworkView,
};
use crate::text::decode;
use vstd::pervasive::unreached;
use vstd::prelude::*;

verus! {

/// An autonomous system.
#[derive(Debug)]
pub struct As<'a> {
    asn: u32,
    name: &'a str,
}

/// A network of either family.
#[derive(Debug)]
pub struct Network<'a> {
    inner: NetworkInner<'a>,
    addrs: IpNet,
}

/// An IPv4 network.
#[derive(Debug)]
pub struct NetworkV4<'a> {
    inner: NetworkInner<'a>,
    addrs: Ipv4Net,
}

/// An IPv6 network.
#[derive(Debug)]
pub struct NetworkV6<'a> {
    inner: NetworkInner<'a>,
    addrs: Ipv6Net,
}

/// What a network record says, whatever the family of the network.
#[derive(Debug)]
pub struct NetworkInner<'a> {
    country_code: &'a str,
    asn: u32,
    flags: u16,
}

/// A country.
#[derive(Debug)]
pub struct Country<'a> {
    code: &'a str,
    continent_code: &'a str,
    name: &'a str,
}

impl<'a> View for As<'a> {
    type V = AsView;

    closed spec fn view(&self) -> AsView {
        AsView { asn: self.asn, name: self.name@ }
    }
}

impl<'a> View for NetworkInner<'a> {
    type V = NetworkInnerView;

    closed spec fn view(&self) -> NetworkInnerView {
        NetworkInnerView { country_code: self.country_code@, asn: self.asn, flags: self.flags }
    }
}

impl<'a> View for Network<'a> {
    type V = NetworkView;

    closed spec fn view(&self) -> NetworkView {
        NetworkView { inner: self.inner@, addrs: self.addrs }
    }
}

impl<'a> View for NetworkV4<'a> {
    type V = NetworkV4View;

    closed spec fn view(&self) -> NetworkV4View {
        NetworkV4View { inner: self.inner@, addrs: self.addrs }
    }
}

impl<'a> View for NetworkV6<'a> {
    type V = NetworkV6View;

    closed spec fn view(&self) -> NetworkV6View {
        NetworkV6View { inner: self.inner@, addrs: self.addrs }
    }
}

impl<'a> View for Country<'a> {
    type V = CountryView;

    closed spec fn view(&self) -> CountryView {
        CountryView {
            code: self.code@,
            continent_code: self.continent_code@,
            name: self.name@,
        }
    }
}

impl<'a> As<'a> {
    /// Reads a record of the table of autonomous systems, or reports that
    /// its name is corrupt.
    pub fn try_from(inner: &LocationsInner<'a>, as_: crate::format::As<'a>) -> (r: Result<
        As<'a>,
        Corruption,
    >)
        ensures
            outcome(r) == inner@.as_info(as_@),
    {
        match inner.try_string(as_.name()) {
            Ok(name) => Ok(As { asn: as_.id(), name }),
            Err(e) => Err(e),
        }
    }

    /// Reads a record of the table of autonomous systems.
    pub fn from(inner: &LocationsInner<'a>, as_: crate::format::As<'a>) -> (r: As<'a>)
        requires
            inner@.as_info(as_@) is Ok,
        ensures
            Ok::<AsView, Corruption>(r@) == inner@.as_info(as_@),
    {
        match As::try_from(inner, as_) {
            Ok(r) => r,
            Err(_) => unreached(),
        }
    }

    /// The number of the autonomous system.
    pub fn asn(&self) -> (r: u32)
        ensures
            r == self@.asn,
    {
        self.asn
    }

    /// The name of the autonomous system.
    pub fn name(&self) -> (r: &'a str)
        ensures
            r@ == self@.name,
    {
        self.name
    }
}

impl<'a> NetworkInner<'a> {
    /// Reads a record of the table of networks, or reports that its country
    /// code is corrupt.
    pub fn try_from(inner: &LocationsInner<'a>, network: crate::format::Network<'a>) -> (r:
        Result<NetworkInner<'a>, Corruption>)
        ensures
            outcome(r) == inner@.network_info(network@),
    {
        match decode(network.country_code()) {
            Some(country_code) => Ok(
                NetworkInner { country_code, asn: network.asn(), flags: network.flags() },
            ),
            None => Err(Corruption::NetworkCountryCodeUtf8),
        }
    }

    /// Reads a record of the table of networks.
    pub fn from(inner: &LocationsInner<'a>, network: crate::format::Network<'a>) -> (r:
        NetworkInner<'a>)
        requires
            inner@.network_info(network@) is Ok,
        ensures
            Ok::<NetworkInnerView, Corruption>(r@) == inner@.network_info(network@),
    {
        match NetworkInner::try_from(inner, network) {
            Ok(r) => r,
            Err(_) => unreached(),
        }
    }
}

impl<'a> Network<'a> {
    /// The code of the country of the network; `XX` where the database
    /// knows none.
    pub fn country_code(&self) -> (r: &'a str)
        ensures
            r@ == self@.inner.country_code,
    {
        self.inner.country_code
    }

    /// The number of the autonomous system of the network; 0 where the
    /// database knows none.
    pub fn asn(&self) -> (r: u32)
        ensures
            r == self@.inner.asn,
    {
        self.inner.asn
    }

    /// Whether the network hosts anonymous proxies.
    pub fn is_anonymous_proxy(&self) -> (r: bool)
        ensures
            r == self@.inner.is_anonymous_proxy(),
    {
        self.inner.flags & NETWORK_FLAG_ANONYMOUS_PROXY != 0
    }

    /// Whether the network is that of a satellite provider.
    pub fn is_satellite_provider(&self) -> (r: bool)
        ensures
            r == self@.inner.is_satellite_provider(),
    {
        self.inner.flags & NETWORK_FLAG_SATELLITE_PROVIDER != 0
    }

    /// Whether the network consists of anycast addresses.
    pub fn is_anycast(&self) -> (r: bool)
        ensures
            r == self@.inner.is_anycast(),
    {
        self.inner.flags & NETWORK_FLAG_ANYCAST != 0
    }

    /// Whether traffic of the network should be dropped.
    pub fn is_drop(&self) -> (r: bool)
        ensures
            r == self@.inner.is_drop(),
    {
        self.inner.flags & NETWORK_FLAG_DROP != 0
    }

    /// The addresses of the network.
    pub fn addrs(&self) -> (r: IpNet)
        ensures
            r == self@.addrs,
    {
        self.addrs
    }
}

impl<'a> NetworkV4<'a> {
    /// The network that a record and its addresses make.
    pub(crate) fn new(inner: NetworkInner<'a>, addrs: Ipv4Net) -> (r: NetworkV4<'a>)
        ensures
            r@ == (NetworkV4View { inner: inner@, addrs }),
    {
        NetworkV4 { inner, addrs }
    }

    /// The code of the country of the network; `XX` where the database
    /// knows none.
    pub fn country_code(&self) -> (r: &'a str)
        ensures
            r@ == self@.inner.country_code,
    {
        self.inner.country_code
    }

    /// The number of the autonomous system of the network; 0 where the
    /// database knows none.
    pub fn asn(&self) -> (r: u32)
        ensures
            r == self@.inner.asn,
    {
        self.inner.asn
    }

    /// Whether the network hosts anonymous proxies.
    pub fn is_anonymous_proxy(&self) -> (r: bool)
        ensures
            r == self@.inner.is_anonymous_proxy(),
    {
        self.inner.flags & NETWORK_FLAG_ANONYMOUS_PROXY != 0
    }

    /// Whether the network is that of a satellite provider.
    pub fn is_satellite_provider(&self) -> (r: bool)
        ensures
            r == self@.inner.is_satellite_provider(),
    {
        self.inner.flags & NETWORK_FLAG_SATELLITE_PROVIDER != 0
    }

    /// Whether the network consists of anycast addresses.
    pub fn is_anycast(&self) -> (r: bool)
        ensures
            r == self@.inner.is_anycast(),
    {
        self.inner.flags & NETWORK_FLAG_ANYCAST != 0
    }

    /// Whether traffic of the network should be dropped.
    pub fn is_drop(&self) -> (r: bool)
        ensures
            r == self@.inner.is_drop(),
    {
        self.inner.flags & NETWORK_FLAG_DROP != 0
    }

    /// The addresses of the network.
    pub fn addrs(&self) -> (r: Ipv4Net)
        ensures
            r == self@.addrs,
    {
        self.addrs
    }
}

impl<'a> NetworkV6<'a> {
    /// The network that a record and its addresses make.
    pub(crate) fn new(inner: NetworkInner<'a>, addrs: Ipv6Net) -> (r: NetworkV6<'a>)
        ensures
            r@ == (NetworkV6View { inner: inner@, addrs }),
    {
        NetworkV6 { inner, addrs }
    }

    /// The code of the country of the network; `XX` where the database
    /// knows none.
    pub fn country_code(&self) -> (r: &'a str)
        ensures
            r@ == self@.inner.country_code,
    {
        self.inner.country_code
    }

    /// The number of the autonomous system of the network; 0 where the
    /// database knows none.
    pub fn asn(&self) -> (r: u32)
        ensures
            r == self@.inner.asn,
    {
        self.inner.asn
    }

    /// Whether the network hosts anonymous proxies.
    pub fn is_anonymous_proxy(&self) -> (r: bool)
        ensures
            r == self@.inner.is_anonymous_proxy(),
    {
        self.inner.flags & NETWORK_FLAG_ANONYMOUS_PROXY != 0
    }

    /// Whether the network is that of a satellite provider.
    pub fn is_satellite_provider(&self) -> (r: bool)
        ensures
            r == self@.inner.is_satellite_provider(),
    {
        self.inner.flags & NETWORK_FLAG_SATELLITE_PROVIDER != 0
    }

    /// Whether the network consists of anycast addresses.
    pub fn is_anycast(&self) -> (r: bool)
        ensures
            r == self@.inner.is_anycast(),
    {
        self.inner.flags & NETWORK_FLAG_ANYCAST != 0
    }

    /// Whether traffic of the network should be dropped.
    pub fn is_drop(&self) -> (r: bool)
        ensures
            r == self@.inner.is_drop(),
    {
        self.inner.flags & NETWORK_FLAG_DROP != 0
    }

    /// The addresses of the network.
    pub fn addrs(&self) -> (r: Ipv6Net)
        ensures
            r == self@.addrs,
    {
        self.addrs
    }
}

impl<'a> From<NetworkV4<'a>> for Network<'a> {
    fn from(network: NetworkV4<'a>) -> (r: Network<'a>) {
        Network { inner: network.inner, addrs: IpNet::V4(network.addrs) }
    }
}

impl<'a> vstd::std_specs::convert::FromSpecImpl<NetworkV4<'a>> for Network<'a> {
    open spec fn obeys_from_spec() -> bool {
        true
    }

    closed spec fn from_spec(network: NetworkV4<'a>) -> Network<'a> {
        Network { inner: network.inner, addrs: IpNet::V4(network.addrs) }
    }
}

impl<'a> From<NetworkV6<'a>> for Network<'a> {
    fn from(network: NetworkV6<'a>) -> (r: Network<'a>) {
        Network { inner: network.inner, addrs: IpNet::V6(network.addrs) }
    }
}

impl<'a> vstd::std_specs::convert::FromSpecImpl<NetworkV6<'a>> for Network<'a> {
    open spec fn obeys_from_spec() -> bool {
        true
    }

    closed spec fn from_spec(network: NetworkV6<'a>) -> Network<'a> {
        Network { inner: network.inner, addrs: IpNet::V6(network.addrs) }
    }
}

/// An IPv4 network keeps what is known of it when its family is forgotten.
pub proof fn lemma_from_v4_keeps_view(network: NetworkV4)
    ensures
        <Network as vstd::std_specs::convert::FromSpec<NetworkV4>>::from_spec(network)@
            == network@.widen(),
{
}

/// An IPv6 network keeps what is known of it when its family is forgotten.
pub proof fn lemma_from_v6_keeps_view(network: NetworkV6)
    ensures
        <Network as vstd::std_specs::convert::FromSpec<NetworkV6>>::from_spec(network)@
            == network@.widen(),
{
}

impl<'a> Country<'a> {
    /// Reads a record of the table of countries, or reports what of it is
    /// corrupt: the code, the continent code or the name, in this order.
    pub fn try_from(inner: &LocationsInner<'a>, country: crate::format::Country<'a>) -> (r: Result<
        Country<'a>,
        Corruption,
    >)
        ensures
            outcome(r) == inner@.country_info(country@),
    {
        let code = match decode(country.code()) {
            Some(code) => code,
            None => return Err(Corruption::CountryCodeUtf8),
        };
        let continent_code = match decode(country.continent_code()) {
            Some(continent_code) => continent_code,
            None => return Err(Corruption::ContinentCodeUtf8),
        };
        match inner.try_string(country.name()) {
            Ok(name) => Ok(Country { code, continent_code, name }),
            Err(e) => Err(e),
        }
    }

    /// Reads a record of the table of countries.
    pub fn from(inner: &LocationsInner<'a>, country: crate::format::Country<'a>) -> (r: Country<'a>)
        requires
            inner@.country_info(country@) is Ok,
        ensures
            Ok::<CountryView, Corruption>(r@) == inner@.country_info(country@),
    {
        match Country::try_from(inner, country) {
            Ok(r) => r,
            Err(_) => unreached(),
        }
    }

    /// The two-letter code of the country.
    pub fn code(&self) -> (r: &'a str)
        ensures
            r@ == self@.code,
    {
        self.code
    }

    /// The two-letter code of the continent of the country.
    pub fn continent_code(&self) -> (r: &'a str)
        ensures
            r@ == self@.continent_code,
    {
        self.continent_code
    }

    /// The name of the country.
    pub fn name(&self) -> (r: &'a str)
        ensures
            r@ == self@.name,
    {
        self.name
    }
}

} // verus!
