//! Hosts in normal form, and the loopback test.

use vstd::prelude::*;
use crate::text::same_text;

verus! {

/// A host in normal form. A domain name is kept in its ASCII form, so that
/// two spellings of one name are the same value; an address is kept as the
/// number its octets make, most significant first.
#[derive(Debug, Eq)]
pub enum HostValue {
    /// A domain name, in lower case and with every label outside ASCII in
    /// its punycode form.
    Domain(String),
    /// The address `a.b.c.d` as the number with the octets `a`, `b`, `c`
    /// and `d`, from the most significant down.
    Ipv4(u32),
    /// The address as the number with its sixteen octets, from the most
    /// significant down: `::1` is 1.
    Ipv6(u128),
}

/// What a `HostValue` stands for.
pub enum HostModel {
    Domain(Seq<char>),
    Ipv4(u32),
    Ipv6(u128),
}

impl View for HostValue {
    type V = HostModel;

    open spec fn view(&self) -> HostModel {
        match self {
            HostValue::Domain(name) => HostModel::Domain(name@),
            HostValue::Ipv4(bits) => HostModel::Ipv4(*bits),
            HostValue::Ipv6(bits) => HostModel::Ipv6(*bits),
        }
    }
}

impl Clone for HostValue {
    fn clone(&self) -> (copy: HostValue)
        ensures
            copy@ == self@,
    {
        match self {
            HostValue::Domain(name) => HostValue::Domain(name.clone()),
            HostValue::Ipv4(bits) => HostValue::Ipv4(*bits),
            HostValue::Ipv6(bits) => HostValue::Ipv6(*bits),
        }
    }
}

/// Two hosts are equal when they are of one form and hold the same name
/// or the same address.
impl PartialEq for HostValue {
    fn eq(&self, other: &HostValue) -> (same: bool) {
        match (self, other) {
            (HostValue::Domain(a), HostValue::Domain(b)) => same_text(a.as_str(), b.as_str()),
            (HostValue::Ipv4(a), HostValue::Ipv4(b)) => *a == *b,
            (HostValue::Ipv6(a), HostValue::Ipv6(b)) => *a == *b,
            _ => false,
        }
    }
}

impl vstd::std_specs::cmp::PartialEqSpecImpl for HostValue {
    open spec fn obeys_eq_spec() -> bool {
        true
    }

    open spec fn eq_spec(&self, other: &HostValue) -> bool {
        self@ == other@
    }
}

/// Why a text is no host.
#[derive(Debug, Clone, Copy, PartialEq, Eq, Structural)]
pub enum HostError {
    /// The text is empty, or nothing is left of it in normal form.
    EmptyHost,
    /// The text is no domain name: it holds a character that no name
    /// may hold, or a label that is no valid punycode.
    IdnaError,
    /// The text ends in a number and is no IPv4 address.
    InvalidIpv4Address,
    /// The text begins with `[` and is no IPv6 address in brackets.
    InvalidIpv6Address,
    /// A refusal of another kind. `url::Host::parse` gives none today;
    /// the error type of the `url` crate is open to new kinds.
    Other,
}

/// What `url::Host::parse` makes of a text: the host that it reads, or
/// the kind of its refusal.
pub uninterp spec fn normal_host(text: Seq<char>) -> Result<HostModel, HostError>;

/// What `url::Host` prints for a host.
pub uninterp spec fn host_text(host: HostModel) -> Seq<char>;

/// Calls `url::Host::parse`, which reads an IPv6 address in square brackets,
/// an IPv4 address, or a domain name that it brings to lower-case ASCII,
/// and hands on its answer: the host in the library's own form, or the
/// kind of the refusal. Not proved. The contract only names the outcome:
/// the same text always gives the same host or the same refusal. Which
/// one that is, the contract does not say.
#[verifier::external_body]
fn parse_host(text: &str) -> (r: Result<HostValue, HostError>)
    ensures
        match r {
            Ok(host) => normal_host(text@) == Ok::<HostModel, HostError>(host@),
            Err(e) => normal_host(text@) == Err::<HostModel, HostError>(e),
        },
{
    match url::Host::parse(text) {
        Ok(url::Host::Domain(name)) => Ok(HostValue::Domain(name)),
        Ok(url::Host::Ipv4(address)) => Ok(HostValue::Ipv4(u32::from(address))),
        Ok(url::Host::Ipv6(address)) => Ok(HostValue::Ipv6(u128::from(address))),
        Err(url::ParseError::EmptyHost) => Err(HostError::EmptyHost),
        Err(url::ParseError::IdnaError) => Err(HostError::IdnaError),
        Err(url::ParseError::InvalidIpv4Address) => Err(HostError::InvalidIpv4Address),
        Err(url::ParseError::InvalidIpv6Address) => Err(HostError::InvalidIpv6Address),
        Err(_) => Err(HostError::Other),
    }
}

/// Calls `Display` of `url::Host`: a domain name as it stands, an IPv4
/// address as four decimal numbers with dots, an IPv6 address in square
/// brackets. Not proved. The contract only names the text: the same host
/// is always printed the same.
#[verifier::external_body]
fn print_host(host: &HostValue) -> (text: String)
    ensures
        text@ == host_text(host@),
{
    match host {
        HostValue::Domain(name) => url::Host::Domain(name.as_str()).to_string(),
        HostValue::Ipv4(bits) => url::Host::<&str>::Ipv4((*bits).into()).to_string(),
        HostValue::Ipv6(bits) => url::Host::<&str>::Ipv6((*bits).into()).to_string(),
    }
}

impl HostModel {
    /// Whether the host is the local machine: the name `localhost`, an
    /// IPv4 address in 127.0.0.0/8, or the IPv6 address `::1`. The name
    /// is compared as it stands, after normalisation.
    pub open spec fn is_loopback(self) -> bool {
        match self {
            HostModel::Domain(name) => name == "localhost"@,
            HostModel::Ipv4(bits) => 0x7f00_0000 <= bits <= 0x7fff_ffff,
            HostModel::Ipv6(bits) => bits == 1,
        }
    }

    /// The host written out.
    pub open spec fn text(self) -> Seq<char> {
        match self {
            HostModel::Domain(name) => name,
            _ => host_text(self),
        }
    }
}

impl HostValue {
    /// Reads a host from a text and brings it to normal form, or says
    /// why the text is no host. Both are what the `url` crate makes of
    /// the text: see `normal_host`.
    pub fn parse(text: &str) -> (r: Result<HostValue, HostError>)
        ensures
            match normal_host(text@) {
                Ok(host) => r matches Ok(value) && value@ == host,
                Err(e) => r == Err::<HostValue, HostError>(e),
            },
    {
        parse_host(text)
    }

    /// The host written out: a domain name as it stands, an address as
    /// the `url` crate prints it.
    pub fn to_string(&self) -> (text: String)
        ensures
            text@ == self@.text(),
    {
        match self {
            HostValue::Domain(name) => name.clone(),
            _ => print_host(self),
        }
    }
}

/// Whether the host is the local machine.
pub fn is_localhost(host: &HostValue) -> (b: bool)
    ensures
        b == host@.is_loopback(),
{
    match host {
        HostValue::Domain(name) => same_text(name.as_str(), "localhost"),
        HostValue::Ipv4(bits) => 0x7f00_0000 <= *bits && *bits <= 0x7fff_ffff,
        HostValue::Ipv6(bits) => *bits == 1,
    }
}

} // verus!
