//! The host constraint of a pattern.

use vstd::prelude::*;
use crate::grammar::{host_token, is_host_token};
use crate::host::{is_localhost, normal_host, HostError, HostModel, HostValue};
use crate::text::{has_prefix, has_suffix, same_chars, same_text, to_chars};

verus! {

/// Which hosts a pattern accepts.
#[derive(Debug, Eq)]
pub enum HostPattern {
    /// Every host.
    Any,
    /// A domain and everything below it. The base is kept with its
    /// leading dot: `.example.com`.
    SubDomain(String),
    /// The local machine under any of its names and addresses.
    Localhost,
    /// This host and no other.
    Exact(HostValue),
}

/// What a `HostPattern` stands for.
pub enum HostPatternModel {
    Any,
    SubDomain(Seq<char>),
    Localhost,
    Exact(HostModel),
}

impl View for HostPattern {
    type V = HostPatternModel;

    open spec fn view(&self) -> HostPatternModel {
        match self {
            HostPattern::Any => HostPatternModel::Any,
            HostPattern::SubDomain(base) => HostPatternModel::SubDomain(base@),
            HostPattern::Localhost => HostPatternModel::Localhost,
            HostPattern::Exact(host) => HostPatternModel::Exact(host@),
        }
    }
}

impl HostPatternModel {
    /// The base of a subdomain constraint begins with the dot.
    pub open spec fn wf(self) -> bool {
        self matches HostPatternModel::SubDomain(base) ==> base.len() >= 1 && base[0] == '.'
    }

    /// Whether a URL's host meets the constraint. A subdomain constraint
    /// accepts the domain itself, which is the base without its dot, and
    /// every name that ends with the base; it accepts no address.
    pub open spec fn matches(self, host: HostModel) -> bool {
        match self {
            HostPatternModel::Any => true,
            HostPatternModel::SubDomain(base) => host matches HostModel::Domain(name) && ((
            base.len() >= 1 && name == base.skip(1)) || base.is_suffix_of(name)),
            HostPatternModel::Localhost => host.is_loopback(),
            HostPatternModel::Exact(wanted) => host == wanted,
        }
    }

    /// The constraint that a host in normal form stands for: the name `*`
    /// for every host, a name that begins with `*.` for a domain and what
    /// lies below it, a loopback host for the local machine, and any
    /// other host for itself.
    pub open spec fn classify(host: HostModel) -> HostPatternModel {
        match host {
            HostModel::Domain(name) => if name == "*"@ {
                HostPatternModel::Any
            } else if "*."@.is_prefix_of(name) {
                HostPatternModel::SubDomain(name.skip(1))
            } else if host.is_loopback() {
                HostPatternModel::Localhost
            } else {
                HostPatternModel::Exact(host)
            },
            _ => if host.is_loopback() {
                HostPatternModel::Localhost
            } else {
                HostPatternModel::Exact(host)
            },
        }
    }

    /// The constraint that a host token stands for, or why the token is
    /// no host.
    pub open spec fn from_text(text: Seq<char>) -> Result<HostPatternModel, HostError> {
        match normal_host(text) {
            Ok(host) => Ok(Self::classify(host)),
            Err(e) => Err(e),
        }
    }

    /// The constraint written out.
    pub open spec fn text(self) -> Seq<char> {
        match self {
            HostPatternModel::Any => "*"@,
            HostPatternModel::SubDomain(base) => "*"@ + base,
            HostPatternModel::Localhost => "localhost"@,
            HostPatternModel::Exact(host) => host.text(),
        }
    }

    /// The constraint is written as a host token, and that token is read
    /// as the same constraint. Hosts are brought to normal form outside
    /// this library, which knows of the normal form that it is a function
    /// of the text and no more: so this is tested or asked for where it
    /// is needed, and not proved.
    pub open spec fn is_stable(self) -> bool {
        is_host_token(self.text()) && Self::from_text(self.text()) == Ok::<
            HostPatternModel,
            HostError,
        >(self)
    }
}

/// The constraint that a host stands for meets its invariant.
pub proof fn lemma_classified_wf(host: HostModel)
    ensures
        HostPatternModel::classify(host).wf(),
{
    reveal_strlit("*.");
    if let HostModel::Domain(name) = host {
        if "*."@.is_prefix_of(name) {
            assert(name.skip(1)[0] == name.subrange(0, 2)[1]);
        }
    }
}

impl HostPattern {
    /// Whether a URL's host meets the constraint.
    pub fn is_match(&self, host: &HostValue) -> (b: bool)
        ensures
            b == self@.matches(host@),
    {
        match self {
            HostPattern::Any => true,
            HostPattern::SubDomain(base) => {
                match host {
                    HostValue::Domain(name) => {
                        let name_chars = to_chars(name.as_str());
                        let base_chars = to_chars(base.as_str());
                        if has_suffix(name_chars.as_slice(), base_chars.as_slice()) {
                            true
                        } else if base_chars.len() >= 1 {
                            let n: usize = base_chars.len();
                            let domain = vstd::slice::slice_subrange(base_chars.as_slice(), 1, n);
                            same_chars(name_chars.as_slice(), domain)
                        } else {
                            false
                        }
                    },
                    _ => false,
                }
            },
            HostPattern::Localhost => is_localhost(host),
            HostPattern::Exact(wanted) => *host == *wanted,
        }
    }

    /// The constraint that a host in normal form stands for.
    pub fn classify(host: HostValue) -> (pattern: HostPattern)
        ensures
            pattern@ == HostPatternModel::classify(host@),
            pattern@.wf(),
    {
        if let HostValue::Domain(name) = &host {
            let chars = to_chars(name.as_str());
            let star = to_chars("*");
            let star_dot = to_chars("*.");
            if same_chars(chars.as_slice(), star.as_slice()) {
                return HostPattern::Any;
            }
            if has_prefix(chars.as_slice(), star_dot.as_slice()) {
                proof {
                    reveal_strlit("*.");
                }
                let n: usize = chars.len();
                let base = name.as_str().substring_char(1, n);
                proof {
                    lemma_classified_wf(host@);
                }
                return HostPattern::SubDomain(base.to_owned());
            }
        }
        if is_localhost(&host) {
            HostPattern::Localhost
        } else {
            HostPattern::Exact(host)
        }
    }

    /// Reads a host token: brings it to normal form and classifies it.
    /// Where the token is no host, the refusal is handed on as it came.
    pub fn parse(text: &str) -> (r: Result<HostPattern, HostError>)
        ensures
            match HostPatternModel::from_text(text@) {
                Ok(pattern) => r matches Ok(p) && p@ == pattern && p@.wf(),
                Err(e) => r == Err::<HostPattern, HostError>(e),
            },
    {
        match HostValue::parse(text) {
            Ok(host) => Ok(HostPattern::classify(host)),
            Err(e) => Err(e),
        }
    }

    /// The constraint written out.
    pub fn to_string(&self) -> (text: String)
        ensures
            text@ == self@.text(),
    {
        match self {
            HostPattern::Any => "*".to_owned(),
            HostPattern::SubDomain(base) => {
                let mut text = "*".to_owned();
                text.append(base.as_str());
                text
            },
            HostPattern::Localhost => "localhost".to_owned(),
            HostPattern::Exact(host) => host.to_string(),
        }
    }

    /// Writes the constraint out and reads it again: whether what was
    /// written is a host token that stands for this constraint.
    pub fn is_stable(&self) -> (b: bool)
        ensures
            b == self@.is_stable(),
    {
        let text = self.to_string();
        if !host_token(text.as_str()) {
            return false;
        }
        match HostPattern::parse(text.as_str()) {
            Ok(again) => again == *self,
            Err(_) => false,
        }
    }
}

/// Two constraints are equal when they stand for the same.
impl PartialEq for HostPattern {
    fn eq(&self, other: &HostPattern) -> (same: bool) {
        match (self, other) {
            (HostPattern::Any, HostPattern::Any) => true,
            (HostPattern::SubDomain(a), HostPattern::SubDomain(b)) => same_text(
                a.as_str(),
                b.as_str(),
            ),
            (HostPattern::Localhost, HostPattern::Localhost) => true,
            (HostPattern::Exact(a), HostPattern::Exact(b)) => *a == *b,
            _ => false,
        }
    }
}

impl vstd::std_specs::cmp::PartialEqSpecImpl for HostPattern {
    open spec fn obeys_eq_spec() -> bool {
        true
    }

    open spec fn eq_spec(&self, other: &HostPattern) -> bool {
        self@ == other@
    }
}

impl Default for HostPattern {
    fn default() -> (pattern: HostPattern)
        ensures
            pattern@ == HostPatternModel::Any,
    {
        HostPattern::Any
    }
}

impl core::str::FromStr for HostPattern {
    type Err = HostError;

    fn from_str(s: &str) -> (r: Result<HostPattern, HostError>)
        ensures
            match HostPatternModel::from_text(s@) {
                Ok(pattern) => r matches Ok(p) && p@ == pattern && p@.wf(),
                Err(e) => r == Err::<HostPattern, HostError>(e),
            },
    {
        HostPattern::parse(s)
    }
}

} // verus!
