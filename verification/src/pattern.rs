//! URL patterns: reading one from its text, matching it against a URL,
//! and writing it out again.

use vstd::prelude::*;
use crate::grammar::{tokenize, tokens_of, Tokens, TokensModel};
use crate::host::{HostModel, HostValue};
use crate::host_pattern::{HostPattern, HostPatternModel};
use crate::path::{lemma_path_round_trip, PathModel, PathPattern};
use crate::scheme::{SchemeModel, SchemePattern};
use crate::text::{decimal_string, decimal_text, port_value, read_port, same_text};

verus! {

/// What the matcher reads of a URL.
#[derive(Debug, Eq)]
pub struct UrlParts {
    /// The URL's scheme, without the colon.
    pub scheme: String,
    /// The host in normal form; `None` for a URL without a host, such as
    /// `mailto:` and `data:` URLs.
    pub host: Option<HostValue>,
    /// The URL's port, or the default port of its scheme where the URL
    /// names none and the scheme has one.
    pub port: Option<u16>,
    /// The URL's path. Where the URL has a host, it is empty or begins
    /// with `/`.
    pub path: String,
}

/// What `UrlParts` stands for.
pub struct UrlModel {
    pub scheme: Seq<char>,
    pub host: Option<HostModel>,
    pub port: Option<u16>,
    pub path: Seq<char>,
}

impl UrlModel {
    /// The parts are those of a URL: where it has a host, its path is
    /// empty or begins with `/`.
    pub open spec fn wf(self) -> bool {
        self.host is Some ==> self.path.len() == 0 || self.path[0] == '/'
    }
}

impl View for UrlParts {
    type V = UrlModel;

    open spec fn view(&self) -> UrlModel {
        UrlModel {
            scheme: self.scheme@,
            host: match self.host {
                Some(host) => Some(host@),
                None => None,
            },
            port: self.port,
            path: self.path@,
        }
    }
}

/// Why a text is no pattern.
#[derive(Debug, Clone, Copy, PartialEq, Eq, Structural)]
pub enum PatternError {
    /// The text is not of the form `[SCHEME://]HOST[:PORT][/PATH]`.
    GrammarMismatch,
    /// The text has that form, and its host token is no host.
    HostParseFailure,
}

/// The match criteria of one routing rule.
#[derive(Debug, Eq)]
pub struct UrlPattern {
    pub scheme: SchemePattern,
    pub host: HostPattern,
    /// `None` accepts every port.
    pub port: Option<u16>,
    pub path: PathPattern,
}

/// What a `UrlPattern` stands for.
pub struct PatternModel {
    pub scheme: SchemeModel,
    pub host: HostPatternModel,
    pub port: Option<u16>,
    pub path: PathModel,
}

impl View for UrlPattern {
    type V = PatternModel;

    open spec fn view(&self) -> PatternModel {
        PatternModel {
            scheme: self.scheme@,
            host: self.host@,
            port: self.port,
            path: self.path@,
        }
    }
}

impl PatternModel {
    /// The default pattern: every field accepts as much as it can, and
    /// the pattern every URL.
    pub open spec fn any() -> PatternModel {
        PatternModel {
            scheme: SchemeModel::Any,
            host: HostPatternModel::Any,
            port: None,
            path: PathModel::Path("/"@),
        }
    }

    /// The invariants of the host and path constraints hold.
    pub open spec fn wf(self) -> bool {
        self.host.wf() && self.path.wf()
    }

    /// Whether a URL's port meets the constraint. The URL's port counts
    /// with the default of its scheme filled in; a URL without any port
    /// meets no constraint but the absent one.
    pub open spec fn port_matches(self, port: Option<u16>) -> bool {
        self.port matches Some(wanted) ==> port == Some(wanted)
    }

    /// Whether a URL meets the pattern. The scheme is always held to its
    /// constraint; host, port and path only where the URL has a host.
    pub open spec fn matches(self, url: UrlModel) -> bool {
        &&& self.scheme.matches(url.scheme)
        &&& url.host matches Some(host) ==> {
            &&& self.host.matches(host)
            &&& self.port_matches(url.port)
            &&& self.path.matches(url.path)
        }
    }

    /// The pattern that tokens stand for, given the constraint that the
    /// host token stands for. A port token that spells a number above
    /// 65535 gives no port constraint.
    pub open spec fn with_host(tokens: TokensModel, host: HostPatternModel) -> PatternModel {
        PatternModel {
            scheme: SchemeModel::from_token(tokens.scheme),
            host,
            port: match tokens.port {
                Some(t) => port_value(t),
                None => None,
            },
            path: PathModel::from_token(tokens.path),
        }
    }

    /// The pattern that tokens stand for.
    pub open spec fn from_tokens(tokens: TokensModel) -> Result<PatternModel, PatternError> {
        match HostPatternModel::from_text(tokens.host) {
            Ok(host) => Ok(Self::with_host(tokens, host)),
            Err(_) => Err(PatternError::HostParseFailure),
        }
    }

    /// The pattern that a text stands for.
    pub open spec fn parse(text: Seq<char>) -> Result<PatternModel, PatternError> {
        match tokens_of(text) {
            Some(tokens) => Self::from_tokens(tokens),
            None => Err(PatternError::GrammarMismatch),
        }
    }

    /// The tokens of the pattern's canonical text. The scheme token is
    /// left out where every scheme is accepted, the port token where
    /// every port is, and the path token where the path constraint is the
    /// one that a text without a path token gives.
    pub open spec fn tokens(self) -> TokensModel {
        TokensModel {
            scheme: self.scheme.token(),
            host: self.host.text(),
            port: match self.port {
                Some(port) => Some(decimal_text(port as nat)),
                None => None,
            },
            path: self.path.token(),
        }
    }

    /// The pattern's canonical text.
    pub open spec fn text(self) -> Seq<char> {
        self.tokens().text()
    }
}

impl UrlPattern {
    /// The pattern that tokens stand for, given the constraint that the
    /// host token stands for.
    pub fn with_host(tokens: &Tokens, host: HostPattern) -> (pattern: UrlPattern)
        ensures
            pattern@ == PatternModel::with_host(tokens@, host@),
            tokens@.valid() && host@.wf() ==> pattern@.wf(),
    {
        proof {
            if tokens@.valid() {
                lemma_path_round_trip(tokens@.path);
            }
        }
        UrlPattern {
            scheme: SchemePattern::from_token(tokens.scheme),
            host,
            port: match tokens.port {
                Some(t) => read_port(t),
                None => None,
            },
            path: PathPattern::from_token(tokens.path),
        }
    }

    /// The pattern that tokens stand for. Fails where the host token is
    /// no host.
    pub fn from_tokens(tokens: &Tokens) -> (r: Result<UrlPattern, PatternError>)
        ensures
            match PatternModel::from_tokens(tokens@) {
                Ok(pattern) => r matches Ok(p) && p@ == pattern,
                Err(e) => r == Err::<UrlPattern, PatternError>(e),
            },
            tokens@.valid() ==> (r matches Ok(p) ==> p@.wf()),
    {
        match HostPattern::parse(tokens.host) {
            Ok(host) => Ok(UrlPattern::with_host(tokens, host)),
            Err(_) => Err(PatternError::HostParseFailure),
        }
    }

    /// Reads a pattern from its text, and says why where the text is
    /// none.
    pub fn try_parse(text: &str) -> (r: Result<UrlPattern, PatternError>)
        ensures
            match PatternModel::parse(text@) {
                Ok(pattern) => r matches Ok(p) && p@ == pattern,
                Err(e) => r == Err::<UrlPattern, PatternError>(e),
            },
            r matches Ok(p) ==> p@.wf(),
    {
        match tokenize(text) {
            Some(tokens) => UrlPattern::from_tokens(&tokens),
            None => Err(PatternError::GrammarMismatch),
        }
    }

    /// Reads a pattern from its text; `None` where the text is none.
    pub fn parse(text: &str) -> (r: Option<UrlPattern>)
        ensures
            match PatternModel::parse(text@) {
                Ok(pattern) => r matches Some(p) && p@ == pattern,
                Err(_) => r is None,
            },
            r matches Some(p) ==> p@.wf(),
    {
        match UrlPattern::try_parse(text) {
            Ok(pattern) => Some(pattern),
            Err(_) => None,
        }
    }

    /// Whether a URL's port meets the port constraint.
    pub fn is_match_port(&self, port: Option<u16>) -> (b: bool)
        ensures
            b == self@.port_matches(port),
    {
        match self.port {
            None => true,
            Some(wanted) => match port {
                Some(port) => port == wanted,
                None => false,
            },
        }
    }

    /// Whether a URL meets the pattern.
    pub fn is_match(&self, url: &UrlParts) -> (b: bool)
        ensures
            b == self@.matches(url@),
    {
        self.scheme.is_match(url.scheme.as_str()) && match &url.host {
            None => true,
            Some(host) => self.host.is_match(host) && self.is_match_port(url.port)
                && self.path.is_match(url.path.as_str()),
        }
    }

    /// The pattern's canonical text.
    pub fn to_string(&self) -> (text: String)
        ensures
            text@ == self@.text(),
    {
        let mut text = String::new();
        match &self.scheme {
            SchemePattern::Any => {},
            _ => {
                text.append(self.scheme.to_string().as_str());
                text.append("://");
            },
        }
        text.append(self.host.to_string().as_str());
        if let Some(port) = self.port {
            text.append(":");
            text.append(decimal_string(port as u32).as_str());
        }
        if !self.path.is_default() {
            text.append(self.path.to_string().as_str());
        }
        proof {
            reveal_strlit("://");
            reveal_strlit(":");
            let tokens = self@.tokens();
            assert(tokens.scheme_part() =~= match self@.scheme {
                SchemeModel::Any => Seq::<char>::empty(),
                _ => self@.scheme.text() + "://"@,
            });
            assert(tokens.port_part() =~= match self.port {
                Some(port) => ":"@ + decimal_text(port as nat),
                None => Seq::<char>::empty(),
            });
            assert(text@ =~= tokens.text());
        }
        text
    }
}

/// Two patterns are equal when they stand for the same.
impl PartialEq for UrlPattern {
    fn eq(&self, other: &UrlPattern) -> (same: bool) {
        self.scheme == other.scheme && self.host == other.host && self.port == other.port
            && self.path == other.path
    }
}

impl vstd::std_specs::cmp::PartialEqSpecImpl for UrlPattern {
    open spec fn obeys_eq_spec() -> bool {
        true
    }

    open spec fn eq_spec(&self, other: &UrlPattern) -> bool {
        self@ == other@
    }
}

/// Two URLs are equal for the matcher when it reads the same of both.
impl PartialEq for UrlParts {
    fn eq(&self, other: &UrlParts) -> (same: bool) {
        same_text(self.scheme.as_str(), other.scheme.as_str()) && self.host == other.host
            && self.port == other.port && same_text(self.path.as_str(), other.path.as_str())
    }
}

impl vstd::std_specs::cmp::PartialEqSpecImpl for UrlParts {
    open spec fn obeys_eq_spec() -> bool {
        true
    }

    open spec fn eq_spec(&self, other: &UrlParts) -> bool {
        self@ == other@
    }
}

impl Default for UrlPattern {
    fn default() -> (pattern: UrlPattern)
        ensures
            pattern@ == PatternModel::any(),
    {
        UrlPattern {
            scheme: SchemePattern::Any,
            host: HostPattern::Any,
            port: None,
            path: PathPattern::Path("/".to_owned()),
        }
    }
}

} // verus!
