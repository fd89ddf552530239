//! The scheme constraint of a pattern.

use vstd::prelude::*;
use crate::grammar::{is_scheme_token, token_view};
use crate::text::same_text;

verus! {

/// Which schemes a pattern accepts.
#[derive(Debug, Eq)]
pub enum SchemePattern {
    /// Every scheme.
    Any,
    /// `http` and `https`, written `https?`.
    HttpOrHttps,
    /// This scheme and no other.
    Exact(String),
}

/// What a `SchemePattern` stands for.
pub enum SchemeModel {
    Any,
    HttpOrHttps,
    Exact(Seq<char>),
}

impl View for SchemePattern {
    type V = SchemeModel;

    open spec fn view(&self) -> SchemeModel {
        match self {
            SchemePattern::Any => SchemeModel::Any,
            SchemePattern::HttpOrHttps => SchemeModel::HttpOrHttps,
            SchemePattern::Exact(scheme) => SchemeModel::Exact(scheme@),
        }
    }
}

impl SchemeModel {
    /// Whether a URL's scheme meets the constraint.
    pub open spec fn matches(self, scheme: Seq<char>) -> bool {
        match self {
            SchemeModel::Any => true,
            SchemeModel::HttpOrHttps => scheme == "http"@ || scheme == "https"@,
            SchemeModel::Exact(wanted) => scheme == wanted,
        }
    }

    /// The constraint that a scheme token stands for. A text without a
    /// scheme token accepts every scheme.
    pub open spec fn from_token(token: Option<Seq<char>>) -> SchemeModel {
        match token {
            None => SchemeModel::Any,
            Some(t) => if t == "*"@ {
                SchemeModel::Any
            } else if t == "https?"@ {
                SchemeModel::HttpOrHttps
            } else {
                SchemeModel::Exact(t)
            },
        }
    }

    /// The constraint written out.
    pub open spec fn text(self) -> Seq<char> {
        match self {
            SchemeModel::Any => "*"@,
            SchemeModel::HttpOrHttps => "https?"@,
            SchemeModel::Exact(scheme) => scheme,
        }
    }

    /// The scheme token of a pattern's canonical text: none where every
    /// scheme is accepted.
    pub open spec fn token(self) -> Option<Seq<char>> {
        if self is Any {
            None
        } else {
            Some(self.text())
        }
    }
}

/// A scheme constraint that was read from a token is written as a scheme
/// token, and that token is read as the same constraint.
pub proof fn lemma_scheme_round_trip(token: Option<Seq<char>>)
    requires
        token matches Some(t) ==> is_scheme_token(t),
    ensures
        SchemeModel::from_token(token).token() matches Some(t) ==> is_scheme_token(t),
        SchemeModel::from_token(SchemeModel::from_token(token).token()) == SchemeModel::from_token(
            token,
        ),
{
    reveal_strlit("*");
    reveal_strlit("https?");
}

impl SchemePattern {
    /// Whether a URL's scheme meets the constraint.
    pub fn is_match(&self, scheme: &str) -> (b: bool)
        ensures
            b == self@.matches(scheme@),
    {
        match self {
            SchemePattern::Any => true,
            SchemePattern::HttpOrHttps => same_text(scheme, "http") || same_text(scheme, "https"),
            SchemePattern::Exact(wanted) => same_text(scheme, wanted.as_str()),
        }
    }

    /// Reads a scheme token.
    pub fn from_token(token: Option<&str>) -> (pattern: SchemePattern)
        ensures
            pattern@ == SchemeModel::from_token(token_view(token)),
    {
        match token {
            None => SchemePattern::Any,
            Some(t) => {
                if same_text(t, "*") {
                    SchemePattern::Any
                } else if same_text(t, "https?") {
                    SchemePattern::HttpOrHttps
                } else {
                    SchemePattern::Exact(t.to_owned())
                }
            },
        }
    }

    /// The constraint written out: `*`, `https?` or the scheme itself.
    pub fn to_string(&self) -> (text: String)
        ensures
            text@ == self@.text(),
    {
        match self {
            SchemePattern::Any => "*".to_owned(),
            SchemePattern::HttpOrHttps => "https?".to_owned(),
            SchemePattern::Exact(scheme) => scheme.clone(),
        }
    }
}

/// Two constraints are equal when they stand for the same.
impl PartialEq for SchemePattern {
    fn eq(&self, other: &SchemePattern) -> (same: bool) {
        match (self, other) {
            (SchemePattern::Any, SchemePattern::Any) => true,
            (SchemePattern::HttpOrHttps, SchemePattern::HttpOrHttps) => true,
            (SchemePattern::Exact(a), SchemePattern::Exact(b)) => same_text(a.as_str(), b.as_str()),
            _ => false,
        }
    }
}

impl vstd::std_specs::cmp::PartialEqSpecImpl for SchemePattern {
    open spec fn obeys_eq_spec() -> bool {
        true
    }

    open spec fn eq_spec(&self, other: &SchemePattern) -> bool {
        self@ == other@
    }
}

impl Default for SchemePattern {
    fn default() -> (pattern: SchemePattern)
        ensures
            pattern@ == SchemeModel::Any,
    {
        SchemePattern::Any
    }
}

} // verus!
