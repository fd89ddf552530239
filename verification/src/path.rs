//! The path constraint of a pattern.

use vstd::prelude::*;
use crate::grammar::{is_path_token, token_view};
use crate::text::{has_prefix, same_chars, same_text, text_has_suffix, to_chars};

verus! {

/// Which paths a pattern accepts.
#[derive(Debug, Eq)]
pub enum PathPattern {
    /// The base path itself and every path below it. The base may end in
    /// the `/` that the `*` of its token followed: `/foo/` and `/foo`
    /// both accept `/foo`, `/foo/` and `/foo/bar`, and `/` accepts every
    /// path.
    Path(String),
    /// This path and no other.
    Exact(String),
}

/// What a `PathPattern` stands for.
pub enum PathModel {
    Path(Seq<char>),
    Exact(Seq<char>),
}

impl View for PathPattern {
    type V = PathModel;

    open spec fn view(&self) -> PathModel {
        match self {
            PathPattern::Path(base) => PathModel::Path(base@),
            PathPattern::Exact(path) => PathModel::Exact(path@),
        }
    }
}

/// A base path without the `/` that it may end in: `/foo` for `/foo/` and
/// for `/foo`, and the empty path for `/`.
pub open spec fn stem(base: Seq<char>) -> Seq<char> {
    if base.len() >= 1 && base.last() == '/' {
        base.drop_last()
    } else {
        base
    }
}

impl PathModel {
    /// The constraint begins with `/`, as every URL path does.
    pub open spec fn wf(self) -> bool {
        match self {
            PathModel::Path(base) => base.len() >= 1 && base[0] == '/',
            PathModel::Exact(path) => path.len() >= 1 && path[0] == '/',
        }
    }

    /// Whether a URL's path meets the constraint. A base path accepts
    /// its stem and whatever goes on after the stem with the separator:
    /// `/foo/` accepts `/foo` and `/foo/bar`, and not `/foobar`.
    pub open spec fn matches(self, path: Seq<char>) -> bool {
        match self {
            PathModel::Path(base) => path == stem(base) || (stem(base) + "/"@).is_prefix_of(path),
            PathModel::Exact(wanted) => path == wanted,
        }
    }

    /// The constraint that a path token stands for. A token that ends in
    /// `/*` gives the base path before the `*`; a text without a path
    /// token gives the base path `/`.
    pub open spec fn from_token(token: Option<Seq<char>>) -> PathModel {
        match token {
            None => PathModel::Path("/"@),
            Some(t) => if "/*"@.is_suffix_of(t) {
                PathModel::Path(t.drop_last())
            } else {
                PathModel::Exact(t)
            },
        }
    }

    /// The constraint written out: a base path with `*` after it, an
    /// exact path as it stands.
    pub open spec fn text(self) -> Seq<char> {
        match self {
            PathModel::Path(base) => base + "*"@,
            PathModel::Exact(path) => path,
        }
    }

    /// The constraint of a pattern text without a path token.
    pub open spec fn is_default(self) -> bool {
        self == PathModel::Path("/"@)
    }

    /// The path token of a pattern's canonical text: none for the
    /// constraint that a text without a path token gives.
    pub open spec fn token(self) -> Option<Seq<char>> {
        if self.is_default() {
            None
        } else {
            Some(self.text())
        }
    }
}

/// A path constraint that was read from a token begins with `/`. It is
/// written as a path token, and that token is read as the same
/// constraint.
pub proof fn lemma_path_round_trip(token: Option<Seq<char>>)
    requires
        token matches Some(t) ==> is_path_token(t),
    ensures
        PathModel::from_token(token).wf(),
        PathModel::from_token(token).token() matches Some(t) ==> is_path_token(t),
        PathModel::from_token(PathModel::from_token(token).token()) == PathModel::from_token(token),
{
    reveal_strlit("/");
    reveal_strlit("*");
    reveal_strlit("/*");
    if let Some(t) = token {
        if "/*"@.is_suffix_of(t) {
            let tail = t.subrange(t.len() - 2, t.len() as int);
            assert(tail[0] == '/' && tail[1] == '*');
            let base = t.drop_last();
            assert(base + "*"@ =~= t);
            if base != "/"@ {
                assert(PathModel::Path(base).text() == t);
            }
        }
    }
}

impl PathPattern {
    /// Whether a URL's path meets the constraint.
    pub fn is_match(&self, path: &str) -> (b: bool)
        ensures
            b == self@.matches(path@),
    {
        match self {
            PathPattern::Path(base) => {
                let path_chars = to_chars(path);
                let mut below = to_chars(base.as_str());
                let n: usize = below.len();
                if n >= 1 && below[n - 1] == '/' {
                    below.pop();
                }
                assert(below@ =~= stem(base@));
                if same_chars(path_chars.as_slice(), below.as_slice()) {
                    true
                } else {
                    below.push('/');
                    proof {
                        reveal_strlit("/");
                        assert(below@ =~= stem(base@) + "/"@);
                    }
                    has_prefix(path_chars.as_slice(), below.as_slice())
                }
            },
            PathPattern::Exact(wanted) => same_text(path, wanted.as_str()),
        }
    }

    /// Reads a path token.
    pub fn from_token(token: Option<&str>) -> (pattern: PathPattern)
        ensures
            pattern@ == PathModel::from_token(token_view(token)),
    {
        match token {
            None => PathPattern::Path("/".to_owned()),
            Some(t) => {
                if text_has_suffix(t, "/*") {
                    proof {
                        reveal_strlit("/*");
                    }
                    let n: usize = t.unicode_len();
                    let base = t.substring_char(0, n - 1);
                    assert(base@ =~= t@.drop_last());
                    PathPattern::Path(base.to_owned())
                } else {
                    PathPattern::Exact(t.to_owned())
                }
            },
        }
    }

    /// Whether this is the constraint of a pattern text without a path
    /// token.
    pub fn is_default(&self) -> (b: bool)
        ensures
            b == self@.is_default(),
    {
        match self {
            PathPattern::Path(base) => same_text(base.as_str(), "/"),
            PathPattern::Exact(_) => false,
        }
    }

    /// The constraint written out.
    pub fn to_string(&self) -> (text: String)
        ensures
            text@ == self@.text(),
    {
        match self {
            PathPattern::Path(base) => {
                let mut text = base.clone();
                text.append("*");
                text
            },
            PathPattern::Exact(path) => path.clone(),
        }
    }
}

/// Two constraints are equal when they stand for the same.
impl PartialEq for PathPattern {
    fn eq(&self, other: &PathPattern) -> (same: bool) {
        match (self, other) {
            (PathPattern::Path(a), PathPattern::Path(b)) => same_text(a.as_str(), b.as_str()),
            (PathPattern::Exact(a), PathPattern::Exact(b)) => same_text(a.as_str(), b.as_str()),
            _ => false,
        }
    }
}

impl vstd::std_specs::cmp::PartialEqSpecImpl for PathPattern {
    open spec fn obeys_eq_spec() -> bool {
        true
    }

    open spec fn eq_spec(&self, other: &PathPattern) -> bool {
        self@ == other@
    }
}

impl Default for PathPattern {
    fn default() -> (pattern: PathPattern)
        ensures
            pattern@ == PathModel::Path("/"@),
    {
        PathPattern::Path("/".to_owned())
    }
}

} // verus!
