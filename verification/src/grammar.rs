//! The grammar of a pattern text, `[SCHEME://]HOST[:PORT][/PATH]`, and the
//! tokenizer that cuts a text into these four tokens.

use vstd::prelude::*;
use crate::text::{all_digits, alpha, digit, is_alpha, is_digit, is_word, to_chars, word};

verus! {

/// A character that a host token may hold.
pub open spec fn is_host_char(c: char) -> bool {
    is_word(c) || c == '*' || c == '.'
}

/// `*`, or letters, or letters and one `?` after them.
pub open spec fn is_scheme_token(t: Seq<char>) -> bool {
    ||| (t.len() == 1 && t[0] == '*')
    ||| (t.len() >= 1 && forall|i: int| 0 <= i < t.len() ==> is_alpha(#[trigger] t[i]))
    ||| (t.len() >= 2 && t[t.len() - 1] == '?' && forall|i: int|
        0 <= i < t.len() - 1 ==> is_alpha(#[trigger] t[i]))
}

/// One or more host characters.
pub open spec fn is_host_token(t: Seq<char>) -> bool {
    t.len() >= 1 && forall|i: int| 0 <= i < t.len() ==> is_host_char(#[trigger] t[i])
}

/// One or more digits. The colon before them is no part of the token.
pub open spec fn is_port_token(t: Seq<char>) -> bool {
    t.len() >= 1 && all_digits(t)
}

/// A `/` and whatever follows it on the same line.
pub open spec fn is_path_token(t: Seq<char>) -> bool {
    t.len() >= 1 && t[0] == '/' && forall|i: int| 0 <= i < t.len() ==> #[trigger] t[i] != '\n'
}

/// The tokens of a pattern text. Only the host is always there.
pub struct TokensModel {
    pub scheme: Option<Seq<char>>,
    pub host: Seq<char>,
    pub port: Option<Seq<char>>,
    pub path: Option<Seq<char>>,
}

impl TokensModel {
    /// Each token that is there has the form of its kind.
    pub open spec fn valid(self) -> bool {
        &&& self.scheme matches Some(t) ==> is_scheme_token(t)
        &&& is_host_token(self.host)
        &&& self.port matches Some(t) ==> is_port_token(t)
        &&& self.path matches Some(t) ==> is_path_token(t)
    }

    /// The scheme with `://` after it.
    pub open spec fn scheme_part(self) -> Seq<char> {
        match self.scheme {
            Some(t) => t + seq![':', '/', '/'],
            None => Seq::empty(),
        }
    }

    /// The port with `:` before it.
    pub open spec fn port_part(self) -> Seq<char> {
        match self.port {
            Some(t) => seq![':'] + t,
            None => Seq::empty(),
        }
    }

    /// The path, which brings its own `/`.
    pub open spec fn path_part(self) -> Seq<char> {
        match self.path {
            Some(t) => t,
            None => Seq::empty(),
        }
    }

    /// The text that these tokens are cut from.
    pub open spec fn text(self) -> Seq<char> {
        self.scheme_part() + self.host + self.port_part() + self.path_part()
    }
}

/// The tokens of `text`; `None` where no valid tokens make up the text.
/// `lemma_tokens_unique` shows that at most one choice exists.
pub open spec fn tokens_of(text: Seq<char>) -> Option<TokensModel> {
    if exists|t: TokensModel| t.valid() && t.text() == text {
        Some(choose|t: TokensModel| t.valid() && t.text() == text)
    } else {
        None
    }
}

// The same grammar over positions in the text: the host lies in `[a, b)`,
// the port with its colon in `[b, c)`, the path in `[c, len)`, and a scheme
// with `://` in `[0, a)`.

spec fn scheme_at(s: Seq<char>, e: int) -> bool {
    ||| (e == 1 && s[0] == '*')
    ||| (e >= 1 && forall|k: int| 0 <= k < e ==> is_alpha(#[trigger] s[k]))
    ||| (e >= 2 && s[e - 1] == '?' && forall|k: int| 0 <= k < e - 1 ==> is_alpha(#[trigger] s[k]))
}

spec fn scheme_prefix(s: Seq<char>, a: int) -> bool {
    &&& 4 <= a <= s.len()
    &&& scheme_at(s, a - 3)
    &&& s[a - 3] == ':'
    &&& s[a - 2] == '/'
    &&& s[a - 1] == '/'
}

spec fn cut(s: Seq<char>, a: int, b: int, c: int) -> bool {
    &&& 0 <= a < b <= c <= s.len()
    &&& a == 0 || scheme_prefix(s, a)
    &&& forall|k: int| a <= k < b ==> is_host_char(#[trigger] s[k])
    &&& c == b || (c >= b + 2 && s[b] == ':' && forall|k: int|
        b < k < c ==> is_digit(#[trigger] s[k]))
    &&& c == s.len() || (s[c] == '/' && forall|k: int| c <= k < s.len() ==> #[trigger] s[k] != '\n')
}

spec fn tokens_at(s: Seq<char>, a: int, b: int, c: int) -> TokensModel {
    TokensModel {
        scheme: if a == 0 {
            None
        } else {
            Some(s.subrange(0, a - 3))
        },
        host: s.subrange(a, b),
        port: if c == b {
            None
        } else {
            Some(s.subrange(b + 1, c))
        },
        path: if c == s.len() {
            None
        } else {
            Some(s.subrange(c, s.len() as int))
        },
    }
}

proof fn lemma_scheme_at(s: Seq<char>, e: int)
    requires
        0 <= e <= s.len(),
    ensures
        scheme_at(s, e) == is_scheme_token(s.subrange(0, e)),
{
    let t = s.subrange(0, e);
    assert(forall|k: int| 0 <= k < e ==> t[k] == s[k]);
    if scheme_at(s, e) {
        if e == 1 && s[0] == '*' {
        } else if e >= 1 && forall|k: int| 0 <= k < e ==> is_alpha(#[trigger] s[k]) {
            assert(forall|i: int| 0 <= i < t.len() ==> is_alpha(#[trigger] t[i]));
        } else {
            assert(forall|i: int| 0 <= i < t.len() - 1 ==> is_alpha(#[trigger] t[i]));
        }
    }
    if is_scheme_token(t) {
        if t.len() == 1 && t[0] == '*' {
        } else if t.len() >= 1 && forall|i: int| 0 <= i < t.len() ==> is_alpha(#[trigger] t[i]) {
            assert(forall|k: int| 0 <= k < e ==> is_alpha(t[k]) ==> is_alpha(#[trigger] s[k]));
        } else {
            assert(forall|k: int| 0 <= k < e - 1 ==> is_alpha(t[k]) ==> is_alpha(#[trigger] s[k]));
        }
    }
}

/// A text that is cut at `a`, `b`, `c` is the text of the tokens there.
proof fn lemma_cut_gives_tokens(s: Seq<char>, a: int, b: int, c: int)
    requires
        cut(s, a, b, c),
    ensures
        tokens_at(s, a, b, c).valid(),
        tokens_at(s, a, b, c).text() == s,
{
    let t = tokens_at(s, a, b, c);
    if a != 0 {
        lemma_scheme_at(s, a - 3);
        assert(t.scheme_part() =~= s.subrange(0, a));
    } else {
        assert(t.scheme_part() =~= s.subrange(0, a));
    }
    assert(is_host_token(t.host)) by {
        assert(forall|i: int| 0 <= i < t.host.len() ==> t.host[i] == s[a + i]);
    }
    if c != b {
        let p = s.subrange(b + 1, c);
        assert(forall|i: int| 0 <= i < p.len() ==> p[i] == s[b + 1 + i]);
        assert(is_port_token(p));
    }
    assert(t.port_part() =~= s.subrange(b, c));
    if c != s.len() {
        let p = s.subrange(c, s.len() as int);
        assert(forall|i: int| 0 <= i < p.len() ==> p[i] == s[c + i]);
        assert(is_path_token(p));
    }
    assert(t.path_part() =~= s.subrange(c, s.len() as int));
    assert(t.text() =~= s);
}

/// The text of valid tokens is cut where the tokens meet.
proof fn lemma_tokens_give_cut(t: TokensModel)
    requires
        t.valid(),
    ensures
        ({
            let a = t.scheme_part().len() as int;
            let b = a + t.host.len();
            let c = b + t.port_part().len();
            cut(t.text(), a, b, c) && tokens_at(t.text(), a, b, c) == t
        }),
{
    let s = t.text();
    let a = t.scheme_part().len() as int;
    let b = a + t.host.len();
    let c = b + t.port_part().len();
    assert(forall|k: int| 0 <= k < a ==> s[k] == t.scheme_part()[k]);
    assert(forall|k: int| a <= k < b ==> s[k] == t.host[k - a]);
    assert(forall|k: int| b <= k < c ==> s[k] == t.port_part()[k - b]);
    assert(forall|k: int| c <= k < s.len() ==> s[k] == t.path_part()[k - c]);
    if let Some(x) = t.scheme {
        assert(s.subrange(0, a - 3) =~= x);
        lemma_scheme_at(s, a - 3);
        assert(s[a - 3] == t.scheme_part()[a - 3]);
        assert(s[a - 2] == t.scheme_part()[a - 2]);
        assert(s[a - 1] == t.scheme_part()[a - 1]);
        assert(scheme_prefix(s, a));
    }
    assert(s.subrange(a, b) =~= t.host);
    if let Some(x) = t.port {
        assert(s.subrange(b + 1, c) =~= x);
        assert(s[b] == t.port_part()[0]);
        assert(forall|k: int| b < k < c ==> s[k] == x[k - b - 1]);
    }
    if let Some(x) = t.path {
        assert(s.subrange(c, s.len() as int) =~= x);
        assert(s[c] == t.path_part()[0]);
    }
    assert(cut(s, a, b, c));
}

/// A text has at most one scheme prefix.
proof fn lemma_scheme_prefix_unique(s: Seq<char>, a: int, a2: int)
    requires
        scheme_prefix(s, a),
        scheme_prefix(s, a2),
    ensures
        a == a2,
{
    if a < a2 {
        // the colon at a - 3 lies inside the other scheme token
        assert(is_alpha(s[a - 3]) || s[a - 3] == '*' || s[a - 3] == '?');
    } else if a2 < a {
        assert(is_alpha(s[a2 - 3]) || s[a2 - 3] == '*' || s[a2 - 3] == '?');
    }
}

/// A text that is cut without a scheme has no scheme prefix.
proof fn lemma_bare_host_has_no_scheme(s: Seq<char>, b: int, c: int, a2: int)
    requires
        cut(s, 0, b, c),
    ensures
        !scheme_prefix(s, a2),
{
    if scheme_prefix(s, a2) {
        let e = a2 - 3;
        if e >= 2 && s[e - 1] == '?' && forall|k: int| 0 <= k < e - 1 ==> is_alpha(#[trigger] s[k]) {
            // the host ends at the `?`, which neither a port nor a path begins with
            if b > e - 1 {
                assert(is_host_char(s[e - 1]));
            } else if b < e - 1 {
                assert(is_alpha(s[b]));
            }
        } else {
            // the host ends at the colon, and no digit follows it
            assert(forall|k: int| 0 <= k < e ==> is_host_char(#[trigger] s[k]));
            if b > e {
                assert(is_host_char(s[e]));
            } else if b < e {
                assert(is_host_char(s[b]));
            } else {
                assert(is_digit(s[b + 1]));
            }
        }
    }
}

/// A text is cut in at most one way.
proof fn lemma_cut_unique(s: Seq<char>, a: int, b: int, c: int, a2: int, b2: int, c2: int)
    requires
        cut(s, a, b, c),
        cut(s, a2, b2, c2),
    ensures
        a == a2,
        b == b2,
        c == c2,
{
    if a == 0 {
        lemma_bare_host_has_no_scheme(s, b, c, a2);
    } else if a2 == 0 {
        lemma_bare_host_has_no_scheme(s, b2, c2, a);
    } else {
        lemma_scheme_prefix_unique(s, a, a2);
    }
    if b < b2 {
        assert(is_host_char(s[b]));
    } else if b2 < b {
        assert(is_host_char(s[b2]));
    }
    if c < c2 {
        assert(c2 > b);
        if c > b {
            assert(is_digit(s[c]));
        } else {
            assert(s[b] == ':');
        }
    } else if c2 < c {
        if c2 > b {
            assert(is_digit(s[c2]));
        } else {
            assert(s[b] == ':');
        }
    }
}

/// Valid tokens are the only valid tokens of their text.
pub proof fn lemma_tokens_unique(t: TokensModel, u: TokensModel)
    requires
        t.valid(),
        u.valid(),
        t.text() == u.text(),
    ensures
        t == u,
{
    lemma_tokens_give_cut(t);
    lemma_tokens_give_cut(u);
    let a = t.scheme_part().len() as int;
    let b = a + t.host.len();
    let c = b + t.port_part().len();
    let a2 = u.scheme_part().len() as int;
    let b2 = a2 + u.host.len();
    let c2 = b2 + u.port_part().len();
    lemma_cut_unique(t.text(), a, b, c, a2, b2, c2);
}

/// The tokenizer finds valid tokens again in their own text.
pub proof fn lemma_tokens_of_text(t: TokensModel)
    requires
        t.valid(),
    ensures
        tokens_of(t.text()) == Some(t),
{
    let found = choose|u: TokensModel| u.valid() && u.text() == t.text();
    lemma_tokens_unique(t, found);
}

/// The tokens of a pattern text, as parts of that text.
#[derive(Debug, Clone, Copy, PartialEq, Eq)]
pub struct Tokens<'a> {
    pub scheme: Option<&'a str>,
    pub host: &'a str,
    pub port: Option<&'a str>,
    pub path: Option<&'a str>,
}

/// The characters of a token that may be missing.
pub open spec fn token_view(token: Option<&str>) -> Option<Seq<char>> {
    match token {
        Some(t) => Some(t@),
        None => None,
    }
}

impl<'a> View for Tokens<'a> {
    type V = TokensModel;

    open spec fn view(&self) -> TokensModel {
        TokensModel {
            scheme: token_view(self.scheme),
            host: self.host@,
            port: token_view(self.port),
            path: token_view(self.path),
        }
    }
}

/// Whether a host token may hold `c`.
pub fn host_char(c: char) -> (b: bool)
    ensures
        b == is_host_char(c),
{
    word(c) || c == '*' || c == '.'
}

/// Whether the text is a host token.
pub fn host_token(text: &str) -> (b: bool)
    ensures
        b == is_host_token(text@),
{
    let chars = to_chars(text);
    let mut i: usize = 0;
    while i < chars.len()
        invariant
            i <= chars@.len(),
            chars@ == text@,
            forall|k: int| 0 <= k < i ==> is_host_char(#[trigger] chars@[k]),
        decreases chars@.len() - i,
    {
        if !host_char(chars[i]) {
            return false;
        }
        i += 1;
    }
    chars.len() >= 1
}

/// Where the text's scheme prefix ends, 0 where it has none.
fn scheme_end(s: &[char]) -> (a: usize)
    ensures
        a == 0 ==> forall|x: int| !scheme_prefix(s@, x),
        a != 0 ==> scheme_prefix(s@, a as int),
{
    let n: usize = s.len();
    let mut i: usize = 0;
    if n > 0 && s[0] == '*' {
        i = 1;
    } else {
        while i < n && alpha(s[i])
            invariant
                i <= n,
                n == s@.len(),
                forall|k: int| 0 <= k < i ==> is_alpha(#[trigger] s@[k]),
            decreases n - i,
        {
            i += 1;
        }
        if i > 0 && i < n && s[i] == '?' {
            i += 1;
        }
    }
    if i > 0 && n - i >= 3 && s[i] == ':' && s[i + 1] == '/' && s[i + 2] == '/' {
        assert(scheme_at(s@, i as int));
        i + 3
    } else {
        assert forall|x: int| !scheme_prefix(s@, x) by {
            if scheme_prefix(s@, x) {
                let e = x - 3;
                if e == 1 && s@[0] == '*' {
                } else if e >= 1 && forall|k: int| 0 <= k < e ==> is_alpha(#[trigger] s@[k]) {
                    assert(is_alpha(s@[0]));
                    if i < e {
                        assert(is_alpha(s@[i as int]));
                    } else if i > e {
                        assert(is_alpha(s@[e]) || s@[e] == '?');
                    }
                } else {
                    assert(is_alpha(s@[0]));
                    if i < e {
                        assert(is_alpha(s@[i as int]) || (i == e - 1));
                    } else if i > e {
                        assert(is_alpha(s@[e - 1]) || i == e);
                    }
                }
            }
        }
        0
    }
}

/// Whether no line feed stands at or after `from`.
fn one_line(s: &[char], from: usize) -> (b: bool)
    requires
        from <= s@.len(),
    ensures
        b == forall|k: int| from <= k < s@.len() ==> #[trigger] s@[k] != '\n',
{
    let mut j: usize = from;
    while j < s.len()
        invariant
            from <= j <= s@.len(),
            forall|k: int| from <= k < j ==> #[trigger] s@[k] != '\n',
        decreases s@.len() - j,
    {
        if s[j] == '\n' {
            return false;
        }
        j += 1;
    }
    true
}

/// The places where the text is cut, if it is in the grammar.
#[verifier::loop_isolation(false)]
fn find_cuts(s: &[char]) -> (r: Option<(usize, usize, usize)>)
    ensures
        r matches Some(k) ==> cut(s@, k.0 as int, k.1 as int, k.2 as int),
        r is None ==> forall|a: int, b: int, c: int| !cut(s@, a, b, c),
{
    let n: usize = s.len();
    let a: usize = scheme_end(s);
    let mut b: usize = a;
    while b < n && host_char(s[b])
        invariant
            a <= b <= n,
            forall|k: int| a <= k < b ==> is_host_char(#[trigger] s@[k]),
        decreases n - b,
    {
        b += 1;
    }
    let mut c: usize = b;
    if b < n && s[b] == ':' {
        c = b + 1;
        while c < n && digit(s[c])
            invariant
                b < c <= n,
                forall|k: int| b < k < c ==> is_digit(#[trigger] s@[k]),
            decreases n - c,
        {
            c += 1;
        }
    }
    if b > a && c - b != 1 && (c == n || (s[c] == '/' && one_line(s, c))) {
        Some((a, b, c))
    } else {
        assert forall|a2: int, b2: int, c2: int| !cut(s@, a2, b2, c2) by {
            if cut(s@, a2, b2, c2) {
                lemma_cuts_found(s@, a as int, b as int, c as int, a2, b2, c2);
            }
        }
        None
    }
}

/// Every cut of the text lies where the scan of it stopped.
proof fn lemma_cuts_found(s: Seq<char>, a: int, b: int, c: int, a2: int, b2: int, c2: int)
    requires
        cut(s, a2, b2, c2),
        a == 0 ==> forall|x: int| !scheme_prefix(s, x),
        a != 0 ==> scheme_prefix(s, a),
        a <= b <= s.len(),
        forall|k: int| a <= k < b ==> is_host_char(#[trigger] s[k]),
        b < s.len() ==> !is_host_char(s[b]),
        b <= c <= s.len(),
        c > b ==> s[b] == ':',
        c == b ==> b == s.len() || s[b] != ':',
        forall|k: int| b < k < c ==> is_digit(#[trigger] s[k]),
        b < c < s.len() ==> !is_digit(s[c]),
    ensures
        a2 == a,
        b2 == b,
        c2 == c,
{
    if a2 == 0 {
        if a != 0 {
            lemma_bare_host_has_no_scheme(s, b2, c2, a);
        }
    } else {
        if a != 0 {
            lemma_scheme_prefix_unique(s, a, a2);
        }
    }
    if b < b2 {
        assert(is_host_char(s[b]));
    } else if b2 < b {
        assert(is_host_char(s[b2]));
    }
    if c < c2 {
        if c > b {
            assert(is_digit(s[c]));
        }
    } else if c2 < c {
        if c2 > b {
            assert(is_digit(s[c2]));
        }
    }
}

/// Cuts a pattern text into its tokens. The text is in the grammar exactly
/// when some valid tokens make it up, and then these are returned.
pub fn tokenize<'a>(text: &'a str) -> (r: Option<Tokens<'a>>)
    ensures
        r matches Some(t) ==> t@.valid() && t@.text() == text@,
        r is None ==> forall|t: TokensModel| t.valid() ==> t.text() != text@,
        match r {
            Some(t) => tokens_of(text@) == Some(t@),
            None => tokens_of(text@) is None,
        },
{
    let chars = to_chars(text);
    match find_cuts(chars.as_slice()) {
        Some((a, b, c)) => {
            let n: usize = chars.len();
            let tokens = Tokens {
                scheme: if a == 0 {
                    None
                } else {
                    Some(text.substring_char(0, a - 3))
                },
                host: text.substring_char(a, b),
                port: if c == b {
                    None
                } else {
                    Some(text.substring_char(b + 1, c))
                },
                path: if c == n {
                    None
                } else {
                    Some(text.substring_char(c, n))
                },
            };
            proof {
                lemma_cut_gives_tokens(text@, a as int, b as int, c as int);
                assert(tokens@ == tokens_at(text@, a as int, b as int, c as int));
                lemma_tokens_of_text(tokens@);
            }
            Some(tokens)
        },
        None => {
            assert forall|t: TokensModel| t.valid() implies t.text() != text@ by {
                if t.text() == text@ {
                    lemma_tokens_give_cut(t);
                }
            }
            None
        },
    }
}

} // verus!
