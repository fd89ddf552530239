//! What holds of the pattern language as a whole.

use vstd::prelude::*;
use crate::grammar::{is_host_token, is_port_token, lemma_tokens_of_text, tokens_of};
use crate::host::{normal_host, HostModel};
use crate::host_pattern::{lemma_classified_wf, HostPatternModel};
use crate::path::{lemma_path_round_trip, stem, PathModel};
use crate::pattern::{PatternError, PatternModel, UrlModel};
use crate::scheme::lemma_scheme_round_trip;
use crate::text::{decimal_text, lemma_decimal_text, port_value};

verus! {

/// A port is written as a port token that is read as the same port.
pub proof fn lemma_port_round_trip(port: u16)
    ensures
        is_port_token(decimal_text(port as nat)),
        port_value(decimal_text(port as nat)) == Some(port),
{
    lemma_decimal_text(port as nat);
}

/// A host constraint is stable where the host token that it was read
/// from is already written as the constraint is: `example.com`, and not
/// `EXAMPLE.com` or `0x7f.1`.
pub proof fn lemma_normal_token_is_stable(token: Seq<char>)
    requires
        is_host_token(token),
        HostPatternModel::from_text(token) matches Ok(host) && host.text() == token,
    ensures
        HostPatternModel::from_text(token)->Ok_0.is_stable(),
{
}

/// A pattern that was read from a text meets the invariants of its
/// fields.
pub proof fn lemma_parsed_pattern_wf(text: Seq<char>, pattern: PatternModel)
    requires
        PatternModel::parse(text) == Ok::<PatternModel, PatternError>(pattern),
    ensures
        pattern.wf(),
{
    let tokens = tokens_of(text)->0;
    lemma_path_round_trip(tokens.path);
    lemma_classified_wf(normal_host(tokens.host)->Ok_0);
}

/// Round trip: a pattern that was read from some text is written out as
/// a text that is read as the same pattern, provided that its host
/// constraint is stable, which `HostPattern::is_stable` tests.
pub proof fn lemma_round_trip_with_stable_host(text: Seq<char>, pattern: PatternModel)
    requires
        PatternModel::parse(text) == Ok::<PatternModel, PatternError>(pattern),
        pattern.host.is_stable(),
    ensures
        PatternModel::parse(pattern.text()) == Ok::<PatternModel, PatternError>(pattern),
{
    let tokens = tokens_of(text)->0;
    assert(tokens.valid());
    let written = pattern.tokens();
    lemma_scheme_round_trip(tokens.scheme);
    lemma_path_round_trip(tokens.path);
    if let Some(port) = pattern.port {
        lemma_port_round_trip(port);
    }
    assert(written.valid());
    lemma_tokens_of_text(written);
    assert(PatternModel::from_tokens(written) == Ok::<PatternModel, PatternError>(pattern));
}

/// The base path `/`, which a pattern text without a path token gives,
/// accepts every path that is empty or begins with `/`: every path of a
/// URL that has a host.
pub proof fn lemma_root_path(path: Seq<char>)
    ensures
        PathModel::Path("/"@).matches(path) <==> path.len() == 0 || path[0] == '/',
{
    reveal_strlit("/");
    let below = stem("/"@) + "/"@;
    assert(stem("/"@) =~= Seq::<char>::empty());
    assert(below =~= "/"@);
    if path.len() == 0 {
        assert(path =~= stem("/"@));
    } else if path[0] == '/' {
        assert(path.subrange(0, 1) =~= below);
    } else if below.is_prefix_of(path) {
        assert(path.subrange(0, 1)[0] == '/');
    }
}

/// The default pattern matches every URL.
pub proof fn lemma_default_pattern(url: UrlModel)
    requires
        url.wf(),
    ensures
        PatternModel::any().matches(url),
{
    lemma_root_path(url.path);
}

/// A pattern accepts a URL that has no host exactly when it accepts the
/// URL's scheme: host, port and path are not asked for.
pub proof fn lemma_url_without_host(pattern: PatternModel, url: UrlModel)
    requires
        url.host is None,
    ensures
        pattern.matches(url) == pattern.scheme.matches(url.scheme),
{
}

/// The loopback constraint accepts every address of 127.0.0.0/8.
pub proof fn lemma_loopback_block(b: u8, c: u8, d: u8)
    ensures
        HostPatternModel::Localhost.matches(
            HostModel::Ipv4((0x7f00_0000 + b * 0x1_0000 + c * 0x100 + d) as u32),
        ),
{
}

/// Of the domain names the loopback constraint accepts `localhost` and
/// no other: no name that only begins or ends with it.
pub proof fn lemma_loopback_name(name: Seq<char>)
    ensures
        HostPatternModel::Localhost.matches(HostModel::Domain(name)) <==> name == "localhost"@,
{
}

/// A subdomain constraint accepts its domain and every name below it.
pub proof fn lemma_subdomain_inclusive(base: Seq<char>, labels: Seq<char>)
    requires
        HostPatternModel::SubDomain(base).wf(),
    ensures
        HostPatternModel::SubDomain(base).matches(HostModel::Domain(base.skip(1))),
        HostPatternModel::SubDomain(base).matches(HostModel::Domain(labels + base)),
{
    let name = labels + base;
    assert(name.subrange(name.len() - base.len(), name.len() as int) =~= base);
}

/// A subdomain constraint accepts no name that is shorter than its
/// domain, and no address.
pub proof fn lemma_subdomain_exclusive(base: Seq<char>, host: HostModel)
    requires
        HostPatternModel::SubDomain(base).wf(),
        HostPatternModel::SubDomain(base).matches(host),
    ensures
        host matches HostModel::Domain(name) && name.len() >= base.len() - 1,
{
}

/// A base path accepts its stem and what lies below the stem, and
/// nothing that goes on after the stem with another character than `/`.
pub proof fn lemma_path_boundary(base: Seq<char>, next: char, rest: Seq<char>)
    ensures
        PathModel::Path(base).matches(stem(base)),
        PathModel::Path(base).matches(stem(base) + "/"@ + rest),
        next != '/' ==> !PathModel::Path(base).matches(stem(base).push(next) + rest),
{
    reveal_strlit("/");
    let stem = stem(base);
    let below = stem + "/"@ + rest;
    assert(below.subrange(0, stem.len() as int + 1) =~= stem + "/"@);
    if next != '/' {
        let other = stem.push(next) + rest;
        assert(other.len() > stem.len());
        if (stem + "/"@).is_prefix_of(other) {
            assert(other.subrange(0, stem.len() as int + 1)[stem.len() as int] == next);
            assert((stem + "/"@)[stem.len() as int] == '/');
        }
    }
}

/// A path token that ends in `/*` stands for the path before the `/*`
/// and for everything below it: `/foo/*` accepts `/foo`, `/foo/` and
/// `/foo/bar`.
pub proof fn lemma_star_token(prefix: Seq<char>, rest: Seq<char>)
    ensures
        PathModel::from_token(Some(prefix + "/*"@)).matches(prefix),
        PathModel::from_token(Some(prefix + "/*"@)).matches(prefix + "/"@ + rest),
{
    reveal_strlit("/");
    reveal_strlit("/*");
    let token = prefix + "/*"@;
    assert(token.subrange(token.len() - 2, token.len() as int) =~= "/*"@);
    let base = token.drop_last();
    assert(base =~= prefix + "/"@);
    assert(stem(base) =~= prefix);
    lemma_path_boundary(base, '/', rest);
}

/// An exact path constraint accepts its path and no other.
pub proof fn lemma_exact_path(wanted: Seq<char>, path: Seq<char>)
    ensures
        PathModel::Exact(wanted).matches(path) <==> path == wanted,
{
}

} // verus!
