use browser_switch::host::{is_localhost, HostError, HostValue};
use browser_switch::host_pattern::HostPattern;
use browser_switch::path::PathPattern;
use browser_switch::pattern::UrlPattern;
use browser_switch::scheme::SchemePattern;
use browser_switch::text::{
    decimal_string, has_prefix, has_suffix, read_port, same_chars, same_text, text_has_suffix, to_chars,
};

#[test]
fn chars_of_a_text() {
    assert_eq!(to_chars(""), Vec::<char>::new());
    assert_eq!(to_chars("a/é"), vec!['a', '/', 'é']);
}

#[test]
fn comparing_texts() {
    assert!(same_text("", ""));
    assert!(same_text("http", "http"));
    assert!(!same_text("http", "https"));
    assert!(!same_text("http", "httq"));
    assert!(same_chars(&['a', 'b'], &['a', 'b']));
    assert!(!same_chars(&['a', 'b'], &['b', 'a']));
    assert!(!same_chars(&['a'], &[]));
}

#[test]
fn prefixes_and_suffixes() {
    assert!(has_prefix(&['a', 'b', 'c'], &['a', 'b']));
    assert!(has_prefix(&['a', 'b', 'c'], &[]));
    assert!(has_prefix(&['a', 'b'], &['a', 'b']));
    assert!(!has_prefix(&['a', 'b', 'c'], &['b']));
    assert!(!has_prefix(&['a'], &['a', 'b']));
    assert!(has_suffix(&['a', 'b', 'c'], &['b', 'c']));
    assert!(has_suffix(&['a', 'b', 'c'], &[]));
    assert!(!has_suffix(&['a', 'b', 'c'], &['a', 'b']));
    assert!(!has_suffix(&['c'], &['b', 'c']));
    assert!(text_has_suffix("/foo/*", "/*"));
    assert!(!text_has_suffix("/foo*", "/*"));
    assert!(!text_has_suffix("*", "/*"));
}

#[test]
fn decimal_digits_of_a_number() {
    assert_eq!(decimal_string(0), "0");
    assert_eq!(decimal_string(7), "7");
    assert_eq!(decimal_string(10), "10");
    assert_eq!(decimal_string(8080), "8080");
    assert_eq!(decimal_string(65535), "65535");
    assert_eq!(decimal_string(4294967295), "4294967295");
    for n in 0..2000u32 {
        assert_eq!(decimal_string(n), format!("{}", n));
    }
}

#[test]
fn reading_a_port() {
    assert_eq!(read_port("0"), Some(0));
    assert_eq!(read_port("80"), Some(80));
    assert_eq!(read_port("0080"), Some(80));
    assert_eq!(read_port("65535"), Some(65535));
    assert_eq!(read_port("65536"), None);
    assert_eq!(read_port("655350"), None);
    assert_eq!(read_port("4294967376"), None);
    assert_eq!(read_port(""), None);
    assert_eq!(read_port("+80"), None);
    assert_eq!(read_port("8o"), None);
    assert_eq!(read_port("８０"), None);
}

#[test]
fn port_text_is_read_back() {
    for port in [0u16, 1, 9, 10, 99, 100, 443, 8080, 65535] {
        assert_eq!(read_port(&decimal_string(port as u32)), Some(port));
    }
}

#[test]
fn scheme_tokens() {
    assert_eq!(SchemePattern::from_token(None), SchemePattern::Any);
    assert_eq!(SchemePattern::from_token(Some("*")), SchemePattern::Any);
    assert_eq!(SchemePattern::from_token(Some("https?")), SchemePattern::HttpOrHttps);
    assert_eq!(SchemePattern::from_token(Some("http?")), SchemePattern::Exact("http?".to_owned()));
    assert_eq!(SchemePattern::from_token(Some("ftp")), SchemePattern::Exact("ftp".to_owned()));
    assert_eq!(SchemePattern::default(), SchemePattern::Any);
    assert_eq!(SchemePattern::Any.to_string(), "*");
    assert_eq!(SchemePattern::HttpOrHttps.to_string(), "https?");
    assert_eq!(SchemePattern::Exact("ftp".to_owned()).to_string(), "ftp");
}

#[test]
fn path_tokens() {
    assert_eq!(PathPattern::from_token(None), PathPattern::Path("/".to_owned()));
    assert_eq!(PathPattern::from_token(Some("/*")), PathPattern::Path("/".to_owned()));
    assert_eq!(PathPattern::from_token(Some("/a/*")), PathPattern::Path("/a/".to_owned()));
    assert_eq!(PathPattern::from_token(Some("/a*")), PathPattern::Exact("/a*".to_owned()));
    assert_eq!(PathPattern::from_token(Some("/")), PathPattern::Exact("/".to_owned()));
    assert_eq!(PathPattern::from_token(Some("/é/*")), PathPattern::Path("/é/".to_owned()));
    assert_eq!(PathPattern::default(), PathPattern::Path("/".to_owned()));
    assert!(PathPattern::default().is_default());
    assert!(!PathPattern::Exact("/".to_owned()).is_default());
    assert!(!PathPattern::Path("/a/".to_owned()).is_default());
    assert_eq!(PathPattern::Path("/a/".to_owned()).to_string(), "/a/*");
    assert_eq!(PathPattern::Path("/foo".to_owned()).to_string(), "/foo*");
    assert_eq!(PathPattern::Exact("/a".to_owned()).to_string(), "/a");
}

#[test]
fn host_normal_forms() {
    assert_eq!(HostValue::parse("EXAMPLE.com").unwrap(), HostValue::Domain("example.com".to_owned()));
    assert_eq!(HostValue::parse("127.0.0.1").unwrap(), HostValue::Ipv4(0x7f00_0001));
    assert_eq!(HostValue::parse("1.2.3.4").unwrap(), HostValue::Ipv4(0x0102_0304));
    assert_eq!(HostValue::parse("0x7f.1").unwrap(), HostValue::Ipv4(0x7f00_0001));
    assert_eq!(HostValue::parse("[::1]").unwrap(), HostValue::Ipv6(1));
    assert_eq!(
        HostValue::parse("[2001:db8::1]").unwrap(),
        HostValue::Ipv6(0x2001_0db8_0000_0000_0000_0000_0000_0001)
    );
    assert_eq!(
        HostValue::parse("日本語ドメイン.test").unwrap(),
        HostValue::Domain("xn--eckwd4c7c5976acvb2w6i.test".to_owned())
    );
    assert_eq!(
        HostValue::parse("xn--eckwd4c7c5976acvb2w6i.test").unwrap(),
        HostValue::Domain("xn--eckwd4c7c5976acvb2w6i.test".to_owned())
    );
}

#[test]
fn host_texts_that_are_refused() {
    for text in ["", "a b", "1.2.3.4.5", "999.1.1.1", "[::1", "[1.2.3.4]", "[:::]", "a/b", "a:b", "xn--a"] {
        assert!(HostValue::parse(text).is_err(), "{:?}", text);
        assert!(text.parse::<HostPattern>().is_err(), "{:?}", text);
    }
}

#[test]
fn host_is_read_or_refused_for_every_short_text() {
    let alphabet = ['%', '[', ']', ':', '.', 'x', 'n', '-', '1', 'f', 'é', '\u{200d}', ' ', '*'];
    let mut texts = vec![String::new()];
    let mut from = 0;
    for _ in 0..4 {
        let until = texts.len();
        for i in from..until {
            for c in alphabet {
                let mut longer = texts[i].clone();
                longer.push(c);
                texts.push(longer);
            }
        }
        from = until;
    }
    let mut read = 0;
    for text in texts {
        match HostValue::parse(&text) {
            Ok(host) => {
                assert_eq!(HostValue::parse(&text), Ok(host.clone()), "{:?}", text);
                assert!(!host.to_string().is_empty(), "{:?}", text);
                read += 1;
            }
            Err(refusal) => assert_ne!(refusal, HostError::Other, "{:?}", text),
        }
    }
    assert!(read > 1000);
    for text in ["%ff", "%", "%zz", "xn--", "a\0b", "\u{feff}", "🦀.test", "[::ffff:1.2.3.4]", "[1:2:3:4:5:6:7:8:9]"] {
        assert_eq!(HostValue::parse(text).is_ok(), HostValue::parse(text).is_ok(), "{:?}", text);
    }
    let long = "a.".repeat(5000);
    assert_eq!(HostValue::parse(&long).is_ok(), HostValue::parse(&long).is_ok());
}

#[test]
fn host_refusal_is_handed_on() {
    assert_eq!(HostValue::parse(""), Err(HostError::EmptyHost));
    assert_eq!(HostValue::parse("a b"), Err(HostError::IdnaError));
    assert_eq!(HostValue::parse("xn--a"), Err(HostError::IdnaError));
    assert_eq!(HostValue::parse("1.2.3.4.5"), Err(HostError::InvalidIpv4Address));
    assert_eq!(HostValue::parse("999.1.1.1"), Err(HostError::InvalidIpv4Address));
    assert_eq!(HostValue::parse("[::1"), Err(HostError::InvalidIpv6Address));
    assert_eq!(HostValue::parse("[1.2.3.4]"), Err(HostError::InvalidIpv6Address));
    assert_eq!("".parse::<HostPattern>(), Err(HostError::EmptyHost));
    assert_eq!("a b".parse::<HostPattern>(), Err(HostError::IdnaError));
    assert_eq!(HostPattern::parse("*.1.2.3.4.5"), Err(HostError::InvalidIpv4Address));
    assert_eq!(HostPattern::parse("[zz]"), Err(HostError::InvalidIpv6Address));
}

#[test]
fn host_refusal_is_the_one_of_the_url_crate() {
    for text in ["", "a b", "xn--a", "1.2.3.4.5", "0x100000000", "[::1", "[]", "[:::]", "a%00b", "%", "é é"] {
        let expected = match url::Host::parse(text) {
            Err(url::ParseError::EmptyHost) => HostError::EmptyHost,
            Err(url::ParseError::IdnaError) => HostError::IdnaError,
            Err(url::ParseError::InvalidIpv4Address) => HostError::InvalidIpv4Address,
            Err(url::ParseError::InvalidIpv6Address) => HostError::InvalidIpv6Address,
            other => panic!("{:?}: {:?}", text, other),
        };
        assert_eq!(HostValue::parse(text), Err(expected), "{:?}", text);
    }
}

#[test]
fn equality_goes_by_what_a_value_stands_for() {
    assert_eq!(SchemePattern::Exact("http".to_owned()), SchemePattern::Exact("http".to_owned()));
    assert_ne!(SchemePattern::Exact("http".to_owned()), SchemePattern::Exact("https".to_owned()));
    assert_ne!(SchemePattern::Exact("https?".to_owned()), SchemePattern::HttpOrHttps);
    assert_ne!(SchemePattern::Any, SchemePattern::HttpOrHttps);
    assert_ne!(PathPattern::Path("/".to_owned()), PathPattern::Exact("/".to_owned()));
    assert_eq!(PathPattern::Path("/a".to_owned()), PathPattern::Path("/a".to_owned()));
    assert_ne!(PathPattern::Exact("/a".to_owned()), PathPattern::Exact("/b".to_owned()));
    assert_ne!(HostPattern::Any, HostPattern::Localhost);
    assert_ne!(HostPattern::SubDomain(".a".to_owned()), HostPattern::SubDomain(".b".to_owned()));
    assert_ne!(
        HostPattern::SubDomain(".a".to_owned()),
        HostPattern::Exact(HostValue::Domain(".a".to_owned()))
    );
    assert_ne!(HostPattern::Exact(HostValue::Ipv4(1)), HostPattern::Exact(HostValue::Ipv6(1)));
    let pattern = |text: &str| UrlPattern::parse(text).unwrap();
    assert_eq!(pattern("https://a:1/b"), pattern("https://A:01/b"));
    assert_ne!(pattern("https://a:1/b"), pattern("http://a:1/b"));
    assert_ne!(pattern("https://a:1/b"), pattern("https://b:1/b"));
    assert_ne!(pattern("https://a:1/b"), pattern("https://a:2/b"));
    assert_ne!(pattern("https://a:1/b"), pattern("https://a/b"));
    assert_ne!(pattern("https://a:1/b"), pattern("https://a:1/c"));
}

#[test]
fn host_written_out() {
    assert_eq!(HostValue::Domain("example.com".to_owned()).to_string(), "example.com");
    assert_eq!(HostValue::Ipv4(0x7f00_0001).to_string(), "127.0.0.1");
    assert_eq!(HostValue::Ipv4(0x0102_0304).to_string(), "1.2.3.4");
    assert_eq!(HostValue::Ipv4(0).to_string(), "0.0.0.0");
    assert_eq!(HostValue::Ipv4(0xffff_ffff).to_string(), "255.255.255.255");
    assert_eq!(HostValue::Ipv6(1).to_string(), "[::1]");
    assert_eq!(HostValue::Ipv6(0).to_string(), "[::]");
    assert_eq!(HostValue::Ipv6(0x2001_0db8_0000_0000_0000_0000_0000_0001).to_string(), "[2001:db8::1]");
    assert_eq!(HostValue::Ipv6(0xffff_0102_0304).to_string(), "[::ffff:102:304]");
}

#[test]
fn host_equality_and_clone() {
    let hosts = [
        HostValue::Domain("a".to_owned()),
        HostValue::Domain("b".to_owned()),
        HostValue::Ipv4(1),
        HostValue::Ipv4(2),
        HostValue::Ipv6(1),
        HostValue::Ipv6(2),
    ];
    for (i, a) in hosts.iter().enumerate() {
        assert_eq!(&a.clone(), a);
        for (j, b) in hosts.iter().enumerate() {
            assert_eq!(a == b, i == j);
        }
    }
}

#[test]
fn localhost_in_each_form() {
    assert!(is_localhost(&HostValue::Domain("localhost".to_owned())));
    assert!(!is_localhost(&HostValue::Domain("localhost.".to_owned())));
    assert!(!is_localhost(&HostValue::Domain("localhost.evil.com".to_owned())));
    assert!(is_localhost(&HostValue::Ipv4(0x7f00_0001)));
    assert!(is_localhost(&HostValue::Ipv4(0x7f12_3456)));
    assert!(!is_localhost(&HostValue::Ipv4(0x0100_007f)));
    assert!(is_localhost(&HostValue::Ipv6(1)));
    assert!(!is_localhost(&HostValue::Ipv6(1 << 120)));
}

#[test]
fn host_classes() {
    assert_eq!(HostPattern::classify(HostValue::Domain("*".to_owned())), HostPattern::Any);
    assert_eq!(
        HostPattern::classify(HostValue::Domain("*.a.b".to_owned())),
        HostPattern::SubDomain(".a.b".to_owned())
    );
    assert_eq!(HostPattern::classify(HostValue::Domain("*.".to_owned())), HostPattern::SubDomain(".".to_owned()));
    assert_eq!(
        HostPattern::classify(HostValue::Domain("*a".to_owned())),
        HostPattern::Exact(HostValue::Domain("*a".to_owned()))
    );
    assert_eq!(
        HostPattern::classify(HostValue::Domain("a.*.b".to_owned())),
        HostPattern::Exact(HostValue::Domain("a.*.b".to_owned()))
    );
    assert_eq!(HostPattern::classify(HostValue::Domain("localhost".to_owned())), HostPattern::Localhost);
    assert_eq!(HostPattern::classify(HostValue::Ipv4(0x7f00_0001)), HostPattern::Localhost);
    assert_eq!(HostPattern::classify(HostValue::Ipv6(1)), HostPattern::Localhost);
    assert_eq!(HostPattern::classify(HostValue::Ipv4(1)), HostPattern::Exact(HostValue::Ipv4(1)));
    assert_eq!(HostPattern::classify(HostValue::Ipv6(2)), HostPattern::Exact(HostValue::Ipv6(2)));
    assert_eq!(HostPattern::default(), HostPattern::Any);
    assert_eq!(HostPattern::parse("*.EXAMPLE.com"), Ok(HostPattern::SubDomain(".example.com".to_owned())));
}

#[test]
fn host_pattern_written_out() {
    assert_eq!(HostPattern::Any.to_string(), "*");
    assert_eq!(HostPattern::SubDomain(".example.com".to_owned()).to_string(), "*.example.com");
    assert_eq!(HostPattern::Localhost.to_string(), "localhost");
    assert_eq!(HostPattern::Exact(HostValue::Domain("example.com".to_owned())).to_string(), "example.com");
    assert_eq!(HostPattern::Exact(HostValue::Ipv4(0x0a00_0001)).to_string(), "10.0.0.1");
    assert_eq!(HostPattern::Exact(HostValue::Ipv6(2)).to_string(), "[::2]");
}

#[test]
fn host_constraints_read_from_a_text_are_stable() {
    for text in ["*", "*.example.com", "EXAMPLE.com", "localhost", "127.0.0.1", "0x7f.1", "1.2.3", "a_b", "*.*", "."] {
        assert!(UrlPattern::parse(text).unwrap().host.is_stable(), "{:?}", text);
    }
    assert!(HostPattern::Any.is_stable());
    assert!(HostPattern::Localhost.is_stable());
    assert!(HostPattern::SubDomain(".example.com".to_owned()).is_stable());
    assert!(HostPattern::Exact(HostValue::Ipv4(0x0a00_0001)).is_stable());
}

#[test]
fn host_constraints_built_by_hand_may_be_unstable() {
    assert!(!HostPattern::Exact(HostValue::Ipv6(1)).is_stable());
    assert!(!HostPattern::Exact(HostValue::Ipv6(2)).is_stable());
    assert!(!HostPattern::Exact(HostValue::Ipv4(0x7f00_0001)).is_stable());
    assert!(!HostPattern::Exact(HostValue::Domain("EXAMPLE.com".to_owned())).is_stable());
    assert!(!HostPattern::Exact(HostValue::Domain("localhost".to_owned())).is_stable());
    assert!(!HostPattern::Exact(HostValue::Domain("my-site.com".to_owned())).is_stable());
    assert!(!HostPattern::Exact(HostValue::Domain("*".to_owned())).is_stable());
    assert!(!HostPattern::Exact(HostValue::Domain("".to_owned())).is_stable());
    assert!(!HostPattern::SubDomain("example.com".to_owned()).is_stable());
    assert!(!HostPattern::SubDomain(".EXAMPLE.com".to_owned()).is_stable());
    assert!(!HostPattern::SubDomain("".to_owned()).is_stable());
}

#[test]
fn canonical_text_of_patterns() {
    for (text, canonical) in [
        ("*://*", "*"),
        ("*", "*"),
        ("*://*:80", "*:80"),
        ("https?://*", "https?://*"),
        ("https://*.example.com:80/", "https://*.example.com:80/"),
        ("EXAMPLE.com:0080/a/*", "example.com:80/a/*"),
        ("example.com/*", "example.com"),
        ("127.0.0.1:8080", "localhost:8080"),
        ("0x7f.1", "localhost"),
        ("1.2.3", "1.2.0.3"),
        ("a:65536/b", "a/b"),
        ("http?://x/y*", "http?://x/y*"),
        ("FTP://x", "FTP://x"),
    ] {
        assert_eq!(UrlPattern::parse(text).unwrap().to_string(), canonical, "{:?}", text);
    }
}

#[test]
fn canonical_text_is_read_as_the_same_pattern() {
    for text in [
        "*", "*://*", "https?://*", "https://*.example.com:80/", "EXAMPLE.com:0080/a/*", "example.com/*",
        "127.0.0.1:8080", "0x7f.1", "1.2.3", "1", "a:65536/b", "a:65535", "http?://x/y*", "x/a/*", "x//", "x/a*",
        "*.*", "**", "a..b", ".", "a_b", "ab?://c", "*/*", "a/é", "LOCALHOST/", "*.LocalHost:1/*",
    ] {
        let pattern = UrlPattern::parse(text).unwrap();
        let written = pattern.to_string();
        assert_eq!(UrlPattern::parse(&written), Some(pattern), "{:?}", text);
        assert_eq!(UrlPattern::parse(&written).unwrap().to_string(), written, "{:?}", text);
    }
}

#[test]
fn canonical_text_is_read_back_for_all_short_texts() {
    let alphabet = ['*', 'a', 'Z', '?', ':', '/', '.', '1', '0', 'x', '_'];
    let mut texts = vec![String::new()];
    let mut from = 0;
    for _ in 0..5 {
        let until = texts.len();
        for i in from..until {
            for c in alphabet {
                let mut longer = texts[i].clone();
                longer.push(c);
                texts.push(longer);
            }
        }
        from = until;
    }
    let mut patterns = 0;
    for text in texts {
        if let Some(pattern) = UrlPattern::parse(&text) {
            assert!(pattern.host.is_stable(), "{:?}", text);
            let written = pattern.to_string();
            assert_eq!(UrlPattern::parse(&written), Some(pattern), "{:?}", text);
            patterns += 1;
        }
    }
    assert!(patterns > 10000);
}

#[test]
fn pattern_built_by_hand_is_written_out() {
    let pattern = UrlPattern {
        scheme: SchemePattern::Exact("https".to_owned()),
        host: HostPattern::Exact(HostValue::Ipv6(1)),
        port: Some(8443),
        path: PathPattern::Path("/foo".to_owned()),
    };
    assert_eq!(pattern.to_string(), "https://[::1]:8443/foo*");
}
