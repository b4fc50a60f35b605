use rpki::uri::{Error, Https, Ipns, Rsync, RsyncModule, Scheme};
use std::hash::Hasher;
use std::str::FromStr;

fn hash<T: std::hash::Hash>(t: T) -> u64 {
    let mut hasher = std::collections::hash_map::DefaultHasher::new();
    t.hash(&mut hasher);
    hasher.finish()
}

#[test]
fn rsync_to_ipns() {
    let rsync = Rsync::from_slice(b"rsync://host/module/foo/bar").unwrap();
    let ipns_path = Ipns::from_string(String::from("ipns/tal-key/repo-key")).unwrap();
    let ta_path = rsync.to_ipns_ta_path(&ipns_path);
    let repo_path = rsync.to_ipns_repo_path(&ipns_path);

    assert_eq!(ta_path, "tal-key/foo/bar");
    assert_eq!(repo_path, "repo-key/foo/bar");
}

#[test]
fn rsync_check_uri() {
    assert!(Rsync::from_slice(b"rsync://host/module/foo/bar").is_ok());
    assert!(Rsync::from_slice(b"rsync://host/module/foo/bar/").is_ok());
    assert_eq!(
        Rsync::from_slice(b"rsync://host/module/foo/../bar/"),
        Err(Error::DotSegments)
    );
    assert_eq!(
        Rsync::from_slice(b"rsync://host/module/foo/./bar/"),
        Err(Error::DotSegments)
    );
    assert_eq!(
        Rsync::from_slice(b"rsync://host/module/foo/bar/.."),
        Err(Error::DotSegments)
    );
    assert_eq!(
        Rsync::from_slice(b"rsync://host/module/foo/bar/../"),
        Err(Error::DotSegments)
    );
    assert_eq!(
        Rsync::from_slice(b"rsync://host/module/foo//bar/"),
        Err(Error::EmptySegments)
    );
    assert_eq!(
        Rsync::from_slice(b"rsync://host/module//foo/bar/"),
        Err(Error::EmptySegments)
    );
}

#[test]
fn resolve_relative_rsync_path() {
    let a = Rsync::from_str("rsync://localhost/module/a").unwrap();
    let a_b = Rsync::from_str("rsync://localhost/module/a/b").unwrap();
    let c = Rsync::from_str("rsync://localhost/module/c").unwrap();
    let m2_a_b = Rsync::from_str("rsync://localhost/mod_b/a/b").unwrap();

    assert_eq!(Some(b"".as_ref()), a.relative_to(&a));
    assert_eq!(Some(b"/b".as_ref()), a_b.relative_to(&a));
    assert_eq!(None, a_b.relative_to(&c));
    assert_eq!(None, c.relative_to(&a));
    assert_eq!(None, a.relative_to(&a_b));
    assert_eq!(None, m2_a_b.relative_to(&a));
}

#[test]
fn https_authority() {
    assert_eq!(
        Https::from_str("https://example.com/some/stuff").unwrap().authority(),
        "example.com"
    );
    assert_eq!(
        Https::from_str("https://example.com/").unwrap().authority(),
        "example.com"
    );
}

#[test]
fn https_eq() {
    assert_eq!(
        Https::from_str("https://example.com/some/stuff").unwrap(),
        Https::from_str("https://example.com/some/stuff").unwrap(),
    );
    assert_eq!(
        Https::from_str("htTps://eXAMple.coM/some/stuff").unwrap(),
        Https::from_str("https://example.com/some/stuff").unwrap(),
    );
    assert_eq!(
        Https::from_str("https://example.com").unwrap(),
        Https::from_str("https://example.com").unwrap(),
    );
    assert_eq!(
        Https::from_str("https://example.com").unwrap(),
        Https::from_str("htTps://eXAMple.coM").unwrap(),
    );
    assert_ne!(
        Https::from_str("htTps://eXAMple.coM/some/stuff").unwrap(),
        Https::from_str("https://example.com/Some/stuff").unwrap(),
    );
    assert_ne!(
        Https::from_str("https://example.com/some/stuff").unwrap(),
        Https::from_str("https://example.com/Some/stuff").unwrap(),
    );
    assert_ne!(
        Https::from_str("https://example.com/some/stuff").unwrap(),
        Https::from_str("https://example.com/Some/stufF").unwrap(),
    );
}

#[test]
fn https_hash() {
    assert_eq!(
        hash(Https::from_str("https://example.com/some/stuff").unwrap()),
        hash(Https::from_str("https://example.com/some/stuff").unwrap()),
    );
    assert_eq!(
        hash(Https::from_str("htTps://eXAMple.coM/some/stuff").unwrap()),
        hash(Https::from_str("https://example.com/some/stuff").unwrap()),
    );
    assert_eq!(
        hash(Https::from_str("https://example.com").unwrap()),
        hash(Https::from_str("https://example.com").unwrap()),
    );
    assert_eq!(
        hash(Https::from_str("https://example.com").unwrap()),
        hash(Https::from_str("htTps://eXAMple.coM").unwrap()),
    );
    assert_ne!(
        hash(Https::from_str("htTps://eXAMple.coM/some/stuff").unwrap()),
        hash(Https::from_str("https://example.com/Some/stuff").unwrap()),
    );
    assert_ne!(
        hash(Https::from_str("https://example.com/some/stuff").unwrap()),
        hash(Https::from_str("https://example.com/Some/stuff").unwrap()),
    );
    assert_ne!(
        hash(Https::from_str("https://example.com/some/stuff").unwrap()),
        hash(Https::from_str("https://example.com/Some/stufF").unwrap()),
    );
}

#[test]
fn https_join() {
    let base_uri_no_trailing_slash = Https::from_str("https://example.com/some").unwrap();
    let base_uri_trailing_slash = Https::from_str("https://example.com/some/").unwrap();
    let sub = "sub/".as_bytes();

    let expected = Https::from_str("https://example.com/some/sub/").unwrap();

    assert_eq!(base_uri_no_trailing_slash.join(sub), expected);
    assert_eq!(base_uri_trailing_slash.join(sub), expected);
}

#[test]
fn https_join_without_path_adds_no_slash() {
    let base = Https::from_str("https://example.com").unwrap();
    let joined = base.join(b"sub");
    assert_eq!(joined.as_str(), "https://example.comsub");
    assert_eq!(joined.authority(), "example.com");
}

#[test]
fn scheme_from_prefix_ignores_case() {
    assert_eq!(Scheme::from_prefix(b"HTTPS://x"), Ok((Scheme::Https, 8)));
    assert_eq!(Scheme::from_prefix(b"rSync://x"), Ok((Scheme::Rsync, 8)));
    assert_eq!(Scheme::from_prefix(b"IPNS/x"), Ok((Scheme::Ipns, 5)));
    assert_eq!(Scheme::from_prefix(b"http://x"), Err(Error::BadScheme));
    assert_eq!(Scheme::from_prefix(b"rsync:/"), Err(Error::BadScheme));
}

#[test]
fn scheme_names() {
    assert!(Scheme::Https.is_https() && !Scheme::Https.is_rsync());
    assert!(Scheme::Rsync.is_rsync() && !Scheme::Rsync.is_ipns());
    assert!(Scheme::Ipns.is_ipns() && !Scheme::Ipns.is_https());
    assert_eq!(Scheme::Rsync.as_str(), "rsync");
    assert_eq!(Scheme::Https.into_string(), "https://");
    assert_eq!(Scheme::Ipns.into_string(), "ipns://");
}

#[test]
fn uri_ascii_rejects_reserved_bytes() {
    assert!(rpki::uri::is_uri_ascii(b"abc/DEF-._~:@!$&'()*+,;=%"));
    for bad in [b' ', b'"', b'#', b'<', b'>', b'?', b'[', b'\\', b']', b'^', b'`', b'{', b'|', b'}', 0x7f, 0x1f, 0x80] {
        assert!(!rpki::uri::is_uri_ascii(&[b'a', bad]), "byte {}", bad);
    }
    assert!(rpki::uri::starts_with_ignore_case(b"HtTpS://", b"https://"));
    assert!(!rpki::uri::starts_with_ignore_case(b"http", b"https"));
}

#[test]
fn rsync_errors() {
    assert_eq!(Rsync::from_slice(b"rsync://host/mod ule/x"), Err(Error::NotAscii));
    assert_eq!(Rsync::from_slice(b"https://host/module/x"), Err(Error::BadScheme));
    assert_eq!(Rsync::from_slice(b"rsync://host"), Err(Error::BadUri));
    assert_eq!(Rsync::from_slice(b"rsync://host/module"), Err(Error::BadUri));
    assert!(Rsync::from_slice(b"rsync://host/module/").is_ok());
    assert_eq!(Rsync::from_slice(b"rsync://host/module/a//"), Err(Error::EmptySegments));
}

#[test]
fn rsync_parts_and_text() {
    let uri = Rsync::from_slice(b"RSYNC://Host/module/a/b.cer").unwrap();
    assert_eq!(uri.authority(), "Host");
    assert_eq!(uri.module().module(), "module");
    assert_eq!(uri.path(), "a/b.cer");
    assert_eq!(uri.to_string(), "rsync://Host/module/a/b.cer");
    assert_eq!(uri.encoded_len(), 27);
    assert_eq!(uri.to_bytes(), b"rsync://Host/module/a/b.cer".to_vec());
    assert!(uri.ends_with(".cer"));
    assert!(!uri.ends_with(".mft"));
    assert_eq!(uri.module().to_string(), "rsync://Host/module/");
}

#[test]
fn rsync_round_trip() {
    for text in ["rsync://host/module/", "rsync://host/module/a/b", "rsync://Host/m/a/b/"] {
        let uri = Rsync::from_str(text).unwrap();
        assert_eq!(Rsync::from_str(&uri.to_string()).unwrap(), uri);
    }
    let https = Https::from_str("https://Example.com/a/b").unwrap();
    assert_eq!(Https::from_str(https.as_str()).unwrap(), https);
    let ipns = Ipns::from_str("ipns/ta/repo/x").unwrap();
    assert_eq!(Ipns::from_str(ipns.as_str()).unwrap(), ipns);
}

#[test]
fn rsync_equality_and_hash() {
    let a = Rsync::from_str("rsync://HOST/module/a").unwrap();
    let b = Rsync::from_str("rsync://host/module/a").unwrap();
    let c = Rsync::from_str("rsync://host/Module/a").unwrap();
    let d = Rsync::from_str("rsync://host/module/A").unwrap();
    assert_eq!(a, b);
    assert_eq!(hash(&a), hash(&b));
    assert_ne!(a, c);
    assert_ne!(a, d);
    assert_eq!(a.module(), b.module());
    assert_eq!(hash(a.module()), hash(b.module()));
}

#[test]
fn rsync_parent_and_join() {
    let uri = Rsync::from_str("rsync://host/module/a/b").unwrap();
    let parent = uri.parent().unwrap();
    assert_eq!(parent.path(), "a");
    let root = parent.parent().unwrap();
    assert_eq!(root.path(), "");
    assert!(root.parent().is_none());
    let dir = Rsync::from_str("rsync://host/module/a/").unwrap();
    assert!(dir.parent().is_none());

    assert_eq!(root.join(b"x").path(), "x");
    assert_eq!(parent.join(b"x").path(), "a/x");
    assert_eq!(dir.join(b"x").path(), "a/x");
    assert_eq!(dir.join(b"x"), Rsync::from_str("rsync://host/module/a/x").unwrap());
}

#[test]
fn rsync_is_parent_of() {
    let root = Rsync::from_str("rsync://host/module/").unwrap();
    let dir = Rsync::from_str("rsync://host/module/a/").unwrap();
    let file = Rsync::from_str("rsync://host/module/a/b").unwrap();
    let other = Rsync::from_str("rsync://host/other/a/b").unwrap();
    let no_slash = Rsync::from_str("rsync://host/module/a").unwrap();
    assert!(root.is_parent_of(&file));
    assert!(dir.is_parent_of(&file));
    assert!(!no_slash.is_parent_of(&file));
    assert!(!dir.is_parent_of(&other));
    assert!(!file.is_parent_of(&dir));
}

#[test]
fn rsync_module_builders() {
    let module = RsyncModule::new(b"host".to_vec(), b"mod".to_vec());
    assert_eq!(module.authority(), "host");
    let uri = module.to_uri();
    assert_eq!(uri.to_string(), "rsync://host/mod/");
    let built = Rsync::new(module.clone(), b"a/b".to_vec());
    assert_eq!(built, Rsync::from_str("rsync://host/mod/a/b").unwrap());
    let mut copy = built.clone();
    copy.unshare();
    assert_eq!(copy, built);
    assert_eq!(built.to_module(), module);
}

#[test]
fn ipns_keys_and_equality() {
    let ipns = Ipns::from_str("IPNS/TA-key/Repo-Key/more").unwrap();
    assert_eq!(ipns.get_ta_publish_key(), "TA-key");
    assert_eq!(ipns.get_repo_publish_key(), "Repo-Key");
    let lower = Ipns::from_str("ipns/ta-key/repo-key/more").unwrap();
    assert_eq!(ipns, lower);
    assert_eq!(hash(&ipns), hash(&lower));
    assert_eq!(Ipns::from_str("ipns/only-one"), Err(Error::BadUri));
    assert_eq!(Ipns::from_str("rsync://a/b/c"), Err(Error::BadScheme));
    assert_eq!(Ipns::from_str("ipns/a b/c"), Err(Error::NotAscii));
}

#[test]
fn ipns_path_with_empty_rsync_path() {
    let root = Rsync::from_str("rsync://host/module/").unwrap();
    let ipns = Ipns::from_str("ipns/ta/repo").unwrap();
    assert_eq!(root.to_ipns_ta_path(&ipns), "ta/");
    assert_eq!(root.to_ipns_repo_path(&ipns), "repo/");
}

#[test]
fn https_errors_and_text() {
    assert_eq!(Https::from_str("rsync://a/b/c"), Err(Error::BadScheme));
    assert_eq!(Https::from_str("https://a b"), Err(Error::NotAscii));
    let uri = Https::from_string("https://Example.com/x".to_string()).unwrap();
    assert_eq!(uri.scheme(), Scheme::Https);
    assert_eq!(uri.encoded_len(), 21);
    assert_eq!(uri.to_bytes(), b"https://Example.com/x".to_vec());
}
