use vfs_nodes::schemes::symlink::merge_urls;
use vfs_nodes::{
    Address, MemoryScheme, NodeGetOptions, SchemeError, SeekFrom, SymLinkScheme, Vfs, VfsError,
};

fn u(s: &str) -> Address {
    Address::parse(s).unwrap()
}

fn deep_path(segments: usize) -> String {
    let mut path = String::new();
    for i in 0..segments {
        path.push_str(&format!("/s{}", i));
    }
    path
}

#[test]
fn valid_link_paths() {
    let url = u("does:/not/exist");
    SymLinkScheme::default()
        .link("", url.clone())
        .expect("empty data path is allowed");
    SymLinkScheme::default()
        .link("rel", url.clone())
        .expect_err("relative path is not allowed");
    SymLinkScheme::default()
        .link("rel/path/here", url.clone())
        .expect_err("deep relative path is not allowed");
    SymLinkScheme::default()
        .link("/", url.clone())
        .expect_err("trailing slash (even as root) is not allowed");
    SymLinkScheme::default()
        .link("/child/", url.clone())
        .expect_err("trailing slash is not allowed");
    SymLinkScheme::default()
        .link("/deep/child/path/", url.clone())
        .expect_err("deep trailing slash is not allowed");
    SymLinkScheme::default()
        .link("/child", url.clone())
        .expect("child path must be accepted");
    SymLinkScheme::default()
        .link("/deep/child/path", url.clone())
        .expect("deep child path must be accepted");
    let _ = url;
}

#[test]
fn longest_linked_prefix_decides() {
    let mut links = SymLinkScheme::new();
    links.link("/a", u("mem:/x")).unwrap();
    links.link("/a/b", u("mem:/y")).unwrap();
    let dest = links.get_symlink_dest(&u("sl:/a/b/c")).unwrap();
    assert_eq!(dest.as_str(), "mem:/y/c");
    assert_eq!(dest.scheme(), "mem");
    assert_eq!(dest.path(), "/y/c");
    let dest = links.get_symlink_dest(&u("sl:/a/z")).unwrap();
    assert_eq!(dest.as_str(), "mem:/x/z");
    let dest = links.get_symlink_dest(&u("sl:/a/b")).unwrap();
    assert_eq!(dest.as_str(), "mem:/y");
    let dest = links.get_symlink_dest(&u("sl:/a")).unwrap();
    assert_eq!(dest.as_str(), "mem:/x");
    let dest = links.get_symlink_dest(&u("sl:/a/b/c/d/e")).unwrap();
    assert_eq!(dest.as_str(), "mem:/y/c/d/e");
}

#[test]
fn a_deeper_node_without_a_link_does_not_decide() {
    let mut links = SymLinkScheme::new();
    links.link("/a", u("mem:/x")).unwrap();
    links.link("/a/b/c", u("mem:/deep")).unwrap();
    // the tree has a node for /a/b, which is not linked
    let dest = links.get_symlink_dest(&u("sl:/a/b/other")).unwrap();
    assert_eq!(dest.as_str(), "mem:/x/b/other");
}

#[test]
fn nothing_exists_where_no_prefix_is_linked() {
    let mut links = SymLinkScheme::new();
    links.link("/a", u("mem:/x")).unwrap();
    assert!(matches!(
        links.get_symlink_dest(&u("sl:/b/c")),
        Err(SchemeError::NodeDoesNotExist(text)) if text == "sl:/b/c"
    ));
    assert!(matches!(
        links.get_symlink_dest(&u("sl:plain")),
        Err(SchemeError::NodeDoesNotExist(text)) if text == "sl:plain"
    ));
}

#[test]
fn the_empty_path_links_everything_else() {
    let mut links = SymLinkScheme::new();
    links.link("", u("data:")).unwrap();
    let dest = links.get_symlink_dest(&u("sl:test%20stuff")).unwrap();
    assert_eq!(dest.as_str(), "data:test%20stuff");
    assert_eq!(links.root().get_base_url().unwrap().as_str(), "data:");
    let mut rooted = SymLinkScheme::new();
    rooted.link("", u("mem:/base")).unwrap();
    let dest = rooted.get_symlink_dest(&u("sl:/x/y")).unwrap();
    assert_eq!(dest.as_str(), "mem:/base/x/y");
}

#[test]
fn link_rejects_bad_places() {
    let to = u("mem:/t");
    let mut links = SymLinkScheme::new();
    assert!(matches!(
        links.link("rel", to.clone()),
        Err(SchemeError::GenericError(Some("relative symlink is not allowed"), None))
    ));
    assert!(matches!(
        links.link("/child/", to.clone()),
        Err(SchemeError::GenericError(Some("`from` path has trailing `/`"), None))
    ));
    links.link("/child", to.clone()).unwrap();
    assert!(matches!(
        links.link("/child", to.clone()),
        Err(SchemeError::GenericError(Some("url already set at link, remove it first"), None))
    ));
    links.link("", to.clone()).unwrap();
    assert!(matches!(
        links.link("", to.clone()),
        Err(SchemeError::GenericError(Some("url already set at link, remove it first"), None))
    ));
    assert!(matches!(
        links.link(&deep_path(17), to.clone()),
        Err(SchemeError::GenericError(
            Some("max symlink path segment depth exceeded, limit is 16"),
            None
        ))
    ));
    links.link(&deep_path(16), to.clone()).unwrap();
    assert!(matches!(
        links.link("//host/path", to.clone()),
        Err(SchemeError::GenericError(Some("`from` path has host, must only be a path"), None))
    ));
    assert!(matches!(
        links.link("/q?x=1", to.clone()),
        Err(SchemeError::GenericError(Some("`from` path has query, must only be a path"), None))
    ));
    assert!(matches!(
        links.link("/f#frag", to.clone()),
        Err(SchemeError::GenericError(
            Some("`from` path has fragment, must only be a path"),
            None
        ))
    ));
    // a refusal has changed nothing
    assert_eq!(
        links.get_symlink_dest(&u("sl:/child/x")).unwrap().as_str(),
        "mem:/t/x"
    );
}

#[test]
fn a_link_of_sixteen_segments_is_followed() {
    let mut links = SymLinkScheme::new();
    let path = deep_path(16);
    links.link(&path, u("mem:/deep")).unwrap();
    let dest = links
        .get_symlink_dest(&u(&format!("sl:{}/tail", path)))
        .unwrap();
    assert_eq!(dest.as_str(), "mem:/deep/tail");
}

#[test]
fn can_link_says_what_link_will_do() {
    let mut links = SymLinkScheme::new();
    assert!(links.can_link(&u("x:/a")));
    assert!(links.can_link(&u("x:")));
    assert!(!links.can_link(&u("x:rel")));
    assert!(!links.can_link(&u("x:/a/")));
    links.link("/a", u("mem:/x")).unwrap();
    assert!(!links.can_link(&u("x:/a")));
    assert!(links.can_link(&u("x:/a/b")));
    assert!(SymLinkScheme::validate_from_url_path("/a").is_ok());
    assert!(SymLinkScheme::validate_from_url_path("/a/").is_err());
    assert!(SymLinkScheme::check_from(&u("x:/a#f")).is_err());
}

#[test]
fn builder_collects_links() {
    let links = SymLinkScheme::builder()
        .link("", u("data:"))
        .link("/data", u("data:"))
        .link("/mem", u("mem:/"))
        .build();
    assert_eq!(
        links.get_symlink_dest(&u("sl:/mem")).unwrap().as_str(),
        "mem:/"
    );
    assert!(SymLinkScheme::builder()
        .try_link("/a", u("mem:/x"))
        .unwrap()
        .try_link("/a", u("mem:/y"))
        .is_err());
    assert!(SymLinkScheme::builder().try_link("rel", u("mem:/x")).is_err());
    let built = SymLinkScheme::builder()
        .try_link("/a", u("mem:/x"))
        .unwrap()
        .build();
    assert_eq!(
        built.get_symlink_dest(&u("sl:/a/k")).unwrap().as_str(),
        "mem:/x/k"
    );
}

#[test]
fn merge_takes_over_what_the_target_lacks() {
    let merged = merge_urls(&u("svc:/root"), &u("sl://host.example/p"), "/rest").unwrap();
    assert_eq!(merged.host_str(), Some("host.example"));
    assert_eq!(merged.path(), "/root/rest");
    let merged = merge_urls(
        &u("svc:/root"),
        &u("sl://user:secret@host.example:8042/p?b=2#frag"),
        "",
    )
    .unwrap();
    assert_eq!(merged.username(), "user");
    assert_eq!(merged.password(), Some("secret"));
    assert_eq!(merged.host_str(), Some("host.example"));
    assert_eq!(merged.port(), Some(8042));
    assert_eq!(merged.query(), Some("b=2"));
    assert_eq!(merged.fragment(), Some("frag"));
    assert_eq!(merged.path(), "/root");
    assert_eq!(merged.scheme(), "svc");
    assert!(merged.has_host());
}

#[test]
fn merge_joins_queries() {
    let merged = merge_urls(&u("mem:/y?a=1"), &u("sl:/p?b=2"), "/c").unwrap();
    assert_eq!(merged.as_str(), "mem:/y/c?a=1&b=2");
    let merged = merge_urls(&u("mem:/y?"), &u("sl:/p?b=2"), "").unwrap();
    assert_eq!(merged.query(), Some("b=2"));
    let merged = merge_urls(&u("mem:/y?a=1"), &u("sl:/p"), "").unwrap();
    assert_eq!(merged.query(), Some("a=1"));
}

#[test]
fn merge_fails_on_conflicts() {
    assert!(matches!(
        merge_urls(&u("svc://own.example/root"), &u("sl://host.example/p"), ""),
        Err(SchemeError::GenericError(Some("unable to override host in url in symlink"), None))
    ));
    assert!(matches!(
        merge_urls(&u("svc:/root#own"), &u("sl:/p#other"), ""),
        Err(SchemeError::GenericError(
            Some("unable to override fragment in url in symlink"),
            None
        ))
    ));
}

#[test]
fn merge_passes_on_what_the_address_refuses() {
    // a file address takes no user name
    assert!(matches!(
        merge_urls(&u("file:///root"), &u("sl://user@host.example/p"), ""),
        Err(SchemeError::GenericError(
            Some("failed to rewrite username in symlink url"),
            None
        ))
    ));
    // an address that cannot be a base takes no host
    assert!(matches!(
        merge_urls(&u("data:"), &u("sl://host.example/p"), ""),
        Err(SchemeError::UrlParseError(_))
    ));
}

#[test]
fn registry_follows_links() {
    let mut vfs: Vfs<MemoryScheme> = Vfs::empty();
    vfs.add_scheme("mem", MemoryScheme::new()).unwrap();
    let mut links = SymLinkScheme::new();
    links.link("/store", u("mem:/files")).unwrap();
    links.link("/again", u("sl:/store/sub")).unwrap();
    links.link("/nowhere", u("gone:/x")).unwrap();
    links.link("/loop", u("sl:/loop")).unwrap();
    vfs.add_links("sl", links).unwrap();
    let options = NodeGetOptions::new().create(true).read(true);
    let mut node = vfs.get_node_at("sl:/store/a.txt", &options).unwrap();
    vfs.write(&mut node, b"through a link").unwrap();
    assert_eq!(
        vfs.metadata_at("mem:/files/a.txt").unwrap().len,
        Some((14, Some(14)))
    );
    assert_eq!(
        vfs.metadata_at("sl:/store/a.txt").unwrap().len,
        Some((14, Some(14)))
    );
    // a link to a link
    let mut second = vfs.get_node_at("sl:/again/b.txt", &options).unwrap();
    vfs.write(&mut second, b"two hops").unwrap();
    vfs.seek(&mut second, SeekFrom::Start(4)).unwrap();
    let mut buf = [0u8; 8];
    assert_eq!(vfs.read(&mut second, &mut buf).unwrap(), 4);
    assert_eq!(&buf[..4], b"hops");
    assert!(vfs.metadata_at("mem:/files/sub/b.txt").is_ok());
    assert_eq!(vfs.read_dir_at("sl:/store/").unwrap().len(), 2);
    vfs.remove_node_at("sl:/store/a.txt", false).unwrap();
    assert!(vfs.metadata_at("mem:/files/a.txt").is_err());
    // a failure behind a redirection comes back wrapped
    assert!(matches!(
        vfs.metadata_at("sl:/nowhere/x"),
        Err(VfsError::SchemeError(SchemeError::GenericError(Some("vfs error"), Some(_))))
    ));
    assert!(matches!(
        vfs.metadata_at("sl:/unlinked"),
        Err(VfsError::SchemeError(SchemeError::NodeDoesNotExist(text))) if text == "sl:/unlinked"
    ));
    // a chain that never ends is given up
    assert!(vfs.metadata_at("sl:/loop").is_err());
}
