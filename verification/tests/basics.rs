use vfs_nodes::text::{
    ends_with_slash, find_char, has_prefix, has_suffix, head_to, join, last_slash, same_text,
    split_segments, tail_from, trim_end_matches,
};
use vfs_nodes::schemes::embedded::{asset_name, describe_asset, list_assets, open_asset};
use vfs_nodes::{
    poll_io_err, Address, EmbeddedNode, ErrorSource, IsAllowed, Node, NodeError, NodeGetOptions,
    NodeMetadata, PathKind, Removal, SchemeError, SeekFrom, TokioFileSystemScheme, VfsError,
};

#[test]
fn options_start_with_everything_off() {
    let options = NodeGetOptions::new();
    assert!(!options.get_read());
    assert!(!options.get_write());
    assert!(!options.get_append());
    assert!(!options.get_truncate());
    assert!(!options.get_create());
    assert!(!options.get_create_new());
    let options = NodeGetOptions::default();
    assert!(!options.get_read() && !options.get_write());
}

#[test]
fn options_setters_derive_the_dependent_flags() {
    let options = NodeGetOptions::new().read(true).append(true);
    assert!(options.get_read() && options.get_append() && !options.get_write());
    let options = NodeGetOptions::new().truncate(true);
    assert!(options.get_truncate() && options.get_write() && !options.get_create());
    let options = NodeGetOptions::new().create(true);
    assert!(options.get_create() && options.get_write() && !options.get_create_new());
    let options = NodeGetOptions::new().create_new(true);
    assert!(options.get_create_new() && options.get_create() && options.get_write());
    let options = NodeGetOptions::new().write(true).write(false);
    assert!(!options.get_write());
    let options = NodeGetOptions::new().create_new(true).create_new(false);
    assert!(!options.get_create_new() && options.get_create() && options.get_write());
}

#[test]
fn options_keep_their_implications() {
    let options = NodeGetOptions::new().create(true).write(false);
    assert!(options.get_create() && options.get_write());
    let options = NodeGetOptions::new().truncate(true).write(false);
    assert!(options.get_truncate() && options.get_write());
    let options = NodeGetOptions::new().create_new(true).create(false);
    assert!(options.get_create_new() && options.get_create() && options.get_write());
    let options = NodeGetOptions::new().create(true).create(false);
    assert!(!options.get_create() && options.get_write());
    let options = NodeGetOptions::new().truncate(true).truncate(false);
    assert!(!options.get_truncate() && options.get_write());
}

#[test]
fn an_address_has_its_components() {
    let url = Address::parse("svc://user:pw@host.example:81/a/b?q=1#frag").unwrap();
    assert_eq!(url.scheme(), "svc");
    assert_eq!(url.username(), "user");
    assert_eq!(url.password(), Some("pw"));
    assert_eq!(url.host_str(), Some("host.example"));
    assert!(url.has_host());
    assert_eq!(url.port(), Some(81));
    assert_eq!(url.path(), "/a/b");
    assert_eq!(url.query(), Some("q=1"));
    assert_eq!(url.fragment(), Some("frag"));
    assert_eq!(url.as_str(), "svc://user:pw@host.example:81/a/b?q=1#frag");
    let copy = url.clone();
    assert_eq!(copy.as_str(), url.as_str());
    let plain = Address::parse("mem:test").unwrap();
    assert_eq!(plain.path(), "test");
    assert_eq!(plain.username(), "");
    assert_eq!(plain.password(), None);
    assert_eq!(plain.host_str(), None);
    assert!(!plain.has_host());
    assert_eq!(plain.port(), None);
    assert_eq!(plain.query(), None);
    assert_eq!(plain.fragment(), None);
    assert!(Address::parse("no address").is_err());
}

#[test]
fn an_address_is_edited_by_component() {
    let url = Address::parse("svc://host.example/a").unwrap();
    assert_eq!(url.with_path("/b c").unwrap().as_str(), "svc://host.example/b%20c");
    assert_eq!(
        url.with_host("other.example").unwrap().as_str(),
        "svc://other.example/a"
    );
    assert_eq!(
        url.with_username("me").unwrap().as_str(),
        "svc://me@host.example/a"
    );
    assert_eq!(
        url.with_password("pw").unwrap().as_str(),
        "svc://:pw@host.example/a"
    );
    assert_eq!(url.with_port(99).unwrap().as_str(), "svc://host.example:99/a");
    assert_eq!(url.with_fragment("f").unwrap().as_str(), "svc://host.example/a#f");
    assert_eq!(url.with_query("k=v").unwrap().as_str(), "svc://host.example/a?k=v");
    // the address itself stays
    assert_eq!(url.as_str(), "svc://host.example/a");
    let hostless = Address::parse("svc:/a").unwrap();
    assert!(hostless.with_username("me").is_none());
    assert!(hostless.with_password("pw").is_none());
    assert!(hostless.with_port(1).is_none());
    let opaque = Address::parse("data:x").unwrap();
    assert!(matches!(opaque.with_host("h"), Err(Some(_))));
}

#[test]
fn paths_split_into_segments() {
    let texts = |v: Vec<String>| v;
    assert_eq!(split_segments("rel"), None);
    assert_eq!(split_segments(""), None);
    assert_eq!(split_segments("/"), Some(texts(vec!["".to_string()])));
    assert_eq!(
        split_segments("/a/b/c"),
        Some(vec!["a".to_string(), "b".to_string(), "c".to_string()])
    );
    assert_eq!(
        split_segments("/a//b/"),
        Some(vec![
            "a".to_string(),
            "".to_string(),
            "b".to_string(),
            "".to_string()
        ])
    );
    assert_eq!(
        split_segments("/\u{e9}t\u{e9}/x"),
        Some(vec!["\u{e9}t\u{e9}".to_string(), "x".to_string()])
    );
}

#[test]
fn text_helpers_agree_with_std() {
    assert_eq!(join("ab", "cd"), "abcd");
    assert!(ends_with_slash("/a/"));
    assert!(!ends_with_slash("/a"));
    assert!(!ends_with_slash(""));
    assert!(has_prefix("/test/blah", "/test/"));
    assert!(has_prefix("abc", ""));
    assert!(!has_prefix("ab", "abc"));
    assert!(!has_prefix("abd", "abc"));
    assert!(has_suffix("text/plain;base64", ";base64"));
    assert!(!has_suffix("base64", ";base64"));
    assert!(same_text("base64", "base64"));
    assert!(!same_text("base64", "base65"));
    assert!(!same_text("base64", "base6"));
    assert_eq!(last_slash("/a/b"), Some(2));
    assert_eq!(last_slash("/ab"), Some(0));
    assert_eq!(last_slash("ab"), None);
    assert_eq!(find_char("a,b,c", ','), Some(1));
    assert_eq!(find_char("abc", ','), None);
    assert_eq!(head_to("h\u{e9}llo", 2), "h\u{e9}");
    assert_eq!(tail_from("h\u{e9}llo", 2), "llo");
    assert_eq!(trim_end_matches("xbase64base64", "base64"), "x");
    assert_eq!(trim_end_matches("text/plain;;", ";"), "text/plain");
    assert_eq!(trim_end_matches("abc", ""), "abc");
    assert_eq!(trim_end_matches("abc", "abcd"), "abc");
}

#[test]
fn permissions_turn_into_results() {
    assert!(true.allowed());
    assert!(!false.allowed());
    assert!(true.else_poll_io_error().is_ok());
    assert!(matches!(false.else_poll_io_error(), Err(NodeError::NotPermitted)));
    assert_eq!(true.into_poll_io(7).unwrap(), 7);
    assert!(matches!(false.into_poll_io(7), Err(NodeError::NotPermitted)));
    assert_eq!(true.into_poll_io_of(|| 8).unwrap(), 8);
    assert!(matches!(false.into_poll_io_of(|| 8), Err(NodeError::NotPermitted)));
    assert_eq!(true.into_poll_io_then(|| Ok(9)).unwrap(), 9);
    assert!(matches!(
        true.into_poll_io_then(|| Err::<u8, NodeError>(NodeError::UnknownError("x".to_string()))),
        Err(NodeError::UnknownError(text)) if text == "x"
    ));
    assert!(matches!(
        false.into_poll_io_then(|| Ok(9)),
        Err(NodeError::NotPermitted)
    ));
    assert!(matches!(poll_io_err::<u8>(), Err(NodeError::NotPermitted)));
}

#[test]
fn failures_keep_what_they_hold() {
    assert!(matches!(
        NodeError::UnknownError("why".to_string()).into_owned(),
        NodeError::UnknownError(text) if text == "why"
    ));
    assert!(matches!(
        SchemeError::missing("/p").into_owned(),
        SchemeError::NodeDoesNotExist(path) if path == "/p"
    ));
    assert!(matches!(
        SchemeError::taken("/p").into_owned(),
        SchemeError::NodeAlreadyExists(path) if path == "/p"
    ));
    assert!(matches!(
        SchemeError::message("m"),
        SchemeError::GenericError(Some("m"), None)
    ));
    assert!(matches!(
        VfsError::SchemeNotFound("n".to_string()).into_owned(),
        VfsError::SchemeNotFound(name) if name == "n"
    ));
}

#[test]
fn embedded_node_reads_and_seeks() {
    let mut node = EmbeddedNode::new(b"fn main() {}".to_vec());
    assert!(node.is_reader() && !node.is_writer() && node.is_seeker());
    let mut buf = [0u8; 7];
    assert_eq!(node.read(&mut buf).unwrap(), 7);
    assert_eq!(&buf, b"fn main");
    assert_eq!(node.seek(SeekFrom::Start(3)).unwrap(), 3);
    let mut four = [0u8; 4];
    assert_eq!(node.read(&mut four).unwrap(), 4);
    assert_eq!(&four, b"main");
    assert_eq!(node.seek(SeekFrom::End(-2)).unwrap(), 10);
    assert_eq!(node.read(&mut four).unwrap(), 2);
    assert_eq!(&four, b"{}in");
    assert_eq!(node.read(&mut four).unwrap(), 0);
    assert!(matches!(node.write(b"x"), Err(NodeError::NotPermitted)));
}

#[test]
fn file_system_rules() {
    let scheme = TokioFileSystemScheme::new("/srv/files".to_string());
    assert_eq!(scheme.root_path(), "/srv/files");
    assert_eq!(
        scheme
            .fs_path_from_url(&Address::parse("fs:/a/b.txt").unwrap())
            .unwrap(),
        vec!["a".to_string(), "b.txt".to_string()]
    );
    assert!(matches!(
        scheme.fs_path_from_url(&Address::parse("fs:plain").unwrap()),
        Err(SchemeError::NodeDoesNotExist(path)) if path == "plain"
    ));
    assert!(TokioFileSystemScheme::creates_parent(
        &NodeGetOptions::new().create(true)
    ));
    assert!(!TokioFileSystemScheme::creates_parent(
        &NodeGetOptions::new().write(true)
    ));
    assert_eq!(TokioFileSystemScheme::removal(PathKind::File, false), Removal::File);
    assert_eq!(TokioFileSystemScheme::removal(PathKind::File, true), Removal::File);
    assert_eq!(
        TokioFileSystemScheme::removal(PathKind::Directory, false),
        Removal::Directory
    );
    assert_eq!(
        TokioFileSystemScheme::removal(PathKind::Directory, true),
        Removal::DirectoryAndContents
    );
    assert_eq!(TokioFileSystemScheme::removal(PathKind::Missing, true), Removal::Nothing);
    assert_eq!(TokioFileSystemScheme::removal(PathKind::Other, true), Removal::Nothing);
}

#[test]
fn metadata_is_a_plain_value() {
    let described = NodeMetadata { is_node: false, len: None };
    let copy = described;
    assert_eq!(copy, described);
}

#[test]
fn failures_describe_themselves() {
    assert_eq!(SchemeError::missing("/p").describe(), "node not found: /p");
    assert_eq!(SchemeError::taken("/p").describe(), "node already exists: /p");
    assert_eq!(SchemeError::message("why").describe(), "why");
    assert_eq!(SchemeError::GenericError(None, None).describe(), "generic error");
    assert_eq!(
        SchemeError::UrlAccessError(Address::parse("mem:/x").unwrap()).describe(),
        "access error with path: mem:/x"
    );
    let reason = Address::parse("no address").unwrap_err();
    assert_eq!(
        SchemeError::UrlParseError(reason).describe(),
        "failed parsing url string"
    );
    assert_eq!(
        VfsError::SchemeAlreadyExists("mem".to_string()).describe(),
        "scheme already exists: mem"
    );
    assert_eq!(
        VfsError::SchemeNotFound("mem".to_string()).describe(),
        "scheme not found: mem"
    );
    assert_eq!(
        VfsError::SchemeWrongType("mem".to_string(), "Other").describe(),
        "scheme `mem` cannot be cast to type: Other"
    );
    assert_eq!(VfsError::UrlParseFailed(reason).describe(), "url failed to parse");
    assert_eq!(
        VfsError::SchemeError(SchemeError::missing("/p")).describe(),
        "scheme error"
    );
    assert_eq!(NodeError::NotPermitted.describe(), "operation not permitted");
    assert_eq!(
        NodeError::UnknownError("x".to_string()).describe(),
        "unknown error"
    );
}

#[test]
fn failures_convert_into_each_other() {
    assert!(matches!(
        SchemeError::from("text"),
        SchemeError::GenericError(Some("text"), None)
    ));
    assert!(matches!(
        SchemeError::from(None::<&'static str>),
        SchemeError::GenericError(None, None)
    ));
    let reason = Address::parse("no address").unwrap_err();
    assert!(matches!(SchemeError::from(reason), SchemeError::UrlParseError(_)));
    assert!(matches!(VfsError::from(reason), VfsError::UrlParseFailed(_)));
    assert!(matches!(
        SchemeError::from(std::io::Error::from_raw_os_error(2)),
        SchemeError::IOError(_)
    ));
    assert!(matches!(
        VfsError::from(SchemeError::missing("/p")),
        VfsError::SchemeError(SchemeError::NodeDoesNotExist(path)) if path == "/p"
    ));
    assert!(matches!(
        SchemeError::from(VfsError::SchemeNotFound("n".to_string())),
        SchemeError::GenericError(Some("vfs error"), Some(ErrorSource::Vfs(inner)))
            if matches!(*inner, VfsError::SchemeNotFound(ref name) if name == "n")
    ));
}

#[test]
fn asset_rules() {
    let url = Address::parse("embed:/full_tokio.rs").unwrap();
    let read = NodeGetOptions::new().read(true);
    assert_eq!(asset_name(&url).unwrap(), "full_tokio.rs");
    assert!(matches!(
        asset_name(&Address::parse("embed:").unwrap()),
        Err(SchemeError::NodeDoesNotExist(path)) if path == ""
    ));
    let mut node = open_asset(&url, &read, Some(b"fn main".to_vec())).unwrap();
    let mut buf = [0u8; 2];
    assert_eq!(node.read(&mut buf).unwrap(), 2);
    assert_eq!(&buf, b"fn");
    assert!(matches!(
        open_asset(&url, &read, None),
        Err(SchemeError::NodeDoesNotExist(path)) if path == "/full_tokio.rs"
    ));
    assert!(matches!(
        open_asset(&url, &NodeGetOptions::new().write(true), Some(Vec::new())),
        Err(SchemeError::UrlAccessError(refused)) if refused.as_str() == "embed:/full_tokio.rs"
    ));
    assert!(matches!(
        open_asset(&Address::parse("embed:").unwrap(), &read, Some(Vec::new())),
        Err(SchemeError::NodeDoesNotExist(path)) if path == ""
    ));
    assert_eq!(
        describe_asset(&url, Some(7)).unwrap(),
        NodeMetadata { is_node: true, len: Some((7, Some(7))) }
    );
    assert!(describe_asset(&url, None).is_err());
}

#[test]
fn asset_listing() {
    let names = vec![
        "full_tokio.rs".to_string(),
        "full/mod.rs".to_string(),
        "full_async_std.rs".to_string(),
    ];
    let all = list_assets(&Address::parse("embed:/").unwrap(), &names).unwrap();
    let texts: Vec<&str> = all.iter().map(|entry| entry.url.as_str()).collect();
    assert_eq!(
        texts,
        vec![
            "embed:/full_tokio.rs",
            "embed:/full/mod.rs",
            "embed:/full_async_std.rs"
        ]
    );
    let sub = list_assets(&Address::parse("embed:/full/").unwrap(), &names).unwrap();
    assert_eq!(sub.len(), 1);
    assert_eq!(sub[0].url.as_str(), "embed:/full/mod.rs");
    // without a slash at its end the path counts up to its last slash
    let sub = list_assets(&Address::parse("embed:/full/x").unwrap(), &names).unwrap();
    assert_eq!(sub.len(), 3);
    assert!(matches!(
        list_assets(&Address::parse("embed:rel").unwrap(), &names),
        Err(SchemeError::UrlAccessError(_))
    ));
}

fn embed_table() -> Vec<(String, Vec<u8>)> {
    vec![
        (
            "full_tokio.rs".to_string(),
            b"mod full;\n\nfn main() {\n\tfull::run();\n}\n".to_vec(),
        ),
        (
            "full_async_std.rs".to_string(),
            b"mod full;\n\nfn main() {\n\tfull::run();\n}\n".to_vec(),
        ),
        ("full/mod.rs".to_string(), b"pub fn run() {}\n".to_vec()),
    ]
}

fn embed_get(url: &Address, options: &NodeGetOptions) -> Result<EmbeddedNode, SchemeError> {
    let found = match asset_name(url) {
        Ok(name) => embed_table()
            .into_iter()
            .find(|(known, _)| known.as_str() == name)
            .map(|(_, data)| data),
        Err(_) => None,
    };
    open_asset(url, options, found)
}

fn embed_read_to_string(node: &mut EmbeddedNode) -> String {
    let mut out = Vec::new();
    let mut chunk = [0u8; 5];
    loop {
        let amount = node.read(&mut chunk).unwrap();
        if amount == 0 {
            break;
        }
        out.extend_from_slice(&chunk[..amount]);
    }
    String::from_utf8(out).unwrap()
}

#[test]
fn embed_read() {
    let read = &NodeGetOptions::new().read(true);
    assert!(embed_get(&Address::parse("embed:/nothing/here").unwrap(), read).is_err());
    let mut node = embed_get(&Address::parse("embed:/full_tokio.rs").unwrap(), read).unwrap();
    let buffer = embed_read_to_string(&mut node);
    assert!(buffer.contains("main"));
}

#[test]
fn embed_seeking() {
    let read = &NodeGetOptions::new().read(true);
    let mut node = embed_get(&Address::parse("embed:/full_tokio.rs").unwrap(), read).unwrap();
    let buffer = embed_read_to_string(&mut node);
    assert!(buffer.contains("main"));
    node.seek(SeekFrom::End(2)).unwrap();
    let buffer = embed_read_to_string(&mut node);
    assert!(!buffer.contains("main"));
}

#[test]
fn embed_read_dir() {
    let names: Vec<String> = embed_table().into_iter().map(|(name, _)| name).collect();
    assert!(list_assets(&Address::parse("embed:/").unwrap(), &names).unwrap().len() > 0);
    assert_eq!(
        list_assets(&Address::parse("embed:/full/").unwrap(), &names)
            .unwrap()
            .len(),
        1
    );
}
