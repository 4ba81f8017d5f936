use vfs_nodes::{
    Address, DataLoaderNode, DataLoaderScheme, ErrorSource, Node, NodeError, NodeGetOptions,
    Scheme, SchemeError, SeekFrom, Vfs, VfsNode,
};

fn data_url(s: &str) -> Address {
    Address::parse(s).unwrap()
}

fn data_read_to_string(
    vfs: &Vfs<DataLoaderScheme>,
    node: &mut VfsNode<DataLoaderNode>,
) -> String {
    let mut out = Vec::new();
    let mut chunk = [0u8; 3];
    loop {
        let amount = vfs.read(node, &mut chunk).unwrap();
        if amount == 0 {
            break;
        }
        out.extend_from_slice(&chunk[..amount]);
    }
    String::from_utf8(out).unwrap()
}

#[test]
fn data_loader_scheme_access() {
    let mut vfs = Vfs::default();
    let read = NodeGetOptions::new().read(true);
    assert!(vfs.get_node(&data_url("data:blah"), &read).is_ok(), "text_basic");
    assert!(
        vfs.get_node(&data_url("data:Some test text"), &read).is_ok(),
        "text_unencoded_technically_invalid_but_okay"
    );
    assert!(
        vfs.get_node(&data_url("data:Some%20test%20text"), &read).is_ok(),
        "text_percent_encoded"
    );
    assert!(
        vfs.get_node(&data_url("data:base64,U29tZSB0ZXN0IHRleHQ="), &read)
            .is_ok(),
        "text_base64"
    );
}

#[test]
fn data_loader_node_reading() {
    let mut vfs = Vfs::default();
    let mut test_node = vfs
        .get_node_at("data:test", &NodeGetOptions::new().read(true))
        .unwrap();
    let buffer = data_read_to_string(&vfs, &mut test_node);
    assert_eq!(&buffer, "test")
}

#[test]
fn data_loader_node_seeking() {
    let mut vfs = Vfs::default();
    let mut node = vfs
        .get_node(&data_url("data:test"), &NodeGetOptions::new().read(true))
        .unwrap();
    let buffer = data_read_to_string(&vfs, &mut node);
    assert_eq!(&buffer, "test");
    vfs.seek(&mut node, SeekFrom::Start(2)).unwrap();
    let buffer = data_read_to_string(&vfs, &mut node);
    assert_eq!(&buffer, "st");
}

#[test]
fn data_loader_node_writing() {
    let mut vfs = Vfs::default();
    let mut node = vfs
        .get_node(&data_url("data:test"), &NodeGetOptions::new().read(true))
        .unwrap();
    assert!(!node.is_writer());
    assert!(node.is_reader());
    assert!(node.is_seeker());
    assert!(matches!(
        vfs.write(&mut node, b"x"),
        Err(NodeError::NotPermitted)
    ));
}

#[test]
fn content_and_media_type_of_an_address() {
    let (mimetype, data) =
        DataLoaderScheme::parse_url_into_data(&data_url("data:Some%20test%20text")).unwrap();
    assert_eq!(mimetype, "text/plain;charset=US-ASCII");
    assert_eq!(data, b"Some test text".to_vec());
    let (mimetype, data) =
        DataLoaderScheme::parse_url_into_data(&data_url("data:base64,U29tZSB0ZXN0IHRleHQ="))
            .unwrap();
    assert_eq!(mimetype, "");
    assert_eq!(data, b"Some test text".to_vec());
    let (mimetype, data) = DataLoaderScheme::parse_url_into_data(&data_url(
        "data:text/plain;base64,U29tZSB0ZXN0IHRleHQ=",
    ))
    .unwrap();
    assert_eq!(mimetype, "text/plain");
    assert_eq!(data, b"Some test text".to_vec());
    let (mimetype, data) =
        DataLoaderScheme::parse_url_into_data(&data_url("data:text/html,%3Cp%3Ehi%3C/p%3E"))
            .unwrap();
    assert_eq!(mimetype, "text/html");
    assert_eq!(data, b"<p>hi</p>".to_vec());
    let (mimetype, data) = DataLoaderScheme::parse_url_into_data(&data_url("data:")).unwrap();
    assert_eq!(mimetype, "text/plain;charset=US-ASCII");
    assert!(data.is_empty());
}

#[test]
fn addresses_that_carry_no_content() {
    assert!(matches!(
        DataLoaderScheme::parse_url_into_data(&data_url("data:/with/segments")),
        Err(SchemeError::NodeDoesNotExist(path)) if path == "/with/segments"
    ));
    assert!(matches!(
        DataLoaderScheme::parse_url_into_data(&data_url("data:base64,@@@")),
        Err(SchemeError::GenericError(Some("data_loader error"), Some(ErrorSource::Decode(_))))
    ));
}

#[test]
fn the_data_scheme_lists_and_removes_nothing() {
    let mut scheme = DataLoaderScheme::new();
    let url = data_url("data:test");
    assert!(scheme.remove_node(&url, true).is_ok());
    assert!(matches!(
        scheme.read_dir(&url),
        Err(SchemeError::NodeDoesNotExist(text)) if text == "data:test"
    ));
    let described = scheme.metadata(&url).unwrap();
    assert!(described.is_node);
    assert_eq!(described.len, Some((4, Some(4))));
}
