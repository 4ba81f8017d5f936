use vfs_nodes::{
    Address, MemoryNode, MemoryScheme, Node, NodeError, NodeGetOptions, Scheme, SchemeError,
    SeekFrom, Vfs, VfsError, VfsNode,
};

fn mem_url(s: &str) -> Address {
    Address::parse(s).unwrap()
}

fn mem_vfs() -> Vfs<MemoryScheme> {
    let mut vfs = Vfs::empty();
    vfs.add_scheme("mem", MemoryScheme::default()).unwrap();
    vfs
}

fn mem_read_to_string(vfs: &Vfs<MemoryScheme>, node: &mut VfsNode<MemoryNode>) -> String {
    let mut out = Vec::new();
    let mut chunk = [0u8; 4];
    loop {
        let amount = vfs.read(node, &mut chunk).unwrap();
        if amount == 0 {
            break;
        }
        out.extend_from_slice(&chunk[..amount]);
    }
    String::from_utf8(out).unwrap()
}

#[test]
fn memory_node_reading() {
    let mut vfs = mem_vfs();
    let mut node = vfs
        .get_node_at("mem:test", &NodeGetOptions::new().read(true).create_new(true))
        .unwrap();
    let buffer = mem_read_to_string(&vfs, &mut node);
    assert_eq!(&buffer, "");
}

#[test]
fn memory_node_writing() {
    let mut vfs = mem_vfs();
    let mut node = vfs
        .get_node_at(
            "mem:test",
            &NodeGetOptions::new().write(true).read(true).create_new(true),
        )
        .unwrap();
    assert_eq!(vfs.write(&mut node, "test string".as_bytes()).unwrap(), 11);
    vfs.seek(&mut node, SeekFrom::Start(0)).unwrap();
    let buffer = mem_read_to_string(&vfs, &mut node);
    assert_eq!(&buffer, "test string");
}

#[test]
fn node_stored() {
    let mut vfs = mem_vfs();
    {
        let mut node = vfs
            .get_node_at(
                "mem:test",
                &NodeGetOptions::new().write(true).read(true).create_new(true),
            )
            .unwrap();
        vfs.write(&mut node, "test string".as_bytes()).unwrap();
        vfs.seek(&mut node, SeekFrom::Start(0)).unwrap();
        let buffer = mem_read_to_string(&vfs, &mut node);
        assert_eq!(&buffer, "test string");
    }
    {
        let mut node = vfs
            .get_node_at("mem:test", &NodeGetOptions::new().read(true))
            .unwrap();
        let buffer = mem_read_to_string(&vfs, &mut node);
        assert_eq!(&buffer, "test string");
    }
}

#[test]
fn memory_node_seeking() {
    let mut vfs = mem_vfs();
    let mut node = vfs
        .get_node(
            &mem_url("mem:test"),
            &NodeGetOptions::new().write(true).read(true).create_new(true),
        )
        .unwrap();
    vfs.write(&mut node, "test".as_bytes()).unwrap();
    vfs.seek(&mut node, SeekFrom::Start(0)).unwrap();
    let buffer = mem_read_to_string(&vfs, &mut node);
    assert_eq!(&buffer, "test");
    vfs.seek(&mut node, SeekFrom::Start(2)).unwrap();
    let buffer = mem_read_to_string(&vfs, &mut node);
    assert_eq!(&buffer, "st");
}

#[test]
fn node_read_dir() {
    let mut vfs = mem_vfs();
    for name in ["/test0", "/test1", "/test2", "/test/blah0", "/test/blah1"] {
        vfs.get_node_at(
            &format!("mem:{}", name),
            &NodeGetOptions::new().create_new(true),
        )
        .unwrap();
    }
    assert_eq!(vfs.read_dir_at("mem:/").unwrap().len(), 5);
    assert_eq!(vfs.read_dir_at("mem:/test").unwrap().len(), 5);
    assert_eq!(vfs.read_dir_at("mem:/test/").unwrap().len(), 2);
}

#[test]
fn read_dir_lists_each_matching_path_once() {
    let mut store = MemoryScheme::new();
    let create = NodeGetOptions::new().create(true);
    for name in ["mem:/a/one", "mem:/a/two", "mem:/b/three"] {
        store.get_node(&mem_url(name), &create).unwrap();
    }
    let mut paths: Vec<String> = store
        .read_dir(&mem_url("mem:/a/"))
        .unwrap()
        .iter()
        .map(|entry| entry.url.path().to_string())
        .collect();
    paths.sort();
    assert_eq!(paths, vec!["/a/one".to_string(), "/a/two".to_string()]);
    let entries = store.read_dir(&mem_url("mem:/a/")).unwrap();
    assert_eq!(entries[0].url.scheme(), "mem");
}

#[test]
fn write_then_read_back() {
    let mut store = MemoryScheme::new();
    let options = NodeGetOptions::new().create(true).read(true).write(true);
    let mut node = store.get_node(&mem_url("mem:/x"), &options).unwrap();
    assert_eq!(store.write(&mut node, "hello".as_bytes()).unwrap(), 5);
    assert_eq!(store.seek(&mut node, SeekFrom::Start(0)).unwrap(), 0);
    let mut out = Vec::new();
    assert_eq!(store.read_to_end(&mut node, &mut out).unwrap(), 5);
    assert_eq!(out, "hello".as_bytes().to_vec());
}

#[test]
fn round_trip_of_several_contents() {
    let contents: [&[u8]; 4] = [b"", b"a", b"some longer content\n", &[0u8, 255, 7, 7, 0]];
    for (i, bytes) in contents.iter().enumerate() {
        let mut store = MemoryScheme::new();
        let options = NodeGetOptions::new().create(true).read(true);
        let url = mem_url(&format!("mem:/file{}", i));
        let mut node = store.get_node(&url, &options).unwrap();
        assert_eq!(store.write(&mut node, bytes).unwrap(), bytes.len());
        assert_eq!(store.seek(&mut node, SeekFrom::Start(0)).unwrap(), 0);
        let mut out = Vec::new();
        store.read_to_end(&mut node, &mut out).unwrap();
        assert_eq!(&out[..], *bytes);
        assert_eq!(
            store.metadata(&url).unwrap().len,
            Some((bytes.len(), Some(bytes.len())))
        );
    }
}

#[test]
fn create_new_fails_on_existing_and_succeeds_on_absent() {
    let mut store = MemoryScheme::new();
    let options = NodeGetOptions::new().create_new(true);
    let url = mem_url("mem:/fresh");
    assert!(matches!(
        store.metadata(&url),
        Err(SchemeError::NodeDoesNotExist(path)) if path == "/fresh"
    ));
    assert!(store.get_node(&url, &options).is_ok());
    let described = store.metadata(&url).unwrap();
    assert!(described.is_node);
    assert_eq!(described.len, Some((0, Some(0))));
    assert!(matches!(
        store.get_node(&url, &options),
        Err(SchemeError::NodeAlreadyExists(path)) if path == "/fresh"
    ));
}

#[test]
fn open_without_create_fails_on_absent() {
    let mut store = MemoryScheme::new();
    let url = mem_url("mem:/nothing");
    assert!(matches!(
        store.get_node(&url, &NodeGetOptions::new().read(true)),
        Err(SchemeError::NodeDoesNotExist(path)) if path == "/nothing"
    ));
    assert!(matches!(
        store.remove_node(&url, false),
        Err(SchemeError::NodeDoesNotExist(path)) if path == "/nothing"
    ));
}

#[test]
fn forced_removal_is_seen_by_open_handle() {
    let mut store = MemoryScheme::new();
    let url = mem_url("mem:/shared");
    let mut writer = store
        .get_node(&url, &NodeGetOptions::new().create(true))
        .unwrap();
    store.write(&mut writer, b"content").unwrap();
    let mut second = store
        .get_node(&url, &NodeGetOptions::new().read(true))
        .unwrap();
    store.remove_node(&url, true).unwrap();
    let mut buf = [9u8; 8];
    assert_eq!(store.read(&mut second, &mut buf).unwrap(), 0);
    assert_eq!(buf, [9u8; 8]);
    let mut out = Vec::new();
    assert_eq!(store.read_to_end(&mut second, &mut out).unwrap(), 0);
    assert!(out.is_empty());
    assert!(store.metadata(&url).is_err());
}

#[test]
fn plain_removal_keeps_content_for_open_handle() {
    let mut store = MemoryScheme::new();
    let url = mem_url("mem:/kept");
    let mut writer = store
        .get_node(&url, &NodeGetOptions::new().create(true))
        .unwrap();
    store.write(&mut writer, b"content").unwrap();
    let mut second = store
        .get_node(&url, &NodeGetOptions::new().read(true))
        .unwrap();
    store.remove_node(&url, false).unwrap();
    let mut out = Vec::new();
    assert_eq!(store.read_to_end(&mut second, &mut out).unwrap(), 7);
    assert_eq!(out, b"content".to_vec());
}

#[test]
fn write_splices_over_and_beyond_the_end() {
    let mut store = MemoryScheme::new();
    let url = mem_url("mem:/splice");
    let options = NodeGetOptions::new().create(true).read(true);
    let mut node = store.get_node(&url, &options).unwrap();
    store.write(&mut node, b"0123456789").unwrap();
    // wholly inside
    assert_eq!(store.seek(&mut node, SeekFrom::Start(2)).unwrap(), 2);
    store.write(&mut node, b"ab").unwrap();
    // up to the very end
    assert_eq!(store.seek(&mut node, SeekFrom::Start(8)).unwrap(), 8);
    store.write(&mut node, b"yz").unwrap();
    // across the end
    assert_eq!(store.seek(&mut node, SeekFrom::End(-1)).unwrap(), 9);
    store.write(&mut node, b"ZAB").unwrap();
    // at the end
    store.write(&mut node, b"!").unwrap();
    store.seek(&mut node, SeekFrom::Start(0)).unwrap();
    let mut out = Vec::new();
    store.read_to_end(&mut node, &mut out).unwrap();
    assert_eq!(out, b"01ab4567yZAB!".to_vec());
}

#[test]
fn seek_is_held_within_the_content() {
    let mut store = MemoryScheme::new();
    let url = mem_url("mem:/seek");
    let mut node = store
        .get_node(&url, &NodeGetOptions::new().create(true).read(true))
        .unwrap();
    store.write(&mut node, b"0123456789").unwrap();
    assert_eq!(store.seek(&mut node, SeekFrom::Start(4)).unwrap(), 4);
    assert_eq!(store.seek(&mut node, SeekFrom::Start(400)).unwrap(), 10);
    assert_eq!(store.seek(&mut node, SeekFrom::End(0)).unwrap(), 10);
    assert_eq!(store.seek(&mut node, SeekFrom::End(5)).unwrap(), 10);
    assert_eq!(store.seek(&mut node, SeekFrom::End(-3)).unwrap(), 7);
    assert_eq!(store.seek(&mut node, SeekFrom::End(-30)).unwrap(), 0);
    assert_eq!(store.seek(&mut node, SeekFrom::End(i64::MIN)).unwrap(), 0);
    assert_eq!(store.seek(&mut node, SeekFrom::Current(6)).unwrap(), 6);
    assert_eq!(store.seek(&mut node, SeekFrom::Current(-2)).unwrap(), 4);
    assert_eq!(store.seek(&mut node, SeekFrom::Current(-20)).unwrap(), 0);
    assert_eq!(store.seek(&mut node, SeekFrom::Current(20)).unwrap(), 10);
    assert_eq!(store.seek(&mut node, SeekFrom::Current(i64::MIN)).unwrap(), 0);
    assert_eq!(store.seek(&mut node, SeekFrom::Current(i64::MAX)).unwrap(), 10);
    assert_eq!(store.metadata(&url).unwrap().len, Some((10, Some(10))));
}

#[test]
fn read_takes_what_fits_and_stops_at_the_end() {
    let mut store = MemoryScheme::new();
    let mut node = store
        .get_node(&mem_url("mem:/r"), &NodeGetOptions::new().create(true).read(true))
        .unwrap();
    store.write(&mut node, b"abcdef").unwrap();
    store.seek(&mut node, SeekFrom::Start(1)).unwrap();
    let mut buf = [0u8; 4];
    assert_eq!(store.read(&mut node, &mut buf).unwrap(), 4);
    assert_eq!(&buf, b"bcde");
    assert_eq!(store.read(&mut node, &mut buf).unwrap(), 1);
    assert_eq!(&buf, b"fcde");
    assert_eq!(store.read(&mut node, &mut buf).unwrap(), 0);
    assert_eq!(&buf, b"fcde");
}

#[test]
fn operations_not_opened_for_are_refused() {
    let mut store = MemoryScheme::new();
    let url = mem_url("mem:/p");
    let mut write_only = store
        .get_node(&url, &NodeGetOptions::new().create(true))
        .unwrap();
    assert!(!write_only.is_reader());
    assert!(write_only.is_writer());
    assert!(write_only.is_seeker());
    let mut buf = [0u8; 2];
    assert!(matches!(
        store.read(&mut write_only, &mut buf),
        Err(NodeError::NotPermitted)
    ));
    let mut out = Vec::new();
    assert!(matches!(
        store.read_to_end(&mut write_only, &mut out),
        Err(NodeError::NotPermitted)
    ));
    let mut read_only = store
        .get_node(&url, &NodeGetOptions::new().read(true))
        .unwrap();
    assert!(read_only.is_reader());
    assert!(!read_only.is_writer());
    assert!(matches!(
        store.write(&mut read_only, b"x"),
        Err(NodeError::NotPermitted)
    ));
    assert!(write_only.flush().is_ok());
    assert!(write_only.close().is_ok());
    assert!(matches!(read_only.flush(), Err(NodeError::NotPermitted)));
    assert!(matches!(read_only.close(), Err(NodeError::NotPermitted)));
    let mut neither = store.get_node(&url, &NodeGetOptions::new()).unwrap();
    assert!(!neither.is_seeker());
    assert!(matches!(
        store.seek(&mut neither, SeekFrom::Start(0)),
        Err(NodeError::NotPermitted)
    ));
}

#[test]
fn truncate_and_append_on_open() {
    let mut store = MemoryScheme::new();
    let url = mem_url("mem:/t");
    let mut node = store
        .get_node(&url, &NodeGetOptions::new().create(true))
        .unwrap();
    store.write(&mut node, b"abc").unwrap();
    let mut appender = store
        .get_node(&url, &NodeGetOptions::new().write(true).append(true).read(true))
        .unwrap();
    store.write(&mut appender, b"def").unwrap();
    assert_eq!(store.metadata(&url).unwrap().len, Some((6, Some(6))));
    store.seek(&mut appender, SeekFrom::Start(0)).unwrap();
    let mut out = Vec::new();
    store.read_to_end(&mut appender, &mut out).unwrap();
    assert_eq!(out, b"abcdef".to_vec());
    store
        .get_node(&url, &NodeGetOptions::new().truncate(true))
        .unwrap();
    assert_eq!(store.metadata(&url).unwrap().len, Some((0, Some(0))));
    assert!(store.owns(&appender));
}

#[test]
fn registry_passes_scheme_failures_on() {
    let mut vfs = mem_vfs();
    assert!(matches!(
        vfs.get_node_at("mem:/absent", &NodeGetOptions::new().read(true)),
        Err(VfsError::SchemeError(SchemeError::NodeDoesNotExist(path))) if path == "/absent"
    ));
}
