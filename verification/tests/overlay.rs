use vfs_nodes::{
    Address, DataLoaderScheme, EitherNode, EitherScheme, MemoryScheme, Node, NodeGetOptions,
    OverlayAccess, OverlayNode, OverlayScheme, Scheme, SchemeError, SeekFrom, Vfs,
};

fn o(s: &str) -> Address {
    Address::parse(s).unwrap()
}

fn store_with(path: &str, content: &[u8]) -> MemoryScheme {
    let mut store = MemoryScheme::new();
    let mut node = store
        .get_node(&o(path), &NodeGetOptions::new().create(true))
        .unwrap();
    store.write(&mut node, content).unwrap();
    store
}

#[test]
fn reader_falls_through_to_read_layer_and_removal_does_not() {
    let a = MemoryScheme::new();
    let b = store_with("mem:/x", b"content");
    let mut overlay = OverlayScheme::builder_write(a).read(b).build();
    let mut node = overlay
        .get_node(&o("mem:/x"), &NodeGetOptions::new().read(true))
        .unwrap();
    assert_eq!(node.get_layer(), 1);
    let mut buf = [0u8; 16];
    assert_eq!(overlay.read(&mut node, &mut buf).unwrap(), 7);
    assert_eq!(&buf[..7], b"content");
    assert!(matches!(
        overlay.remove_node(&o("mem:/x"), false),
        Err(SchemeError::NodeDoesNotExist(path)) if path == "/x"
    ));
    // the read layer still has it
    assert!(overlay.metadata(&o("mem:/x")).is_ok());
}

#[test]
fn write_layer_is_hidden_from_readers() {
    let a = store_with("mem:/only", b"written");
    let b = MemoryScheme::new();
    let mut overlay = OverlayScheme::builder_write(a).read(b).build();
    assert!(matches!(
        overlay.get_node(&o("mem:/only"), &NodeGetOptions::new().read(true)),
        Err(SchemeError::NodeDoesNotExist(path)) if path == "/only"
    ));
    // metadata asks every layer, whatever its mode
    assert_eq!(
        overlay.metadata(&o("mem:/only")).unwrap().len,
        Some((7, Some(7)))
    );
    // a writer reaches it
    let mut node = overlay
        .get_node(&o("mem:/only"), &NodeGetOptions::new().write(true))
        .unwrap();
    assert_eq!(node.get_layer(), 0);
    assert!(node.is_writer());
    overlay.seek(&mut node, SeekFrom::End(0)).unwrap();
    overlay.write(&mut node, b" more").unwrap();
    assert_eq!(
        overlay.metadata(&o("mem:/only")).unwrap().len,
        Some((12, Some(12)))
    );
}

#[test]
fn first_layer_that_succeeds_wins() {
    let top = store_with("mem:/both", b"top");
    let bottom = store_with("mem:/both", b"bottom");
    let mut overlay = OverlayScheme::builder_read_write(top)
        .read_write(bottom)
        .build();
    let mut node = overlay
        .get_node(&o("mem:/both"), &NodeGetOptions::new().read(true))
        .unwrap();
    assert_eq!(node.get_layer(), 0);
    let mut buf = [0u8; 8];
    assert_eq!(overlay.read(&mut node, &mut buf).unwrap(), 3);
    assert_eq!(&buf[..3], b"top");
    overlay.remove_node(&o("mem:/both"), false).unwrap();
    let mut node = overlay
        .get_node(&o("mem:/both"), &NodeGetOptions::new().read(true))
        .unwrap();
    assert_eq!(node.get_layer(), 1);
    assert_eq!(overlay.read(&mut node, &mut buf).unwrap(), 6);
    assert_eq!(&buf[..6], b"bottom");
    overlay.remove_node(&o("mem:/both"), false).unwrap();
    assert!(matches!(
        overlay.remove_node(&o("mem:/both"), false),
        Err(SchemeError::NodeDoesNotExist(path)) if path == "/both"
    ));
    assert!(matches!(
        overlay.metadata(&o("mem:/both")),
        Err(SchemeError::NodeDoesNotExist(path)) if path == "/both"
    ));
}

#[test]
fn options_that_neither_read_nor_write_reach_no_layer() {
    let store = store_with("mem:/x", b"content");
    let mut overlay = OverlayScheme::builder_read_write(store).build();
    assert!(matches!(
        overlay.get_node(&o("mem:/x"), &NodeGetOptions::new()),
        Err(SchemeError::NodeDoesNotExist(path)) if path == "/x"
    ));
}

#[test]
fn listing_puts_the_last_layer_first_and_keeps_duplicates() {
    let first = store_with("mem:/d/one", b"1");
    let mut last = store_with("mem:/d/two", b"2");
    last.get_node(&o("mem:/d/one"), &NodeGetOptions::new().create(true))
        .unwrap();
    let overlay = OverlayScheme::builder_read(first).write(last).build();
    let entries = overlay.read_dir(&o("mem:/d/")).unwrap();
    let paths: Vec<String> = entries
        .iter()
        .map(|entry| entry.url.path().to_string())
        .collect();
    assert_eq!(paths.len(), 3);
    assert_eq!(paths[2], "/d/one");
    let mut of_last = vec![paths[0].clone(), paths[1].clone()];
    of_last.sort();
    assert_eq!(of_last, vec!["/d/one".to_string(), "/d/two".to_string()]);
    assert_eq!(overlay.layer_count(), 2);
    assert!(matches!(overlay.layer(0), OverlayAccess::Read(_)));
    assert!(overlay.layer(1).writable());
    assert!(!overlay.layer(0).writable());
    assert!(overlay.layer(0).eligible(&NodeGetOptions::new().read(true)));
    assert!(!overlay.layer(0).eligible(&NodeGetOptions::new().write(true)));
}

#[test]
fn boxed_layers_are_layers() {
    let mut overlay = OverlayScheme::builder_boxed_write(Box::new(MemoryScheme::new()))
        .boxed_read(Box::new(store_with("mem:/r", b"r")))
        .boxed_read_write(Box::new(MemoryScheme::new()))
        .boxed_write(Box::new(MemoryScheme::new()))
        .build();
    assert_eq!(overlay.layer_count(), 4);
    let node = overlay
        .get_node(&o("mem:/r"), &NodeGetOptions::new().read(true))
        .unwrap();
    assert_eq!(node.get_layer(), 1);
    let created = overlay
        .get_node(&o("mem:/new"), &NodeGetOptions::new().create(true))
        .unwrap();
    assert_eq!(created.get_layer(), 0);
    let made = OverlayNode::new(3, 5u8);
    assert_eq!(made.get_layer(), 3);
    assert_eq!(*made.get_node(), 5u8);
    let read_first = OverlayScheme::builder_boxed_read(Box::new(MemoryScheme::new())).build();
    assert!(matches!(read_first.layer(0), OverlayAccess::Read(_)));
    let both_first =
        OverlayScheme::builder_boxed_read_write(Box::new(MemoryScheme::new())).build();
    assert!(matches!(both_first.layer(0), OverlayAccess::ReadWrite(_)));
}

#[test]
fn an_overlay_is_a_scheme_of_the_registry() {
    let overlay = OverlayScheme::builder_write(MemoryScheme::new())
        .read(store_with("mem:/x", b"content"))
        .build();
    let mut vfs = Vfs::empty();
    vfs.add_scheme("overlay", overlay).unwrap();
    let mut node = vfs
        .get_node_at("overlay:/x", &NodeGetOptions::new().read(true))
        .unwrap();
    let mut buf = [0u8; 7];
    assert_eq!(vfs.read(&mut node, &mut buf).unwrap(), 7);
    assert_eq!(&buf, b"content");
    assert!(vfs.remove_node_at("overlay:/x", false).is_err());
}

fn files(paths: &[&str]) -> MemoryScheme {
    let mut store = MemoryScheme::new();
    for path in paths {
        store
            .get_node(&o(&format!("fs:{}", path)), &NodeGetOptions::new().create(true))
            .unwrap();
    }
    store
}

#[test]
fn read_only_depth() {
    let mut vfs = Vfs::empty();
    vfs.add_scheme(
        "overlay",
        EitherScheme::Left(
            OverlayScheme::builder_read(EitherScheme::Left(DataLoaderScheme::default()))
                .read(EitherScheme::Right(files(&["/Cargo.toml"])))
                .build(),
        ),
    )
    .unwrap();
    vfs.add_scheme("fs", EitherScheme::Right(files(&["/Cargo.toml"])))
        .unwrap();
    assert!(vfs
        .get_node(&o("overlay:blah"), &NodeGetOptions::new().read(true))
        .is_ok(),);
    assert!(vfs
        .get_node(&o("overlay:/Cargo.toml"), &NodeGetOptions::new().read(true))
        .is_ok(),);
    assert!(vfs
        .get_node(&o("fs:/does/not/exist"), &NodeGetOptions::new().read(true))
        .is_err(),);
}

#[test]
fn read_dir() {
    let mut vfs = Vfs::empty();
    vfs.add_scheme(
        "overlay",
        OverlayScheme::builder_read(EitherScheme::Left(DataLoaderScheme::default()))
            .read(EitherScheme::Right(files(&["/mod.rs", "/scheme.rs", "/vfs.rs"])))
            .read(EitherScheme::Right(files(&[
                "/mod.rs",
                "/filesystem_tokio.rs",
                "/filesystem_async_std.rs",
            ])))
            .build(),
    )
    .unwrap();

    let data = 0;
    let errors = 3;
    let filesystem = 3;

    assert_eq!(
        vfs.read_dir_at("overlay:/").unwrap().len(),
        data + errors + filesystem
    );
}

#[test]
fn one_registry_holds_schemes_of_two_kinds() {
    let mut vfs: Vfs<EitherScheme<MemoryScheme, DataLoaderScheme>> = Vfs::empty();
    vfs.add_scheme("mem", EitherScheme::Left(MemoryScheme::new()))
        .unwrap();
    vfs.add_scheme("data", EitherScheme::Right(DataLoaderScheme::new()))
        .unwrap();
    let options = NodeGetOptions::new().create(true).read(true);
    let mut stored = vfs.get_node_at("mem:/a", &options).unwrap();
    let mut carried = vfs
        .get_node_at("data:carried", &NodeGetOptions::new().read(true))
        .unwrap();
    assert!(stored.is_writer());
    assert!(!carried.is_writer());
    assert!(carried.is_reader() && carried.is_seeker());
    assert!(matches!(stored.get_node(), EitherNode::Left(_)));
    assert!(matches!(carried.get_node(), EitherNode::Right(_)));
    assert!(vfs.owns(&stored) && vfs.owns(&carried));
    assert_eq!(vfs.write(&mut stored, b"abc").unwrap(), 3);
    assert!(vfs.write(&mut carried, b"abc").is_err());
    assert_eq!(vfs.seek(&mut stored, SeekFrom::Start(1)).unwrap(), 1);
    let mut buf = [0u8; 8];
    assert_eq!(vfs.read(&mut stored, &mut buf).unwrap(), 2);
    assert_eq!(&buf[..2], b"bc");
    assert_eq!(vfs.read(&mut carried, &mut buf).unwrap(), 7);
    assert_eq!(&buf[..7], b"carried");
    assert_eq!(vfs.metadata_at("mem:/a").unwrap().len, Some((3, Some(3))));
    assert_eq!(vfs.metadata_at("data:xy").unwrap().len, Some((2, Some(2))));
    assert_eq!(vfs.read_dir_at("mem:/").unwrap().len(), 1);
    assert!(vfs.read_dir_at("data:xy").is_err());
    vfs.remove_node_at("mem:/a", false).unwrap();
    vfs.remove_node_at("data:xy", false).unwrap();
    // a node of one kind is no node of the other
    let left: EitherScheme<MemoryScheme, DataLoaderScheme> = EitherScheme::Left(MemoryScheme::new());
    let mut right: EitherScheme<MemoryScheme, DataLoaderScheme> =
        EitherScheme::Right(DataLoaderScheme::new());
    let foreign = right
        .get_node(&o("data:x"), &NodeGetOptions::new().read(true))
        .unwrap();
    assert!(!left.owns(&foreign));
    assert!(right.owns(&foreign));
}

#[test]
fn an_overlay_tells_its_own_nodes() {
    let mut overlay = OverlayScheme::builder_read_write(store_with("mem:/x", b"content")).build();
    let node = overlay
        .get_node(&o("mem:/x"), &NodeGetOptions::new().read(true))
        .unwrap();
    assert!(overlay.owns(&node));
    assert!(node.is_reader() && !node.is_writer() && node.is_seeker());
    let other = MemoryScheme::new();
    assert!(!other.owns(node.get_node()));
}
