use vfs_nodes::{
    DataLoaderScheme, MemoryScheme, Mount, NodeGetOptions, SymLinkScheme, Vfs, VfsError,
};

#[test]
fn schema_access() {
    let mut vfs: Vfs<DataLoaderScheme> = Vfs::empty_with_capacity(10);
    assert!(vfs.get_scheme("data").is_err());
    vfs.add_scheme("data", DataLoaderScheme::default()).unwrap();
    vfs.get_scheme("data").unwrap();
    vfs.get_scheme("data").unwrap();
    vfs.get_scheme_mut("data").unwrap();
    let _: &DataLoaderScheme = vfs.get_scheme_as("data").unwrap();
    let _: &mut DataLoaderScheme = vfs.get_scheme_mut_as("data").unwrap();
}

#[test]
fn lib_node_access() {
    let mut vfs: Vfs<DataLoaderScheme> = Vfs::empty_with_capacity(10);
    vfs.add_default_schemes().unwrap();
    vfs.get_node_at("data:blah", &NodeGetOptions::new().read(true))
        .unwrap();
}

#[test]
fn node_does_not_exist() {
    let mut vfs = Vfs::default();
    assert!(vfs.get_scheme("nadda").is_err());
    assert!(vfs.get_node_at("nadda:/nadda", &NodeGetOptions::new()).is_err());
    assert!(vfs.remove_node_at("nadda:/nadda", true).is_err());
}

#[test]
fn scheme_node_access() {
    let mut vfs: Vfs<DataLoaderScheme> = Vfs::empty_with_capacity(10);
    vfs.add_default_schemes().unwrap();
}

#[test]
fn a_name_is_registered_once() {
    let mut vfs: Vfs<MemoryScheme> = Vfs::empty();
    vfs.add_scheme("mem", MemoryScheme::new()).unwrap();
    assert!(matches!(
        vfs.add_scheme("mem", MemoryScheme::new()),
        Err(VfsError::SchemeAlreadyExists(name)) if name == "mem"
    ));
    assert!(matches!(
        vfs.add_links("mem", SymLinkScheme::new()),
        Err(VfsError::SchemeAlreadyExists(name)) if name == "mem"
    ));
    assert!(matches!(
        vfs.add_boxed_scheme("mem", Box::new(MemoryScheme::new())),
        Err(VfsError::SchemeAlreadyExists(name)) if name == "mem"
    ));
    vfs.add_boxed_scheme("other", Box::new(MemoryScheme::new()))
        .unwrap();
    assert!(matches!(vfs.get_scheme("other"), Ok(Mount::Scheme(_))));
}

#[test]
fn lookups_name_what_is_missing_or_of_another_type() {
    let mut vfs: Vfs<MemoryScheme> = Vfs::empty();
    vfs.add_scheme("mem", MemoryScheme::new()).unwrap();
    vfs.add_links("sl", SymLinkScheme::new()).unwrap();
    assert!(matches!(
        vfs.get_scheme("nope"),
        Err(VfsError::SchemeNotFound(name)) if name == "nope"
    ));
    assert!(matches!(
        vfs.get_links("mem"),
        Err(VfsError::SchemeWrongType(name, _)) if name == "mem"
    ));
    assert!(matches!(
        vfs.get_scheme_as("sl"),
        Err(VfsError::SchemeWrongType(name, _)) if name == "sl"
    ));
    assert!(vfs.get_links("sl").is_ok());
    assert!(matches!(
        vfs.metadata_at("nope:/x"),
        Err(VfsError::SchemeNotFound(name)) if name == "nope"
    ));
    assert!(matches!(
        vfs.read_dir_at("nope:/x"),
        Err(VfsError::SchemeNotFound(name)) if name == "nope"
    ));
}

#[test]
fn text_that_is_no_address_fails_to_parse() {
    let mut vfs: Vfs<MemoryScheme> = Vfs::empty();
    assert!(matches!(
        vfs.get_node_at("no address", &NodeGetOptions::new()),
        Err(VfsError::UrlParseFailed(_))
    ));
    assert!(matches!(
        vfs.remove_node_at("no address", false),
        Err(VfsError::UrlParseFailed(_))
    ));
    assert!(matches!(
        vfs.metadata_at("no address"),
        Err(VfsError::UrlParseFailed(_))
    ));
    assert!(matches!(
        vfs.read_dir_at("no address"),
        Err(VfsError::UrlParseFailed(_))
    ));
}
