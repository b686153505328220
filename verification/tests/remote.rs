use slayerfs::meta::config::{Config, MetadataBackend};
use slayerfs::meta::remote::{
    convert_attr_from_proto, convert_attr_to_proto, convert_entry_from_proto,
    convert_entry_to_proto, convert_file_type_from_proto, convert_file_type_to_proto, AttrPair,
    CreateRequest, DirEntryPlus, MetaServer, RemoteError, RemoteMetaStore, SetAttrRequest,
    StatusCode,
};
use slayerfs::meta::store::{DirEntry, FileAttr, FileType, MetaError};
use slayerfs::meta::store_v2::{getattr_batch, readdirplus};
use slayerfs::meta::types::{CreateParams, Inode, SetAttrMask};

fn attr(ino: i64, kind: FileType) -> FileAttr {
    FileAttr {
        ino,
        size: 1,
        blocks: 2,
        kind,
        mode: 3,
        uid: 4,
        gid: 5,
        atime: 6,
        mtime: 7,
        ctime: 8,
        nlink: 9,
        blksize: 10,
        rdev: 11,
        version: 12,
    }
}

fn entry(name: &str, ino: i64) -> DirEntry {
    DirEntry { name: name.to_string(), ino, kind: FileType::File }
}

fn missing() -> MetaError {
    MetaError::NotFound(5)
}

#[test]
fn messages_carry_over() {
    for kind in [FileType::File, FileType::Dir] {
        let a = attr(3, kind);
        assert_eq!(convert_attr_from_proto(&convert_attr_to_proto(&a)), a);
        assert_eq!(convert_file_type_from_proto(convert_file_type_to_proto(kind)), kind);
    }
    assert_eq!(convert_file_type_to_proto(FileType::File), 1);
    assert_eq!(convert_file_type_to_proto(FileType::Dir), 2);
    assert_eq!(convert_file_type_from_proto(0), FileType::File);
    let e = convert_entry_from_proto(&convert_entry_to_proto(&entry("a", 3)));
    assert_eq!((e.name.as_str(), e.ino, e.kind), ("a", 3, FileType::File));
    let sent = MetaServer::get_attr(3, Ok(attr(3, FileType::Dir))).unwrap();
    assert_eq!(RemoteMetaStore::getattr(Inode(3), Ok(Some(sent))).unwrap(), attr(3, FileType::Dir));
    let pairs = vec![(Inode(3), attr(3, FileType::File)), (Inode(4), attr(4, FileType::Dir))];
    let sent = MetaServer::get_attr_batch(Ok(pairs.clone())).unwrap();
    assert_eq!(RemoteMetaStore::getattr_batch(Ok(sent)).unwrap(), pairs);
    let sent = MetaServer::readdir(Ok(vec![entry("a", 3)])).unwrap();
    assert_eq!(RemoteMetaStore::readdir(Ok(sent)).unwrap()[0].name, "a");
    let plus = vec![(entry("a", 3), attr(3, FileType::File))];
    let sent = MetaServer::readdir_plus(Ok(plus)).unwrap();
    let got = RemoteMetaStore::readdirplus(Ok(sent)).unwrap();
    assert_eq!((got[0].0.ino, got[0].1), (3, attr(3, FileType::File)));
    let (ino, sent) = MetaServer::create(Ok((Inode(9), attr(9, FileType::File)))).unwrap();
    let made = RemoteMetaStore::create(Ok((ino, Some(sent)))).unwrap();
    assert_eq!(made, (Inode(9), attr(9, FileType::File)));
}

#[test]
fn requests_carry_over() {
    let params = CreateParams::dir(Inode(2), "d".to_string(), 3, 4);
    let request: CreateRequest = RemoteMetaStore::create_request(params.clone());
    assert_eq!((request.parent, request.rdev, request.kind), (2, 0, 2));
    let back = MetaServer::create_params(request);
    assert_eq!((back.parent, back.kind, back.mode), (params.parent, params.kind, params.mode));
    let mask = SetAttrMask::size(77);
    let request: SetAttrRequest = RemoteMetaStore::set_attr_request(Inode(8), &mask);
    assert_eq!(request.ino, 8);
    assert_eq!(MetaServer::set_attr_mask(&request).size, mask.size);
}

#[test]
fn refusals_name_what_failed() {
    let s = MetaServer::get_attr(5, Err(missing())).unwrap_err();
    assert_eq!(s.code, StatusCode::NotFound);
    assert_eq!(s.message, format!("Inode 5 not found: {}", missing().message()));
    let s = MetaServer::lookup(Err(missing())).unwrap_err();
    assert_eq!((s.code, s.message.starts_with("Lookup failed: ")), (StatusCode::NotFound, true));
    let internal = [
        (MetaServer::initialize(Err(missing())).unwrap_err(), "Initialize failed: "),
        (MetaServer::get_attr_batch(Err(missing())).unwrap_err(), "Batch getattr failed: "),
        (MetaServer::readdir(Err(missing())).unwrap_err(), "Readdir failed: "),
        (MetaServer::readdir_plus(Err(missing())).unwrap_err(), "ReaddirPlus failed: "),
        (MetaServer::create(Err(missing())).unwrap_err(), "Create failed: "),
        (MetaServer::set_attr(Err(missing())).unwrap_err(), "SetAttr failed: "),
        (MetaServer::rename(Err(missing())).unwrap_err(), "Rename failed: "),
        (MetaServer::unlink(Err(missing())).unwrap_err(), "Unlink failed: "),
        (MetaServer::rmdir(Err(missing())).unwrap_err(), "Rmdir failed: "),
    ];
    for (status, label) in internal {
        assert_eq!(status.code, StatusCode::Internal);
        assert_eq!(status.message, format!("{label}{}", missing().message()));
    }
    assert_eq!(MetaServer::rename(Ok(())).unwrap(), true);
}

fn rpc<T>(r: Result<T, RemoteError>) -> String {
    match r {
        Err(RemoteError::RpcError(text)) => text,
        _ => panic!("no failed call"),
    }
}

#[test]
fn failed_calls_and_missing_parts() {
    let e = || "down".to_string();
    assert_eq!(rpc(RemoteMetaStore::getattr(Inode(1), Err(e()))), "GetAttr failed: down");
    assert_eq!(rpc(RemoteMetaStore::getattr_batch(Err(e()))), "GetAttrBatch failed: down");
    assert_eq!(rpc(RemoteMetaStore::lookup(Err(e()))), "Lookup failed: down");
    assert_eq!(rpc(RemoteMetaStore::readdir(Err(e()))), "Readdir failed: down");
    assert_eq!(rpc(RemoteMetaStore::readdirplus(Err(e()))), "ReaddirPlus failed: down");
    assert_eq!(rpc(RemoteMetaStore::create(Err(e()))), "Create failed: down");
    assert_eq!(rpc(RemoteMetaStore::setattr(Err(e()))), "SetAttr failed: down");
    assert_eq!(rpc(RemoteMetaStore::initialize(Err(e()))), "Initialize failed: down");
    assert_eq!(rpc(RemoteMetaStore::rename(Err(e()))), "Rename failed: down");
    assert_eq!(rpc(RemoteMetaStore::unlink(Err(e()))), "Unlink failed: down");
    assert_eq!(rpc(RemoteMetaStore::rmdir(Err(e()))), "Rmdir failed: down");
    assert!(matches!(
        RemoteMetaStore::getattr(Inode(6), Ok(None)),
        Err(RemoteError::Meta(MetaError::NotFound(6)))
    ));
    assert!(matches!(
        RemoteMetaStore::create(Ok((6, None))),
        Err(RemoteError::Meta(MetaError::Internal(t))) if t == "Create returned no attributes"
    ));
    assert!(matches!(
        RemoteMetaStore::setattr(Ok(None)),
        Err(RemoteError::Meta(MetaError::Internal(t))) if t == "SetAttr returned no attributes"
    ));
    let pairs = vec![AttrPair { ino: 1, attr: None }];
    assert!(RemoteMetaStore::getattr_batch(Ok(pairs)).unwrap().is_empty());
    let plus = vec![DirEntryPlus { entry: None, attr: None }];
    assert!(RemoteMetaStore::readdirplus(Ok(plus)).unwrap().is_empty());
}

#[test]
fn a_remote_store_needs_its_backend() {
    let mut config = Config::default();
    assert!(matches!(
        RemoteMetaStore::from_config(&config),
        Err(RemoteError::InvalidConfig(t)) if t == "Expected gRPC backend configuration"
    ));
    config.metadata.backend = MetadataBackend::Grpc {
        endpoint: "http://h:1".to_string(),
        timeout_secs: 30,
        tls: false,
    };
    let connect = RemoteMetaStore::from_config(&config).unwrap();
    assert_eq!((connect.endpoint.as_str(), connect.timeout), ("http://h:1", Some(30)));
    let store = RemoteMetaStore::connected(connect.clone(), Ok(())).unwrap();
    assert_eq!(store.endpoint, "http://h:1");
    assert!(matches!(
        RemoteMetaStore::connected(connect, Err("refused".to_string())),
        Err(RemoteError::ConnectionError(t)) if t == "Failed to connect: refused"
    ));
    config.metadata.backend = MetadataBackend::Grpc {
        endpoint: "http://h:1".to_string(),
        timeout_secs: 0,
        tls: false,
    };
    assert_eq!(RemoteMetaStore::from_config(&config).unwrap().timeout, None);
    assert_eq!(RemoteMetaStore::root_ino(), Inode(1));
    assert_eq!(MetaServer::get_root_ino(Inode(1)), 1);
}

#[test]
fn a_store_joins_entries_and_attributes() {
    let a = attr(3, FileType::File);
    let replies = vec![Ok(a), Err(missing())];
    let batch = getattr_batch(&vec![Inode(3), Inode(4)], &replies);
    assert_eq!(batch, vec![(Inode(3), a)]);
    let joined = readdirplus(&vec![entry("x", 4), entry("y", 3)], &batch);
    assert_eq!(joined.len(), 1);
    assert_eq!((joined[0].0.name.as_str(), joined[0].1), ("y", a));
}

#[test]
fn an_endpoint_has_to_be_a_uri() {
    for (endpoint, why) in [
        ("", "empty string"),
        ("http://a b", "invalid uri character"),
        ("h:1/x", "invalid format"),
    ] {
        let e = RemoteMetaStore::new(endpoint, None).unwrap_err();
        assert!(
            matches!(&e, RemoteError::InvalidConfig(t) if *t == format!("Invalid endpoint: {why}")),
            "{endpoint}: {e:?}"
        );
    }
    assert!(RemoteMetaStore::new("http://127.0.0.1:50051", Some(3)).is_ok());
    let why = Some("no".to_string());
    assert!(matches!(
        RemoteMetaStore::begin("http://h:1", None, why),
        Err(RemoteError::InvalidConfig(t)) if t == "Invalid endpoint: no"
    ));
}
