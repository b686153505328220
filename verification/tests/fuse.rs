use slayerfs::fuse::adapter::{
    name_from_kernel, vfs_kind_to_fuse, FuseAdapter, FuseAttr, FuseCall, FuseKind,
};
use slayerfs::fuse::listing::{FuseAdapterV2, FuseEntry};
use slayerfs::meta::store::{DirEntry, FileAttr, FileType, MetaError};
use slayerfs::meta::types::Inode;
use slayerfs::vfs::op::{FsOperation, FsReply, FsRequest, FsStep};

fn attr(ino: i64, kind: FileType, size: u64) -> FileAttr {
    FileAttr {
        ino,
        size,
        blocks: 0,
        kind,
        mode: 0,
        uid: 0,
        gid: 0,
        atime: 0,
        mtime: 0,
        ctime: 0,
        nlink: 1,
        blksize: 4096,
        rdev: 0,
        version: 0,
    }
}

fn entries() -> Vec<DirEntry> {
    vec![
        DirEntry { name: "a".to_string(), ino: 10, kind: FileType::File },
        DirEntry { name: "b".to_string(), ino: 11, kind: FileType::Dir },
    ]
}

fn run(call: FuseCall, mut answer: impl FnMut(FsRequest) -> FsReply) -> Result<Option<FuseAttr>, i32> {
    let mut step = FsStep::Next(FuseAdapter::new(5, 6).answer(call));
    loop {
        match step {
            FsStep::Next(op) => {
                let reply = answer(op.request());
                step = op.resume(reply);
            }
            FsStep::Done(end) => return end.unwrap(),
        }
    }
}

#[test]
fn the_kernel_is_told_attributes() {
    let adapter = FuseAdapter::new(5, 6);
    let told = adapter.to_fuse_attr(&attr(3, FileType::File, 1025));
    assert_eq!((told.ino, told.size, told.blocks), (3, 1025, 3));
    assert_eq!((told.kind, told.perm), (FuseKind::RegularFile, 0o644));
    assert_eq!((told.uid, told.gid, told.blksize), (5, 6, 4096));
    let told = adapter.to_fuse_attr(&attr(4, FileType::Dir, 0));
    assert_eq!((told.kind, told.perm, told.blocks), (FuseKind::Directory, 0o755, 0));
    assert_eq!(vfs_kind_to_fuse(FileType::Dir), FuseKind::Directory);
    assert_eq!((adapter.statfs().bsize, adapter.statfs().ffree), (4096, u64::MAX));
    assert_eq!(name_from_kernel(Some("a".to_string())), Ok("a".to_string()));
    assert_eq!(name_from_kernel(None), Err(libc::EINVAL));
}

#[test]
fn calls_are_answered_with_attributes_or_codes() {
    let found = run(FuseCall::Lookup { parent: 1, name: "a".to_string() }, |r| match r {
        FsRequest::Lookup { parent, name } => {
            assert_eq!((parent, name.as_str()), (Inode(1), "a"));
            FsReply::Child(Ok(Inode(9)))
        }
        FsRequest::Getattr(ino) => FsReply::Attr(Ok(attr(ino.0, FileType::File, 2))),
        other => panic!("unexpected: {other:?}"),
    });
    assert_eq!(found.unwrap().unwrap().ino, 9);
    let missing = run(FuseCall::Lookup { parent: 1, name: "a".to_string() }, |_| {
        FsReply::Child(Err(MetaError::NotFound(1)))
    });
    assert_eq!(missing, Err(libc::ENOENT));
    let refused = run(FuseCall::Unlink { parent: 1, name: "a".to_string() }, |_| {
        FsReply::Done(Err(MetaError::NotFound(1)))
    });
    assert_eq!(refused, Err(libc::EIO));
    let removed = run(FuseCall::Rmdir { parent: 1, name: "a".to_string() }, |_| {
        FsReply::Done(Ok(()))
    });
    assert_eq!(removed, Ok(None));
}

fn names(list: &[FuseEntry]) -> Vec<(u64, String, i64)> {
    list.iter().map(|e| (e.inode, e.name.clone(), e.offset)).collect()
}

#[test]
fn a_listing_is_taken_up_where_it_was_left() {
    let v1 = FuseAdapter::new(0, 0);
    let v2 = FuseAdapterV2::new(0, 0);
    let all = v1.readdir(1, 0, &Ok(entries())).unwrap();
    assert_eq!(
        names(&all),
        vec![
            (1, ".".to_string(), 1),
            (1, "..".to_string(), 2),
            (10, "a".to_string(), 3),
            (11, "b".to_string(), 4)
        ]
    );
    for offset in 0..6 {
        let one = names(&v1.readdir(1, offset, &Ok(entries())).unwrap());
        let two = names(&v2.readdir(1, offset, &Ok(entries())).unwrap());
        assert_eq!(one, two);
        assert_eq!(one, names(&all[(offset as usize).min(4)..]));
    }
    assert_eq!(
        v1.readdir(1, 0, &Err(MetaError::NotFound(1))).err(),
        Some(libc::EIO)
    );
    assert_eq!(
        v2.readdir(1, 0, &Err(MetaError::NotFound(1))).err(),
        Some(libc::ENOTDIR)
    );
}

#[test]
fn a_listing_with_attributes_tells_the_same_entries() {
    let mut step = FsStep::Next(FuseAdapter::new(0, 0).readdirplus(1, 0));
    let told = loop {
        match step {
            FsStep::Next(op) => {
                let reply = match op.request() {
                    FsRequest::Readdir(_) => FsReply::Entries(Ok(entries())),
                    FsRequest::Getattr(ino) => {
                        FsReply::Attr(Ok(attr(ino.0, FileType::File, ino.0 as u64)))
                    }
                    other => panic!("unexpected: {other:?}"),
                };
                step = op.resume(reply);
            }
            FsStep::Done(end) => break end.unwrap().unwrap(),
        }
    };
    let list: Vec<(u64, &str, i64)> =
        told.iter().map(|e| (e.entry.inode, e.entry.name.as_str(), e.entry.offset)).collect();
    assert_eq!(list, vec![(1, ".", 1), (1, "..", 2), (10, "a", 3), (11, "b", 4)]);
    assert_eq!(told[2].attr.size, 10);
}

#[test]
fn unreadable_entries_shift_no_offsets() {
    for (offset, offsets) in [(0, vec![1, 2, 4]), (1, vec![2, 4]), (2, vec![4]), (3, vec![4])] {
        let mut step = FsStep::Next(FuseAdapter::new(0, 0).readdirplus(1, offset));
        let told = loop {
            match step {
                FsStep::Next(op) => {
                    let reply = match op.request() {
                        FsRequest::Readdir(_) => FsReply::Entries(Ok(entries())),
                        FsRequest::Getattr(ino) if ino.0 == 10 => {
                            FsReply::Attr(Err(MetaError::NotFound(10)))
                        }
                        FsRequest::Getattr(ino) => {
                            FsReply::Attr(Ok(attr(ino.0, FileType::File, 0)))
                        }
                        other => panic!("unexpected: {other:?}"),
                    };
                    step = op.resume(reply);
                }
                FsStep::Done(end) => break end.unwrap().unwrap(),
            }
        };
        let list: Vec<i64> = told.iter().map(|e| e.entry.offset).collect();
        assert_eq!(list, offsets);
    }
}

#[test]
fn the_second_adapter_makes_nodes_with_the_standard_mode() {
    for (call, mode) in [
        (FuseCall::Mkdir { parent: 1, name: "d".to_string(), mode: 0o700 }, 0o755),
        (FuseCall::Create { parent: 1, name: "f".to_string(), mode: 0o600 }, 0o644),
    ] {
        match FuseAdapterV2::new(5, 6).answer(call.clone()).request() {
            FsRequest::Create(p) => assert_eq!((p.mode, p.uid, p.gid), (mode, 5, 6)),
            other => panic!("unexpected: {other:?}"),
        }
        match FuseAdapter::new(5, 6).answer(call).request() {
            FsRequest::Create(p) => assert!(p.mode == 0o700 || p.mode == 0o600),
            other => panic!("unexpected: {other:?}"),
        }
    }
    let read = FuseAdapterV2::new(5, 6).answer(FuseCall::Setattr { ino: 3, size: None });
    assert!(matches!(read.request(), FsRequest::Getattr(Inode(3))));
}
