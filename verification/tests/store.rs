use slayerfs::meta::client::{lookup_batch_reply, MetaClient, Resolution};
use slayerfs::meta::client_calls::ClientStep;
use slayerfs::meta::database::connect::DatabaseMetaStore;
use slayerfs::meta::database::db::{DbOperation, DbReply, DbRequest};
use slayerfs::meta::entities::{AccessMetaModel, ContentMetaModel, FileMetaModel};
use slayerfs::meta::etcd::watch::CacheInvalidationEvent;
use slayerfs::meta::store::{DirEntry, FileAttr, FileType, MetaError, Step};
use slayerfs::meta::types::{CreateParams, Inode, SetAttrMask};
use slayerfs::vfs::api::{Client, VFS};
use slayerfs::vfs::chunks::{chunk_accesses, split_range, ChunkAccess, ChunkSpan};
use slayerfs::vfs::error::VfsError;
use slayerfs::vfs::fs::readdir_ino;
use slayerfs::vfs::op::{FsOperation, FsReply, FsRequest, FsStep};
use slayerfs::vfs::walk::{MkdirP, Resolve};
use std::collections::HashMap;

/// Tables in memory, with one transaction at a time.
#[derive(Clone, Default)]
struct Tables {
    files: Vec<FileMetaModel>,
    dirs: Vec<AccessMetaModel>,
    entries: Vec<ContentMetaModel>,
}

struct Db {
    tables: Tables,
    before: Option<Tables>,
    next: i64,
    /// The number of the request that fails, counted down.
    fail_at: Option<usize>,
}

impl Db {
    fn new() -> Db {
        let mut db = Db { tables: Tables::default(), before: None, next: 2, fail_at: None };
        db.run(Step::Next(DatabaseMetaStore::init_root_directory(7))).unwrap();
        db
    }

    fn answer(&mut self, request: DbRequest) -> DbReply {
        if let Some(n) = self.fail_at {
            if n == 0 && !matches!(request, DbRequest::NewId) {
                self.fail_at = None;
                if let Some(old) = self.before.take() {
                    self.tables = old;
                }
                return DbReply::Failed("connection lost".to_string());
            }
            self.fail_at = Some(n.saturating_sub(1));
        }
        let t = &mut self.tables;
        match request {
            DbRequest::Begin => {
                self.before = Some(t.clone());
                DbReply::Done
            }
            DbRequest::Commit => {
                self.before = None;
                DbReply::Done
            }
            DbRequest::FindFile(ino) => {
                DbReply::File(t.files.iter().find(|f| f.inode == ino).cloned())
            }
            DbRequest::FindDir(ino) => {
                DbReply::Dir(t.dirs.iter().find(|d| d.inode == ino).cloned())
            }
            DbRequest::FindFiles(inos) => DbReply::Files(
                t.files.iter().filter(|f| inos.contains(&f.inode)).cloned().collect(),
            ),
            DbRequest::FindDirs(inos) => DbReply::Dirs(
                t.dirs.iter().filter(|d| inos.contains(&d.inode)).cloned().collect(),
            ),
            DbRequest::FindEntry { parent, name } => DbReply::Entry(
                t.entries
                    .iter()
                    .find(|e| e.parent_inode == parent && e.entry_name == name)
                    .cloned(),
            ),
            DbRequest::FindEntries(parent) => DbReply::Entries(
                t.entries.iter().filter(|e| e.parent_inode == parent).cloned().collect(),
            ),
            DbRequest::CountEntries(parent) => DbReply::Count(
                t.entries.iter().filter(|e| e.parent_inode == parent).count() as u64,
            ),
            DbRequest::InsertFile(f) => {
                t.files.push(f);
                DbReply::Done
            }
            DbRequest::InsertDir(d) => {
                t.dirs.push(d);
                DbReply::Done
            }
            DbRequest::InsertEntry(e) => {
                t.entries.push(e);
                DbReply::Done
            }
            DbRequest::UpdateFile(f) => {
                t.files.retain(|g| g.inode != f.inode);
                t.files.push(f);
                DbReply::Done
            }
            DbRequest::UpdateDir(d) => {
                t.dirs.retain(|g| g.inode != d.inode);
                t.dirs.push(d);
                DbReply::Done
            }
            DbRequest::DeleteFile(ino) => {
                t.files.retain(|f| f.inode != ino);
                DbReply::Done
            }
            DbRequest::DeleteDir(ino) => {
                t.dirs.retain(|d| d.inode != ino);
                DbReply::Done
            }
            DbRequest::DeleteEntry(ino) => {
                t.entries.retain(|e| e.inode != ino);
                DbReply::Done
            }
            DbRequest::NewId => {
                self.next += 1;
                DbReply::Id(self.next - 1)
            }
        }
    }

    fn run<O: DbOperation>(&mut self, start: Step<O, O::Output>) -> Result<O::Output, MetaError> {
        let mut step = start;
        loop {
            match step {
                Step::Next(op) => {
                    let reply = self.answer(op.request());
                    step = op.resume(reply);
                }
                Step::Done(end) => {
                    // An operation that ends with a failure leaves its transaction uncommitted.
                    if let Some(old) = self.before.take() {
                        self.tables = old;
                    }
                    return end;
                }
            }
        }
    }

    fn create(&mut self, params: CreateParams) -> Result<(Inode, FileAttr), MetaError> {
        self.run(Step::Next(DatabaseMetaStore::create(params, 7)))
    }

    fn lookup(&mut self, parent: Inode, name: &str) -> Result<Inode, MetaError> {
        self.run(Step::Next(DatabaseMetaStore::lookup(parent, name.to_string())))
    }

    fn getattr(&mut self, ino: Inode) -> Result<FileAttr, MetaError> {
        self.run(Step::Next(DatabaseMetaStore::getattr(ino)))
    }

    fn readdir(&mut self, ino: Inode) -> Result<Vec<DirEntry>, MetaError> {
        self.run(Step::Next(DatabaseMetaStore::readdir(ino)))
    }

    fn unlink(&mut self, parent: Inode, name: &str) -> Result<(), MetaError> {
        self.run(Step::Next(DatabaseMetaStore::unlink(parent, name.to_string())))
    }

    fn rmdir(&mut self, parent: Inode, name: &str) -> Result<(), MetaError> {
        self.run(Step::Next(DatabaseMetaStore::rmdir(parent, name.to_string())))
    }

    fn rename(&mut self, a: Inode, old: &str, b: Inode, new: &str) -> Result<(), MetaError> {
        self.run(Step::Next(DatabaseMetaStore::rename(a, old.to_string(), b, new.to_string())))
    }

    fn setattr(&mut self, ino: Inode, mask: SetAttrMask) -> Result<FileAttr, MetaError> {
        self.run(Step::Next(DatabaseMetaStore::setattr(ino, mask)))
    }
}

#[test]
fn test_database_basic_operations() {
    let mut store = Db::new();
    assert_eq!(DatabaseMetaStore::root_ino(), Inode::root());
    let params = CreateParams::file(Inode::root(), "test.txt".into(), 1000, 1000);
    let (ino, attr) = store.create(params).unwrap();
    assert_eq!(attr.kind, FileType::File);
    assert!(ino != Inode::root());
    let found = store.lookup(Inode::root(), "test.txt").unwrap();
    assert_eq!(found, ino);
    let attr2 = store.getattr(ino).unwrap();
    assert_eq!(attr2.ino, ino.as_i64());
    let entries = store.readdir(Inode::root()).unwrap();
    assert_eq!(entries.len(), 1);
    assert_eq!(entries[0].name, "test.txt");
}

#[test]
fn test_database_directory_operations() {
    let mut store = Db::new();
    let params = CreateParams::dir(Inode::root(), "dir1".into(), 1000, 1000);
    let (dir_ino, attr) = store.create(params).unwrap();
    assert_eq!(attr.kind, FileType::Dir);
    let params = CreateParams::file(dir_ino, "file.txt".into(), 1000, 1000);
    let (file_ino, _) = store.create(params).unwrap();
    let found = store.lookup(dir_ino, "file.txt").unwrap();
    assert_eq!(found, file_ino);
    store.unlink(dir_ino, "file.txt").unwrap();
    store.rmdir(Inode::root(), "dir1").unwrap();
}

#[test]
fn test_database_error_conditions() {
    let mut store = Db::new();
    assert!(store.lookup(Inode::root(), "nonexistent").is_err());
    let params = CreateParams::file(Inode::root(), "dup.txt".into(), 1000, 1000);
    store.create(params.clone()).unwrap();
    let result = store.create(params);
    assert!(matches!(result, Err(MetaError::AlreadyExists { .. })));
}

#[test]
fn test_database_rename() {
    let mut store = Db::new();
    let params = CreateParams::file(Inode::root(), "old.txt".into(), 1000, 1000);
    let (ino, _) = store.create(params).unwrap();
    store.rename(Inode::root(), "old.txt", Inode::root(), "new.txt").unwrap();
    assert!(store.lookup(Inode::root(), "old.txt").is_err());
    let found = store.lookup(Inode::root(), "new.txt").unwrap();
    assert_eq!(found, ino);
}

#[test]
fn test_database_batch_operations() {
    let mut store = Db::new();
    let mut inos = Vec::new();
    for i in 0..5 {
        let params = CreateParams::file(Inode::root(), format!("file{}.txt", i), 1000, 1000);
        let (ino, _) = store.create(params).unwrap();
        inos.push(ino);
    }
    let results = store.run(DatabaseMetaStore::getattr_batch(&inos)).unwrap();
    assert_eq!(results.len(), 5);
    let results = store.run(Step::Next(DatabaseMetaStore::readdirplus(Inode::root()))).unwrap();
    assert_eq!(results.len(), 5);
    for (entry, attr) in results {
        assert_eq!(entry.ino, attr.ino);
        assert!(entry.name.starts_with("file"));
    }
    assert_eq!(store.run(DatabaseMetaStore::getattr_batch(&vec![])).unwrap(), vec![]);
}

#[test]
fn a_full_directory_stays() {
    let mut store = Db::new();
    let (dir, _) = store.create(CreateParams::dir(Inode::root(), "d".into(), 0, 0)).unwrap();
    store.create(CreateParams::file(dir, "f".into(), 0, 0)).unwrap();
    assert!(matches!(
        store.rmdir(Inode::root(), "d"),
        Err(MetaError::DirectoryNotEmpty(n)) if n == dir.0
    ));
    assert_eq!(store.lookup(Inode::root(), "d").unwrap(), dir);
}

#[test]
fn removal_undoes_create() {
    let mut store = Db::new();
    store.create(CreateParams::file(Inode::root(), "a".into(), 1, 2)).unwrap();
    let (ino, _) = store.create(CreateParams::file(Inode::root(), "b".into(), 1, 2)).unwrap();
    store.unlink(Inode::root(), "b").unwrap();
    assert!(store.lookup(Inode::root(), "b").is_err());
    assert!(matches!(store.getattr(ino), Err(MetaError::NotFound(n)) if n == ino.0));
    assert_eq!(store.readdir(Inode::root()).unwrap().len(), 1);
}

#[test]
fn attributes_are_set_as_the_mask_says() {
    let mut store = Db::new();
    let (ino, old) = store.create(CreateParams::file(Inode::root(), "f".into(), 1, 2)).unwrap();
    assert_eq!((old.mode, old.uid, old.gid, old.size), (0o644, 1, 2, 0));
    let new = store.setattr(ino, SetAttrMask::size(4096)).unwrap();
    assert_eq!((new.size, new.mode, new.uid), (4096, old.mode, 1));
    let new = store.setattr(ino, SetAttrMask::mode(0o600)).unwrap();
    assert_eq!((new.size, new.mode & 0o777), (4096, 0o600));
    assert!(store.setattr(Inode(99), SetAttrMask::size(1)).is_err());
}

#[test]
fn a_failing_database_leaves_everything_or_nothing() {
    for fail_at in 0..8 {
        let mut store = Db::new();
        store.fail_at = Some(fail_at);
        let made = store.create(CreateParams::file(Inode::root(), "f".into(), 1, 2));
        store.fail_at = None;
        let there = store.lookup(Inode::root(), "f").is_ok();
        // Once all is committed, only the reading back of the attributes can fail.
        assert!(there || made.is_err(), "at {fail_at}");
        assert_eq!(store.tables.files.len(), there as usize);
        assert_eq!(store.tables.entries.len(), there as usize);
        if let Err(e) = made {
            assert_eq!(e.message(), "Database error: connection lost");
        }
    }
}

const BLOCK: usize = 4096;

/// A file system over the tables, with the contents of files in memory.
struct Fs {
    db: Db,
    client: MetaClient,
    vfs: VFS,
    data: HashMap<i64, Vec<u8>>,
    asked: usize,
}

impl Fs {
    fn new() -> Fs {
        let client = MetaClient::new(DatabaseMetaStore::root_ino());
        let vfs = VFS::with_meta_client(client.root_ino(), Ok(())).unwrap();
        Fs { db: Db::new(), client, vfs, data: HashMap::new(), asked: 0 }
    }

    fn lookup(&mut self, parent: Inode, name: &str) -> Result<Inode, MetaError> {
        if let Some(known) = self.client.lookup(0, parent, name) {
            return known;
        }
        self.asked += 1;
        let reply = self.db.lookup(parent, name);
        self.client.lookup_reply(0, parent, name, reply)
    }

    fn getattr(&mut self, ino: Inode) -> Result<FileAttr, MetaError> {
        if let Some(attr) = self.client.getattr(0, ino) {
            return Ok(attr);
        }
        self.asked += 1;
        let reply = self.db.getattr(ino);
        self.client.getattr_reply(0, ino, reply)
    }

    fn create(&mut self, params: CreateParams) -> Result<(Inode, FileAttr), MetaError> {
        let reply = self.db.create(params.clone());
        self.client.create_reply(0, &params, reply)
    }

    fn resolve(&mut self, path: &str) -> Result<Inode, MetaError> {
        match self.client.resolve_path(0, path) {
            Resolution::Known(ino) => Ok(ino),
            Resolution::Walk(mut walk) => loop {
                let (parent, name) = walk.next();
                let name = name.clone();
                let found = self.lookup(parent, &name);
                match self.client.resolve_step(0, walk, found) {
                    Step::Next(next) => walk = next,
                    Step::Done(end) => return end,
                }
            },
        }
    }

    fn ask(&mut self, request: FsRequest) -> FsReply {
        self.asked += 1;
        match request {
            FsRequest::Lookup { parent, name } => FsReply::Child(self.db.lookup(parent, &name)),
            FsRequest::Getattr(ino) => FsReply::Attr(self.db.getattr(ino)),
            FsRequest::Readdir(ino) => FsReply::Entries(self.db.readdir(ino)),
            FsRequest::Create(params) => FsReply::Created(self.db.create(params)),
            FsRequest::Setattr(ino, mask) => FsReply::Attr(self.db.setattr(ino, mask)),
            FsRequest::Unlink { parent, name } => FsReply::Done(self.db.unlink(parent, &name)),
            FsRequest::Rmdir { parent, name } => FsReply::Done(self.db.rmdir(parent, &name)),
            FsRequest::Rename { old_parent, old_name, new_parent, new_name } => {
                FsReply::Done(self.db.rename(old_parent, &old_name, new_parent, &new_name))
            }
            other => panic!("no request to the store: {other:?}"),
        }
    }

    fn serve(&mut self, request: FsRequest) -> FsReply {
        let mut step = self.client.begin(0, request);
        loop {
            match step {
                ClientStep::Answer(reply) => return reply,
                ClientStep::Ask(call) => {
                    let reply = self.ask(call.request());
                    step = self.client.go_on(0, call, reply);
                }
            }
        }
    }

    fn answer(&mut self, request: FsRequest) -> FsReply {
        match request {
            FsRequest::Resolve(path) => {
                FsReply::Path(self.run(Resolve::start(self.vfs.root, &path)))
            }
            FsRequest::MakeDirs(path) => FsReply::Path(self.run(self.vfs.mkdir_p(&path))),
            FsRequest::ReadData { ino, offset, len } => {
                let bytes = self.data.entry(ino.0).or_default();
                let mut out = vec![0u8; len];
                for (i, b) in out.iter_mut().enumerate() {
                    *b = bytes.get(offset as usize + i).copied().unwrap_or(0);
                }
                FsReply::Data(out)
            }
            FsRequest::WriteData { ino, offset, data } => {
                let bytes = self.data.entry(ino.0).or_default();
                let end = offset as usize + data.len();
                if bytes.len() < end {
                    bytes.resize(end, 0);
                }
                bytes[offset as usize..end].copy_from_slice(&data);
                FsReply::Written(data.len())
            }
            other => self.serve(other),
        }
    }

    fn run<O: FsOperation>(&mut self, start: FsStep<O, O::Output>) -> Result<O::Output, VfsError> {
        let mut step = start;
        loop {
            match step {
                FsStep::Next(op) => {
                    let reply = self.answer(op.request());
                    step = op.resume(reply);
                }
                FsStep::Done(end) => return end,
            }
        }
    }

    fn mkdir_p(&mut self, path: &str) -> Result<Inode, VfsError> {
        self.run::<MkdirP>(self.vfs.mkdir_p(path))
    }

    fn create_file(&mut self, path: &str) -> Result<Inode, VfsError> {
        self.run(FsStep::Next(self.vfs.create_file(path)))
    }

    fn stat(&mut self, path: &str) -> Option<FileAttr> {
        self.run(FsStep::Next(self.vfs.stat(path))).unwrap()
    }

    fn is_there(&mut self, path: &str) -> bool {
        self.run(FsStep::Next(self.vfs.path_exists(path))).unwrap()
    }

    fn readdir(&mut self, path: &str) -> Result<Vec<DirEntry>, VfsError> {
        self.run(FsStep::Next(self.vfs.readdir(path)))
    }

    fn write(&mut self, path: &str, offset: u64, data: &[u8]) -> Result<usize, VfsError> {
        self.run(FsStep::Next(self.vfs.write(path, offset, data.to_vec())))
    }

    fn read(&mut self, path: &str, offset: u64, len: usize) -> Result<Vec<u8>, VfsError> {
        self.run(FsStep::Next(self.vfs.read(path, offset, len)))
    }

    fn truncate(&mut self, path: &str, size: u64) -> Result<(), VfsError> {
        self.run(FsStep::Next(self.vfs.truncate(path, size)))
    }

    fn rename_file(&mut self, old: &str, new: &str) -> Result<(), VfsError> {
        self.run(FsStep::Next(self.vfs.rename_file(old, new)))
    }

    fn unlink(&mut self, path: &str) -> Result<(), VfsError> {
        let op = self.vfs.unlink(path)?;
        self.run(FsStep::Next(op))
    }

    fn rmdir(&mut self, path: &str) -> Result<(), VfsError> {
        let op = self.vfs.rmdir(path)?;
        self.run(FsStep::Next(op))
    }
}

fn pattern(len: usize) -> Vec<u8> {
    (0..len).map(|i| (i % 251) as u8).collect()
}

#[test]
fn test_meta_client_basic() {
    let mut fs = Fs::new();
    let root = fs.client.root_ino();
    assert_eq!(root.0, 1);
    let params = CreateParams::dir(root, "test_dir".to_string(), 1000, 1000);
    let (dir_ino, dir_attr) = fs.create(params).unwrap();
    assert_eq!(dir_attr.kind, FileType::Dir);
    let found_ino = fs.lookup(root, "test_dir").unwrap();
    assert_eq!(found_ino, dir_ino);
    let attr = fs.getattr(dir_ino).unwrap();
    assert_eq!(attr.kind, FileType::Dir);
}

#[test]
fn test_meta_client_negative_cache() {
    let mut fs = Fs::new();
    let root = fs.client.root_ino();
    assert!(fs.lookup(root, "nonexistent").is_err());
    let asked = fs.asked;
    assert!(fs.lookup(root, "nonexistent").is_err());
    assert_eq!(fs.asked, asked);
}

#[test]
fn test_meta_client_resolve_path() {
    let mut fs = Fs::new();
    let root = fs.client.root_ino();
    let (ino_a, _) = fs.create(CreateParams::dir(root, "a".to_string(), 1000, 1000)).unwrap();
    let (ino_b, _) = fs.create(CreateParams::dir(ino_a, "b".to_string(), 1000, 1000)).unwrap();
    let (ino_c, _) = fs.create(CreateParams::dir(ino_b, "c".to_string(), 1000, 1000)).unwrap();
    assert_eq!(fs.resolve("/a/b/c").unwrap(), ino_c);
    let asked = fs.asked;
    assert_eq!(fs.resolve("/a/b/c").unwrap(), ino_c);
    assert_eq!(fs.asked, asked);
}

#[test]
fn batches_are_answered_from_the_cache_first() {
    let mut fs = Fs::new();
    let root = fs.client.root_ino();
    let (a, attr_a) = fs.create(CreateParams::file(root, "a".to_string(), 0, 0)).unwrap();
    let (hits, misses) = fs.client.getattr_batch(0, &vec![a, Inode(50)]);
    assert_eq!(hits, vec![(a, attr_a)]);
    assert_eq!(misses, vec![Inode(50)]);
    let all = fs.client.getattr_batch_reply(0, hits, Ok(vec![(Inode(50), attr_a)])).unwrap();
    assert_eq!(all.len(), 2);
    fs.lookup(root, "a").unwrap();
    let (found, rest) =
        fs.client.lookup_batch(0, root, &vec!["a".to_string(), "zz".to_string()]);
    assert_eq!(found, vec![("a".to_string(), a)]);
    assert_eq!(rest, vec!["zz".to_string()]);
    let found = lookup_batch_reply(found, "zz".to_string(), Err(MetaError::NotFound(1)));
    assert_eq!(found.len(), 1);
}

#[test]
fn test_fs_mkdir_create_write_read_readdir() {
    let mut fs = Fs::new();
    fs.mkdir_p("/a/b").expect("mkdir_p");
    fs.create_file("/a/b/hello.txt").expect("create");
    let data_len = BLOCK + BLOCK / 2;
    let data = pattern(data_len);
    fs.write("/a/b/hello.txt", (BLOCK / 2) as u64, &data).expect("write");
    let out = fs.read("/a/b/hello.txt", (BLOCK / 2) as u64, data_len).expect("read");
    assert_eq!(out, data);
    let entries = fs.readdir("/a/b").expect("readdir");
    assert!(entries.iter().any(|e| e.name == "hello.txt" && e.kind == FileType::File));
    let stat = fs.stat("/a/b/hello.txt").unwrap();
    assert_eq!(stat.kind, FileType::File);
    assert!(stat.size >= data_len as u64);
}

#[test]
fn test_fs_unlink_rmdir_rename_truncate() {
    let mut fs = Fs::new();
    fs.mkdir_p("/a/b").unwrap();
    fs.create_file("/a/b/t.txt").unwrap();
    assert!(fs.is_there("/a/b/t.txt"));
    fs.rename_file("/a/b/t.txt", "/a/b/u.txt").unwrap();
    assert!(!fs.is_there("/a/b/t.txt") && fs.is_there("/a/b/u.txt"));
    fs.truncate("/a/b/u.txt", BLOCK as u64 * 2).unwrap();
    let st = fs.stat("/a/b/u.txt").unwrap();
    assert!(st.size >= (BLOCK * 2) as u64);
    fs.unlink("/a/b/u.txt").unwrap();
    assert!(!fs.is_there("/a/b/u.txt"));
    fs.rmdir("/a/b").unwrap();
    assert!(!fs.is_there("/a/b"));
}

#[test]
fn test_sdk_local_basic() {
    let mut cli = Fs::new();
    let client = Client::new(cli.vfs);
    cli.mkdir_p("/a/b").unwrap();
    cli.create_file("/a/b/hello.txt").unwrap();
    let half = BLOCK / 2;
    let len = BLOCK + half;
    let data = pattern(len);
    cli.write("/a/b/hello.txt", half as u64, &data).unwrap();
    let out = cli.read("/a/b/hello.txt", half as u64, len).unwrap();
    assert_eq!(out, data);
    let ent = cli.readdir("/a/b").unwrap();
    assert!(ent.iter().any(|e| e.name == "hello.txt"));
    let found = cli.stat("/a/b/hello.txt");
    let st = client.stat("/a/b/hello.txt", found).unwrap();
    assert!(st.size >= len as u64);
    let missing = client.stat("/nothing", cli.stat("/nothing"));
    assert!(matches!(missing, Err(VfsError::PathNotFound(p)) if p == "/nothing"));
}

#[test]
fn test_sdk_local_ops_extras() {
    let mut cli = Fs::new();
    let client = Client::new(cli.vfs);
    cli.mkdir_p("/x/y").unwrap();
    cli.create_file("/x/y/a.txt").unwrap();
    cli.rename_file("/x/y/a.txt", "/x/y/b.txt").unwrap();
    cli.truncate("/x/y/b.txt", (BLOCK * 2) as u64).unwrap();
    let st = client.stat("/x/y/b.txt", cli.stat("/x/y/b.txt")).unwrap();
    assert!(st.size >= (BLOCK * 2) as u64);
    cli.unlink("/x/y/b.txt").unwrap();
    cli.rmdir("/x/y").unwrap();
}

#[test]
fn file_system_refusals() {
    let mut fs = Fs::new();
    fs.mkdir_p("/d").unwrap();
    fs.create_file("/d/f").unwrap();
    assert!(matches!(fs.rmdir("/"), Err(VfsError::Operation(_))));
    assert!(matches!(fs.unlink("/"), Err(VfsError::InvalidPath(_))));
    assert!(matches!(fs.rmdir("/d"), Err(VfsError::DirectoryNotEmpty(p)) if p == "/d"));
    assert!(matches!(fs.rmdir("/d/f"), Err(VfsError::NotDirectory(p)) if p == "/d/f"));
    assert!(matches!(fs.unlink("/d"), Err(VfsError::NotFile(p)) if p == "/d"));
    assert!(matches!(fs.unlink("/no"), Err(VfsError::PathNotFound(_))));
    assert!(matches!(fs.readdir("/d/f"), Err(VfsError::NotDirectory(_))));
    assert!(matches!(fs.rename_file("/d/f", "/d"), Err(VfsError::AlreadyExists(p)) if p == "/d"));
    assert!(matches!(fs.rename_file("/d", "/e"), Err(VfsError::NotFile(p)) if p == "/d"));
    assert!(matches!(fs.create_file("/d"), Err(VfsError::NotFile(p)) if p == "/d"));
    assert!(matches!(fs.mkdir_p("/d/f/g"), Err(VfsError::NotDirectory(_))));
    assert!(matches!(fs.truncate("/no", 1), Err(VfsError::PathNotFound(_))));
}

#[test]
fn making_what_is_there_changes_nothing() {
    let mut fs = Fs::new();
    let a = fs.mkdir_p("/a/b/c").unwrap();
    assert_eq!(fs.mkdir_p("a//b/c/").unwrap(), a);
    let f = fs.create_file("/a/f").unwrap();
    assert_eq!(fs.create_file("/a/f").unwrap(), f);
    assert_eq!(fs.mkdir_p("/").unwrap(), Inode(1));
}

#[test]
fn reading_ends_with_the_file() {
    let mut fs = Fs::new();
    fs.create_file("/f").unwrap();
    fs.write("/f", 0, b"Hello, World!").unwrap();
    assert_eq!(fs.read("/f", 7, 100).unwrap(), b"World!".to_vec());
    assert_eq!(fs.read("/f", 13, 100).unwrap(), Vec::<u8>::new());
    assert_eq!(fs.read("/f", 90, 1).unwrap(), Vec::<u8>::new());
    let ino = fs.run(Resolve::start(fs.vfs.root, "/f")).unwrap();
    let written = fs.run(FsStep::Next(fs.vfs.write_ino(ino.0, 13, b"abc".to_vec()))).unwrap();
    assert_eq!(written, 3);
    assert_eq!(fs.stat("/f").unwrap().size, 16);
    let written = fs.run(FsStep::Next(fs.vfs.write_ino(ino.0, 0, b"xyz".to_vec()))).unwrap();
    assert_eq!(written, 3);
    assert_eq!(fs.stat("/f").unwrap().size, 16);
    assert_eq!(fs.run(FsStep::Next(fs.vfs.read_ino(ino.0, 0, 3))).unwrap(), b"xyz".to_vec());
    assert_eq!(fs.read("/f", 0, 100).unwrap(), b"xyzlo, World!abc".to_vec());
    assert!(fs.read("/g", 0, 1).is_err());
}

#[test]
fn spans_become_accesses() {
    let spans = vec![
        ChunkSpan { chunk_index: 0, offset_in_chunk: 90, len: 10 },
        ChunkSpan { chunk_index: 1, offset_in_chunk: 0, len: 100 },
        ChunkSpan { chunk_index: 2, offset_in_chunk: 0, len: 5 },
    ];
    let (list, total) = chunk_accesses(Inode(7), &spans);
    assert_eq!(total, 115);
    assert_eq!(
        list,
        vec![
            ChunkAccess { chunk_id: 1_000_007_000, offset_in_chunk: 90, from: 0, to: 10 },
            ChunkAccess { chunk_id: 1_000_007_001, offset_in_chunk: 0, from: 10, to: 110 },
            ChunkAccess { chunk_id: 1_000_007_002, offset_in_chunk: 0, from: 110, to: 115 },
        ]
    );
}

#[test]
fn ranges_split_at_chunk_borders() {
    let spans = split_range(100, 90, 115);
    assert_eq!(
        spans,
        vec![
            ChunkSpan { chunk_index: 0, offset_in_chunk: 90, len: 10 },
            ChunkSpan { chunk_index: 1, offset_in_chunk: 0, len: 100 },
            ChunkSpan { chunk_index: 2, offset_in_chunk: 0, len: 5 },
        ]
    );
    assert!(split_range(100, 90, 0).is_empty());
    assert_eq!(
        split_range(64, 128, 64),
        vec![ChunkSpan { chunk_index: 2, offset_in_chunk: 0, len: 64 }]
    );
}

#[test]
fn chunks_give_back_what_was_written() {
    let mut chunks: HashMap<(i64, u64), u8> = HashMap::new();
    let data: Vec<u8> = (0..250u32).map(|i| i as u8).collect();
    for access in chunk_accesses(Inode(3), &split_range(64, 30, data.len())).0 {
        for k in 0..access.to - access.from {
            let place = (access.chunk_id, access.offset_in_chunk + k as u64);
            assert!(chunks.insert(place, data[access.from + k]).is_none());
        }
    }
    let mut out = vec![0u8; 100];
    for access in chunk_accesses(Inode(3), &split_range(64, 80, out.len())).0 {
        for k in 0..access.to - access.from {
            out[access.from + k] = chunks[&(access.chunk_id, access.offset_in_chunk + k as u64)];
        }
    }
    assert_eq!(out, data[50..150].to_vec());
}

#[test]
fn writing_leaves_other_files_alone() {
    let mut fs = Fs::new();
    fs.create_file("/a").unwrap();
    fs.create_file("/b").unwrap();
    fs.write("/a", 0, b"one").unwrap();
    fs.write("/b", 0, b"two").unwrap();
    assert_eq!(fs.read("/a", 0, 3).unwrap(), b"one".to_vec());
    assert_eq!(fs.read("/b", 0, 3).unwrap(), b"two".to_vec());
    // A write by path lets the file end where the bytes end.
    fs.write("/a", 0, b"x").unwrap();
    assert_eq!(fs.read("/a", 0, 3).unwrap(), b"x".to_vec());
}

#[test]
fn requests_by_inode() {
    let mut fs = Fs::new();
    assert_eq!(fs.vfs.path_of(1), None);
    assert_eq!(fs.vfs.parent_of(1), None);
    let FsReply::Created(made) = fs.answer(fs.vfs.mkdir_ino(1, "d", 0o700, 5, 6)) else {
        panic!("no directory")
    };
    let dir = fs.vfs.created(made).unwrap();
    let FsReply::Created(made) = fs.answer(fs.vfs.create_ino(dir, "f", 0o600, 5, 6)) else {
        panic!("no file")
    };
    let file = fs.vfs.created(made).unwrap();
    let FsReply::Child(child) = fs.answer(fs.vfs.lookup(dir, "f")) else { panic!("no lookup") };
    assert_eq!(fs.vfs.child_of(child), Some(Inode(file)));
    let FsReply::Child(child) = fs.answer(fs.vfs.lookup(dir, "g")) else { panic!("no lookup") };
    assert_eq!(fs.vfs.child_of(child), None);

    let FsReply::Attr(attr) = fs.answer(fs.vfs.truncate_ino(file, 33)) else { panic!("no attr") };
    let told = fs.vfs.stat_ino(attr).unwrap();
    assert_eq!((told.ino, told.size, told.kind), (file, 33, FileType::File));
    let mask = SetAttrMask::size(12);
    let FsReply::Attr(attr) = fs.answer(fs.vfs.setattr_ino(file, mask)) else { panic!("no attr") };
    assert_eq!(fs.vfs.stat_ino(attr).unwrap().size, 12);
    let FsReply::Attr(attr) = fs.answer(fs.vfs.getattr(77)) else { panic!("no attr") };
    assert!(fs.vfs.stat_ino(attr).is_none());

    let FsReply::Done(end) = fs.answer(fs.vfs.rename_ino(dir, "f", 1, "g")) else {
        panic!("no rename")
    };
    assert!(fs.vfs.done(end).is_ok());
    let FsReply::Entries(entries) = fs.answer(FsRequest::Readdir(Inode(1))) else {
        panic!("no listing")
    };
    let mut names: Vec<(String, i64)> =
        readdir_ino(&entries.unwrap()).into_iter().map(|e| (e.name, e.ino)).collect();
    names.sort();
    assert_eq!(names, vec![("d".to_string(), dir), ("g".to_string(), file)]);
    let FsReply::Done(end) = fs.answer(fs.vfs.rmdir_ino(1, "d")) else { panic!("no removal") };
    assert!(fs.vfs.done(end).is_ok());
    let FsReply::Done(end) = fs.answer(fs.vfs.unlink_ino(1, "g")) else { panic!("no removal") };
    assert!(fs.vfs.done(end).is_ok());
    let FsReply::Done(end) = fs.answer(fs.vfs.unlink_ino(1, "g")) else { panic!("no removal") };
    assert!(fs.vfs.done(end).is_err());
}

#[test]
fn nodes_are_made_with_standard_permissions() {
    let mut db = Db::new();
    let dir = DatabaseMetaStore::create_directory(1, "d".to_string(), 9);
    let dir = db.run(Step::Next(dir)).unwrap();
    let file = DatabaseMetaStore::create_file_internal(dir, "f".to_string(), 9);
    let file = db.run(Step::Next(file)).unwrap();
    assert_eq!(db.lookup(Inode(1), "d").unwrap(), Inode(dir));
    assert_eq!(db.lookup(Inode(dir), "f").unwrap(), Inode(file));
    let again = DatabaseMetaStore::create_directory(1, "d".to_string(), 9);
    assert!(matches!(db.run(Step::Next(again)), Err(MetaError::AlreadyExists { .. })));
}

#[test]
fn listed_attributes_are_known() {
    let mut fs = Fs::new();
    let ino = fs.create_file("/f").unwrap();
    let attr = fs.stat("/f").unwrap();
    let mut client = MetaClient::new(Inode(1));
    assert!(client.getattr(0, ino).is_none());
    let entry = DirEntry { name: "f".to_string(), ino: ino.0, kind: FileType::File };
    let list = client.readdirplus_reply(0, Inode(1), Ok(vec![(entry, attr)])).unwrap();
    assert_eq!(list.len(), 1);
    assert_eq!(client.getattr(0, ino).unwrap().ino, ino.0);
    assert!(matches!(client.lookup(0, Inode(1), "f"), Some(Ok(found)) if found == ino));
}

#[test]
fn directories_move_with_what_is_in_them() {
    let mut fs = Fs::new();
    let file = fs.create_file("/old_name.txt").unwrap();
    fs.write("/old_name.txt", 0, b"test data").unwrap();
    fs.rename_file("/old_name.txt", "/new_name.txt").unwrap();
    assert!(fs.stat("/old_name.txt").is_none());
    assert_eq!(fs.stat("/new_name.txt").unwrap().ino, file.0);
    assert_eq!(fs.read("/new_name.txt", 0, 100).unwrap(), b"test data".to_vec());

    fs.mkdir_p("/old_dir").unwrap();
    let inner = fs.create_file("/old_dir/file.txt").unwrap();
    assert!(matches!(
        fs.rename_file("/old_dir", "/new_dir"),
        Err(VfsError::NotFile(path)) if path == "/old_dir"
    ));
    let FsReply::Done(end) = fs.answer(fs.vfs.rename_ino(1, "old_dir", 1, "new_dir")) else {
        panic!("no rename")
    };
    assert!(fs.vfs.done(end).is_ok());
    assert!(fs.stat("/old_dir").is_none());
    assert!(fs.stat("/new_dir").is_some());
    assert_eq!(fs.stat("/new_dir/file.txt").unwrap().ino, inner.0);
}

#[test]
fn large_files_are_read_back() {
    let mut fs = Fs::new();
    let file = fs.create_file("/large.bin").unwrap();
    let size = 64 * 1024;
    let mut expected = Vec::new();
    for i in 0..5usize {
        let data: Vec<u8> = (0..size).map(|j| ((i * size + j) % 256) as u8).collect();
        expected.extend_from_slice(&data);
        let start = fs.vfs.write_ino(file.0, (i * size) as u64, data);
        assert_eq!(fs.run(FsStep::Next(start)).unwrap(), size);
    }
    let all = fs.run(FsStep::Next(fs.vfs.read_ino(file.0, 0, 5 * size))).unwrap();
    assert_eq!(all, expected);
    let part = fs.run(FsStep::Next(fs.vfs.read_ino(file.0, size as u64, size))).unwrap();
    assert_eq!(part, expected[size..2 * size].to_vec());
    assert_eq!(fs.stat("/large.bin").unwrap().size, 5 * size as u64);
}

#[test]
fn what_others_change_is_dropped() {
    let mut fs = Fs::new();
    let ino = fs.create_file("/f").unwrap();
    let attr = fs.stat("/f").unwrap();
    let mut client = MetaClient::new(Inode(1));
    let entry = DirEntry { name: "f".to_string(), ino: ino.0, kind: FileType::File };
    client.readdirplus_reply(0, Inode(1), Ok(vec![(entry, attr)])).unwrap();
    client.drop_stale(&CacheInvalidationEvent::InvalidatePathPrefix("/g".to_string()));
    assert!(client.getattr(0, ino).is_some());
    client.drop_stale(&CacheInvalidationEvent::InvalidateInode(ino.0));
    assert!(client.getattr(0, ino).is_none());
    assert!(client.lookup(0, Inode(1), "f").is_some());
    client.drop_stale(&CacheInvalidationEvent::InvalidateParentChildren(1));
    assert!(client.lookup(0, Inode(1), "f").is_none());
    client.cache.put_path(0, "/a/b", Inode(7));
    client.drop_stale(&CacheInvalidationEvent::InvalidateAll);
    assert!(client.cache.get_path(0, "/a/b").is_none());
    client.cache.put_path(0, "/a/b", Inode(7));
    client.clear_cache();
    assert!(client.cache.get_path(0, "/a/b").is_none());
    assert!(client.cache.config.can_tell(0));
    assert!(!client.cache.config.can_tell(u64::MAX));
}

#[test]
fn a_client_answers_as_its_store() {
    let mut fs = Fs::new();
    let root = fs.client.root_ino();
    let (dir, _) = fs.create(CreateParams::dir(root, "d".to_string(), 0, 0)).unwrap();
    let (file, _) = fs.create(CreateParams::file(dir, "f".to_string(), 0, 0)).unwrap();
    assert_eq!(fs.resolve("/d/f").unwrap(), file);
    let asked = fs.asked;
    let look = |name: &str| FsRequest::Lookup { parent: dir, name: name.to_string() };
    assert!(matches!(fs.serve(look("f")), FsReply::Child(Ok(ino)) if ino == file));
    assert!(matches!(fs.serve(FsRequest::Getattr(file)), FsReply::Attr(Ok(a)) if a.ino == file.0));
    assert_eq!(fs.asked, asked);
    let moved = fs.serve(FsRequest::Rename {
        old_parent: dir,
        old_name: "f".to_string(),
        new_parent: root,
        new_name: "g".to_string(),
    });
    assert!(matches!(moved, FsReply::Done(Ok(()))));
    assert!(matches!(fs.serve(look("f")), FsReply::Child(Err(MetaError::NotFound(_)))));
    assert!(fs.resolve("/d/f").is_err());
    assert_eq!(fs.resolve("/g").unwrap(), file);
    let gone = |fs: &mut Fs| {
        fs.serve(FsRequest::Unlink { parent: root, name: "g".to_string() })
    };
    assert!(matches!(gone(&mut fs), FsReply::Done(Ok(()))));
    assert!(fs.resolve("/g").is_err());
    let asked = fs.asked;
    assert!(matches!(gone(&mut fs), FsReply::Done(Err(MetaError::NotFound(1)))));
    assert_eq!(fs.asked, asked);
    let removed = fs.serve(FsRequest::Rmdir { parent: root, name: "d".to_string() });
    assert!(matches!(removed, FsReply::Done(Ok(()))));
    assert!(fs.resolve("/d").is_err());
}
