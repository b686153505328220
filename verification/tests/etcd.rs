use slayerfs::meta::client::MetaClient;
use slayerfs::meta::client_calls::ClientStep;
use slayerfs::meta::entities::EntryType;
use slayerfs::meta::etcd::atomic_reads::{
    ContentMeta, ContentPhase, GetName, GetParent, GetPath, LookupPath, SetFileSize, Stat,
};
use slayerfs::meta::etcd::atomic_store::{CreateNode, RemoveNode, RenameNode};
use slayerfs::meta::etcd::cas::Change;
use slayerfs::meta::etcd::ids::{backoff, EtcdIdGenerator, GenerateId};
use slayerfs::meta::etcd::keys::{etcd_children_key, etcd_forward_key, etcd_reverse_key};
use slayerfs::meta::etcd::kv::{Check, Operation, Reply, Request, Shape, Value, Write};
use slayerfs::meta::etcd::names_update::NamesStep;
use slayerfs::meta::etcd::plain_nodes::PlainCreate;
use slayerfs::meta::etcd::store::EtcdMetaStore;
use slayerfs::meta::etcd::txn::{
    atomic_create_with_check, atomic_delete_with_check, atomic_rename, children_key_inode,
    update_children_under_key, update_parent_children, update_parent_children_cas,
};
use slayerfs::meta::etcd::watch::{
    CacheInvalidationEvent, EtcdWatchWorker, WatchAction, WatchConfig, WatchEvent,
};
use slayerfs::meta::store::{DirEntry, FileAttr, FileType, MetaError, Step};
use slayerfs::meta::transaction::{CasStep, CasUpdate};
use slayerfs::meta::types::{CreateParams, Inode, SetAttrMask};
use slayerfs::vfs::op::{FsReply, FsRequest};
use std::collections::HashMap;

/// A key-value service in memory.
struct Service {
    map: HashMap<String, (Value, i64)>,
    revision: i64,
    next: i64,
    waited: Vec<u64>,
    /// How many transactions are still refused because somebody else was faster.
    contended: usize,
    /// The number of the request that fails, counted down.
    fail_at: Option<usize>,
}

fn shaped(value: &Value, shape: Shape) -> Option<Value> {
    match (value, shape) {
        (Value::Forward(_), Shape::Forward)
        | (Value::Entry(_), Shape::Entry)
        | (Value::Placed(_), Shape::Placed)
        | (Value::Children(_), Shape::Children)
        | (Value::Text(_), Shape::Text) => Some(value.clone()),
        (Value::Placed(p), Shape::Entry) => Some(Value::Entry(p.info)),
        _ => None,
    }
}

impl Service {
    fn new() -> Service {
        let mut s = Service {
            map: HashMap::new(),
            revision: 0,
            next: 2,
            waited: vec![],
            contended: 0,
            fail_at: None,
        };
        s.run(Step::Next(EtcdMetaStore::init_root_directory())).unwrap();
        s
    }

    fn write(&mut self, write: Write) {
        match write {
            Write::Put(key, value) => {
                self.map.insert(key.text(), (value, self.revision));
            }
            Write::Delete(key) => {
                self.map.remove(&key.text());
            }
        }
    }

    fn answer(&mut self, request: Request) -> Reply {
        if let Some(n) = self.fail_at {
            if n == 0 && !matches!(request, Request::NewId | Request::Wait(_)) {
                self.fail_at = None;
                return Reply::Failed("connection lost".to_string());
            }
            self.fail_at = Some(n.saturating_sub(1));
        }
        match request {
            Request::Get(key, shape) => match self.map.get(&key.text()) {
                None => Reply::Value(None),
                Some((value, revision)) => match shaped(value, shape) {
                    Some(value) => Reply::Value(Some((value, *revision))),
                    None => Reply::Malformed("missing field".to_string()),
                },
            },
            Request::Put(key, value) => {
                self.revision += 1;
                self.write(Write::Put(key, value));
                Reply::Done
            }
            Request::Delete(key) => {
                self.revision += 1;
                self.write(Write::Delete(key));
                Reply::Done
            }
            Request::Commit { checks, writes } => {
                if self.contended > 0 {
                    self.contended -= 1;
                    return Reply::Committed(false);
                }
                let hold = checks.iter().all(|c| match c {
                    Check::Absent(key) => !self.map.contains_key(&key.text()),
                    Check::Present(key) => self.map.contains_key(&key.text()),
                    Check::Unchanged(key, revision) => {
                        self.map.get(&key.text()).map_or(0, |v| v.1) == *revision
                    }
                });
                if hold {
                    self.revision += 1;
                    for w in writes {
                        self.write(w);
                    }
                }
                Reply::Committed(hold)
            }
            Request::NewId => {
                self.next += 1;
                Reply::Id(self.next - 1)
            }
            Request::Wait(ms) => {
                self.waited.push(ms);
                Reply::Done
            }
        }
    }

    fn run<O: Operation>(&mut self, start: Step<O, O::Output>) -> Result<O::Output, MetaError> {
        let mut step = start;
        loop {
            match step {
                Step::Next(op) => {
                    let reply = self.answer(op.request());
                    step = op.resume(reply);
                }
                Step::Done(end) => return end,
            }
        }
    }

    fn create(&mut self, params: CreateParams) -> Result<(Inode, FileAttr), MetaError> {
        self.run(Step::Next(EtcdMetaStore::create(params, 7)))
    }

    fn lookup(&mut self, parent: Inode, name: &str) -> Result<Inode, MetaError> {
        self.run(Step::Next(EtcdMetaStore::lookup(parent, name.to_string())))
    }

    fn readdir(&mut self, ino: Inode) -> Vec<DirEntry> {
        self.run(Step::Next(EtcdMetaStore::readdir(ino))).unwrap()
    }
}

fn text(value: &str) -> String {
    value.to_string()
}

#[test]
fn a_created_file_is_found_and_listed() {
    let mut s = Service::new();
    assert_eq!(EtcdMetaStore::root_ino(), Inode::root());
    let params = CreateParams::file(Inode::root(), text("test.txt"), 1000, 1000);
    let (ino, attr) = s.create(params.clone()).unwrap();
    assert_eq!(attr.kind, FileType::File);
    assert!(ino != Inode::root());
    assert_eq!(s.lookup(Inode::root(), "test.txt").unwrap(), ino);
    let read = s.run(EtcdMetaStore::getattr(ino, 0)).unwrap();
    assert_eq!((read.ino, read.mode & 0o777, read.uid), (ino.0, 0o644, 1000));
    let list = s.readdir(Inode::root());
    assert_eq!(list.len(), 1);
    assert_eq!((list[0].name.as_str(), list[0].ino), ("test.txt", ino.0));
    assert!(matches!(s.create(params), Err(MetaError::AlreadyExists { .. })));
}

#[test]
fn names_move_and_go() {
    let mut s = Service::new();
    let (dir, _) = s.create(CreateParams::dir(Inode::root(), text("d"), 0, 0)).unwrap();
    let (file, _) = s.create(CreateParams::file(Inode::root(), text("old"), 0, 0)).unwrap();
    s.run(Step::Next(EtcdMetaStore::rename(Inode::root(), text("old"), dir, text("new")))).unwrap();
    assert!(s.lookup(Inode::root(), "old").is_err());
    assert_eq!(s.lookup(dir, "new").unwrap(), file);
    assert_eq!(s.readdir(dir).len(), 1);
    assert!(matches!(
        s.run(Step::Next(EtcdMetaStore::rmdir(Inode::root(), text("d")))),
        Err(MetaError::DirectoryNotEmpty(_))
    ));
    s.run(Step::Next(EtcdMetaStore::unlink(dir, text("new")))).unwrap();
    assert!(s.lookup(dir, "new").is_err());
    s.run(Step::Next(EtcdMetaStore::rmdir(Inode::root(), text("d")))).unwrap();
    assert!(s.lookup(Inode::root(), "d").is_err());
    assert!(s.readdir(Inode::root()).is_empty());
}

#[test]
fn attributes_are_set() {
    let mut s = Service::new();
    let (ino, _) = s.create(CreateParams::file(Inode::root(), text("f"), 1, 2)).unwrap();
    let attr = s.run(EtcdMetaStore::setattr(ino, SetAttrMask::size(1025), 9)).unwrap();
    assert_eq!((attr.size, attr.uid, attr.gid), (1025, 1, 2));
    let again = s.run(EtcdMetaStore::getattr(ino, 0)).unwrap();
    assert_eq!(again.size, 1025);
    let root = s.run(EtcdMetaStore::getattr(Inode(1), 33)).unwrap();
    assert_eq!((root.ino, root.kind, root.mtime), (1, FileType::Dir, 33));
}

#[test]
fn whole_nodes_are_made_moved_and_removed() {
    let mut s = Service::new();
    let d = s.run(Step::Next(CreateNode::start(1, text("d"), false, 5))).unwrap();
    let f = s.run(Step::Next(CreateNode::start(d, text("f"), true, 5))).unwrap();
    assert_eq!(s.run(LookupPath::start("/d/f")).unwrap(), Some((f, FileType::File)));
    assert_eq!(s.run(LookupPath::start("/")).unwrap(), Some((1, FileType::Dir)));
    assert_eq!(s.run(LookupPath::start("/d/x")).unwrap(), None);
    s.run(Step::Next(RenameNode::start(d, text("f"), 1, text("g"), 6))).unwrap();
    assert_eq!(s.run(LookupPath::start("/g")).unwrap(), Some((f, FileType::File)));
    assert_eq!(s.run(LookupPath::start("/d/f")).unwrap(), None);
    s.run(Step::Next(RemoveNode::start(1, text("g"), false))).unwrap();
    assert_eq!(s.run(LookupPath::start("/g")).unwrap(), None);
    s.run(Step::Next(RemoveNode::start(1, text("d"), true))).unwrap();
    assert_eq!(s.run(LookupPath::start("/d")).unwrap(), None);
}

#[test]
fn plain_creation_makes_a_node() {
    let mut s = Service::new();
    let d = s.run(Step::Next(PlainCreate::start(1, text("d"), EntryType::Directory, 5))).unwrap();
    let f = s.run(Step::Next(PlainCreate::start(d, text("f"), EntryType::File, 5))).unwrap();
    assert!(d != f);
    assert_eq!(s.lookup(Inode(d), "f").unwrap(), Inode(f));
    assert!(s.run(Step::Next(PlainCreate::start(1, text("d"), EntryType::File, 5))).is_err());
}

#[test]
fn test_cas_update_children() {
    let mut s = Service::new();
    s.run(update_parent_children_cas(1, Change::Add(text("test.txt")), 10)).unwrap();
    match &s.map.get("c:1").unwrap().0 {
        Value::Children(c) => assert_eq!(c.children, vec![text("test.txt")]),
        other => panic!("unexpected: {other:?}"),
    }
}

#[test]
fn a_contended_directory_is_tried_again_and_given_up() {
    let mut s = Service::new();
    s.contended = 3;
    s.run(update_parent_children_cas(1, Change::Add(text("a")), 10)).unwrap();
    assert_eq!((s.contended, s.waited.len()), (0, 0));
    s.contended = 100;
    assert!(s.run(update_parent_children_cas(1, Change::Add(text("b")), 4)).is_err());
}

#[test]
fn test_atomic_create() {
    let mut s = Service::new();
    let forward_key = text("f:1:test_atomic.txt");
    let create = || {
        Step::Next(atomic_create_with_check(
            forward_key.clone(),
            vec![(forward_key.clone(), text("test_value"))],
        ))
    };
    assert!(s.run(create()).unwrap());
    assert!(!s.run(create()).unwrap());
    let delete =
        atomic_delete_with_check(forward_key.clone(), vec![forward_key.clone()]);
    assert!(s.run(Step::Next(delete)).unwrap());
    let delete =
        atomic_delete_with_check(forward_key.clone(), vec![forward_key.clone()]);
    assert!(!s.run(Step::Next(delete)).unwrap());
}

#[test]
fn atomic_renames_need_the_old_and_a_free_new_key() {
    let mut s = Service::new();
    let rename = |old: &str, new: &str| {
        Step::Next(atomic_rename(
            text(old),
            text(new),
            vec![(text(new), text("v"))],
            vec![text(old)],
        ))
    };
    assert!(s.run(rename("f:1:a", "f:1:b")).is_err());
    s.run(Step::Next(atomic_create_with_check(text("f:1:a"), vec![(text("f:1:a"), text("v"))])))
        .unwrap();
    s.run(rename("f:1:a", "f:1:b")).unwrap();
    assert!(!s.map.contains_key("f:1:a") && s.map.contains_key("f:1:b"));
    s.run(Step::Next(atomic_create_with_check(text("f:1:a"), vec![(text("f:1:a"), text("v"))])))
        .unwrap();
    assert!(matches!(
        s.run(rename("f:1:a", "f:1:b")),
        Err(MetaError::AlreadyExists { parent: 1, name }) if name == "b"
    ));
}

#[test]
fn numbers_are_given_once() {
    let mut s = Service::new();
    let generator = EtcdIdGenerator::new().with_key(text("counter"));
    s.run(Step::Next(generator.initialize())).unwrap();
    let a = s.run(Step::Next(generator.next_id())).unwrap();
    let b = s.run(Step::Next(generator.next_id())).unwrap();
    assert_eq!(b, a + 1);
    s.contended = 2;
    let c = s.run(Step::Next(generator.next_id())).unwrap();
    assert_eq!(c, b + 1);
    assert_eq!(s.waited, vec![backoff(0), backoff(1)]);
    let x = s.run(Step::Next(GenerateId::start())).unwrap();
    let y = s.run(Step::Next(GenerateId::start())).unwrap();
    assert_eq!(y, x + 1);
}

#[test]
fn a_value_is_swapped_under_its_revision() {
    let mut s = Service::new();
    s.map.insert(text("k"), (Value::Text(text("1")), 4));
    s.revision = 4;
    s.contended = 1;
    let mut seen = vec![];
    let mut step = CasUpdate::start(text("k"), 5);
    let end = loop {
        step = match step {
            CasStep::Ask(op) => {
                let reply = s.answer(op.request());
                op.resume(reply)
            }
            CasStep::Update { op, current, revision } => {
                seen.push((current.clone(), revision));
                op.updated(Ok(format!("{current}+")))
            }
            CasStep::Done(end) => break end,
        };
    };
    assert_eq!(end.unwrap(), 5);
    assert_eq!(seen, vec![(text("1"), 4), (text("1"), 4)]);
    assert!(matches!(&s.map["k"].0, Value::Text(t) if t == "1+"));
    assert!(matches!(CasUpdate::start(text("k"), 0), CasStep::Done(Err(_))));
}

#[test]
fn keys_have_their_form() {
    assert_eq!(etcd_forward_key(3, "a:b"), "f:3:a:b");
    assert_eq!(etcd_reverse_key(-4), "r:-4");
    assert_eq!(etcd_children_key(9), "c:9");
    assert_eq!(children_key_inode("c:77").unwrap(), 77);
    assert!(children_key_inode("c:x").is_err());
    assert!(children_key_inode("r:1").is_err());
}

#[test]
fn a_watch_reads_waits_and_opens_again() {
    let none: Vec<CacheInvalidationEvent> = vec![];
    let keys = vec![text("f:10:a"), text("r:7"), text("other")];
    let (action, events) =
        EtcdWatchWorker::watch_step(&WatchEvent::Response { canceled: false, keys });
    assert_eq!(action, WatchAction::Read);
    assert_eq!(
        events,
        vec![
            CacheInvalidationEvent::InvalidateParentChildren(10),
            CacheInvalidationEvent::InvalidateInode(7)
        ]
    );
    assert_eq!(EtcdWatchWorker::watch_step(&WatchEvent::Opened), (WatchAction::Read, none.clone()));
    for event in [WatchEvent::OpenFailed, WatchEvent::StreamFailed, WatchEvent::StreamEnded] {
        assert_eq!(EtcdWatchWorker::watch_step(&event).0, WatchAction::Wait);
    }
    assert_eq!(EtcdWatchWorker::watch_step(&WatchEvent::Waited), (WatchAction::Open, none));
    assert_eq!(WatchConfig::default().event_buffer_size, 1000);
}

fn stored(s: &Service) -> Vec<String> {
    let mut all: Vec<String> = s.map.iter().map(|(k, v)| format!("{k} {v:?}")).collect();
    all.sort();
    all
}

#[test]
fn a_failed_operation_leaves_no_trace() {
    let mut made = false;
    for fail_at in 0..5 {
        let mut s = Service::new();
        let before = stored(&s);
        s.fail_at = Some(fail_at);
        match s.create(CreateParams::dir(Inode::root(), text("d"), 0, 0)) {
            Ok((ino, _)) => {
                made = true;
                s.fail_at = None;
                assert_eq!(s.lookup(Inode::root(), "d").unwrap(), ino);
            }
            Err(_) => assert_eq!(stored(&s), before, "at {fail_at}"),
        }
    }
    assert!(made);
    for fail_at in 0..4 {
        let mut s = Service::new();
        s.create(CreateParams::dir(Inode::root(), text("d"), 0, 0)).unwrap();
        let (dir, _) = s.create(CreateParams::dir(Inode::root(), text("e"), 0, 0)).unwrap();
        s.create(CreateParams::file(Inode::root(), text("f"), 0, 0)).unwrap();
        let before = stored(&s);
        s.fail_at = Some(fail_at);
        let moved = s.run(Step::Next(EtcdMetaStore::rename(
            Inode::root(),
            text("f"),
            dir,
            text("g"),
        )));
        assert_eq!(moved.unwrap_err().message(), "Internal error: Etcd error: connection lost");
        assert_eq!(stored(&s), before, "at {fail_at}");
        s.fail_at = Some(fail_at);
        assert!(s.run(Step::Next(EtcdMetaStore::rmdir(Inode::root(), text("d")))).is_err());
        assert_eq!(stored(&s), before, "at {fail_at}");
        s.fail_at = Some(fail_at.min(2));
        assert!(s.run(Step::Next(EtcdMetaStore::unlink(Inode::root(), text("f")))).is_err());
        assert_eq!(stored(&s), before, "at {fail_at}");
    }
}

#[test]
fn a_disturbed_operation_is_begun_anew() {
    let mut s = Service::new();
    s.contended = 3;
    let (ino, _) = s.create(CreateParams::file(Inode::root(), text("f"), 0, 0)).unwrap();
    assert_eq!(s.lookup(Inode::root(), "f").unwrap(), ino);
    let before = stored(&s);
    s.contended = 10;
    let e = s.create(CreateParams::file(Inode::root(), text("g"), 0, 0)).unwrap_err();
    assert_eq!(e.message(), "Internal error: Transaction failed: max retries exceeded");
    s.contended = 10;
    assert!(s.run(Step::Next(EtcdMetaStore::unlink(Inode::root(), text("f")))).is_err());
    assert_eq!(stored(&s), before);
    s.contended = 9;
    s.run(Step::Next(EtcdMetaStore::unlink(Inode::root(), text("f")))).unwrap();
    assert!(s.readdir(Inode::root()).is_empty());
}

#[test]
fn a_name_moves_within_its_directory() {
    let mut s = Service::new();
    let (dir, _) = s.create(CreateParams::dir(Inode::root(), text("d"), 0, 0)).unwrap();
    let (file, _) = s.create(CreateParams::file(dir, text("old"), 0, 0)).unwrap();
    s.run(Step::Next(EtcdMetaStore::rename(dir, text("old"), dir, text("new")))).unwrap();
    assert!(s.lookup(dir, "old").is_err());
    let list = s.readdir(dir);
    assert_eq!(list.len(), 1);
    assert_eq!((list[0].name.as_str(), list[0].ino), ("new", file.0));
    match &s.map[&etcd_forward_key(dir.0, "new")].0 {
        Value::Forward(e) => assert_eq!((e.parent_inode, e.name.as_str()), (dir.0, "new")),
        other => panic!("{other:?}"),
    }
    s.run(Step::Next(EtcdMetaStore::rename(dir, text("new"), dir, text("new")))).unwrap();
    assert_eq!(s.lookup(dir, "new").unwrap(), file);
    s.run(Step::Next(EtcdMetaStore::unlink(dir, text("new")))).unwrap();
    s.run(Step::Next(EtcdMetaStore::rmdir(Inode::root(), text("d")))).unwrap();
}

#[test]
fn two_takers_of_an_absent_counter_get_two_numbers() {
    let mut s = Service::new();
    let generator = EtcdIdGenerator::new();
    let (a, b) = (generator.next_id(), generator.next_id());
    let (ra, rb) = (s.answer(a.request()), s.answer(b.request()));
    let (Step::Next(a), Step::Next(b)) = (a.resume(ra), b.resume(rb)) else { panic!("too soon") };
    let first = s.run(Step::Next(a)).unwrap();
    let second = s.run(Step::Next(b)).unwrap();
    assert_eq!((first, second), (2, 3));
    // A late preparation resets nothing.
    s.run(Step::Next(generator.initialize())).unwrap();
    assert_eq!(s.run(Step::Next(generator.next_id())).unwrap(), 4);
    let (a, b) = (GenerateId::start(), GenerateId::start());
    let (ra, rb) = (s.answer(a.request()), s.answer(b.request()));
    let (Step::Next(a), Step::Next(b)) = (a.resume(ra), b.resume(rb)) else { panic!("too soon") };
    assert_eq!(s.run(Step::Next(a)).unwrap(), 2);
    assert_eq!(s.run(Step::Next(b)).unwrap(), 3);
}

#[test]
fn preparing_the_root_again_keeps_its_names() {
    let mut s = Service::new();
    s.create(CreateParams::file(Inode::root(), text("f"), 0, 0)).unwrap();
    s.fail_at = Some(0);
    s.run(Step::Next(EtcdMetaStore::init_root_directory())).unwrap();
    assert_eq!(s.readdir(Inode::root()).len(), 1);
}

#[test]
fn a_failed_node_operation_leaves_no_trace() {
    let mut made = 0;
    for fail_at in 0..6 {
        for is_file in [true, false] {
            let mut s = Service::new();
            let before = stored(&s);
            s.fail_at = Some(fail_at);
            match s.run(Step::Next(CreateNode::start(1, text("n"), is_file, 5))) {
                Ok(ino) => {
                    made += 1;
                    s.fail_at = None;
                    assert_eq!(s.run(GetParent::start(ino)).unwrap(), Some(1));
                    assert!(s.run(LookupPath::start("/n")).unwrap().is_some());
                }
                Err(_) => {
                    assert_eq!(stored(&s), before, "at {fail_at}");
                    s.fail_at = None;
                    s.run(Step::Next(CreateNode::start(1, text("n"), is_file, 5))).unwrap();
                }
            }
        }
    }
    assert!(made > 0);
    for fail_at in 0..5 {
        let mut s = Service::new();
        s.run(Step::Next(CreateNode::start(1, text("d"), false, 5))).unwrap();
        let e = s.run(Step::Next(CreateNode::start(1, text("e"), false, 5))).unwrap();
        s.run(Step::Next(CreateNode::start(1, text("f"), true, 5))).unwrap();
        let before = stored(&s);
        s.fail_at = Some(fail_at);
        assert!(s.run(Step::Next(RenameNode::start(1, text("f"), e, text("g"), 6))).is_err());
        assert_eq!(stored(&s), before, "at {fail_at}");
        s.fail_at = Some(fail_at.min(3));
        assert!(s.run(Step::Next(RemoveNode::start(1, text("d"), true))).is_err());
        assert_eq!(stored(&s), before, "at {fail_at}");
        s.fail_at = Some(fail_at.min(2));
        assert!(s.run(Step::Next(RemoveNode::start(1, text("f"), false))).is_err());
        assert_eq!(stored(&s), before, "at {fail_at}");
    }
}

#[test]
fn a_disturbed_node_operation_is_tried_again() {
    let mut s = Service::new();
    s.contended = 9;
    let f = s.run(Step::Next(CreateNode::start(1, text("f"), true, 5))).unwrap();
    let before = stored(&s);
    for contended in [10, 11] {
        s.contended = contended;
        let e = s.run(Step::Next(CreateNode::start(1, text("g"), true, 5))).unwrap_err();
        assert_eq!(e.message(), "Internal error: CAS max retries exceeded for c:1");
        s.contended = contended;
        assert!(s.run(Step::Next(RemoveNode::start(1, text("f"), false))).is_err());
        s.contended = contended;
        assert!(s.run(Step::Next(RenameNode::start(1, text("f"), 1, text("g"), 6))).is_err());
        assert_eq!(stored(&s), before);
    }
    s.contended = 0;
    let again = s.run(Step::Next(CreateNode::start(1, text("f"), false, 5)));
    assert!(matches!(again, Err(MetaError::AlreadyExists { parent: 1, .. })));
    let none = s.run(Step::Next(CreateNode::start(77, text("f"), false, 5)));
    assert!(matches!(none, Err(MetaError::ParentNotFound(77))));
    let none = s.run(Step::Next(RemoveNode::start(1, text("x"), false)));
    assert!(matches!(none, Err(MetaError::NotFound(1))));
    s.contended = 9;
    s.run(Step::Next(RenameNode::start(1, text("f"), 1, text("g"), 6))).unwrap();
    assert_eq!(s.run(LookupPath::start("/g")).unwrap(), Some((f, FileType::File)));
    let taken = s.run(Step::Next(RenameNode::start(1, text("g"), 1, text("g"), 6)));
    assert!(matches!(taken, Err(MetaError::AlreadyExists { parent: 0, name }) if name == "f:1:g"));
    s.contended = 9;
    s.run(Step::Next(RemoveNode::start(1, text("g"), false))).unwrap();
    assert_eq!(s.run(LookupPath::start("/g")).unwrap(), None);
}

#[test]
fn a_path_leads_back_to_its_inode() {
    let mut s = Service::new();
    assert_eq!(s.run(GetParent::start(1)).unwrap(), None);
    assert_eq!(s.run(GetName::start(1)).unwrap(), Some(text("/")));
    assert_eq!(s.run(GetPath::start(1)).unwrap(), Some(text("/")));
    let d = s.run(Step::Next(CreateNode::start(1, text("d"), false, 5))).unwrap();
    let f = s.run(Step::Next(CreateNode::start(d, text("f"), true, 5))).unwrap();
    assert_eq!(s.run(GetParent::start(f)).unwrap(), Some(d));
    assert_eq!(s.run(GetName::start(f)).unwrap(), Some(text("f")));
    let path = s.run(GetPath::start(f)).unwrap().unwrap();
    assert_eq!(path, "/d/f");
    assert_eq!(s.run(LookupPath::start(&path)).unwrap(), Some((f, FileType::File)));
    assert_eq!(s.run(GetPath::start(99)).unwrap(), None);
    assert_eq!(s.run(GetName::start(99)).unwrap(), None);
}

#[test]
fn sizes_and_contents_are_told() {
    let mut s = Service::new();
    let d = s.run(Step::Next(CreateNode::start(1, text("d"), false, 5))).unwrap();
    let f = s.run(Step::Next(CreateNode::start(1, text("f"), true, 5))).unwrap();
    let size = |ino, size| SetFileSize { ino, size, now: 9, entry: None };
    s.run(Step::Next(size(f, 1025))).unwrap();
    let attr = s.run(Step::Next(Stat { ino: f, now: 3, as_dir: false })).unwrap().unwrap();
    assert_eq!((attr.size, attr.mtime, attr.ctime, attr.kind), (1025, 9, 5, FileType::File));
    assert!(s.run(Step::Next(size(d, 1))).is_err());
    assert!(matches!(s.run(Step::Next(size(99, 1))), Err(MetaError::NotFound(99))));
    let root = s.run(Step::Next(Stat { ino: 1, now: 3, as_dir: false })).unwrap().unwrap();
    assert_eq!((root.kind, root.size, root.mtime), (FileType::Dir, 4096, 3));
    assert!(s.run(Step::Next(Stat { ino: 99, now: 3, as_dir: false })).unwrap().is_none());
    let read = |parent| Step::Next(ContentMeta { parent, phase: ContentPhase::Names });
    let mut list: Vec<(String, i64, bool)> = s
        .run(read(1))
        .unwrap()
        .unwrap()
        .into_iter()
        .map(|c| (c.entry_name, c.inode, c.entry_type == EntryType::File))
        .collect();
    list.sort();
    assert_eq!(list, vec![(text("d"), d, false), (text("f"), f, true)]);
    assert!(s.run(read(d)).unwrap().is_none());
}

#[test]
fn names_are_updated_by_any_function() {
    let mut s = Service::new();
    s.run(update_parent_children_cas(1, Change::Add(text("a")), 10)).unwrap();
    s.contended = 2;
    let mut seen = 0;
    let mut step = update_parent_children(1, 10);
    let end = loop {
        step = match step {
            NamesStep::Ask(op) => {
                let reply = s.answer(op.request());
                op.resume(reply)
            }
            NamesStep::Update { op, names } => {
                seen += 1;
                assert_eq!(names, vec![text("a")]);
                NamesStep::Ask(op.updated(vec![text("b"), text("c"), text("b")]))
            }
            NamesStep::Done(end) => break end,
        };
    };
    end.unwrap();
    assert_eq!(seen, 3);
    match &s.map.get("c:1").unwrap().0 {
        Value::Children(c) => assert_eq!(c.children, vec![text("b"), text("c")]),
        other => panic!("unexpected: {other:?}"),
    }
    assert!(matches!(update_parent_children(1, 0), NamesStep::Done(Err(_))));
    match update_children_under_key("c:12", 3) {
        NamesStep::Ask(op) => assert_eq!((op.parent, op.max_retries), (12, 3)),
        _ => panic!("no request"),
    }
    match update_children_under_key("r:12", 3) {
        NamesStep::Done(Err(e)) => {
            assert_eq!(e.message(), "Internal error: Invalid children key format: r:12");
        }
        _ => panic!("a request"),
    }
}

/// A caching client over the store.
struct Cached {
    service: Service,
    client: MetaClient,
}

impl Cached {
    fn ask(&mut self, request: FsRequest) -> FsReply {
        let s = &mut self.service;
        match request {
            FsRequest::Lookup { parent, name } => FsReply::Child(s.lookup(parent, &name)),
            FsRequest::Getattr(ino) => FsReply::Attr(s.run(EtcdMetaStore::getattr(ino, 7))),
            FsRequest::Readdir(ino) => FsReply::Entries(Ok(s.readdir(ino))),
            FsRequest::Create(params) => FsReply::Created(s.create(params)),
            FsRequest::Setattr(ino, mask) => {
                FsReply::Attr(s.run(EtcdMetaStore::setattr(ino, mask, 7)))
            }
            FsRequest::Unlink { parent, name } => {
                FsReply::Done(s.run(Step::Next(EtcdMetaStore::unlink(parent, name))))
            }
            FsRequest::Rmdir { parent, name } => {
                FsReply::Done(s.run(Step::Next(EtcdMetaStore::rmdir(parent, name))))
            }
            FsRequest::Rename { old_parent, old_name, new_parent, new_name } => {
                let op = EtcdMetaStore::rename(old_parent, old_name, new_parent, new_name);
                FsReply::Done(s.run(Step::Next(op)))
            }
            other => panic!("no request to the store: {other:?}"),
        }
    }

    fn serve(&mut self, request: FsRequest) -> FsReply {
        let mut step = self.client.begin(0, request);
        loop {
            match step {
                ClientStep::Answer(reply) => return reply,
                ClientStep::Ask(call) => {
                    let reply = self.ask(call.request());
                    step = self.client.go_on(0, call, reply);
                }
            }
        }
    }
}

#[test]
fn a_cached_store_answers_for_its_tree() {
    let root = Inode::root();
    let mut c = Cached { service: Service::new(), client: MetaClient::new(root) };
    let made = c.serve(FsRequest::Create(CreateParams::dir(root, text("d"), 0, 0)));
    let FsReply::Created(Ok((dir, _))) = made else { panic!("no directory") };
    let made = c.serve(FsRequest::Create(CreateParams::file(dir, text("f"), 0, 0)));
    let FsReply::Created(Ok((file, _))) = made else { panic!("no file") };
    let look = |parent: Inode, name: &str| FsRequest::Lookup { parent, name: name.to_string() };
    assert!(matches!(c.serve(look(dir, "f")), FsReply::Child(Ok(ino)) if ino == file));
    let set = c.serve(FsRequest::Setattr(file, SetAttrMask::size(9)));
    assert!(matches!(set, FsReply::Attr(Ok(a)) if a.size == 9));
    let attr = c.serve(FsRequest::Getattr(file));
    assert!(matches!(attr, FsReply::Attr(Ok(a)) if a.size == 9 && a.ino == file.0));
    let same = c.serve(FsRequest::Setattr(root, SetAttrMask::default()));
    assert!(matches!(same, FsReply::Attr(Ok(a)) if a.ino == 1 && a.kind == FileType::Dir));
    let full = c.serve(FsRequest::Rmdir { parent: root, name: text("d") });
    assert!(matches!(full, FsReply::Done(Err(MetaError::DirectoryNotEmpty(_)))));
    let moved = c.serve(FsRequest::Rename {
        old_parent: dir,
        old_name: text("f"),
        new_parent: root,
        new_name: text("g"),
    });
    assert!(matches!(moved, FsReply::Done(Ok(()))));
    assert!(matches!(c.serve(look(dir, "f")), FsReply::Child(Err(_))));
    assert!(matches!(c.serve(look(root, "g")), FsReply::Child(Ok(ino)) if ino == file));
    let listed = c.serve(FsRequest::Readdir(root));
    let FsReply::Entries(Ok(list)) = listed else { panic!("no listing") };
    let mut names: Vec<&str> = list.iter().map(|e| e.name.as_str()).collect();
    names.sort();
    assert_eq!(names, vec!["d", "g"]);
    let gone = c.serve(FsRequest::Unlink { parent: root, name: text("g") });
    assert!(matches!(gone, FsReply::Done(Ok(()))));
    assert!(matches!(c.serve(FsRequest::Getattr(file)), FsReply::Attr(Err(_))));
    let empty = c.serve(FsRequest::Rmdir { parent: root, name: text("d") });
    assert!(matches!(empty, FsReply::Done(Ok(()))));
    assert!(matches!(c.serve(look(root, "d")), FsReply::Child(Err(_))));
}
