//! Transactions on keys and values that are given as texts.

use crate::meta::etcd::cas::{
    internal, internal_error, Change, UpdateChildren, UpdatePhase, Wording,
};
use crate::meta::etcd::keys::forward_key;
use crate::meta::etcd::kv::{
    all_tidy, views, Check, CheckView, Key, KeyView, Meaning, Operation, Reply, Request,
    RequestView, Shape, Value, Write, WriteView,
};
use crate::meta::etcd::names_update::{
    NamesAt, NamesState, NamesStep, NamesStepView, NamesUpdate,
};
use crate::meta::store::{detailed, ErrorView, MetaError, Step, StepView};
use crate::text::{
    dec, join, join_from, law_decimal_reads_back, law_join_undoes_split, lemma_split_first,
    lemma_split_not_empty, parse_i64, parse_signed, split, split_text, strip_prefix,
};
use vstd::prelude::*;
use vstd::string::*;

verus! {

/// An entry that is to be written: a key and a value.
pub type Entry = (String, String);

/// The writes of entries, in order.
pub open spec fn puts(entries: Seq<Entry>) -> Seq<WriteView> {
    Seq::new(
        entries.len(),
        |i: int| WriteView::Put(KeyView::Plain(entries[i].0@), Meaning::Text(entries[i].1@)),
    )
}

/// The deletions of keys, in order.
pub open spec fn deletes(keys: Seq<String>) -> Seq<WriteView> {
    Seq::new(keys.len(), |i: int| WriteView::Delete(KeyView::Plain(keys[i]@)))
}

/// The value of the first entry with a key; the empty text if there is none.
pub open spec fn value_for(entries: Seq<Entry>, key: Seq<char>) -> Seq<char>
    decreases entries.len(),
{
    if entries.len() == 0 {
        Seq::empty()
    } else if entries[0].0@ == key {
        entries[0].1@
    } else {
        value_for(entries.skip(1), key)
    }
}

/// The entries with other keys.
pub open spec fn others(entries: Seq<Entry>, key: Seq<char>) -> Seq<Entry>
    decreases entries.len(),
{
    if entries.len() == 0 {
        Seq::empty()
    } else {
        let before = others(entries.drop_last(), key);
        if entries.last().0@ == key {
            before
        } else {
            before.push(entries.last())
        }
    }
}

/// Adds the writes of entries to a list.
pub fn push_puts(writes: &mut Vec<Write>, entries: &Vec<Entry>)
    ensures
        views(final(writes)@) == views(old(writes)@) + puts(entries@),
        all_tidy(old(writes)@) ==> all_tidy(final(writes)@),
{
    let ghost before = views(writes@);
    let mut i: usize = 0;
    assert(views(writes@) =~= before + puts(entries@.take(0)));
    while i < entries.len()
        invariant
            i <= entries.len(),
            views(writes@) == before + puts(entries@.take(i as int)),
            all_tidy(old(writes)@) ==> all_tidy(writes@),
        decreases entries.len() - i,
    {
        let ghost now = views(writes@);
        writes.push(
            Write::Put(Key::Plain(entries[i].0.clone()), Value::Text(entries[i].1.clone())),
        );
        assert(views(writes@) =~= now.push(puts(entries@)[i as int]));
        assert(puts(entries@.take(i + 1)) =~= puts(entries@.take(i as int)).push(
            puts(entries@)[i as int],
        ));
        i = i + 1;
        assert(views(writes@) =~= before + puts(entries@.take(i as int)));
    }
    assert(entries@.take(i as int) =~= entries@);
}

/// Adds the deletions of keys to a list.
pub fn push_deletes(writes: &mut Vec<Write>, keys: &Vec<String>)
    ensures
        views(final(writes)@) == views(old(writes)@) + deletes(keys@),
        all_tidy(old(writes)@) ==> all_tidy(final(writes)@),
{
    let ghost before = views(writes@);
    let mut i: usize = 0;
    assert(views(writes@) =~= before + deletes(keys@.take(0)));
    while i < keys.len()
        invariant
            i <= keys.len(),
            views(writes@) == before + deletes(keys@.take(i as int)),
            all_tidy(old(writes)@) ==> all_tidy(writes@),
        decreases keys.len() - i,
    {
        let ghost now = views(writes@);
        writes.push(Write::Delete(Key::Plain(keys[i].clone())));
        assert(views(writes@) =~= now.push(deletes(keys@)[i as int]));
        assert(deletes(keys@.take(i + 1)) =~= deletes(keys@.take(i as int)).push(
            deletes(keys@)[i as int],
        ));
        i = i + 1;
        assert(views(writes@) =~= before + deletes(keys@.take(i as int)));
    }
    assert(keys@.take(i as int) =~= keys@);
}

/// The writes of a creation: the checked key first, then the other entries.
pub open spec fn create_writes(forward_key: Seq<char>, entries: Seq<Entry>) -> Seq<WriteView> {
    seq![
        WriteView::Put(
            KeyView::Plain(forward_key),
            Meaning::Text(value_for(entries, forward_key)),
        ),
    ] + puts(others(entries, forward_key))
}

/// Creation of several keys if one of them does not exist: whether it was made.
pub struct AtomicCreate {
    pub forward_key: String,
    pub operations: Vec<Entry>,
}

impl Operation for AtomicCreate {
    type State = AtomicCreate;

    type Output = bool;

    type Shown = bool;

    open spec fn state(self) -> AtomicCreate {
        self
    }

    open spec fn shown(out: bool) -> bool {
        out
    }

    open spec fn ready(self) -> bool {
        true
    }

    open spec fn asks(s: AtomicCreate) -> RequestView {
        RequestView::Commit {
            checks: seq![CheckView::Absent(KeyView::Plain(s.forward_key@))],
            writes: create_writes(s.forward_key@, s.operations@),
        }
    }

    open spec fn after(s: AtomicCreate, reply: Reply) -> StepView<AtomicCreate, bool> {
        match reply {
            Reply::Committed(made) => StepView::Done(Ok(made)),
            _ => StepView::Done(Err(internal("Atomic create transaction failed: "@, reply))),
        }
    }

    fn request(&self) -> (r: Request) {
        let mut checks: Vec<Check> = Vec::new();
        checks.push(Check::Absent(Key::Plain(self.forward_key.clone())));
        let value = find_value(&self.operations, &self.forward_key);
        let mut writes: Vec<Write> = Vec::new();
        writes.push(Write::Put(Key::Plain(self.forward_key.clone()), Value::Text(value)));
        let ghost first = views(writes@);
        let rest = other_entries(&self.operations, &self.forward_key);
        push_puts(&mut writes, &rest);
        assert(views(checks@) =~= Self::asks(self.state())->checks);
        assert(views(writes@) =~= Self::asks(self.state())->writes);
        Request::Commit { checks, writes }
    }

    fn resume(self, reply: Reply) -> (r: Step<Self, bool>) {
        match reply {
            Reply::Committed(made) => Step::Done(Ok(made)),
            _ => Step::Done(Err(internal_error("Atomic create transaction failed: ", reply))),
        }
    }
}

/// The value of the first entry with a key; the empty text if there is none.
fn find_value(entries: &Vec<Entry>, key: &String) -> (r: String)
    ensures
        r@ == value_for(entries@, key@),
{
    let mut i: usize = 0;
    assert(entries@.skip(0) =~= entries@);
    while i < entries.len()
        invariant
            i <= entries.len(),
            value_for(entries@.skip(i as int), key@) == value_for(entries@, key@),
        decreases entries.len() - i,
    {
        assert(entries@.skip(i as int).skip(1) =~= entries@.skip(i + 1));
        if entries[i].0 == *key {
            return entries[i].1.clone();
        }
        i = i + 1;
    }
    String::new()
}

/// The entries with other keys.
fn other_entries(entries: &Vec<Entry>, key: &String) -> (r: Vec<Entry>)
    ensures
        r@ == others(entries@, key@),
{
    let mut r: Vec<Entry> = Vec::new();
    let mut i: usize = 0;
    while i < entries.len()
        invariant
            i <= entries.len(),
            r@ == others(entries@.take(i as int), key@),
        decreases entries.len() - i,
    {
        assert(entries@.take(i + 1).drop_last() =~= entries@.take(i as int));
        if entries[i].0 != *key {
            r.push((entries[i].0.clone(), entries[i].1.clone()));
        }
        i = i + 1;
    }
    assert(entries@.take(i as int) =~= entries@);
    r
}

/// Deletion of several keys if one key exists: whether it was made.
pub struct AtomicDelete {
    pub check_key: String,
    pub delete_keys: Vec<String>,
}

impl Operation for AtomicDelete {
    type State = AtomicDelete;

    type Output = bool;

    type Shown = bool;

    open spec fn state(self) -> AtomicDelete {
        self
    }

    open spec fn shown(out: bool) -> bool {
        out
    }

    open spec fn ready(self) -> bool {
        true
    }

    open spec fn asks(s: AtomicDelete) -> RequestView {
        RequestView::Commit {
            checks: seq![CheckView::Present(KeyView::Plain(s.check_key@))],
            writes: deletes(s.delete_keys@),
        }
    }

    open spec fn after(s: AtomicDelete, reply: Reply) -> StepView<AtomicDelete, bool> {
        match reply {
            Reply::Committed(made) => StepView::Done(Ok(made)),
            _ => StepView::Done(Err(internal("Atomic delete transaction failed: "@, reply))),
        }
    }

    fn request(&self) -> (r: Request) {
        let mut checks: Vec<Check> = Vec::new();
        checks.push(Check::Present(Key::Plain(self.check_key.clone())));
        let mut writes: Vec<Write> = Vec::new();
        push_deletes(&mut writes, &self.delete_keys);
        assert(views(checks@) =~= Self::asks(self.state())->checks);
        assert(views(writes@) =~= Self::asks(self.state())->writes);
        Request::Commit { checks, writes }
    }

    fn resume(self, reply: Reply) -> (r: Step<Self, bool>) {
        match reply {
            Reply::Committed(made) => Step::Done(Ok(made)),
            _ => Step::Done(Err(internal_error("Atomic delete transaction failed: ", reply))),
        }
    }
}

/// Writes and deletions that are made if one key exists and another does not.
pub struct AtomicRename {
    pub old_forward_key: String,
    pub new_forward_key: String,
    pub operations: Vec<Entry>,
    pub delete_keys: Vec<String>,
    pub phase: AtomicRenamePhase,
}

/// How far a rename has come.
pub enum AtomicRenamePhase {
    /// The transaction is made.
    Commit,
    /// It was refused; the old key is read.
    Old,
    /// The new key is read; whether the old one exists is known.
    New { old_exists: bool },
}

/// The error of a rename onto a key that exists: by the directory and the name,
/// where the key has them.
pub open spec fn target_exists(key: Seq<char>) -> ErrorView {
    let parts = split(key, ':');
    if parts.len() >= 3 && parse_signed(parts[1]) is Ok {
        ErrorView::AlreadyExists {
            parent: parse_signed(parts[1])->Ok_0 as i64,
            name: join(parts.skip(2), ':'),
        }
    } else {
        ErrorView::Internal("Target already exists"@)
    }
}

/// The error of a rename onto a key that exists.
fn target_exists_error(key: &str) -> (r: MetaError)
    ensures
        r@ == target_exists(key@),
{
    let parts = split_text(key, ':');
    let ghost p = split(key@, ':');
    assert(p.len() == parts@.len());
    if parts.len() >= 3 {
        assert(p[1] == parts@[1]@);
        match parse_i64(parts[1].as_str()) {
            Ok(parent) => {
                proof {
                    reveal_strlit(":");
                    assert(":"@ =~= seq![':']);
                }
                let name = join_from(&parts, 2, ":", ':');
                return MetaError::AlreadyExists { parent, name };
            },
            Err(_) => {},
        }
    }
    MetaError::Internal(String::from_str("Target already exists"))
}

/// Whether a reply shows that the key exists; a failed read shows nothing.
pub open spec fn shows_key(reply: Reply) -> bool {
    reply is Malformed || (reply matches Reply::Value(found) && found is Some)
}

/// Whether a reply shows that the key exists.
fn key_shown(reply: &Reply) -> (r: bool)
    ensures
        r == shows_key(*reply),
{
    match reply {
        Reply::Malformed(_) => true,
        Reply::Value(found) => found.is_some(),
        _ => false,
    }
}

impl AtomicRename {
    /// The state in another phase.
    pub open spec fn at(self, phase: AtomicRenamePhase) -> AtomicRename {
        AtomicRename { phase, ..self }
    }
}

impl Operation for AtomicRename {
    type State = AtomicRename;

    type Output = ();

    type Shown = ();

    open spec fn state(self) -> AtomicRename {
        self
    }

    open spec fn shown(out: ()) -> () {
        out
    }

    open spec fn ready(self) -> bool {
        true
    }

    open spec fn asks(s: AtomicRename) -> RequestView {
        match s.phase {
            AtomicRenamePhase::Commit => RequestView::Commit {
                checks: seq![
                    CheckView::Present(KeyView::Plain(s.old_forward_key@)),
                    CheckView::Absent(KeyView::Plain(s.new_forward_key@)),
                ],
                writes: puts(s.operations@) + deletes(s.delete_keys@),
            },
            AtomicRenamePhase::Old => RequestView::Get(
                KeyView::Plain(s.old_forward_key@),
                Shape::Text,
            ),
            AtomicRenamePhase::New { .. } => RequestView::Get(
                KeyView::Plain(s.new_forward_key@),
                Shape::Text,
            ),
        }
    }

    open spec fn after(s: AtomicRename, reply: Reply) -> StepView<AtomicRename, ()> {
        match s.phase {
            AtomicRenamePhase::Commit => match reply {
                Reply::Committed(true) => StepView::Done(Ok(())),
                Reply::Committed(false) => StepView::Next(s.at(AtomicRenamePhase::Old)),
                _ => StepView::Done(Err(internal("Atomic rename transaction failed: "@, reply))),
            },
            AtomicRenamePhase::Old => StepView::Next(
                s.at(AtomicRenamePhase::New { old_exists: shows_key(reply) }),
            ),
            AtomicRenamePhase::New { old_exists } => StepView::Done(
                Err(
                    if !old_exists {
                        ErrorView::NotFound(0)
                    } else if shows_key(reply) {
                        target_exists(s.new_forward_key@)
                    } else {
                        ErrorView::Internal("Rename transaction failed"@)
                    },
                ),
            ),
        }
    }

    fn request(&self) -> (r: Request) {
        match &self.phase {
            AtomicRenamePhase::Commit => {
                let mut checks: Vec<Check> = Vec::new();
                checks.push(Check::Present(Key::Plain(self.old_forward_key.clone())));
                checks.push(Check::Absent(Key::Plain(self.new_forward_key.clone())));
                let mut writes: Vec<Write> = Vec::new();
                push_puts(&mut writes, &self.operations);
                push_deletes(&mut writes, &self.delete_keys);
                assert(views(checks@) =~= Self::asks(self.state())->checks);
                assert(views(writes@) =~= Self::asks(self.state())->writes);
                Request::Commit { checks, writes }
            },
            AtomicRenamePhase::Old => Request::Get(
                Key::Plain(self.old_forward_key.clone()),
                Shape::Text,
            ),
            AtomicRenamePhase::New { .. } => Request::Get(
                Key::Plain(self.new_forward_key.clone()),
                Shape::Text,
            ),
        }
    }

    fn resume(self, reply: Reply) -> (r: Step<Self, ()>) {
        let AtomicRename { old_forward_key, new_forward_key, operations, delete_keys, phase } =
            self;
        let next = match phase {
            AtomicRenamePhase::Commit => match reply {
                Reply::Committed(true) => return Step::Done(Ok(())),
                Reply::Committed(false) => AtomicRenamePhase::Old,
                _ => {
                    return Step::Done(
                        Err(internal_error("Atomic rename transaction failed: ", reply)),
                    );
                },
            },
            AtomicRenamePhase::Old => AtomicRenamePhase::New { old_exists: key_shown(&reply) },
            AtomicRenamePhase::New { old_exists } => {
                return Step::Done(
                    Err(
                        if !old_exists {
                            MetaError::NotFound(0)
                        } else if key_shown(&reply) {
                            target_exists_error(new_forward_key.as_str())
                        } else {
                            MetaError::Internal(String::from_str("Rename transaction failed"))
                        },
                    ),
                );
            },
        };
        Step::Next(
            AtomicRename { old_forward_key, new_forward_key, operations, delete_keys, phase: next },
        )
    }
}

/// Updates the names in a directory; see `UpdateChildren`.
pub fn update_parent_children_cas(parent_ino: i64, change: Change, max_retries: usize) -> (r: Step<
    UpdateChildren,
    (),
>)
    ensures
        max_retries > 0 ==> r == Step::<UpdateChildren, ()>::Next(
            UpdateChildren {
                parent: parent_ino,
                change,
                max_retries,
                wording: Wording::Parent,
                retry: 0,
                phase: UpdatePhase::Read,
            },
        ),
        max_retries == 0 ==> (r matches Step::Done(Err(e)) && e@ == ErrorView::Internal(
            "CAS update failed: unreachable"@,
        )),
{
    UpdateChildren::start(parent_ino, change, max_retries, Wording::Parent)
}

/// Updates the names in a directory by a function of the caller's; see `NamesUpdate`.
pub fn update_parent_children(parent_ino: i64, max_retries: usize) -> (r: NamesStep)
    ensures
        r@ == (if max_retries == 0 {
            NamesStepView::Done(Err(ErrorView::Internal("CAS update failed: unreachable"@)))
        } else {
            NamesStepView::Ask(
                NamesState {
                    parent: parent_ino,
                    max_retries: max_retries as int,
                    wording: Wording::Parent,
                    retry: 0,
                    phase: NamesAt::Read,
                },
            )
        }),
        r matches NamesStep::Ask(op) ==> op.ready(),
{
    NamesUpdate::start(parent_ino, max_retries, Wording::Parent)
}

/// Creates several keys if one of them does not exist.
pub fn atomic_create_with_check(forward_key: String, operations: Vec<Entry>) -> (r: AtomicCreate)
    ensures
        r == (AtomicCreate { forward_key, operations }),
{
    AtomicCreate { forward_key, operations }
}

/// Deletes several keys if one key exists.
pub fn atomic_delete_with_check(check_key: String, delete_keys: Vec<String>) -> (r: AtomicDelete)
    ensures
        r == (AtomicDelete { check_key, delete_keys }),
{
    AtomicDelete { check_key, delete_keys }
}

/// Writes and deletes keys if one key exists and another does not.
pub fn atomic_rename(
    old_forward_key: String,
    new_forward_key: String,
    operations: Vec<Entry>,
    delete_keys: Vec<String>,
) -> (r: AtomicRename)
    ensures
        r == (AtomicRename {
            old_forward_key,
            new_forward_key,
            operations,
            delete_keys,
            phase: AtomicRenamePhase::Commit,
        }),
{
    AtomicRename {
        old_forward_key,
        new_forward_key,
        operations,
        delete_keys,
        phase: AtomicRenamePhase::Commit,
    }
}

/// The directory that the key of a list of names is of.
pub fn children_key_inode(key: &str) -> (r: Result<i64, MetaError>)
    ensures
        match r {
            Ok(ino) => "c:"@.is_prefix_of(key@) && parse_signed(key@.skip("c:"@.len() as int)) == Ok::<
                int,
                crate::text::NumberError,
            >(ino as int),
            Err(e) => e@ == ErrorView::Internal("Invalid children key format: "@ + key@) && !(
            "c:"@.is_prefix_of(key@) && parse_signed(key@.skip("c:"@.len() as int)) is Ok),
        },
{
    match strip_prefix(key, "c:") {
        Some(rest) => match parse_i64(rest) {
            Ok(ino) => Ok(ino),
            Err(_) => Err(MetaError::Internal(detailed("Invalid children key format: ", key))),
        },
        None => Err(MetaError::Internal(detailed("Invalid children key format: ", key))),
    }
}

/// The directory that the key of a list of names is of, if it is such a key.
pub open spec fn directory_of_key(key: Seq<char>) -> Option<int> {
    if "c:"@.is_prefix_of(key) {
        match parse_signed(key.skip("c:"@.len() as int)) {
            Ok(ino) => Some(ino),
            Err(_) => None,
        }
    } else {
        None
    }
}

/// Updates the names under a key by a function of the caller's; see `NamesUpdate`. A key that is
/// of no directory is refused.
pub fn update_children_under_key(key: &str, max_retries: usize) -> (r: NamesStep)
    ensures
        match directory_of_key(key@) {
            Some(ino) => r@ == (if max_retries == 0 {
                NamesStepView::Done(Err(ErrorView::Internal("CAS update failed: unreachable"@)))
            } else {
                NamesStepView::Ask(
                    NamesState {
                        parent: ino as i64,
                        max_retries: max_retries as int,
                        wording: Wording::Key,
                        retry: 0,
                        phase: NamesAt::Read,
                    },
                )
            }),
            None => r@ == NamesStepView::Done(
                Err(ErrorView::Internal("Invalid children key format: "@ + key@)),
            ),
        },
        r matches NamesStep::Ask(op) ==> op.ready(),
{
    match children_key_inode(key) {
        Ok(ino) => NamesUpdate::start(ino, max_retries, Wording::Key),
        Err(e) => NamesStep::Done(Err(e)),
    }
}

/// A rename onto a name that exists is refused with that name and its directory.
pub proof fn law_rename_names_its_target(parent: i64, name: Seq<char>)
    ensures
        target_exists(forward_key(parent as int, name)) == (ErrorView::AlreadyExists {
            parent,
            name,
        }),
{
    reveal_strlit("f:");
    reveal_strlit(":");
    reveal_strlit("f");
    let d = dec(parent as int);
    law_decimal_reads_back(parent);
    assert forall|i: int| 0 <= i < d.len() implies d[i] != ':' by {
        crate::meta::etcd::keys::lemma_dec_has_no_colon(parent as int, i);
    }
    let key = forward_key(parent as int, name);
    assert(key =~= "f"@ + seq![':'] + (d + seq![':'] + name));
    lemma_split_first("f"@, ':', d + seq![':'] + name);
    lemma_split_first(d, ':', name);
    lemma_split_not_empty(name, ':');
    assert(split(key, ':').skip(2) =~= split(name, ':'));
    law_join_undoes_split(name, ':');
}

/// The key of the names in a directory is of that directory, and a key of another form is of none.
pub proof fn law_keys_of_names_tell_their_directory(ino: i64, key: Seq<char>)
    ensures
        directory_of_key("c:"@ + dec(ino as int)) == Some(ino as int),
        !"c:"@.is_prefix_of(key) ==> directory_of_key(key) is None,
{
    reveal_strlit("c:");
    let k = "c:"@ + dec(ino as int);
    law_decimal_reads_back(ino);
    assert(k.subrange(0, 2) =~= "c:"@);
    assert(k.skip(2) =~= dec(ino as int));
}

} // verus!
