//! Requests to the key-value service, its replies, and what they mean.
//!
//! A store operation is a state that names the request it waits on and says,
//! for each reply, how it goes on. The service itself is modelled by `Kv`: what
//! each key holds, and at which revision it was last written.

use crate::meta::entities::{EtcdDirChildren, EtcdEntryInfo, EtcdForwardEntry, EtcdPlacedEntry};
use crate::meta::etcd::keys::{
    children_key, etcd_children_key, etcd_forward_key, etcd_reverse_key, forward_key, reverse_key,
};
use crate::meta::store::{ErrorView, MetaError, Step, StepView};
use vstd::prelude::*;
use vstd::string::*;

verus! {

/// A key of the service.
#[derive(Debug, Clone)]
pub enum Key {
    /// A name in a directory.
    Forward { parent: i64, name: String },
    /// The metadata of an inode.
    Entry(i64),
    /// The names in a directory.
    Children(i64),
    /// A key that is written out.
    Plain(String),
}

/// A key with its texts as sequences of characters.
pub enum KeyView {
    Forward(i64, Seq<char>),
    Entry(i64),
    Children(i64),
    Plain(Seq<char>),
}

impl View for Key {
    type V = KeyView;

    open spec fn view(&self) -> KeyView {
        match *self {
            Key::Forward { parent, name } => KeyView::Forward(parent, name@),
            Key::Entry(ino) => KeyView::Entry(ino),
            Key::Children(ino) => KeyView::Children(ino),
            Key::Plain(text) => KeyView::Plain(text@),
        }
    }
}

impl KeyView {
    /// The key as the service sees it.
    pub open spec fn text(self) -> Seq<char> {
        match self {
            KeyView::Forward(parent, name) => forward_key(parent as int, name),
            KeyView::Entry(ino) => reverse_key(ino as int),
            KeyView::Children(ino) => children_key(ino as int),
            KeyView::Plain(text) => text,
        }
    }
}

impl Key {
    /// The key as the service sees it.
    pub fn text(&self) -> (r: String)
        ensures
            r@ == self@.text(),
    {
        match self {
            Key::Forward { parent, name } => etcd_forward_key(*parent, name.as_str()),
            Key::Entry(ino) => etcd_reverse_key(*ino),
            Key::Children(ino) => etcd_children_key(*ino),
            Key::Plain(text) => text.clone(),
        }
    }
}

/// A value of the service.
#[derive(Debug, Clone)]
pub enum Value {
    Forward(EtcdForwardEntry),
    Entry(EtcdEntryInfo),
    Placed(EtcdPlacedEntry),
    Children(EtcdDirChildren),
    Text(String),
}

/// What a value says: texts as sequences of characters, names as a set.
pub enum Meaning {
    Forward { parent: i64, name: Seq<char>, inode: i64, is_file: bool },
    Entry(EtcdEntryInfo),
    Placed { info: EtcdEntryInfo, parent: i64, name: Seq<char> },
    Children { inode: i64, names: Set<Seq<char>> },
    Text(Seq<char>),
}

/// The set of the names in a list.
pub open spec fn name_set(names: Seq<String>) -> Set<Seq<char>> {
    Set::new(|n: Seq<char>| exists|i: int| 0 <= i < names.len() && #[trigger] names[i]@ == n)
}

/// What a forward entry says.
pub open spec fn forward_meaning(e: EtcdForwardEntry) -> Meaning {
    Meaning::Forward { parent: e.parent_inode, name: e.name@, inode: e.inode, is_file: e.is_file }
}

/// What a list of names says.
pub open spec fn children_meaning(c: EtcdDirChildren) -> Meaning {
    Meaning::Children { inode: c.inode, names: name_set(c.children@) }
}

impl View for Value {
    type V = Meaning;

    open spec fn view(&self) -> Meaning {
        match *self {
            Value::Forward(e) => forward_meaning(e),
            Value::Entry(e) => Meaning::Entry(e),
            Value::Placed(e) => Meaning::Placed {
                info: e.info,
                parent: e.parent_inode,
                name: e.entry_name@,
            },
            Value::Children(c) => children_meaning(c),
            Value::Text(t) => Meaning::Text(t@),
        }
    }
}

/// The kind of value that a read expects.
#[derive(Debug, Clone, Copy, PartialEq, Eq, Structural)]
pub enum Shape {
    Forward,
    Entry,
    Placed,
    Children,
    Text,
}

/// Whether no name occurs twice in a list.
pub open spec fn distinct(names: Seq<String>) -> bool {
    forall|i: int, j: int|
        0 <= i < j < names.len() ==> (#[trigger] names[i])@ != (#[trigger] names[j])@
}

/// Whether a value holds each name at most once.
pub open spec fn tidy(v: Value) -> bool {
    v matches Value::Children(c) ==> distinct(c.children@)
}

/// Whether a value is of the kind. No list of names holds a name twice.
pub open spec fn has_shape(v: Value, shape: Shape) -> bool {
    match v {
        Value::Forward(_) => shape == Shape::Forward,
        Value::Entry(_) => shape == Shape::Entry,
        Value::Placed(_) => shape == Shape::Placed,
        Value::Children(c) => shape == Shape::Children && distinct(c.children@),
        Value::Text(_) => shape == Shape::Text,
    }
}

/// A condition of a transaction.
#[derive(Debug, Clone)]
pub enum Check {
    /// The key was never created, or was deleted.
    Absent(Key),
    /// The key exists.
    Present(Key),
    /// The key was last written at the revision.
    Unchanged(Key, i64),
}

/// A condition of a transaction, over key views.
pub enum CheckView {
    Absent(KeyView),
    Present(KeyView),
    Unchanged(KeyView, i64),
}

impl View for Check {
    type V = CheckView;

    open spec fn view(&self) -> CheckView {
        match *self {
            Check::Absent(k) => CheckView::Absent(k@),
            Check::Present(k) => CheckView::Present(k@),
            Check::Unchanged(k, rev) => CheckView::Unchanged(k@, rev),
        }
    }
}

/// A write of a transaction.
#[derive(Debug, Clone)]
pub enum Write {
    Put(Key, Value),
    Delete(Key),
}

/// A write of a transaction, over views.
pub enum WriteView {
    Put(KeyView, Meaning),
    Delete(KeyView),
}

impl View for Write {
    type V = WriteView;

    open spec fn view(&self) -> WriteView {
        match *self {
            Write::Put(k, v) => WriteView::Put(k@, v@),
            Write::Delete(k) => WriteView::Delete(k@),
        }
    }
}

/// A request to the service.
#[derive(Debug, Clone)]
pub enum Request {
    /// Read a key.
    Get(Key, Shape),
    /// Write a key.
    Put(Key, Value),
    /// Delete a key.
    Delete(Key),
    /// Make all writes if all checks hold, and none otherwise.
    Commit { checks: Vec<Check>, writes: Vec<Write> },
    /// A number for a new inode.
    NewId,
    /// A pause of that many milliseconds.
    Wait(u64),
}

/// A request, over views.
pub enum RequestView {
    Get(KeyView, Shape),
    Put(KeyView, Meaning),
    Delete(KeyView),
    Commit { checks: Seq<CheckView>, writes: Seq<WriteView> },
    NewId,
    Wait(u64),
}

/// Whether the values that a request writes hold each name at most once.
pub open spec fn writes_tidy(r: Request) -> bool {
    match r {
        Request::Put(_, v) => tidy(v),
        Request::Commit { writes, .. } => all_tidy(writes@),
        _ => true,
    }
}

/// Whether the values of writes hold each name at most once.
pub open spec fn all_tidy(writes: Seq<Write>) -> bool {
    forall|i: int|
        0 <= i < writes.len() ==> ((#[trigger] writes[i]) matches Write::Put(_, v) ==> tidy(v))
}

/// The views of the elements of a list.
pub open spec fn views<T: View>(s: Seq<T>) -> Seq<T::V> {
    Seq::new(s.len(), |i: int| s[i]@)
}

impl View for Request {
    type V = RequestView;

    open spec fn view(&self) -> RequestView {
        match *self {
            Request::Get(k, shape) => RequestView::Get(k@, shape),
            Request::Put(k, v) => RequestView::Put(k@, v@),
            Request::Delete(k) => RequestView::Delete(k@),
            Request::Commit { checks, writes } => RequestView::Commit {
                checks: views(checks@),
                writes: views(writes@),
            },
            Request::NewId => RequestView::NewId,
            Request::Wait(ms) => RequestView::Wait(ms),
        }
    }
}

/// A reply of the service.
#[derive(Debug, Clone)]
pub enum Reply {
    /// The value of the key and the revision of its last write, if there is one.
    Value(Option<(Value, i64)>),
    /// The write was made, or the pause is over.
    Done,
    /// Whether the checks held and the writes were made.
    Committed(bool),
    /// A number for a new inode.
    Id(i64),
    /// There is no number to be had.
    Refused(MetaError),
    /// The service failed.
    Failed(String),
    /// A value could not be read or written as what it should be.
    Malformed(String),
}

/// Whether a reply is of the kind that the request calls for.
pub open spec fn fits(req: RequestView, reply: Reply) -> bool {
    match reply {
        Reply::Refused(_) => req is NewId,
        Reply::Failed(_) => req !is NewId && req !is Wait,
        Reply::Malformed(_) => req !is NewId && req !is Wait,
        Reply::Value(found) => match req {
            RequestView::Get(_, shape) => match found {
                Some(pair) => has_shape(pair.0, shape),
                None => true,
            },
            _ => false,
        },
        Reply::Done => req is Put || req is Delete || req is Wait,
        Reply::Committed(_) => req is Commit,
        Reply::Id(_) => req is NewId,
    }
}

/// An operation on the key-value service.
pub trait Operation: Sized {
    /// How the state is shown in contracts.
    type State;

    /// What the operation ends with.
    type Output;

    /// How the end is shown in contracts.
    type Shown;

    /// The view of the state.
    spec fn state(self) -> Self::State;

    /// The view of what the operation ends with.
    spec fn shown(out: Self::Output) -> Self::Shown;

    /// Whether the lists of names that the state carries hold each name at most once.
    spec fn ready(self) -> bool;

    /// The request that a state waits on.
    spec fn asks(s: Self::State) -> RequestView;

    /// How the operation goes on after a reply.
    spec fn after(s: Self::State, reply: Reply) -> StepView<Self::State, Self::Shown>;

    /// The request that the state waits on.
    fn request(&self) -> (r: Request)
        requires
            self.ready(),
        ensures
            r@ == Self::asks(self.state()),
            writes_tidy(r),
    ;

    /// Goes on after the reply to the request.
    fn resume(self, reply: Reply) -> (r: Step<Self, Self::Output>)
        requires
            self.ready(),
            fits(Self::asks(self.state()), reply),
        ensures
            r matches Step::Next(s) ==> s.ready(),
            (match r {
                Step::Next(s) => StepView::<Self::State, Self::Shown>::Next(s.state()),
                Step::Done(Ok(out)) => StepView::<Self::State, Self::Shown>::Done(
                    Ok(Self::shown(out)),
                ),
                Step::Done(Err(e)) => StepView::<Self::State, Self::Shown>::Done(Err(e@)),
            }) == Self::after(self.state(), reply),
    ;
}

/// The state of the service: what each key holds and the revision of its last
/// write, and the revision of the last write of all.
pub struct Kv {
    pub map: Map<KeyView, (Meaning, int)>,
    pub revision: int,
}

impl Kv {
    /// The state after a write.
    pub open spec fn put(self, k: KeyView, m: Meaning) -> Kv {
        Kv { map: self.map.insert(k, (m, self.revision + 1)), revision: self.revision + 1 }
    }

    /// The state after a deletion.
    pub open spec fn delete(self, k: KeyView) -> Kv {
        Kv { map: self.map.remove(k), revision: self.revision + 1 }
    }

    /// What a key holds.
    pub open spec fn get(self, k: KeyView) -> Option<Meaning> {
        if self.map.dom().contains(k) {
            Some(self.map[k].0)
        } else {
            None
        }
    }

    /// Whether a check holds.
    pub open spec fn holds(self, c: CheckView) -> bool {
        match c {
            CheckView::Absent(k) => !self.map.dom().contains(k),
            CheckView::Present(k) => self.map.dom().contains(k),
            CheckView::Unchanged(k, rev) => self.map.dom().contains(k) && self.map[k].1 == rev,
        }
    }

    /// The keys after one write of a transaction at a revision.
    pub open spec fn written(
        map: Map<KeyView, (Meaning, int)>,
        w: WriteView,
        rev: int,
    ) -> Map<KeyView, (Meaning, int)> {
        match w {
            WriteView::Put(k, m) => map.insert(k, (m, rev)),
            WriteView::Delete(k) => map.remove(k),
        }
    }

    /// The keys after all writes of a transaction, in order.
    pub open spec fn all_written(
        map: Map<KeyView, (Meaning, int)>,
        ws: Seq<WriteView>,
        rev: int,
    ) -> Map<KeyView, (Meaning, int)>
        decreases ws.len(),
    {
        if ws.len() == 0 {
            map
        } else {
            Self::written(Self::all_written(map, ws.drop_last(), rev), ws.last(), rev)
        }
    }

    /// The state after a transaction whose checks hold.
    pub open spec fn commit(self, ws: Seq<WriteView>) -> Kv {
        Kv {
            map: Self::all_written(self.map, ws, self.revision + 1),
            revision: self.revision + 1,
        }
    }

    /// Whether all checks of a transaction hold.
    pub open spec fn all_hold(self, cs: Seq<CheckView>) -> bool {
        forall|i: int| 0 <= i < cs.len() ==> self.holds(#[trigger] cs[i])
    }
}

/// Whether the service in state `kv` answers the request with the reply and is
/// then in state `kv2`. A failure is no answer.
pub open spec fn answers(kv: Kv, req: RequestView, reply: Reply, kv2: Kv) -> bool {
    match req {
        RequestView::Get(k, shape) => kv2 == kv && match reply {
            Reply::Value(Some(pair)) => {
                &&& kv.map.dom().contains(k)
                &&& has_shape(pair.0, shape)
                &&& kv.map[k] == (pair.0@, pair.1 as int)
            },
            Reply::Value(None) => !kv.map.dom().contains(k),
            _ => false,
        },
        RequestView::Put(k, m) => reply is Done && kv2 == kv.put(k, m),
        RequestView::Delete(k) => reply is Done && kv2 == kv.delete(k),
        RequestView::Commit { checks, writes } => match reply {
            Reply::Committed(true) => kv.all_hold(checks) && kv2 == kv.commit(writes),
            Reply::Committed(false) => !kv.all_hold(checks) && kv2 == kv,
            _ => false,
        },
        RequestView::NewId => reply is Id && kv2 == kv,
        RequestView::Wait(_) => reply is Done && kv2 == kv,
    }
}

/// Whether the service in state `kv` fails to answer the request and is then in state `kv2`. Where
/// the reply can be lost, a write may have been made all the same.
pub open spec fn fails(kv: Kv, req: RequestView, reply: Reply, kv2: Kv, lossy: bool) -> bool {
    &&& reply is Failed || reply is Malformed || reply is Refused
    &&& fits(req, reply)
    &&& kv2 == kv || (lossy && reply is Failed && match req {
        RequestView::Put(k, m) => kv2 == kv.put(k, m),
        RequestView::Delete(k) => kv2 == kv.delete(k),
        RequestView::Commit { checks, writes } => kv.all_hold(checks) && kv2 == kv.commit(writes),
        _ => false,
    })
}

/// A step of an operation among others: the state of the service when the request comes, the
/// reply, and the state after it.
pub struct Event {
    pub before: Kv,
    pub reply: Reply,
    pub after: Kv,
}

/// Whether an operation, from state `s` on, runs through events and ends with `end`. What others do
/// to the service between two events is left open, and any request may fail.
pub open spec fn runs_among_others<O: Operation>(
    s: O::State,
    events: Seq<Event>,
    end: Result<O::Shown, ErrorView>,
    lossy: bool,
) -> bool
    decreases events.len(),
{
    &&& events.len() > 0
    &&& answers(events[0].before, O::asks(s), events[0].reply, events[0].after) || fails(
        events[0].before,
        O::asks(s),
        events[0].reply,
        events[0].after,
        lossy,
    )
    &&& match O::after(s, events[0].reply) {
        StepView::Next(s2) => runs_among_others::<O>(s2, events.drop_first(), end, lossy),
        StepView::Done(r) => events.len() == 1 && end == r,
    }
}

/// Wherever a key was last written at a revision, it holds the same value.
pub open spec fn told(events: Seq<Event>, k: KeyView, m: Meaning, revision: int) -> bool {
    forall|i: int|
        0 <= i < events.len() && (#[trigger] events[i]).before.map.dom().contains(k)
            && events[i].before.map[k].1 == revision ==> events[i].before.map[k].0 == m
}

/// A revision tells the value of a key: no write keeps the revision of what it writes.
pub open spec fn revisions_tell(events: Seq<Event>) -> bool {
    forall|i: int, k: KeyView|
        0 <= i < events.len() && (#[trigger] events[i].before.map.dom().contains(k)) ==> told(
            events,
            k,
            events[i].before.map[k].0,
            events[i].before.map[k].1,
        )
}

/// Nobody else writes between the events.
pub open spec fn undisturbed(events: Seq<Event>) -> bool {
    forall|i: int|
        0 <= i < events.len() - 1 ==> events[i + 1].before == (#[trigger] events[i]).after
}

/// Whether an operation, from state `s` on service state `kv`, runs through the
/// replies and service states of `trace` and ends with `end`.
pub open spec fn runs<O: Operation>(
    s: O::State,
    kv: Kv,
    trace: Seq<(Reply, Kv)>,
    end: (Kv, Result<O::Shown, ErrorView>),
) -> bool
    decreases trace.len(),
{
    &&& trace.len() > 0
    &&& answers(kv, O::asks(s), trace[0].0, trace[0].1)
    &&& match O::after(s, trace[0].0) {
        StepView::Next(s2) => runs::<O>(s2, trace[0].1, trace.drop_first(), end),
        StepView::Done(r) => trace.len() == 1 && end == (trace[0].1, r),
    }
}

/// The last write of a transaction comes on top of the others.
pub proof fn lemma_written_push(
    map: Map<KeyView, (Meaning, int)>,
    ws: Seq<WriteView>,
    w: WriteView,
    rev: int,
)
    ensures
        Kv::all_written(map, ws.push(w), rev) == Kv::written(
            Kv::all_written(map, ws, rev),
            w,
            rev,
        ),
{
    assert(ws.push(w).drop_last() =~= ws);
}

/// The index of a name in a list.
pub fn position_of(names: &Vec<String>, name: &String) -> (r: Option<usize>)
    ensures
        match r {
            Some(i) => i < names.len() && names[i as int]@ == name@,
            None => !name_set(names@).contains(name@),
        },
{
    let mut i: usize = 0;
    while i < names.len()
        invariant
            i <= names.len(),
            forall|j: int| 0 <= j < i ==> (#[trigger] names[j])@ != name@,
        decreases names.len() - i,
    {
        if names[i] == *name {
            return Some(i);
        }
        i = i + 1;
    }
    None
}

/// Adding a name to a list adds it to the set.
proof fn lemma_name_set_push(names: Seq<String>, name: String)
    ensures
        name_set(names.push(name)) == name_set(names).insert(name@),
{
    let more = names.push(name);
    assert forall|n: Seq<char>| name_set(names).insert(name@).contains(n) implies name_set(
        more,
    ).contains(n) by {
        if n == name@ {
            assert(more[names.len() as int]@ == n);
        } else {
            let j = choose|j: int| 0 <= j < names.len() && #[trigger] names[j]@ == n;
            assert(more[j]@ == n);
        }
    }
    assert forall|n: Seq<char>| name_set(more).contains(n) implies name_set(names).insert(
        name@,
    ).contains(n) by {
        let j = choose|j: int| 0 <= j < more.len() && #[trigger] more[j]@ == n;
        if j < names.len() {
            assert(names[j]@ == n);
        }
    }
    assert(name_set(more) =~= name_set(names).insert(name@));
}

/// The names with one added.
pub fn with_name(names: &Vec<String>, name: &String) -> (r: Vec<String>)
    ensures
        name_set(r@) == name_set(names@).insert(name@),
        distinct(names@) ==> distinct(r@),
{
    let mut r = copy_names(names);
    match position_of(names, name) {
        Some(i) => {
            assert(name_set(names@).contains(name@)) by {
                assert(names@[i as int]@ == name@);
            }
            assert(name_set(r@) =~= name_set(names@).insert(name@));
        },
        None => {
            proof {
                lemma_name_set_push(names@, *name);
            }
            r.push(name.clone());
            assert(distinct(names@) ==> distinct(r@)) by {
                assert forall|i: int| 0 <= i < names@.len() implies (#[trigger] r@[i])@ != name@ by {
                    assert(names@[i] == r@[i]);
                }
            }
        },
    }
    r
}

/// A copy of a list of names.
pub fn copy_names(names: &Vec<String>) -> (r: Vec<String>)
    ensures
        r@ == names@,
{
    let mut r: Vec<String> = Vec::new();
    let mut i: usize = 0;
    while i < names.len()
        invariant
            i <= names.len(),
            r@ == names@.take(i as int),
        decreases names.len() - i,
    {
        r.push(names[i].clone());
        i = i + 1;
    }
    assert(r@ =~= names@);
    r
}

/// The names without one.
pub fn without_name(names: &Vec<String>, name: &String) -> (r: Vec<String>)
    ensures
        name_set(r@) == name_set(names@).remove(name@),
        distinct(names@) ==> distinct(r@),
{
    let mut r: Vec<String> = Vec::new();
    let mut i: usize = 0;
    assert(name_set(r@) =~= name_set(names@.take(0)).remove(name@));
    while i < names.len()
        invariant
            i <= names.len(),
            name_set(r@) == name_set(names@.take(i as int)).remove(name@),
            distinct(names@) ==> distinct(r@),
        decreases names.len() - i,
    {
        proof {
            assert(names@.take(i + 1) =~= names@.take(i as int).push(names@[i as int]));
            lemma_name_set_push(names@.take(i as int), names@[i as int]);
            lemma_name_set_push(r@, names@[i as int]);
        }
        if names[i] != *name {
            proof {
                if distinct(names@) {
                    assert forall|k: int| 0 <= k < r@.len() implies (#[trigger] r@[k])@
                        != names@[i as int]@ by {
                        assert(name_set(r@).contains(r@[k]@));
                        let j = choose|j: int|
                            0 <= j < names@.take(i as int).len() && #[trigger] names@.take(
                                i as int,
                            )[j]@ == r@[k]@;
                        assert(names@[j]@ == r@[k]@);
                    }
                }
            }
            r.push(names[i].clone());
        }
        i = i + 1;
        assert(name_set(r@) =~= name_set(names@.take(i as int)).remove(name@));
    }
    assert(names@.take(i as int) =~= names@);
    r
}

} // verus!
