//! What becomes of a failure of a database or of a key-value service.

use crate::meta::database::db::{DbOperation, DbReply};
use crate::meta::database::nodes::access_failure;
use crate::meta::database::store::db_failure;
use crate::meta::database::{listing, names, nodes, store as tables};
use crate::meta::etcd::atomic_store::{names_failure, read_failure};
use crate::meta::etcd::cas::{internal, Change, UpdateChildren, UpdateState};
use crate::meta::etcd::ids::config_failure;
use crate::meta::etcd::kv::{Operation, Reply};
use crate::meta::etcd::plain_nodes::labelled_failure;
use crate::meta::etcd::store::failure;
use crate::meta::etcd::txn::{AtomicCreate, AtomicDelete};
use crate::meta::etcd::{atomic_reads, atomic_store, ids, store};
use crate::meta::store::{ErrorView, MetaError, StepView};
use vstd::prelude::*;

verus! {

/// A failure of the database is told as one, with its text, or as an internal error where the
/// metadata of a directory were to be read; a number that is refused is refused with its error.
pub proof fn law_database_failures_are_told(text: String, e: MetaError)
    ensures
        db_failure(DbReply::Failed(text)) == ErrorView::Database(text@),
        db_failure(DbReply::Refused(e)) == e@,
        access_failure(DbReply::Failed(text)) == ErrorView::Internal("Database error: "@ + text@),
        access_failure(DbReply::Refused(e)) == e@,
{
}

/// A failure of the service is told as an internal error, or as one of the configuration where a
/// counter or a standard node was to be made, under its label and with its text; a value that
/// cannot be read is told as such by the store, and a refusal is handed on.
pub proof fn law_service_failures_are_told(
    label: Seq<char>,
    key: Seq<char>,
    text: String,
    e: MetaError,
)
    ensures
        failure(Reply::Failed(text)) == ErrorView::Internal("Etcd error: "@ + text@),
        failure(Reply::Malformed(text)) == ErrorView::Serialization(text@),
        failure(Reply::Refused(e)) == e@,
        internal(label, Reply::Failed(text)) == ErrorView::Internal(label + text@),
        internal(label, Reply::Malformed(text)) == ErrorView::Internal(label + text@),
        labelled_failure(label, Reply::Failed(text)) == ErrorView::Config(label + text@),
        labelled_failure(label, Reply::Malformed(text)) == ErrorView::Serialization(text@),
        labelled_failure(label, Reply::Refused(e)) == e@,
        config_failure(label, Reply::Failed(text)) == ErrorView::Config(label + text@),
        config_failure(label, Reply::Malformed(text)) == ErrorView::Config(label + text@),
        names_failure(Reply::Failed(text)) == ErrorView::Internal(
            "Failed to get key for CAS: "@ + text@,
        ),
        names_failure(Reply::Malformed(text)) == ErrorView::Internal(
            "Failed to parse children: "@ + text@,
        ),
        read_failure(key, Reply::Failed(text)) == ErrorView::Internal(
            "Failed to get key "@ + key + ": "@ + text@,
        ),
        read_failure(key, Reply::Malformed(text)) == ErrorView::Internal(
            "Failed to parse "@ + key + ": "@ + text@,
        ),
{
}

/// A change of the names of a directory adds, removes or replaces the name it is about, and leaves
/// every other name as it is.
pub proof fn law_changes_touch_their_names_alone(
    names: Set<Seq<char>>,
    name: String,
    new_name: String,
    other: Seq<char>,
)
    ensures
        Change::Add(name).applied(names).contains(name@),
        !Change::Remove(name).applied(names).contains(name@),
        (Change::Replace { old_name: name, new_name }).applied(names).contains(new_name@),
        name@ != new_name@ ==> !(Change::Replace { old_name: name, new_name }).applied(
            names,
        ).contains(name@),
        other != name@ ==> Change::Add(name).applied(names).contains(other) == names.contains(
            other,
        ),
        other != name@ ==> Change::Remove(name).applied(names).contains(other) == names.contains(
            other,
        ),
        other != name@ && other != new_name@ ==> (Change::Replace {
            old_name: name,
            new_name,
        }).applied(names).contains(other) == names.contains(other),
{
}

/// Whether an operation on the tables ends with an error when the database fails it.
pub open spec fn fails_as<O: DbOperation>(s: O::State, text: String, e: ErrorView) -> bool {
    O::after(s, DbReply::Failed(text)) == StepView::<O::State, O::Shown>::Done(Err(e))
}

/// A failure of the database ends every operation, wherever it has come to, with that failure.
pub proof fn law_database_failures_end_operations(
    create: tables::Create,
    getattr: tables::Getattr,
    setattr: tables::Setattr,
    lookup: listing::Lookup,
    readdir: listing::Readdir,
    batch: listing::BatchState,
    plus: listing::ReaddirplusState,
    rename: names::Rename,
    unlink: names::Unlink,
    rmdir: names::Rmdir,
    node: nodes::CreateNode,
    root: nodes::InitRoot,
    text: String,
)
    ensures
        fails_as::<tables::Create>(create, text, ErrorView::Database(text@)),
        fails_as::<tables::Getattr>(getattr, text, ErrorView::Database(text@)),
        fails_as::<tables::Setattr>(setattr, text, ErrorView::Database(text@)),
        fails_as::<listing::Lookup>(lookup, text, ErrorView::Database(text@)),
        fails_as::<listing::Readdir>(readdir, text, ErrorView::Database(text@)),
        fails_as::<listing::GetattrBatch>(batch, text, ErrorView::Database(text@)),
        fails_as::<listing::Readdirplus>(plus, text, ErrorView::Database(text@)),
        fails_as::<names::Rename>(rename, text, ErrorView::Database(text@)),
        fails_as::<names::Unlink>(unlink, text, ErrorView::Database(text@)),
        fails_as::<names::Rmdir>(rmdir, text, ErrorView::Database(text@)),
        node.phase !is Parent ==> fails_as::<nodes::CreateNode>(
            node,
            text,
            ErrorView::Database(text@),
        ),
        node.phase is Parent ==> fails_as::<nodes::CreateNode>(
            node,
            text,
            ErrorView::Internal("Database error: "@ + text@),
        ),
        root.missing ==> fails_as::<nodes::InitRoot>(root, text, ErrorView::Database(text@)),
        !root.missing ==> fails_as::<nodes::InitRoot>(
            root,
            text,
            ErrorView::Internal("Database error: "@ + text@),
        ),
{
}

/// Whether an operation on the keys ends with an error when the service fails it.
pub open spec fn stops_as<O: Operation>(s: O::State, text: String, e: ErrorView) -> bool {
    O::after(s, Reply::Failed(text)) == StepView::<O::State, O::Shown>::Done(Err(e))
}

/// Whether an operation on the keys ends with an internal error when the service fails it.
pub open spec fn stops<O: Operation>(s: O::State, text: String) -> bool {
    O::after(s, Reply::Failed(text)) matches StepView::Done(Err(ErrorView::Internal(_)))
}

/// A failure of the service ends the operations of the store, wherever they have come to, with
/// that failure. There are three exceptions: a creation that cannot look its name up goes on,
/// since the transaction looks once more; a listing leaves out a name that cannot be read; and a
/// root that cannot be read is written.
pub proof fn law_service_failures_end_operations(
    create: store::Create,
    getattr: store::Getattr,
    lookup: store::Lookup,
    readdir: store::ReaddirState,
    setattr: store::Setattr,
    rename: store::Rename,
    unlink: store::Unlink,
    rmdir: store::Rmdir,
    root: store::InitRoot,
    text: String,
)
    ensures
        ({
            let e = ErrorView::Internal("Etcd error: "@ + text@);
            &&& create.phase !is Name ==> stops_as::<store::Create>(create, text, e)
            &&& create.phase is Name ==> store::Create::after(create, Reply::Failed(text)) is Next
            &&& stops_as::<store::Getattr>(getattr, text, e)
            &&& stops_as::<store::Lookup>(lookup, text, e)
            &&& readdir is Names ==> stops_as::<store::Readdir>(readdir, text, e)
            &&& stops_as::<store::Setattr>(setattr, text, e)
            &&& stops_as::<store::Rename>(rename, text, e)
            &&& stops_as::<store::Unlink>(unlink, text, e)
            &&& stops_as::<store::Rmdir>(rmdir, text, e)
            &&& root is Read ==> store::InitRoot::after(root, Reply::Failed(text)) is Next
            &&& root is Write ==> (store::InitRoot::after(root, Reply::Failed(text))
                matches StepView::Done(Err(_)))
        }),
{
}

/// A failure of the service ends the operations on nodes, on counters and on keys with an error
/// that says so, wherever they have come to.
pub proof fn law_service_failures_end_node_operations(
    create: atomic_store::CreateNodeState,
    remove: atomic_store::RemoveNodeState,
    rename: atomic_store::RenameNodeState,
    size: atomic_reads::SetFileSize,
    parent: atomic_reads::GetParent,
    name: atomic_reads::GetName,
    path: atomic_reads::GetPathState,
    update: UpdateState,
    counter: ids::NextId,
    generate: ids::GenerateId,
    several: AtomicCreate,
    fewer: AtomicDelete,
    text: String,
)
    ensures
        create.phase is Parent ==> stops_as::<atomic_store::CreateNode>(
            create,
            text,
            ErrorView::ParentNotFound(create.parent),
        ),
        create.phase !is Parent ==> stops::<atomic_store::CreateNode>(create, text),
        stops::<atomic_store::RemoveNode>(remove, text),
        stops::<atomic_store::RenameNode>(rename, text),
        stops::<atomic_reads::SetFileSize>(size, text),
        stops::<atomic_reads::GetParent>(parent, text),
        stops::<atomic_reads::GetName>(name, text),
        stops::<atomic_reads::GetPath>(path, text),
        stops::<UpdateChildren>(update, text),
        counter.phase !is Pause ==> stops::<ids::NextId>(counter, text),
        ids::GenerateId::after(generate, Reply::Failed(text)) matches StepView::Done(
            Err(ErrorView::Config(_)),
        ),
        stops::<AtomicCreate>(several, text),
        stops::<AtomicDelete>(fewer, text),
{
}

/// An operation of the store whose transaction others disturbed begins anew, ten times in all, and
/// then gives up.
pub proof fn law_disturbed_operations_begin_anew(
    create: store::Create,
    rename: store::Rename,
    unlink: store::Unlink,
    rmdir: store::Rmdir,
)
    ensures
        store::Create::asks(create) is Commit ==> if create.retry < 9 {
            store::Create::after(create, Reply::Committed(false)) matches StepView::Next(next)
                && next.retry == create.retry + 1 && next.phase is Parent && next.params
                == create.params && next.now == create.now
        } else {
            store::Create::after(create, Reply::Committed(false)) matches StepView::Done(Err(_))
        },
        store::Rename::asks(rename) is Commit ==> if rename.retry < 9 {
            store::Rename::after(rename, Reply::Committed(false)) matches StepView::Next(next)
                && next.retry == rename.retry + 1 && next.phase is Source
        } else {
            store::Rename::after(rename, Reply::Committed(false)) matches StepView::Done(Err(_))
        },
        store::Unlink::asks(unlink) is Commit ==> if unlink.retry < 9 {
            store::Unlink::after(unlink, Reply::Committed(false)) matches StepView::Next(next)
                && next.retry == unlink.retry + 1 && next.phase is Source
        } else {
            store::Unlink::after(unlink, Reply::Committed(false)) matches StepView::Done(Err(_))
        },
        store::Rmdir::asks(rmdir) is Commit ==> if rmdir.retry < 9 {
            store::Rmdir::after(rmdir, Reply::Committed(false)) matches StepView::Next(next)
                && next.retry == rmdir.retry + 1 && next.phase is Source
        } else {
            store::Rmdir::after(rmdir, Reply::Committed(false)) matches StepView::Done(Err(_))
        },
{
}

/// An operation on nodes whose transaction others disturbed begins anew, ten times in all, and
/// then gives up.
pub proof fn law_disturbed_node_operations_begin_anew(
    create: atomic_store::CreateNodeState,
    ino: i64,
    remove: atomic_store::RemoveNodeState,
    rename: atomic_store::RenameNodeState,
)
    ensures
        create.retry < 9 ==> (create.again(ino) matches StepView::Next(next) && next.retry
            == create.retry + 1 && next.name == create.name && next.parent == create.parent),
        create.retry >= 9 ==> (create.again(ino) matches StepView::Done(Err(ErrorView::Internal(_)))),
        remove.retry < 9 ==> (remove.again() matches StepView::Next(next) && next.retry
            == remove.retry + 1 && next.name == remove.name && next.parent == remove.parent),
        remove.retry >= 9 ==> (remove.again() matches StepView::Done(Err(ErrorView::Internal(_)))),
        rename.retry < 9 ==> (rename.again() matches StepView::Next(next) && next.retry
            == rename.retry + 1),
        rename.retry >= 9 ==> (rename.again() matches StepView::Done(Err(ErrorView::Internal(_)))),
{
}

} // verus!
