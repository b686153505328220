//! What the answers of the stores and of the client are made of.

use crate::meta::cache::{usual_config, CacheView};
use crate::meta::client::{attr_hits, attr_misses, name_hits, name_misses};
use crate::meta::database::listing::attr_map;
use crate::meta::error::MetaErrorExt;
use crate::meta::remote::{
    received_entries, received_pairs, received_plus, AttrPair, DirEntryPlus, ProtoDirEntry,
};
use crate::meta::store::{DirEntry, FileAttr, MetaError};
use crate::meta::store_v2::{batch_of, entries_with_attrs};
use crate::meta::types::Inode;
use crate::text::dec;
use vstd::prelude::*;

verus! {

/// What is missing is answered with code 2, what exists already with 17, what is no directory with
/// 20, what cannot be done on the input with 22, what is not there to be done with 38, a directory
/// with entries with 39, what is not supported with 95; a failure of the system is answered with
/// the code of the system, and every other failure with 5.
pub proof fn law_codes_tell_the_errors(e: MetaError)
    ensures
        e.errno() == 2 <== (e is NotFound || e is ParentNotFound),
        e.errno() == 17 <== e is AlreadyExists,
        e.errno() == 20 <== e is NotDirectory,
        e.errno() == 22 <== (e is InvalidPath || e is Config),
        e.errno() == 38 <== e is NotImplemented,
        e.errno() == 39 <== e is DirectoryNotEmpty,
        e.errno() == 95 <== e is NotSupported,
        e.errno() == 5 <== (e is Database || e is Serialization || e is Internal),
        e matches MetaError::Io { os_error: Some(code), .. } ==> e.errno() == code,
        e matches MetaError::Io { os_error: None, .. } ==> e.errno() == 5,
{
}

/// The usual caches hold ten thousand attributes and names for a minute, five thousand paths for
/// half a minute, and a thousand absences for five seconds; times are in milliseconds.
pub proof fn law_usual_caches()
    ensures
        usual_config().attr_capacity == 10_000 && usual_config().attr_ttl == 60 * 1000,
        usual_config().dentry_capacity == 10_000 && usual_config().dentry_ttl == 60 * 1000,
        usual_config().path_capacity == 5_000 && usual_config().path_ttl == 30 * 1000,
        usual_config().negative_capacity == 1_000 && usual_config().negative_ttl == 5 * 1000,
{
}

/// A batch of inodes is answered piece by piece: the answer to two batches one after the other is
/// the two answers one after the other, and an inode alone is answered with its attributes, or
/// left out where they could not be read.
pub proof fn law_batches_are_answered_in_order(
    inos: Seq<Inode>,
    replies: Seq<Result<FileAttr, MetaError>>,
    more: Seq<Inode>,
    more_replies: Seq<Result<FileAttr, MetaError>>,
    ino: Inode,
    attr: FileAttr,
    e: MetaError,
)
    requires
        inos.len() == replies.len(),
        more.len() == more_replies.len(),
    ensures
        batch_of(inos + more, replies + more_replies) == batch_of(inos, replies) + batch_of(
            more,
            more_replies,
        ),
        batch_of(seq![ino], seq![Ok(attr)]) == seq![(ino, attr)],
        batch_of(seq![ino], seq![Err(e)]) == Seq::<(Inode, FileAttr)>::empty(),
    decreases more.len(),
{
    reveal_with_fuel(batch_of, 2);
    assert(seq![ino].drop_last() =~= Seq::empty());
    assert(batch_of(seq![ino], seq![Ok(attr)]) =~= seq![(ino, attr)]);
    if more.len() > 0 {
        let r1 = more.drop_last();
        let r2 = more_replies.drop_last();
        law_batches_are_answered_in_order(inos, replies, r1, r2, ino, attr, e);
        assert((inos + more).drop_last() =~= inos + r1);
        assert((replies + more_replies).drop_last() =~= replies + r2);
    } else {
        assert(inos + more =~= inos);
        assert(replies + more_replies =~= replies);
    }
    assert(batch_of(inos + more, replies + more_replies) =~= batch_of(inos, replies) + batch_of(
        more,
        more_replies,
    ));
}

/// A listing with attributes has its entries in their order, each with the attributes of its
/// inode, without those that have none.
pub proof fn law_entries_get_their_attributes(
    entries: Seq<DirEntry>,
    more: Seq<DirEntry>,
    entry: DirEntry,
    attrs: Map<i64, FileAttr>,
)
    ensures
        entries_with_attrs(entries + more, attrs) == entries_with_attrs(entries, attrs)
            + entries_with_attrs(more, attrs),
        attrs.dom().contains(entry.ino) ==> entries_with_attrs(seq![entry], attrs) == seq![
            (entry, attrs[entry.ino]),
        ],
        !attrs.dom().contains(entry.ino) ==> entries_with_attrs(seq![entry], attrs) == Seq::<
            (DirEntry, FileAttr),
        >::empty(),
    decreases more.len(),
{
    reveal_with_fuel(entries_with_attrs, 2);
    assert(seq![entry].drop_last() =~= Seq::empty());
    assert(attrs.dom().contains(entry.ino) ==> entries_with_attrs(seq![entry], attrs) =~= seq![
        (entry, attrs[entry.ino]),
    ]);
    if more.len() > 0 {
        law_entries_get_their_attributes(entries, more.drop_last(), entry, attrs);
        assert((entries + more).drop_last() =~= entries + more.drop_last());
    } else {
        assert(entries + more =~= entries);
    }
    assert(entries_with_attrs(entries + more, attrs) =~= entries_with_attrs(entries, attrs)
        + entries_with_attrs(more, attrs));
}

/// An inode has the attributes of the last pair with it, and one without a pair has none.
pub proof fn law_last_pair_counts(attrs: Seq<(Inode, FileAttr)>, i: int, ino: i64)
    requires
        0 <= i < attrs.len(),
    ensures
        (forall|j: int| i < j < attrs.len() ==> (#[trigger] attrs[j]).0 != attrs[i].0) ==> attr_map(
            attrs,
        ).dom().contains(attrs[i].0.0) && attr_map(attrs)[attrs[i].0.0] == attrs[i].1,
        attr_map(attrs).dom().contains(ino) ==> exists|j: int|
            0 <= j < attrs.len() && (#[trigger] attrs[j]).0.0 == ino,
    decreases attrs.len(),
{
    let init = attrs.drop_last();
    let last = attrs.len() - 1;
    if i < last {
        if forall|j: int| i < j < attrs.len() ==> (#[trigger] attrs[j]).0 != attrs[i].0 {
            assert(attrs[last].0 != attrs[i].0);
            assert forall|j: int| i < j < init.len() implies (#[trigger] init[j]).0
                != init[i].0 by {
                assert(attrs[j].0 != attrs[i].0);
            }
        }
        law_last_pair_counts(init, i, ino);
    }
    if attr_map(attrs).dom().contains(ino) {
        if attrs[last].0.0 != ino {
            assert(attr_map(init).dom().contains(ino));
            assert(init.len() > 0);
            law_last_pair_counts(init, 0, ino);
            let j = choose|j: int| 0 <= j < init.len() && (#[trigger] init[j]).0.0 == ino;
            assert(attrs[j].0.0 == ino);
        } else {
            assert(attrs[last].0.0 == ino);
        }
    }
}

/// Every inode that is asked for is answered from the cache with its cached attributes, or asked
/// for at the store, where there are none; the order is kept.
pub proof fn law_inodes_are_hits_or_misses(
    c: CacheView,
    now: u64,
    inos: Seq<Inode>,
    more: Seq<Inode>,
    ino: Inode,
)
    ensures
        attr_hits(c, now, inos + more) == attr_hits(c, now, inos) + attr_hits(c, now, more),
        attr_misses(c, now, inos + more) == attr_misses(c, now, inos) + attr_misses(c, now, more),
        c.attr(now, ino, None) matches Some(attr) ==> attr_hits(c, now, seq![ino]) == seq![
            (ino, attr),
        ] && attr_misses(c, now, seq![ino]).len() == 0,
        c.attr(now, ino, None) is None ==> attr_hits(c, now, seq![ino]).len() == 0 && attr_misses(
            c,
            now,
            seq![ino],
        ) == seq![ino],
    decreases more.len(),
{
    reveal_with_fuel(attr_hits, 2);
    reveal_with_fuel(attr_misses, 2);
    assert(seq![ino].drop_last() =~= Seq::empty());
    if c.attr(now, ino, None) is Some {
        assert(attr_hits(c, now, seq![ino]) =~= seq![(ino, c.attr(now, ino, None)->0)]);
    } else {
        assert(attr_misses(c, now, seq![ino]) =~= seq![ino]);
    }
    if more.len() > 0 {
        law_inodes_are_hits_or_misses(c, now, inos, more.drop_last(), ino);
        assert((inos + more).drop_last() =~= inos + more.drop_last());
    } else {
        assert(inos + more =~= inos);
    }
    assert(attr_hits(c, now, inos + more) =~= attr_hits(c, now, inos) + attr_hits(c, now, more));
    assert(attr_misses(c, now, inos + more) =~= attr_misses(c, now, inos) + attr_misses(
        c,
        now,
        more,
    ));
}

/// Every name that is asked for is answered from the cache with its cached child, or asked for at
/// the store, where there is none; the order is kept.
pub proof fn law_names_are_hits_or_misses(
    c: CacheView,
    now: u64,
    dir: Inode,
    names: Seq<String>,
    more: Seq<String>,
    name: String,
)
    ensures
        name_hits(c, now, dir, names + more) == name_hits(c, now, dir, names) + name_hits(
            c,
            now,
            dir,
            more,
        ),
        name_misses(c, now, dir, names + more) == name_misses(c, now, dir, names) + name_misses(
            c,
            now,
            dir,
            more,
        ),
        c.dentry(now, dir, name@) matches Some(child) ==> name_hits(c, now, dir, seq![name])
            == seq![(name, child)] && name_misses(c, now, dir, seq![name]).len() == 0,
        c.dentry(now, dir, name@) is None ==> name_hits(c, now, dir, seq![name]).len() == 0
            && name_misses(c, now, dir, seq![name]) == seq![name],
    decreases more.len(),
{
    reveal_with_fuel(name_hits, 2);
    reveal_with_fuel(name_misses, 2);
    assert(seq![name].drop_last() =~= Seq::empty());
    if c.dentry(now, dir, name@) is Some {
        assert(name_hits(c, now, dir, seq![name]) =~= seq![
            (name, c.dentry(now, dir, name@)->0),
        ]);
    } else {
        assert(name_misses(c, now, dir, seq![name]) =~= seq![name]);
    }
    if more.len() > 0 {
        law_names_are_hits_or_misses(c, now, dir, names, more.drop_last(), name);
        assert((names + more).drop_last() =~= names + more.drop_last());
    } else {
        assert(names + more =~= names);
    }
    assert(name_hits(c, now, dir, names + more) =~= name_hits(c, now, dir, names) + name_hits(
        c,
        now,
        dir,
        more,
    ));
    assert(name_misses(c, now, dir, names + more) =~= name_misses(c, now, dir, names)
        + name_misses(c, now, dir, more));
}

/// Whether attributes were received as a message holds them.
pub open spec fn is_received(
    attr: FileAttr,
    message: crate::meta::remote::ProtoFileAttr,
) -> bool {
    &&& attr.ino == message.ino && attr.size == message.size && attr.blocks == message.blocks
    &&& attr.mode == message.mode && attr.uid == message.uid && attr.gid == message.gid
    &&& attr.atime == message.atime && attr.mtime == message.mtime && attr.ctime == message.ctime
    &&& attr.nlink == message.nlink && attr.blksize == message.blksize && attr.rdev == message.rdev
    &&& attr.version == message.version
    &&& (attr.kind is Dir <==> message.kind == 2)
}

/// What a server sends is received message by message, in order and field by field; what lacks a
/// part is left out.
pub proof fn law_messages_are_received_in_order(
    pairs: Seq<AttrPair>,
    more_pairs: Seq<AttrPair>,
    pair: AttrPair,
    plus: Seq<DirEntryPlus>,
    more_plus: Seq<DirEntryPlus>,
    one: DirEntryPlus,
    entries: Seq<ProtoDirEntry>,
    i: int,
)
    ensures
        received_pairs(pairs + more_pairs) == received_pairs(pairs) + received_pairs(more_pairs),
        received_plus(plus + more_plus) == received_plus(plus) + received_plus(more_plus),
        received_pairs(seq![pair]).len() == (if pair.attr is Some {
            1nat
        } else {
            0nat
        }),
        pair.attr matches Some(attr) ==> received_pairs(seq![pair])[0].0 == Inode(pair.ino)
            && is_received(received_pairs(seq![pair])[0].1, attr),
        received_plus(seq![one]).len() == (if one.entry is Some && one.attr is Some {
            1nat
        } else {
            0nat
        }),
        one.entry is Some && one.attr is Some ==> ({
            let got = received_plus(seq![one])[0];
            &&& got.0.name == one.entry->0.name && got.0.ino == one.entry->0.ino
            &&& (got.0.kind is Dir <==> one.entry->0.kind == 2)
            &&& is_received(got.1, one.attr->0)
        }),
        received_entries(entries).len() == entries.len(),
        0 <= i < entries.len() ==> ({
            let got = received_entries(entries)[i];
            &&& got.name == entries[i].name && got.ino == entries[i].ino
            &&& (got.kind is Dir <==> entries[i].kind == 2)
        }),
{
    reveal_with_fuel(received_pairs, 2);
    reveal_with_fuel(received_plus, 2);
    assert(seq![pair].drop_last() =~= Seq::empty());
    assert(seq![one].drop_last() =~= Seq::empty());
    lemma_pairs_in_order(pairs, more_pairs);
    lemma_plus_in_order(plus, more_plus);
}

/// The pairs of two batches.
proof fn lemma_pairs_in_order(pairs: Seq<AttrPair>, more: Seq<AttrPair>)
    ensures
        received_pairs(pairs + more) == received_pairs(pairs) + received_pairs(more),
    decreases more.len(),
{
    if more.len() > 0 {
        lemma_pairs_in_order(pairs, more.drop_last());
        assert((pairs + more).drop_last() =~= pairs + more.drop_last());
    } else {
        assert(pairs + more =~= pairs);
    }
    assert(received_pairs(pairs + more) =~= received_pairs(pairs) + received_pairs(more));
}

/// The entries of two listings with attributes.
proof fn lemma_plus_in_order(plus: Seq<DirEntryPlus>, more: Seq<DirEntryPlus>)
    ensures
        received_plus(plus + more) == received_plus(plus) + received_plus(more),
    decreases more.len(),
{
    if more.len() > 0 {
        lemma_plus_in_order(plus, more.drop_last());
        assert((plus + more).drop_last() =~= plus + more.drop_last());
    } else {
        assert(plus + more =~= plus);
    }
    assert(received_plus(plus + more) =~= received_plus(plus) + received_plus(more));
}

/// The message of an error ends with what it is about: the number of the inode, the path, or the
/// text of the failure; that of a name that exists begins with the name and ends with the
/// directory.
pub proof fn law_messages_tell_what_they_are_about(e: MetaError)
    ensures
        e matches MetaError::NotFound(ino) ==> ends_with(e.text(), dec(ino as int)),
        e matches MetaError::ParentNotFound(ino) ==> ends_with(e.text(), dec(ino as int)),
        e matches MetaError::NotDirectory(ino) ==> ends_with(e.text(), dec(ino as int)),
        e matches MetaError::DirectoryNotEmpty(ino) ==> ends_with(e.text(), dec(ino as int)),
        e matches MetaError::AlreadyExists { parent, name } ==> ends_with(
            e.text(),
            name@ + " in parent "@ + dec(parent as int),
        ),
        e matches MetaError::InvalidPath(path) ==> ends_with(e.text(), path@),
        e matches MetaError::NotSupported(what) ==> ends_with(e.text(), what@),
        e matches MetaError::Internal(what) ==> ends_with(e.text(), what@),
        e matches MetaError::Database(what) ==> ends_with(e.text(), what@),
        e matches MetaError::Serialization(what) ==> ends_with(e.text(), what@),
        e matches MetaError::Config(what) ==> ends_with(e.text(), what@),
        e matches MetaError::Io { detail, .. } ==> ends_with(e.text(), detail@),
{
    let t = e.text();
    match e {
        MetaError::NotFound(ino) => {
            assert(t.skip(t.len() - dec(ino as int).len()) =~= dec(ino as int));
        },
        MetaError::ParentNotFound(ino) => {
            assert(t.skip(t.len() - dec(ino as int).len()) =~= dec(ino as int));
        },
        MetaError::NotDirectory(ino) => {
            assert(t.skip(t.len() - dec(ino as int).len()) =~= dec(ino as int));
        },
        MetaError::DirectoryNotEmpty(ino) => {
            assert(t.skip(t.len() - dec(ino as int).len()) =~= dec(ino as int));
        },
        MetaError::AlreadyExists { parent, name } => {
            let end = name@ + " in parent "@ + dec(parent as int);
            assert(t.skip(t.len() - end.len()) =~= end);
        },
        MetaError::InvalidPath(path) => {
            assert(t.skip(t.len() - path@.len()) =~= path@);
        },
        MetaError::NotSupported(what) => {
            assert(t.skip(t.len() - what@.len()) =~= what@);
        },
        MetaError::Internal(what) => {
            assert(t.skip(t.len() - what@.len()) =~= what@);
        },
        MetaError::Database(what) => {
            assert(t.skip(t.len() - what@.len()) =~= what@);
        },
        MetaError::Serialization(what) => {
            assert(t.skip(t.len() - what@.len()) =~= what@);
        },
        MetaError::Config(what) => {
            assert(t.skip(t.len() - what@.len()) =~= what@);
        },
        MetaError::Io { detail, .. } => {
            assert(t.skip(t.len() - detail@.len()) =~= detail@);
        },
        MetaError::NotImplemented => {},
    }
}

/// Whether a text ends with another.
pub open spec fn ends_with(text: Seq<char>, end: Seq<char>) -> bool {
    end.len() <= text.len() && text.skip(text.len() - end.len()) == end
}

} // verus!
