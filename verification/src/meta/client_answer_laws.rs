//! What a caching client answers at once, what it asks the store for, and what it has at hand once
//! the store has answered.

use crate::meta::cache::{
    attr_key, dentry_key, law_cached_is_read_back, law_caching_spoils_nothing, law_dropped_is_gone,
    timed, CacheView, CachedValue,
};
use crate::meta::client::{put_attrs, put_entries, put_entries_plus};
use crate::meta::client_calls::{begun, taken, went_on, AnswerView, CallState, CallStepView};
use crate::meta::lru_table::{lemma_filter, lemma_set, other_key};
use crate::meta::store::{DirEntry, ErrorView, FileAttr};
use crate::meta::types::Inode;
use crate::text::dec;
use crate::vfs::op::{FsReply, FsRequestView};
use vstd::prelude::*;

verus! {

/// Whether a client asks the store for a request as it stands.
pub open spec fn is_asked(step: CallStepView, req: FsRequestView) -> bool {
    step matches CallStepView::Ask(s) && s.req == req && s.asks() == req
}

/// Attributes that are cached are answered at once, and others are asked for.
pub proof fn law_cached_attributes_are_answered(c: CacheView, now: u64, ino: Inode)
    ensures
        c.attr(now, ino, None) matches Some(attr) ==> begun(c, now, FsRequestView::Getattr(ino)).1
            == CallStepView::Answer(AnswerView::Attr(attr)),
        c.attr(now, ino, None) is None ==> is_asked(
            begun(c, now, FsRequestView::Getattr(ino)).1,
            FsRequestView::Getattr(ino),
        ),
{
}

/// A name that is cached is answered at once with what it stands for, one that is noted as absent
/// is answered as not found, and every other is asked for.
pub proof fn law_cached_names_are_answered(
    c: CacheView,
    now: u64,
    parent: Inode,
    name: Seq<char>,
)
    ensures
        ({
            let req = FsRequestView::Lookup { parent, name };
            let absent = c.negative(now, dec(parent.0 as int) + ":"@ + name);
            match c.dentry(now, parent, name) {
                Some(child) => begun(c, now, req).1 == CallStepView::Answer(
                    AnswerView::Child(Ok(child)),
                ),
                None => if absent {
                    begun(c, now, req).1 == CallStepView::Answer(
                        AnswerView::Child(Err(ErrorView::NotFound(parent.0))),
                    )
                } else {
                    is_asked(begun(c, now, req).1, req)
                },
            }
        }),
{
}

/// A removal of a name that is noted as absent is refused at once; that of a name whose child is
/// cached is asked for; and otherwise the name is looked up first.
pub proof fn law_removals_need_the_child(
    c: CacheView,
    now: u64,
    parent: Inode,
    name: Seq<char>,
    directory: bool,
)
    ensures
        ({
            let req = if directory {
                FsRequestView::Rmdir { parent, name }
            } else {
                FsRequestView::Unlink { parent, name }
            };
            let absent = c.negative(now, dec(parent.0 as int) + ":"@ + name);
            match c.dentry(now, parent, name) {
                Some(child) => begun(c, now, req).1 matches CallStepView::Ask(s) && s.asks() == req
                    && s.child == Some(child),
                None => if absent {
                    begun(c, now, req).1 == CallStepView::Answer(
                        AnswerView::Refused(ErrorView::NotFound(parent.0)),
                    )
                } else {
                    begun(c, now, req).1 matches CallStepView::Ask(s) && s.req == req && s.asks()
                        == (FsRequestView::Lookup { parent, name })
                },
            }
        }),
{
}

/// Whatever else is called for is asked for, and what the store answers is answered.
pub proof fn law_other_calls_are_asked_for(
    c: CacheView,
    now: u64,
    req: FsRequestView,
    s: CallState,
    reply: FsReply,
)
    requires
        req !is Lookup,
        req !is Getattr,
        req !is Unlink,
        req !is Rmdir,
        !s.looking,
    ensures
        is_asked(begun(c, now, req).1, req),
        begun(c, now, req).0 == c,
        went_on(c, now, s, reply).1 == CallStepView::Answer(AnswerView::Same(reply)),
{
}

/// Attributes that the store answered, to a question or to a change, are at hand to the end of
/// their time.
pub proof fn law_answered_attributes_are_at_hand(
    c: CacheView,
    now: u64,
    later: u64,
    ino: Inode,
    attr: FileAttr,
    req: FsRequestView,
)
    requires
        c.sound(),
        c.config.in_time(now),
        req == FsRequestView::Getattr(ino) || (req matches FsRequestView::Setattr(of, _) && of
            == ino),
        later <= now + c.config.attr_ttl,
    ensures
        taken(c, now, req, FsReply::Attr(Ok(attr)), Inode(0)).attr(later, ino, None) == Some(attr),
{
    law_cached_is_read_back(c, now, later, ino, attr, 0, ino, Seq::empty(), ino);
}

/// The names that a listing told are at hand, as far as there is room for them.
pub proof fn law_listed_names_are_at_hand(
    c: CacheView,
    now: u64,
    dir: Inode,
    list: Seq<DirEntry>,
    k: int,
)
    requires
        c.sound(),
        c.config.in_time(now),
        c.dentries.len() + list.len() <= c.config.dentry_capacity,
        forall|i: int, j: int|
            0 <= i < j < list.len() ==> (#[trigger] list[i]).name@ != (#[trigger] list[j]).name@,
        0 <= k < list.len(),
    ensures
        put_entries(c, now, dir, list).dentry(now, dir, list[k].name@) == Some(Inode(list[k].ino)),
    decreases list.len(),
{
    let init = list.drop_last();
    let last = list.len() - 1;
    let before = put_entries(c, now, dir, init);
    lemma_listing_keeps(c, now, dir, init);
    law_cached_is_read_back(
        before,
        now,
        now,
        dir,
        arbitrary(),
        0,
        dir,
        list[last].name@,
        Inode(list[last].ino),
    );
    if k < last {
        assert forall|i: int, j: int| 0 <= i < j < init.len() implies (#[trigger] init[i]).name@
            != (#[trigger] init[j]).name@ by {
            assert(list[i].name@ != list[j].name@);
        }
        law_listed_names_are_at_hand(c, now, dir, init, k);
        assert(list[k].name@ != list[last].name@);
        law_caching_spoils_nothing(
            before,
            now,
            now,
            dir,
            arbitrary(),
            dir,
            dir,
            list[last].name@,
            Inode(list[last].ino),
            dir,
            list[k].name@,
        );
    }
}

/// A listing that is taken keeps the caches sound and adds one name at most for each entry.
proof fn lemma_listing_keeps(c: CacheView, now: u64, dir: Inode, list: Seq<DirEntry>)
    requires
        c.sound(),
        c.dentries.len() + list.len() <= c.config.dentry_capacity,
    ensures
        put_entries(c, now, dir, list).sound(),
        put_entries(c, now, dir, list).config == c.config,
        put_entries(c, now, dir, list).dentries.len() <= c.dentries.len() + list.len(),
    decreases list.len(),
{
    if list.len() > 0 {
        lemma_listing_keeps(c, now, dir, list.drop_last());
        let before = put_entries(c, now, dir, list.drop_last());
        let key = dentry_key(dir, list.last().name@);
        lemma_set(
            before.dentries,
            c.config.dentry_capacity as nat,
            key,
            timed(CachedValue::Child(Inode(list.last().ino)), now, c.config.dentry_ttl, 0),
        );
        lemma_filter(before.dentries, other_key(key));
    }
}

/// Inodes of a list, each at most once.
pub open spec fn each_once(inos: Seq<Inode>) -> bool {
    forall|i: int, j: int| 0 <= i < j < inos.len() ==> #[trigger] inos[i] != #[trigger] inos[j]
}

/// The inodes of pairs.
pub open spec fn inodes_of(list: Seq<(Inode, FileAttr)>) -> Seq<Inode> {
    Seq::new(list.len(), |i: int| list[i].0)
}

/// The attributes of a batch are at hand, as far as there is room for them.
pub proof fn law_batched_attributes_are_at_hand(
    c: CacheView,
    now: u64,
    list: Seq<(Inode, FileAttr)>,
    k: int,
)
    requires
        c.sound(),
        c.config.in_time(now),
        c.attrs.len() + list.len() <= c.config.attr_capacity,
        each_once(inodes_of(list)),
        0 <= k < list.len(),
    ensures
        put_attrs(c, now, list).attr(now, list[k].0, None) == Some(list[k].1),
    decreases list.len(),
{
    let init = list.drop_last();
    let last = list.len() - 1;
    let before = put_attrs(c, now, init);
    lemma_batch_keeps(c, now, init);
    law_cached_is_read_back(
        before,
        now,
        now,
        list[last].0,
        list[last].1,
        0,
        list[last].0,
        Seq::empty(),
        list[last].0,
    );
    if k < last {
        assert(each_once(inodes_of(init))) by {
            assert forall|i: int, j: int| 0 <= i < j < init.len() implies (#[trigger] inodes_of(
                init,
            )[i]) != (#[trigger] inodes_of(init)[j]) by {
                assert(inodes_of(list)[i] != inodes_of(list)[j]);
            }
        }
        law_batched_attributes_are_at_hand(c, now, init, k);
        assert(inodes_of(list)[k] != inodes_of(list)[last]);
        law_caching_spoils_nothing(
            before,
            now,
            now,
            list[last].0,
            list[last].1,
            list[k].0,
            list[k].0,
            Seq::empty(),
            list[k].0,
            list[k].0,
            Seq::empty(),
        );
    }
}

/// A batch that is taken keeps the caches sound and adds one inode at most for each pair.
proof fn lemma_batch_keeps(c: CacheView, now: u64, list: Seq<(Inode, FileAttr)>)
    requires
        c.sound(),
        c.attrs.len() + list.len() <= c.config.attr_capacity,
    ensures
        put_attrs(c, now, list).sound(),
        put_attrs(c, now, list).config == c.config,
        put_attrs(c, now, list).attrs.len() <= c.attrs.len() + list.len(),
    decreases list.len(),
{
    if list.len() > 0 {
        lemma_batch_keeps(c, now, list.drop_last());
        let before = put_attrs(c, now, list.drop_last());
        let key = attr_key(list.last().0);
        let attr = list.last().1;
        lemma_set(
            before.attrs,
            c.config.attr_capacity as nat,
            key,
            timed(CachedValue::Attr(attr), now, c.config.attr_ttl, attr.version),
        );
        lemma_filter(before.attrs, other_key(key));
    }
}

/// The entries of a listing with attributes.
pub open spec fn listed(list: Seq<(DirEntry, FileAttr)>) -> Seq<DirEntry> {
    Seq::new(list.len(), |i: int| list[i].0)
}

/// The inodes and attributes of a listing with attributes.
pub open spec fn attributes_of(list: Seq<(DirEntry, FileAttr)>) -> Seq<(Inode, FileAttr)> {
    Seq::new(list.len(), |i: int| (Inode(list[i].0.ino), list[i].1))
}

/// A listing with attributes is kept as a listing and as a batch of attributes.
pub proof fn law_listing_with_attributes_is_both(
    c: CacheView,
    now: u64,
    dir: Inode,
    list: Seq<(DirEntry, FileAttr)>,
)
    ensures
        put_entries_plus(c, now, dir, list).dentries == put_entries(
            c,
            now,
            dir,
            listed(list),
        ).dentries,
        put_entries_plus(c, now, dir, list).attrs == put_attrs(c, now, attributes_of(list)).attrs,
        put_entries_plus(c, now, dir, list).paths == c.paths,
        put_entries_plus(c, now, dir, list).negatives == c.negatives,
        put_entries_plus(c, now, dir, list).config == c.config,
        put_entries(c, now, dir, listed(list)).config == c.config,
        put_attrs(c, now, attributes_of(list)).config == c.config,
    decreases list.len(),
{
    if list.len() > 0 {
        let init = list.drop_last();
        law_listing_with_attributes_is_both(c, now, dir, init);
        assert(listed(list).drop_last() =~= listed(init));
        assert(attributes_of(list).drop_last() =~= attributes_of(init));
    }
}

/// Dropped inodes have no attributes at hand, and all others have what they had.
pub proof fn law_dropped_inodes_are_gone(c: CacheView, now: u64, inos: Seq<Inode>, ino: Inode)
    requires
        c.sound(),
    ensures
        c.without_attrs(inos).attr(now, ino, None) == (if inos.contains(ino) {
            None
        } else {
            c.attr(now, ino, None)
        }),
        c.without_attrs(inos).sound(),
    decreases inos.len(),
{
    if inos.len() > 0 {
        let init = inos.drop_last();
        let before = c.without_attrs(init);
        law_dropped_inodes_are_gone(c, now, init, ino);
        law_dropped_is_gone(before, now, inos.last(), ino, ino, Seq::empty(), ino, Seq::empty());
        lemma_filter(before.attrs, other_key(attr_key(inos.last())));
        assert(inos.contains(ino) <==> init.contains(ino) || inos.last() == ino) by {
            if inos.contains(ino) {
                let i = choose|i: int| 0 <= i < inos.len() && inos[i] == ino;
                if i < init.len() {
                    assert(init[i] == ino);
                }
            }
            if init.contains(ino) {
                let i = choose|i: int| 0 <= i < init.len() && init[i] == ino;
                assert(inos[i] == ino);
            }
            assert(inos.last() == inos[inos.len() - 1]);
        }
    }
}

} // verus!
