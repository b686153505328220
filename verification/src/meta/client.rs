//! A client of a metadata store that caches what it learns.
//!
//! The store is asked by the caller. For each operation the client says what it
//! knows without asking, and takes the reply of the store into its caches.

use crate::meta::cache::{
    attr_key, dentry_key, elsewhere, law_cached_is_read_back, law_reading_changes_no_answer,
    text_key, timed, usual_config, CacheConfig, CacheStats, CacheView, CachedValue, MetaCache,
};
use crate::meta::lru_table::{
    distinct, found, lemma_filter, lemma_filter_found, lemma_set, other_key, TableItem,
};
use crate::meta::etcd::watch::CacheInvalidationEvent;
use crate::meta::store::{result_view, DirEntry, ErrorView, FileAttr, MetaError, Step};
use crate::meta::types::{CreateParams, Inode};
use crate::text::{components, dec, i64_text, path_components, texts};
use vstd::prelude::*;
use vstd::string::*;

verus! {

/// A metadata client.
pub struct MetaClient {
    pub cache: MetaCache,
    /// The root directory of the store.
    pub root: Inode,
}

/// The key under which it is noted that a name does not exist.
pub open spec fn absence_key(parent: Inode, name: Seq<char>) -> Seq<char> {
    dec(parent.0 as int) + ":"@ + name
}

/// The key under which it is noted that a name does not exist.
fn make_absence_key(parent: Inode, name: &str) -> (r: String)
    ensures
        r@ == absence_key(parent, name@),
{
    let mut r = i64_text(parent.0);
    r.append(":");
    r.append(name);
    r
}

/// The inodes with the attributes that are cached.
pub open spec fn attr_hits(c: CacheView, now: u64, inos: Seq<Inode>) -> Seq<(Inode, FileAttr)>
    decreases inos.len(),
{
    if inos.len() == 0 {
        Seq::empty()
    } else {
        let before = attr_hits(c, now, inos.drop_last());
        match c.attr(now, inos.last(), None) {
            Some(attr) => before.push((inos.last(), attr)),
            None => before,
        }
    }
}

/// The inodes without cached attributes.
pub open spec fn attr_misses(c: CacheView, now: u64, inos: Seq<Inode>) -> Seq<Inode>
    decreases inos.len(),
{
    if inos.len() == 0 {
        Seq::empty()
    } else {
        let before = attr_misses(c, now, inos.drop_last());
        match c.attr(now, inos.last(), None) {
            Some(_) => before,
            None => before.push(inos.last()),
        }
    }
}

/// The caches once the attributes of inodes were read, in order.
pub open spec fn attrs_read(c: CacheView, now: u64, inos: Seq<Inode>) -> CacheView
    decreases inos.len(),
{
    if inos.len() == 0 {
        c
    } else {
        attrs_read(c, now, inos.drop_last()).attr_read(now, inos.last(), None)
    }
}

/// The caches with the attributes of inodes, put in order.
pub open spec fn put_attrs(c: CacheView, now: u64, list: Seq<(Inode, FileAttr)>) -> CacheView
    decreases list.len(),
{
    if list.len() == 0 {
        c
    } else {
        put_attrs(c, now, list.drop_last()).put_attr(now, list.last().0, list.last().1)
    }
}

/// The caches with the entries of a directory, put in order.
pub open spec fn put_entries(c: CacheView, now: u64, dir: Inode, list: Seq<DirEntry>) -> CacheView
    decreases list.len(),
{
    if list.len() == 0 {
        c
    } else {
        put_entries(c, now, dir, list.drop_last()).put_dentry(
            now,
            dir,
            list.last().name@,
            Inode(list.last().ino),
        )
    }
}

/// The caches with the entries of a directory and their attributes, put in order.
pub open spec fn put_entries_plus(
    c: CacheView,
    now: u64,
    dir: Inode,
    list: Seq<(DirEntry, FileAttr)>,
) -> CacheView
    decreases list.len(),
{
    if list.len() == 0 {
        c
    } else {
        put_entries_plus(c, now, dir, list.drop_last()).put_dentry(
            now,
            dir,
            list.last().0.name@,
            Inode(list.last().0.ino),
        ).put_attr(now, Inode(list.last().0.ino), list.last().1)
    }
}

/// The names of a directory with the children that are cached.
pub open spec fn name_hits(c: CacheView, now: u64, dir: Inode, names: Seq<String>) -> Seq<
    (String, Inode),
>
    decreases names.len(),
{
    if names.len() == 0 {
        Seq::empty()
    } else {
        let before = name_hits(c, now, dir, names.drop_last());
        match c.dentry(now, dir, names.last()@) {
            Some(child) => before.push((names.last(), child)),
            None => before,
        }
    }
}

/// The names of a directory without cached children.
pub open spec fn name_misses(c: CacheView, now: u64, dir: Inode, names: Seq<String>) -> Seq<String>
    decreases names.len(),
{
    if names.len() == 0 {
        Seq::empty()
    } else {
        let before = name_misses(c, now, dir, names.drop_last());
        match c.dentry(now, dir, names.last()@) {
            Some(_) => before,
            None => before.push(names.last()),
        }
    }
}

/// The caches once the names of a directory were read, in order.
pub open spec fn names_read(c: CacheView, now: u64, dir: Inode, names: Seq<String>) -> CacheView
    decreases names.len(),
{
    if names.len() == 0 {
        c
    } else {
        names_read(c, now, dir, names.drop_last()).dentry_read(now, dir, names.last()@)
    }
}

/// What a client knows of a name without asking: what it stands for, or that it
/// does not exist.
pub open spec fn known(c: CacheView, now: u64, parent: Inode, name: Seq<char>) -> Option<
    Result<Inode, ErrorView>,
> {
    match c.dentry(now, parent, name) {
        Some(child) => Some(Ok(child)),
        None => if c.negative(now, absence_key(parent, name)) {
            Some(Err(ErrorView::NotFound(parent.0)))
        } else {
            None
        },
    }
}

/// The caches once a name was looked up in them.
pub open spec fn looked_up(c: CacheView, now: u64, parent: Inode, name: Seq<char>) -> CacheView {
    let c1 = c.dentry_read(now, parent, name);
    if c.dentry(now, parent, name) is Some {
        c1
    } else {
        c1.negative_read(now, absence_key(parent, name))
    }
}

/// The caches once a store answered what a name stands for.
pub open spec fn lookup_taken(
    c: CacheView,
    now: u64,
    parent: Inode,
    name: Seq<char>,
    reply: Result<Inode, ErrorView>,
) -> CacheView {
    match reply {
        Ok(child) => c.put_dentry(now, parent, name, child).without_negative(
            absence_key(parent, name),
        ),
        Err(ErrorView::NotFound(_)) => c.put_negative(now, absence_key(parent, name)),
        Err(_) => c,
    }
}

/// The caches once something was created.
pub open spec fn create_taken(
    c: CacheView,
    now: u64,
    parent: Inode,
    name: Seq<char>,
    ino: Inode,
    attr: FileAttr,
) -> CacheView {
    c.put_attr(now, ino, attr).put_dentry(now, parent, name, ino).without_negative(
        absence_key(parent, name),
    ).without_dir(parent)
}

/// The caches once a name was moved. Neither name is known to be absent any more, and no path is
/// known.
pub open spec fn rename_taken(
    c: CacheView,
    old_parent: Inode,
    old_name: Seq<char>,
    new_parent: Inode,
    new_name: Seq<char>,
) -> CacheView {
    c.without_dentry(old_parent, old_name).without_dir(old_parent).without_dir(
        new_parent,
    ).without_negative(absence_key(old_parent, old_name)).without_negative(
        absence_key(new_parent, new_name),
    ).without_path_prefix(Seq::empty())
}

/// The caches once a file was removed. No path is known any more.
pub open spec fn unlink_taken(
    c: CacheView,
    now: u64,
    parent: Inode,
    name: Seq<char>,
    child: Inode,
) -> CacheView {
    c.without_attr(child).without_dentry(parent, name).without_dir(parent).put_negative(
        now,
        absence_key(parent, name),
    ).without_path_prefix(Seq::empty())
}

/// The caches once a directory was removed. No path is known any more.
pub open spec fn rmdir_taken(
    c: CacheView,
    now: u64,
    parent: Inode,
    name: Seq<char>,
    child: Inode,
) -> CacheView {
    c.without_attr(child).without_dentry(parent, name).without_dir(parent).without_dir(
        child,
    ).put_negative(now, absence_key(parent, name)).without_path_prefix(Seq::empty())
}

/// The walk of a path, name by name.
pub struct PathWalk {
    pub path: String,
    pub parts: Vec<String>,
    /// How many names have been looked up.
    pub at: usize,
    /// What the names so far stand for.
    pub current: Inode,
}

/// How a path begins to be resolved.
pub enum Resolution {
    /// It is known.
    Known(Inode),
    /// The names are looked up in turn.
    Walk(PathWalk),
}

impl PathWalk {
    /// There is a name to look up.
    pub open spec fn wf(self) -> bool {
        self.at < self.parts.len() && texts(self.parts@) == components(self.path@)
    }

    /// The directory and the name to look up next.
    pub fn next(&self) -> (r: (Inode, &String))
        requires
            self.wf(),
        ensures
            r == (self.current, &self.parts@[self.at as int]),
    {
        (self.current, &self.parts[self.at])
    }
}

impl MetaClient {
    /// What holds of a client between calls.
    pub open spec fn wf(self) -> bool {
        self.cache.wf()
    }

    /// A client with the usual caches.
    pub fn new(root: Inode) -> (r: Self)
        ensures
            r.wf(),
            r.root == root,
            r.cache.config == usual_config(),
            r.cache@ == r.cache@.cleared(),
    {
        MetaClient::with_config(root, CacheConfig::default())
    }

    /// A client with caches of the given sizes and times.
    pub fn with_config(root: Inode, config: CacheConfig) -> (r: Self)
        requires
            config.possible(),
        ensures
            r.wf(),
            r.root == root,
            r.cache.config == config,
            r.cache@ == r.cache@.cleared(),
    {
        MetaClient { cache: MetaCache::new(config), root }
    }

    /// The cached attributes of an inode; otherwise the store is to be asked.
    pub fn getattr(&mut self, now: u64, ino: Inode) -> (r: Option<FileAttr>)
        requires
            old(self).wf(),
        ensures
            final(self).wf(),
            final(self).root == old(self).root,
            r == old(self).cache@.attr(now, ino, None),
            final(self).cache@ == old(self).cache@.attr_read(now, ino, None),
    {
        self.cache.get_attr(now, ino)
    }

    /// Takes the attributes that the store answered.
    pub fn getattr_reply(
        &mut self,
        now: u64,
        ino: Inode,
        reply: Result<FileAttr, MetaError>,
    ) -> (r: Result<FileAttr, MetaError>)
        requires
            old(self).wf(),
            old(self).cache.config.in_time(now),
        ensures
            final(self).wf(),
            final(self).root == old(self).root,
            r == reply,
            final(self).cache@ == (match reply {
                Ok(attr) => old(self).cache@.put_attr(now, ino, attr),
                Err(_) => old(self).cache@,
            }),
    {
        if let Ok(attr) = &reply {
            self.cache.put_attr(now, ino, *attr);
        }
        reply
    }

    /// The cached attributes of several inodes, and the inodes that the store is to be asked for.
    pub fn getattr_batch(&mut self, now: u64, inos: &Vec<Inode>) -> (r: (
        Vec<(Inode, FileAttr)>,
        Vec<Inode>,
    ))
        requires
            old(self).wf(),
        ensures
            final(self).wf(),
            final(self).root == old(self).root,
            r.0@ == attr_hits(old(self).cache@, now, inos@),
            r.1@ == attr_misses(old(self).cache@, now, inos@),
            final(self).cache@ == attrs_read(old(self).cache@, now, inos@),
    {
        let mut hits: Vec<(Inode, FileAttr)> = Vec::new();
        let mut misses: Vec<Inode> = Vec::new();
        let ghost c = self.cache@;
        let mut i: usize = 0;
        while i < inos.len()
            invariant
                i <= inos.len(),
                self.wf(),
                self.root == old(self).root,
                hits@ == attr_hits(c, now, inos@.take(i as int)),
                misses@ == attr_misses(c, now, inos@.take(i as int)),
                self.cache@ == attrs_read(c, now, inos@.take(i as int)),
                forall|ino: Inode| #[trigger]
                    self.cache@.attr(now, ino, None) == c.attr(now, ino, None),
            decreases inos.len() - i,
        {
            let ino = inos[i];
            let ghost before = self.cache@;
            match self.cache.get_attr(now, ino) {
                Some(attr) => hits.push((ino, attr)),
                None => misses.push(ino),
            }
            i = i + 1;
            proof {
                assert(inos@.take(i as int).drop_last() =~= inos@.take(i - 1));
                assert forall|other: Inode| #[trigger]
                    self.cache@.attr(now, other, None) == c.attr(now, other, None) by {
                    law_reading_changes_no_answer(
                        before,
                        now,
                        ino,
                        other,
                        ino,
                        Seq::empty(),
                        ino,
                        Seq::empty(),
                    );
                    assert(before.attr(now, other, None) == c.attr(now, other, None));
                }
            }
        }
        assert(inos@.take(i as int) =~= inos@);
        (hits, misses)
    }

    /// Takes the attributes that the store answered for the rest, and gives them after those
    /// that were cached.
    pub fn getattr_batch_reply(
        &mut self,
        now: u64,
        hits: Vec<(Inode, FileAttr)>,
        reply: Result<Vec<(Inode, FileAttr)>, MetaError>,
    ) -> (r: Result<Vec<(Inode, FileAttr)>, MetaError>)
        requires
            old(self).wf(),
            old(self).cache.config.in_time(now),
        ensures
            final(self).wf(),
            final(self).root == old(self).root,
            match reply {
                Ok(list) => (r matches Ok(all) && all@ == hits@ + list@) && final(self).cache@
                    == put_attrs(old(self).cache@, now, list@),
                Err(e) => r == Err::<Vec<(Inode, FileAttr)>, MetaError>(e) && final(self).cache@
                    == old(self).cache@,
            },
    {
        match reply {
            Ok(list) => {
                let mut all = hits;
                let ghost c = self.cache@;
                let ghost first = hits@;
                let mut i: usize = 0;
                while i < list.len()
                    invariant
                        i <= list.len(),
                        self.wf(),
                        self.root == old(self).root,
                        self.cache.config == old(self).cache.config,
                        self.cache.config.in_time(now),
                        all@ == first + list@.take(i as int),
                        self.cache@ == put_attrs(c, now, list@.take(i as int)),
                    decreases list.len() - i,
                {
                    let pair = list[i];
                    self.cache.put_attr(now, pair.0, pair.1);
                    all.push(pair);
                    i = i + 1;
                    proof {
                        assert(list@.take(i as int).drop_last() =~= list@.take(i - 1));
                        assert(list@.take(i as int) =~= list@.take(i - 1).push(pair));
                        assert(all@ =~= first + list@.take(i as int));
                    }
                }
                assert(list@.take(i as int) =~= list@);
                Ok(all)
            },
            Err(e) => Err(e),
        }
    }

    /// What a name is known as; otherwise the store is to be asked.
    pub fn lookup(&mut self, now: u64, parent: Inode, name: &str) -> (r: Option<
        Result<Inode, MetaError>,
    >)
        requires
            old(self).wf(),
        ensures
            final(self).wf(),
            final(self).root == old(self).root,
            (match r {
                Some(answer) => Some(result_view(answer)),
                None => None,
            }) == known(old(self).cache@, now, parent, name@),
            final(self).cache@ == looked_up(old(self).cache@, now, parent, name@),
    {
        if let Some(child) = self.cache.get_dentry(now, parent, name) {
            return Some(Ok(child));
        }
        let key = make_absence_key(parent, name);
        if self.cache.is_negative(now, key.as_str()) {
            return Some(Err(MetaError::NotFound(parent.0)));
        }
        None
    }

    /// Takes what the store answered for a name.
    pub fn lookup_reply(
        &mut self,
        now: u64,
        parent: Inode,
        name: &str,
        reply: Result<Inode, MetaError>,
    ) -> (r: Result<Inode, MetaError>)
        requires
            old(self).wf(),
            old(self).cache.config.in_time(now),
        ensures
            final(self).wf(),
            final(self).root == old(self).root,
            r == reply,
            final(self).cache@ == lookup_taken(
                old(self).cache@,
                now,
                parent,
                name@,
                result_view(reply),
            ),
    {
        let key = make_absence_key(parent, name);
        match &reply {
            Ok(child) => {
                self.cache.put_dentry(now, parent, name, *child);
                self.cache.remove_negative(key.as_str());
            },
            Err(e) => {
                if let MetaError::NotFound(_) = e {
                    self.cache.put_negative(now, key.as_str());
                }
            },
        }
        reply
    }

    /// Takes a listing that the store answered.
    pub fn readdir_reply(
        &mut self,
        now: u64,
        ino: Inode,
        reply: Result<Vec<DirEntry>, MetaError>,
    ) -> (r: Result<Vec<DirEntry>, MetaError>)
        requires
            old(self).wf(),
            old(self).cache.config.in_time(now),
        ensures
            final(self).wf(),
            final(self).root == old(self).root,
            r == reply,
            final(self).cache@ == (match reply {
                Ok(list) => put_entries(old(self).cache@, now, ino, list@),
                Err(_) => old(self).cache@,
            }),
    {
        if let Ok(list) = &reply {
            let mut i: usize = 0;
            while i < list.len()
                invariant
                    i <= list.len(),
                    self.wf(),
                    self.root == old(self).root,
                    self.cache.config == old(self).cache.config,
                    self.cache.config.in_time(now),
                    self.cache@ == put_entries(old(self).cache@, now, ino, list@.take(i as int)),
                decreases list.len() - i,
            {
                self.cache.put_dentry(now, ino, list[i].name.as_str(), Inode(list[i].ino));
                i = i + 1;
                assert(list@.take(i as int).drop_last() =~= list@.take(i - 1));
            }
            assert(list@.take(i as int) =~= list@);
        }
        reply
    }

    /// Takes a listing with attributes that the store answered.
    pub fn readdirplus_reply(
        &mut self,
        now: u64,
        ino: Inode,
        reply: Result<Vec<(DirEntry, FileAttr)>, MetaError>,
    ) -> (r: Result<Vec<(DirEntry, FileAttr)>, MetaError>)
        requires
            old(self).wf(),
            old(self).cache.config.in_time(now),
        ensures
            final(self).wf(),
            final(self).root == old(self).root,
            r == reply,
            final(self).cache@ == (match reply {
                Ok(list) => put_entries_plus(old(self).cache@, now, ino, list@),
                Err(_) => old(self).cache@,
            }),
    {
        if let Ok(list) = &reply {
            let mut i: usize = 0;
            while i < list.len()
                invariant
                    i <= list.len(),
                    self.wf(),
                    self.root == old(self).root,
                    self.cache.config == old(self).cache.config,
                    self.cache.config.in_time(now),
                    self.cache@ == put_entries_plus(
                        old(self).cache@,
                        now,
                        ino,
                        list@.take(i as int),
                    ),
                decreases list.len() - i,
            {
                let child = Inode(list[i].0.ino);
                self.cache.put_dentry(now, ino, list[i].0.name.as_str(), child);
                self.cache.put_attr(now, child, list[i].1);
                i = i + 1;
                assert(list@.take(i as int).drop_last() =~= list@.take(i - 1));
            }
            assert(list@.take(i as int) =~= list@);
        }
        reply
    }

    /// Takes what the store created.
    pub fn create_reply(
        &mut self,
        now: u64,
        params: &CreateParams,
        reply: Result<(Inode, FileAttr), MetaError>,
    ) -> (r: Result<(Inode, FileAttr), MetaError>)
        requires
            old(self).wf(),
            old(self).cache.config.in_time(now),
        ensures
            final(self).wf(),
            final(self).root == old(self).root,
            r == reply,
            final(self).cache@ == (match reply {
                Ok(made) => create_taken(
                    old(self).cache@,
                    now,
                    params.parent,
                    params.name@,
                    made.0,
                    made.1,
                ),
                Err(_) => old(self).cache@,
            }),
    {
        if let Ok(made) = &reply {
            self.cache.put_attr(now, made.0, made.1);
            self.cache.put_dentry(now, params.parent, params.name.as_str(), made.0);
            let key = make_absence_key(params.parent, params.name.as_str());
            self.cache.remove_negative(key.as_str());
            self.cache.invalidate_dir(params.parent);
        }
        reply
    }

    /// Takes the attributes that the store answered for an update.
    pub fn setattr_reply(
        &mut self,
        now: u64,
        ino: Inode,
        reply: Result<FileAttr, MetaError>,
    ) -> (r: Result<FileAttr, MetaError>)
        requires
            old(self).wf(),
            old(self).cache.config.in_time(now),
        ensures
            final(self).wf(),
            final(self).root == old(self).root,
            r == reply,
            final(self).cache@ == (match reply {
                Ok(attr) => old(self).cache@.put_attr(now, ino, attr),
                Err(_) => old(self).cache@,
            }),
    {
        self.getattr_reply(now, ino, reply)
    }

    /// Drops all paths: any of them may lead elsewhere, or nowhere, once a name was moved or
    /// removed.
    fn drop_paths(&mut self)
        requires
            old(self).wf(),
        ensures
            final(self).wf(),
            final(self).root == old(self).root,
            final(self).cache.config == old(self).cache.config,
            final(self).cache@ == old(self).cache@.without_path_prefix(Seq::empty()),
    {
        proof {
            reveal_strlit("");
            assert(""@ =~= Seq::<char>::empty());
        }
        self.cache.invalidate_path_prefix("");
    }

    /// Takes the reply of the store to a move.
    pub fn rename_reply(
        &mut self,
        old_parent: Inode,
        old_name: &str,
        new_parent: Inode,
        new_name: &str,
        reply: Result<(), MetaError>,
    ) -> (r: Result<(), MetaError>)
        requires
            old(self).wf(),
        ensures
            final(self).wf(),
            final(self).root == old(self).root,
            r == reply,
            final(self).cache@ == (match reply {
                Ok(_) => rename_taken(
                    old(self).cache@,
                    old_parent,
                    old_name@,
                    new_parent,
                    new_name@,
                ),
                Err(_) => old(self).cache@,
            }),
    {
        if reply.is_ok() {
            self.cache.invalidate_dentry(old_parent, old_name);
            self.cache.invalidate_dir(old_parent);
            self.cache.invalidate_dir(new_parent);
            let old_key = make_absence_key(old_parent, old_name);
            self.cache.remove_negative(old_key.as_str());
            let new_key = make_absence_key(new_parent, new_name);
            self.cache.remove_negative(new_key.as_str());
            self.drop_paths();
        }
        reply
    }

    /// Takes the reply of the store to the removal of a file, which stood for `child`.
    pub fn unlink_reply(
        &mut self,
        now: u64,
        parent: Inode,
        name: &str,
        child: Inode,
        reply: Result<(), MetaError>,
    ) -> (r: Result<(), MetaError>)
        requires
            old(self).wf(),
            old(self).cache.config.in_time(now),
        ensures
            final(self).wf(),
            final(self).root == old(self).root,
            r == reply,
            final(self).cache@ == (match reply {
                Ok(_) => unlink_taken(old(self).cache@, now, parent, name@, child),
                Err(_) => old(self).cache@,
            }),
    {
        if reply.is_ok() {
            self.cache.invalidate_attr(child);
            self.cache.invalidate_dentry(parent, name);
            self.cache.invalidate_dir(parent);
            let key = make_absence_key(parent, name);
            self.cache.put_negative(now, key.as_str());
            self.drop_paths();
        }
        reply
    }

    /// Takes the reply of the store to the removal of a directory, which stood for `child`.
    pub fn rmdir_reply(
        &mut self,
        now: u64,
        parent: Inode,
        name: &str,
        child: Inode,
        reply: Result<(), MetaError>,
    ) -> (r: Result<(), MetaError>)
        requires
            old(self).wf(),
            old(self).cache.config.in_time(now),
        ensures
            final(self).wf(),
            final(self).root == old(self).root,
            r == reply,
            final(self).cache@ == (match reply {
                Ok(_) => rmdir_taken(old(self).cache@, now, parent, name@, child),
                Err(_) => old(self).cache@,
            }),
    {
        if reply.is_ok() {
            self.cache.invalidate_attr(child);
            self.cache.invalidate_dentry(parent, name);
            self.cache.invalidate_dir(parent);
            self.cache.invalidate_dir(child);
            let key = make_absence_key(parent, name);
            self.cache.put_negative(now, key.as_str());
            self.drop_paths();
        }
        reply
    }

    /// Begins to resolve a path. A path that is cached is known, and so is one without names,
    /// which is the root.
    pub fn resolve_path(&mut self, now: u64, path: &str) -> (r: Resolution)
        requires
            old(self).wf(),
            old(self).cache.config.in_time(now),
        ensures
            final(self).wf(),
            final(self).root == old(self).root,
            match old(self).cache@.path(now, path@) {
                Some(ino) => (r matches Resolution::Known(known) && known == ino)
                    && final(self).cache@ == old(self).cache@.path_read(now, path@),
                None => if components(path@).len() == 0 {
                    (r matches Resolution::Known(known) && known == old(self).root)
                        && final(self).cache@ == old(self).cache@.path_read(now, path@).put_path(
                        now,
                        path@,
                        old(self).root,
                    )
                } else {
                    (r matches Resolution::Walk(walk) && walk.wf() && walk.at == 0 && walk.path@
                        == path@ && walk.current == old(self).root) && final(self).cache@ == old(
                        self,
                    ).cache@.path_read(now, path@)
                },
            },
    {
        if let Some(ino) = self.cache.get_path(now, path) {
            return Resolution::Known(ino);
        }
        let parts = path_components(path);
        assert(texts(parts@).len() == parts@.len());
        if parts.len() == 0 {
            let root = self.root;
            self.cache.put_path(now, path, root);
            return Resolution::Known(root);
        }
        Resolution::Walk(PathWalk { path: path.to_owned(), parts, at: 0, current: self.root })
    }

    /// Goes on with what the next name of a path was looked up as. The end of the path is cached.
    pub fn resolve_step(
        &mut self,
        now: u64,
        walk: PathWalk,
        found: Result<Inode, MetaError>,
    ) -> (r: Step<PathWalk, Inode>)
        requires
            old(self).wf(),
            old(self).cache.config.in_time(now),
            walk.wf(),
        ensures
            final(self).wf(),
            final(self).root == old(self).root,
            match found {
                Err(e) => r == Step::<PathWalk, Inode>::Done(Err(e)) && final(self).cache@ == old(
                    self,
                ).cache@,
                Ok(ino) => if walk.at + 1 < walk.parts@.len() {
                    r == Step::<PathWalk, Inode>::Next(
                        PathWalk { at: (walk.at + 1) as usize, current: ino, ..walk },
                    ) && final(self).cache@ == old(self).cache@
                } else {
                    r == Step::<PathWalk, Inode>::Done(Ok(ino)) && final(self).cache@ == old(
                        self,
                    ).cache@.put_path(now, walk.path@, ino)
                },
            },
    {
        match found {
            Err(e) => Step::Done(Err(e)),
            Ok(ino) => {
                if walk.at + 1 < walk.parts.len() {
                    Step::Next(PathWalk { at: walk.at + 1, current: ino, ..walk })
                } else {
                    self.cache.put_path(now, walk.path.as_str(), ino);
                    Step::Done(Ok(ino))
                }
            },
        }
    }

    /// The root directory.
    pub fn root_ino(&self) -> (r: Inode)
        ensures
            r == self.root,
    {
        self.root
    }

    /// The names of a directory that are cached with what they stand for, and the names that are
    /// to be looked up.
    pub fn lookup_batch(&mut self, now: u64, parent: Inode, names: &Vec<String>) -> (r: (
        Vec<(String, Inode)>,
        Vec<String>,
    ))
        requires
            old(self).wf(),
        ensures
            final(self).wf(),
            final(self).root == old(self).root,
            r.0@ == name_hits(old(self).cache@, now, parent, names@),
            r.1@ == name_misses(old(self).cache@, now, parent, names@),
            final(self).cache@ == names_read(old(self).cache@, now, parent, names@),
    {
        let mut hits: Vec<(String, Inode)> = Vec::new();
        let mut misses: Vec<String> = Vec::new();
        let ghost c = self.cache@;
        let mut i: usize = 0;
        while i < names.len()
            invariant
                i <= names.len(),
                self.wf(),
                self.root == old(self).root,
                hits@ == name_hits(c, now, parent, names@.take(i as int)),
                misses@ == name_misses(c, now, parent, names@.take(i as int)),
                self.cache@ == names_read(c, now, parent, names@.take(i as int)),
                forall|name: Seq<char>| #[trigger]
                    self.cache@.dentry(now, parent, name) == c.dentry(now, parent, name),
            decreases names.len() - i,
        {
            let ghost before = self.cache@;
            let ghost this = names@[i as int]@;
            match self.cache.get_dentry(now, parent, names[i].as_str()) {
                Some(child) => hits.push((names[i].clone(), child)),
                None => misses.push(names[i].clone()),
            }
            i = i + 1;
            proof {
                assert(names@.take(i as int).drop_last() =~= names@.take(i - 1));
                assert forall|name: Seq<char>| #[trigger]
                    self.cache@.dentry(now, parent, name) == c.dentry(now, parent, name) by {
                    law_reading_changes_no_answer(
                        before,
                        now,
                        parent,
                        parent,
                        parent,
                        this,
                        parent,
                        name,
                    );
                    assert(before.dentry(now, parent, name) == c.dentry(now, parent, name));
                }
            }
        }
        assert(names@.take(i as int) =~= names@);
        (hits, misses)
    }

    /// Drops what somebody else has made stale.
    pub fn drop_stale(&mut self, event: &CacheInvalidationEvent)
        requires
            old(self).wf(),
        ensures
            final(self).wf(),
            final(self).root == old(self).root,
            final(self).cache@ == (match *event {
                CacheInvalidationEvent::InvalidateInode(ino) => old(self).cache@.without_attr(
                    Inode(ino),
                ),
                CacheInvalidationEvent::InvalidateParentChildren(ino) => old(
                    self,
                ).cache@.without_dir(Inode(ino)),
                CacheInvalidationEvent::InvalidatePathPrefix(prefix) => old(
                    self,
                ).cache@.without_path_prefix(prefix@),
                CacheInvalidationEvent::InvalidateAll => old(self).cache@.cleared(),
            }),
    {
        match event {
            CacheInvalidationEvent::InvalidateInode(ino) => self.cache.invalidate_attr(Inode(*ino)),
            CacheInvalidationEvent::InvalidateParentChildren(ino) => self.cache.invalidate_dir(
                Inode(*ino),
            ),
            CacheInvalidationEvent::InvalidatePathPrefix(prefix) => {
                self.cache.invalidate_path_prefix(prefix.as_str())
            },
            CacheInvalidationEvent::InvalidateAll => self.cache.clear_all(),
        }
    }

    /// Drops everything that is cached.
    pub fn clear_cache(&mut self)
        requires
            old(self).wf(),
        ensures
            final(self).wf(),
            final(self).root == old(self).root,
            final(self).cache@ == old(self).cache@.cleared(),
    {
        self.cache.clear_all();
    }

    /// What is in use of the caches.
    pub fn cache_stats(&self) -> (r: CacheStats)
        ensures
            r.attr_size == self.cache@.attrs.len(),
            r.attr_capacity == self.cache.config.attr_capacity,
            r.dentry_size == self.cache@.dentries.len(),
            r.dentry_capacity == self.cache.config.dentry_capacity,
            r.path_size == self.cache@.paths.len(),
            r.path_capacity == self.cache.config.path_capacity,
            r.negative_size == self.cache@.negatives.len(),
            r.negative_capacity == self.cache.config.negative_capacity,
    {
        self.cache.stats()
    }
}

/// Adds what a name was looked up as to the names that were found; one that could not be
/// looked up is left out.
pub fn lookup_batch_reply(
    found: Vec<(String, Inode)>,
    name: String,
    reply: Result<Inode, MetaError>,
) -> (r: Vec<(String, Inode)>)
    ensures
        r@ == (match reply {
            Ok(child) => found@.push((name, child)),
            Err(_) => found@,
        }),
{
    let mut found = found;
    if let Ok(child) = reply {
        found.push((name, child));
    }
    found
}

/// What was just created has its attributes at hand; its name is looked up at the store,
/// and so is every other name of the directory that is not known to be absent.
pub proof fn law_created_is_at_hand(
    c: CacheView,
    now: u64,
    parent: Inode,
    name: Seq<char>,
    ino: Inode,
    attr: FileAttr,
    other: Seq<char>,
)
    requires
        c.sound(),
        c.config.in_time(now),
    ensures
        create_taken(c, now, parent, name, ino, attr).attr(now, ino, None) == Some(attr),
        known(create_taken(c, now, parent, name, ino, attr), now, parent, name) is None,
        !c.negative(now, absence_key(parent, other)) ==> known(
            create_taken(c, now, parent, name, ino, attr),
            now,
            parent,
            other,
        ) is None,
{
    law_cached_is_read_back(c, now, now, ino, attr, 0, parent, name, ino);
    let c1 = c.put_attr(now, ino, attr);
    lemma_set(
        c1.dentries,
        c.config.dentry_capacity as nat,
        dentry_key(parent, name),
        timed(CachedValue::Child(ino), now, c.config.dentry_ttl, 0),
    );
    let dentries = c1.put_dentry(now, parent, name, ino).dentries;
    lemma_filter_found(dentries, elsewhere(parent), dentry_key(parent, name));
    lemma_filter_found(dentries, elsewhere(parent), dentry_key(parent, other));
    let key = absence_key(parent, name);
    lemma_filter_found(c.negatives, other_key(text_key(key)), text_key(key));
    lemma_filter_found(
        c.negatives,
        other_key(text_key(key)),
        text_key(absence_key(parent, other)),
    );
}

/// What was just removed is known not to exist, and its attributes are not at hand.
pub proof fn law_removed_is_known_absent(
    c: CacheView,
    now: u64,
    later: u64,
    parent: Inode,
    name: Seq<char>,
    child: Inode,
)
    requires
        c.sound(),
        c.config.in_time(now),
        later < now + c.config.negative_ttl,
    ensures
        known(unlink_taken(c, now, parent, name, child), later, parent, name) == Some(
            Err::<Inode, ErrorView>(ErrorView::NotFound(parent.0)),
        ),
        known(rmdir_taken(c, now, parent, name, child), later, parent, name) == Some(
            Err::<Inode, ErrorView>(ErrorView::NotFound(parent.0)),
        ),
        unlink_taken(c, now, parent, name, child).attr(later, child, None) is None,
        rmdir_taken(c, now, parent, name, child).attr(later, child, None) is None,
        forall|any: Seq<char>| #[trigger]
            rmdir_taken(c, now, parent, name, child).dentry(later, child, any) is None,
{
    let key = dentry_key(parent, name);
    lemma_filter_found(c.attrs, other_key(attr_key(child)), attr_key(child));
    lemma_filter(c.dentries, other_key(key));
    let d1 = c.without_dentry(parent, name).dentries;
    lemma_filter_found(d1, elsewhere(parent), key);
    lemma_filter(d1, elsewhere(parent));
    let d2 = d1.filter(elsewhere(parent));
    lemma_filter_found(d2, elsewhere(child), key);
    assert forall|any: Seq<char>| #[trigger]
        rmdir_taken(c, now, parent, name, child).dentry(later, child, any) is None by {
        lemma_filter_found(d2, elsewhere(child), dentry_key(child, any));
    }
    lemma_set(
        c.negatives,
        c.config.negative_capacity as nat,
        text_key(absence_key(parent, name)),
        timed(CachedValue::Absent, now, c.config.negative_ttl, 0),
    );
}

/// After a move no name of either directory is answered from the cache as what it stood for, and
/// the old and the new name are not answered at all: the store is asked for them.
pub proof fn law_moved_names_are_asked_for(
    c: CacheView,
    now: u64,
    old_parent: Inode,
    old_name: Seq<char>,
    new_parent: Inode,
    new_name: Seq<char>,
    name: Seq<char>,
)
    requires
        c.sound(),
    ensures
        ({
            let after = rename_taken(c, old_parent, old_name, new_parent, new_name);
            &&& after.dentry(now, old_parent, name) is None
            &&& after.dentry(now, new_parent, name) is None
            &&& known(after, now, old_parent, old_name) is None
            &&& known(after, now, new_parent, new_name) is None
        }),
{
    lemma_filter(c.dentries, other_key(dentry_key(old_parent, old_name)));
    let d1 = c.without_dentry(old_parent, old_name).dentries;
    lemma_filter(d1, elsewhere(old_parent));
    let d2 = d1.filter(elsewhere(old_parent));
    lemma_moved_name(d1, d2, old_parent, new_parent, name);
    lemma_moved_name(d1, d2, old_parent, new_parent, old_name);
    lemma_moved_name(d1, d2, old_parent, new_parent, new_name);
    let old_key = text_key(absence_key(old_parent, old_name));
    let new_key = text_key(absence_key(new_parent, new_name));
    lemma_filter(c.negatives, other_key(old_key));
    let n1 = c.negatives.filter(other_key(old_key));
    lemma_filter_found(c.negatives, other_key(old_key), old_key);
    lemma_filter_found(n1, other_key(new_key), old_key);
    lemma_filter_found(n1, other_key(new_key), new_key);
}

/// A name of either directory is not found once the names of both are dropped.
proof fn lemma_moved_name(
    d1: Seq<TableItem>,
    d2: Seq<TableItem>,
    old_parent: Inode,
    new_parent: Inode,
    name: Seq<char>,
)
    requires
        distinct(d1),
        distinct(d2),
        d2 == d1.filter(elsewhere(old_parent)),
    ensures
        found(d2.filter(elsewhere(new_parent)), dentry_key(old_parent, name)) is None,
        found(d2.filter(elsewhere(new_parent)), dentry_key(new_parent, name)) is None,
{
    lemma_filter_found(d1, elsewhere(old_parent), dentry_key(old_parent, name));
    lemma_filter_found(d2, elsewhere(new_parent), dentry_key(old_parent, name));
    lemma_filter_found(d2, elsewhere(new_parent), dentry_key(new_parent, name));
}

/// A name that the store answered is known for a time; one that the store does not have is known
/// to be absent for a time.
pub proof fn law_looked_up_is_known(
    c: CacheView,
    now: u64,
    later: u64,
    parent: Inode,
    name: Seq<char>,
    child: Inode,
    of: i64,
)
    requires
        c.sound(),
        c.config.in_time(now),
    ensures
        later <= now + c.config.dentry_ttl ==> known(
            lookup_taken(c, now, parent, name, Ok(child)),
            later,
            parent,
            name,
        ) == Some(Ok::<Inode, ErrorView>(child)),
        c.dentry(later, parent, name) is None && later < now + c.config.negative_ttl ==> known(
            lookup_taken(c, now, parent, name, Err(ErrorView::NotFound(of))),
            later,
            parent,
            name,
        ) == Some(Err::<Inode, ErrorView>(ErrorView::NotFound(parent.0))),
{
    law_cached_is_read_back(
        c,
        now,
        later,
        parent,
        arbitrary(),
        0,
        parent,
        name,
        child,
    );
    lemma_set(
        c.negatives,
        c.config.negative_capacity as nat,
        text_key(absence_key(parent, name)),
        timed(CachedValue::Absent, now, c.config.negative_ttl, 0),
    );
}

} // verus!
