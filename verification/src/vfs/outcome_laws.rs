//! What the operations by path and by inode are for: how many bytes a read gives, when a file is
//! made or moved, and what is left as it was.

use crate::meta::store::FileType;
use crate::meta::types::Inode;
use crate::text::components;
use crate::vfs::error::VfsErrorView;
use crate::vfs::fs::{
    CreateFile, CreateFilePhase, ReadFile, ReadFilePhase, ReadInode, ReadInodePhase, RenameFile,
    RenameFilePhase, WriteFile, WriteFilePhase, WriteInode, WriteInodePhase,
};
use crate::vfs::laws::{
    file_made, file_moved, law_create_file_runs, law_read_file_runs, law_read_runs,
    law_rename_file_runs, law_write_file_runs, law_write_runs, lemma_dir, lemma_made_is_empty,
    lemma_written,
};
use crate::vfs::op::{FsOperation, FsReply};
use crate::vfs::path::{dir_and_name, normal};
use crate::vfs::tree::{fs_runs, lemma_walk_known, lemma_walk_within, Tree};
use vstd::prelude::*;

verus! {

/// Whether bytes are those of a file from an offset on, up to `wanted` of them and up to the end
/// of the file.
pub open spec fn bytes_from(t: Tree, ino: i64, offset: int, wanted: int, bytes: Seq<u8>) -> bool {
    let size = t.sizes[ino] as int;
    &&& offset >= size ==> bytes.len() == 0
    &&& offset < size && wanted <= size - offset ==> bytes.len() == wanted
    &&& offset < size && wanted >= size - offset ==> bytes.len() == size - offset
    &&& forall|k: int| 0 <= k < bytes.len() ==> #[trigger] bytes[k] == t.byte(ino, offset + k)
}

/// A read of a file gives as many bytes as are wanted, or all that are left up to the end of the
/// file where there are fewer: the byte at the offset, the one behind it, and so on.
pub proof fn law_read_gives_what_is_left(
    t: Tree,
    ino: Inode,
    offset: u64,
    len: usize,
    trace: Seq<(FsReply, Tree)>,
    end: (Tree, Result<Seq<u8>, VfsErrorView>),
)
    requires
        t.is(ino.0, FileType::File),
        t.sizes[ino.0] <= usize::MAX,
        fs_runs::<ReadInode>(
            ReadInode { ino, offset, len, phase: ReadInodePhase::Size },
            t,
            trace,
            end,
        ),
    ensures
        end.0 == t,
        end.1 matches Ok(bytes) && bytes_from(t, ino.0, offset as int, len as int, bytes),
{
    law_read_runs(t, ino, offset, len, trace, end);
}

/// A read by path gives as many bytes of the file of the path as are wanted, or all that are left
/// up to the end of the file where there are fewer.
pub proof fn law_read_by_path_gives_what_is_left(
    t: Tree,
    path: String,
    given: Seq<char>,
    offset: u64,
    len: usize,
    trace: Seq<(FsReply, Tree)>,
    end: (Tree, Result<Seq<u8>, VfsErrorView>),
)
    requires
        t.sound(),
        path@ == normal(given),
        t.walk(components(given)) matches Some(ino) && t.is(ino, FileType::File) && t.sizes[ino]
            <= usize::MAX,
        fs_runs::<ReadFile>(
            ReadFile { path, offset, len, phase: ReadFilePhase::Path },
            t,
            trace,
            end,
        ),
    ensures
        end.0 == t,
        end.1 matches Ok(bytes) && bytes_from(
            t,
            t.walk(components(given))->0,
            offset as int,
            len as int,
            bytes,
        ),
{
    law_read_file_runs(t, path, given, offset, len, trace, end);
}

/// Whether bytes were written to a file and the rest was left: each of them stands at its place,
/// and every other byte of every file is what it was.
pub open spec fn bytes_put(t: Tree, t2: Tree, ino: i64, offset: int, data: Seq<u8>) -> bool {
    &&& forall|k: int| 0 <= k < data.len() ==> t2.byte(ino, offset + k) == #[trigger] data[k]
    &&& forall|of: i64, at: int|
        of != ino || at < offset || at >= offset + data.len() ==> #[trigger] t2.byte(of, at)
            == t.byte(of, at)
    &&& t2.root == t.root
    &&& t2.kinds == t.kinds
    &&& t2.names == t.names
    &&& t2.sizes.dom() == t.sizes.dom()
    &&& forall|of: i64| of != ino && t.sizes.dom().contains(of) ==> #[trigger] t2.sizes[of]
        == t.sizes[of]
}

/// A write to an inode puts all its bytes in their places and nothing elsewhere, tells how many
/// they are, and lets the file end at the later of its old end and the end of the bytes.
pub proof fn law_write_puts_its_bytes(
    t: Tree,
    ino: Inode,
    offset: u64,
    data: Vec<u8>,
    trace: Seq<(FsReply, Tree)>,
    end: (Tree, Result<usize, VfsErrorView>),
)
    requires
        t.is(ino.0, FileType::File),
        t.sizes.dom().contains(ino.0),
        offset + data@.len() <= u64::MAX,
        fs_runs::<WriteInode>(
            WriteInode { ino, offset, data, phase: WriteInodePhase::Data },
            t,
            trace,
            end,
        ),
    ensures
        end.1 == Ok::<usize, VfsErrorView>(data@.len() as usize),
        bytes_put(t, end.0, ino.0, offset as int, data@),
        end.0.sizes[ino.0] >= t.sizes[ino.0],
        end.0.sizes[ino.0] >= offset + data@.len(),
        end.0.sizes[ino.0] == t.sizes[ino.0] || end.0.sizes[ino.0] == offset + data@.len(),
{
    law_write_runs(t, ino, offset, data, trace, end);
    lemma_bytes_put(t, end.0, ino.0, offset as int, data@);
    assert(end.0.sizes.dom() =~= t.sizes.dom());
}

/// Bytes that are written stand in their places, and nothing else is touched.
proof fn lemma_bytes_put(t: Tree, t2: Tree, ino: i64, offset: int, data: Seq<u8>)
    requires
        t2.bytes == crate::vfs::tree::written(t.bytes, ino, offset, data),
    ensures
        forall|k: int| 0 <= k < data.len() ==> t2.byte(ino, offset + k) == #[trigger] data[k],
        forall|of: i64, at: int|
            of != ino || at < offset || at >= offset + data.len() ==> #[trigger] t2.byte(of, at)
                == t.byte(of, at),
{
    assert forall|k: int| 0 <= k < data.len() implies t2.byte(ino, offset + k)
        == #[trigger] data[k] by {
        lemma_written(t.bytes, ino, offset, data, ino, offset + k);
    }
    assert forall|of: i64, at: int|
        of != ino || at < offset || at >= offset + data.len() implies #[trigger] t2.byte(of, at)
        == t.byte(of, at) by {
        lemma_written(t.bytes, ino, offset, data, of, at);
    }
}

/// A write by path puts all its bytes in their places in the file of the path and nothing
/// elsewhere, tells how many they are, and lets the file end where they end.
pub proof fn law_write_by_path_puts_its_bytes(
    t: Tree,
    path: String,
    given: Seq<char>,
    offset: u64,
    data: Vec<u8>,
    trace: Seq<(FsReply, Tree)>,
    end: (Tree, Result<usize, VfsErrorView>),
)
    requires
        t.sound(),
        path@ == normal(given),
        offset + data@.len() <= u64::MAX,
        t.walk(components(given)) matches Some(ino) && t.is(ino, FileType::File),
        fs_runs::<WriteFile>(
            WriteFile { path, offset, data, phase: WriteFilePhase::Path },
            t,
            trace,
            end,
        ),
    ensures
        end.1 == Ok::<usize, VfsErrorView>(data@.len() as usize),
        bytes_put(t, end.0, t.walk(components(given))->0, offset as int, data@),
        end.0.sizes[t.walk(components(given))->0] == offset + data@.len(),
{
    law_write_file_runs(t, path, given, offset, data, trace, end);
    let ino = t.walk(components(given))->0;
    lemma_walk_known(t, components(given));
    lemma_bytes_put(t, end.0, ino, offset as int, data@);
    assert(end.0.sizes.dom() =~= t.sizes.dom());
}

/// A file that was written whole is read whole: after one write from its beginning, and no shorter
/// than the file was, a read of at least as many bytes gives exactly what was written.
pub proof fn law_whole_file_is_read_back(
    t: Tree,
    ino: Inode,
    data: Vec<u8>,
    wanted: usize,
    writing: Seq<(FsReply, Tree)>,
    wrote: (Tree, Result<usize, VfsErrorView>),
    reading: Seq<(FsReply, Tree)>,
    read: (Tree, Result<Seq<u8>, VfsErrorView>),
)
    requires
        t.is(ino.0, FileType::File),
        t.sizes.dom().contains(ino.0),
        t.sizes[ino.0] <= data@.len() <= wanted,
        fs_runs::<WriteInode>(
            WriteInode { ino, offset: 0, data, phase: WriteInodePhase::Data },
            t,
            writing,
            wrote,
        ),
        fs_runs::<ReadInode>(
            ReadInode { ino, offset: 0, len: wanted, phase: ReadInodePhase::Size },
            wrote.0,
            reading,
            read,
        ),
    ensures
        read.1 == Ok::<Seq<u8>, VfsErrorView>(data@),
{
    law_write_puts_its_bytes(t, ino, 0, data, writing, wrote);
    law_read_gives_what_is_left(wrote.0, ino, 0, wanted, reading, read);
    let got = read.1->Ok_0;
    assert forall|k: int| 0 <= k < data@.len() implies got[k] == data@[k] by {
        assert(got[k] == wrote.0.byte(ino.0, 0 + k));
        assert(wrote.0.byte(ino.0, 0 + k) == data@[k]);
    }
    assert(got =~= data@);
}

/// Whether a file stands where a path of names needs a directory.
pub open spec fn file_in_the_way(t: Tree, parts: Seq<Seq<char>>) -> bool {
    exists|i: int|
        0 < i < parts.len() && (t.walk(#[trigger] parts.take(i)) matches Some(ino) && t.is(
            ino,
            FileType::File,
        ))
}

/// A creation by path succeeds if and only if the path leads to a file, or leads nowhere and no
/// file stands where it needs a directory. Then the path leads to a file; one that was made is
/// empty and new.
pub proof fn law_file_is_made_unless_something_is_in_the_way(
    t: Tree,
    s: CreateFile,
    given: Seq<char>,
    trace: Seq<(FsReply, Tree)>,
    end: (Tree, Result<Inode, VfsErrorView>),
)
    requires
        t.sound(),
        components(given).len() > 0,
        s.path@ == normal(given),
        (s.dir@, s.name@) == dir_and_name(normal(given)),
        s.phase == CreateFilePhase::Dirs,
        fs_runs::<CreateFile>(s, t, trace, end),
    ensures
        end.1 is Ok <==> (match t.walk(components(given)) {
            Some(ino) => t.is(ino, FileType::File),
            None => !file_in_the_way(t, components(given)),
        }),
        end.1 is Err ==> end.0 == t,
        end.1 matches Ok(ino) ==> file_made(t, end.0, components(given), ino.0) && end.0.walk(
            components(given),
        ) == Some(ino.0) && end.0.is(ino.0, FileType::File) && end.0.bytes == t.bytes,
        end.1 is Ok && t.walk(components(given)) is None ==> {
            let ino = end.1->Ok_0.0;
            !t.kinds.dom().contains(ino) && end.0.sizes[ino] == 0
        },
{
    law_create_file_runs(t, s, given, trace, end);
    reveal_with_fuel(fs_runs, 6);
    lemma_dir(given);
    let parts = components(given);
    let dirs = parts.drop_last();
    let n = dirs.len() as int;
    lemma_walk_known(t, parts);
    lemma_walk_known(t, dirs);
    assert(parts.take(n) =~= dirs);
    let t1 = trace[0].1;
    if t.walk(parts) is None {
        if file_in_the_way(t, parts) {
            let i = choose|i: int|
                0 < i < parts.len() && (t.walk(#[trigger] parts.take(i)) matches Some(ino) && t.is(
                    ino,
                    FileType::File,
                ));
            lemma_file_blocks(t, parts, i, end.0);
        } else {
            assert forall|i: int| 0 < i <= dirs.len() implies !(t.walk(#[trigger] dirs.take(i))
                matches Some(ino) && t.is(ino, FileType::File)) by {
                assert(dirs.take(i) =~= parts.take(i));
            }
            if n == 0 {
                assert(dirs =~= Seq::empty());
            } else {
                assert(dirs.take(n) =~= dirs);
            }
            if let FsReply::Path(Ok(dir)) = trace[0].0 {
                lemma_walk_known(t1, dirs);
                if t.walk(dirs) is None {
                    lemma_made_is_empty(t, t1, dirs, dir.0, parts.last());
                }
            }
        }
    }
}

/// Behind a file no path leads anywhere, neither in a tree nor in a larger one.
proof fn lemma_file_blocks(t: Tree, parts: Seq<Seq<char>>, i: int, t2: Tree)
    requires
        t.sound(),
        0 < i < parts.len(),
        t.walk(parts.take(i)) matches Some(ino) && t.is(ino, FileType::File),
    ensures
        t2.sound() && t.within(t2) ==> t2.walk(parts) is None,
    decreases parts.len(),
{
    if t2.sound() && t.within(t2) && t2.walk(parts) is Some {
        lemma_walk_known(t2, parts);
        let less = parts.drop_last();
        if i == less.len() {
            assert(parts.take(i) =~= less);
            lemma_walk_within(t, t2, less);
        } else {
            assert(parts.take(i) =~= less.take(i));
            lemma_file_blocks(t, less, i, t2);
        }
    }
}

/// A move of a file by path to a path that leads nowhere succeeds if and only if no file stands
/// where the new path needs a directory; directories that are missing there are made. Then the new
/// path leads to the file, the old one nowhere, and every other path that led somewhere leads
/// there still. A file in the way leaves everything as it was.
pub proof fn law_file_is_moved_unless_something_is_in_the_way(
    t: Tree,
    s: RenameFile,
    old: Seq<char>,
    new: Seq<char>,
    trace: Seq<(FsReply, Tree)>,
    end: (Tree, Result<(), VfsErrorView>),
)
    requires
        t.sound(),
        components(old).len() > 0,
        components(new).len() > 0,
        s.old_path@ == normal(old),
        (s.old_dir@, s.old_name@) == dir_and_name(normal(old)),
        s.new_path@ == normal(new),
        (s.new_dir@, s.new_name@) == dir_and_name(normal(new)),
        s.phase == RenameFilePhase::Target,
        fs_runs::<RenameFile>(s, t, trace, end),
        t.walk(components(old)) matches Some(ino) && t.is(ino, FileType::File),
        t.walk(components(new)) is None,
    ensures
        end.1 is Ok <==> !file_in_the_way(t, components(new)),
        end.1 is Ok ==> file_moved(t, end.0, components(old), components(new)) && end.0.bytes
            == t.bytes && end.0.is(t.walk(components(old))->0, FileType::File)
            && end.0.sizes[t.walk(components(old))->0] == t.sizes[t.walk(components(old))->0],
        end.1 is Err ==> end.0 == t,
{
    law_rename_file_runs(t, s, old, new, trace, end);
    reveal_with_fuel(fs_runs, 8);
    lemma_dir(old);
    lemma_dir(new);
    let from = components(old);
    let to = components(new);
    let dirs = to.drop_last();
    let n = dirs.len() as int;
    lemma_walk_known(t, from);
    lemma_walk_known(t, dirs);
    assert(to.take(n) =~= dirs);
    let made = trace.drop_first().drop_first().drop_first().drop_first()[0];
    let t1 = made.1;
    if file_in_the_way(t, to) {
        let i = choose|i: int|
            0 < i < to.len() && (t.walk(#[trigger] to.take(i)) matches Some(ino) && t.is(
                ino,
                FileType::File,
            ));
        if i < n {
            assert(dirs.take(i) =~= to.take(i));
            lemma_file_blocks(t, dirs, i, t1);
            lemma_file_blocks(t, dirs, i, t);
        }
    } else {
        assert forall|i: int| 0 < i <= dirs.len() implies !(t.walk(#[trigger] dirs.take(i))
            matches Some(ino) && t.is(ino, FileType::File)) by {
            assert(dirs.take(i) =~= to.take(i));
        }
        if n == 0 {
            assert(dirs =~= Seq::empty());
        } else {
            assert(dirs.take(n) =~= dirs);
        }
        if let FsReply::Path(Ok(dir)) = made.0 {
            lemma_walk_known(t1, dirs);
            lemma_walk_within(t, t1, from);
            lemma_walk_within(t, t1, from.drop_last());
            if t.walk(dirs) is None {
                lemma_made_is_empty(t, t1, dirs, dir.0, to.last());
            }
        }
    }
}

} // verus!
