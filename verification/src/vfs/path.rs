//! Paths: their normal form, and their last name.

use crate::text::{
    chars_of, components, find_last_char, join, join_from, last_index, lemma_last_index,
    lemma_split_none, lemma_split_not_empty, not_empty_parts, path_components, same_text, split, texts,
};
use crate::vfs::error::{VfsError, VfsErrorView};
use vstd::prelude::*;
use vstd::string::*;

verus! {

/// The path of names from the root.
pub open spec fn path_of(names: Seq<Seq<char>>) -> Seq<char> {
    seq!['/'] + join(names, '/')
}

/// The normal form of a path: a slash before each name and nothing else, or one slash.
pub open spec fn normal(path: Seq<char>) -> Seq<char> {
    path_of(components(path))
}

/// A name is not empty and has no slash.
pub open spec fn is_name(name: Seq<char>) -> bool {
    name.len() > 0 && forall|i: int| 0 <= i < name.len() ==> name[i] != '/'
}

/// All are names.
pub open spec fn are_names(names: Seq<Seq<char>>) -> bool {
    forall|i: int| 0 <= i < names.len() ==> is_name(#[trigger] names[i])
}

/// The path of the first names of a list.
pub fn path_from(names: &Vec<String>, n: usize) -> (r: String)
    requires
        n <= names.len(),
    ensures
        r@ == path_of(texts(names@).take(n as int)),
{
    let mut first: Vec<String> = Vec::new();
    let mut i: usize = 0;
    while i < n
        invariant
            i <= n <= names.len(),
            texts(first@) == texts(names@).take(i as int),
        decreases n - i,
    {
        let ghost before = texts(first@);
        first.push(names[i].clone());
        i = i + 1;
        assert(texts(first@) =~= before.push(names@[i - 1]@));
        assert(texts(names@).take(i as int) =~= texts(names@).take(i - 1).push(names@[i - 1]@));
    }
    proof {
        reveal_strlit("/");
        assert("/"@ =~= seq!['/']);
    }
    let mut r = String::from_str("/");
    let rest = join_from(&first, 0, "/", '/');
    assert(texts(first@).skip(0) =~= texts(first@));
    r.append(rest.as_str());
    r
}

/// The normal form of a path.
pub fn norm_path(p: &str) -> (r: String)
    ensures
        r@ == normal(p@),
{
    let parts = path_components(p);
    let n: usize = parts.len();
    assert(texts(parts@).take(n as int) =~= texts(parts@));
    path_from(&parts, n)
}

/// What stands before the last slash of an absolute path, and what stands after it. Before
/// the only slash stands the root.
pub open spec fn dir_and_name(path: Seq<char>) -> (Seq<char>, Seq<char>) {
    match last_index(path, '/') {
        Some(n) => if n == 0 {
            (seq!['/'], path.skip(1))
        } else {
            (path.take(n), path.skip(n + 1))
        },
        None => (seq!['/'], path.skip(1)),
    }
}

/// The directory of an absolute path, and the last name.
pub fn split_dir_file(path: &str) -> (r: (String, String))
    requires
        path@.len() > 0,
        path@[0] == '/',
    ensures
        r.0@ == dir_and_name(path@).0,
        r.1@ == dir_and_name(path@).1,
{
    let chars = chars_of(path);
    let n: usize = match find_last_char(&chars, '/') {
        Some(n) => n,
        None => 0,
    };
    proof {
        assert(chars@[0] == '/');
        lemma_last_index(path@, '/', n as int);
        reveal_strlit("/");
        assert("/"@ =~= seq!['/']);
        assert(path@.subrange(n + 1, path@.len() as int) =~= path@.skip(n + 1));
        assert(path@.subrange(0, n as int) =~= path@.take(n as int));
    }
    let name = path.substring_char(n + 1, chars.len()).to_owned();
    if n == 0 {
        (String::from_str("/"), name)
    } else {
        (path.substring_char(0, n).to_owned(), name)
    }
}

/// The directory of a path and the last name. A path has to be absolute, and the root has no name.
pub fn parse_path(path: &str) -> (r: Result<(String, String), VfsError>)
    ensures
        if path@.len() == 0 || path@[0] != '/' {
            r matches Err(e) && e@ == VfsErrorView::InvalidPath(path@)
        } else if path@ == seq!['/'] {
            r matches Err(e) && e@ == VfsErrorView::InvalidPath("Cannot parse root path"@)
        } else {
            r matches Ok(parts) && (parts.0@, parts.1@) == dir_and_name(path@)
        },
{
    proof {
        reveal_strlit("/");
        assert("/"@ =~= seq!['/']);
    }
    let chars = chars_of(path);
    if chars.len() == 0 || chars[0] != '/' {
        return Err(VfsError::InvalidPath(path.to_owned()));
    }
    if same_text(path, "/") {
        return Err(VfsError::InvalidPath(String::from_str("Cannot parse root path")));
    }
    Ok(split_dir_file(path))
}

/// What stands after the last slash is the last part.
proof fn lemma_split_last(a: Seq<char>, b: Seq<char>)
    requires
        forall|i: int| 0 <= i < b.len() ==> b[i] != '/',
    ensures
        split(a.push('/') + b, '/') == split(a, '/').push(b),
    decreases b.len(),
{
    let s = a.push('/') + b;
    if b.len() == 0 {
        assert(s =~= a.push('/'));
        assert(s.drop_last() =~= a);
        assert(b =~= Seq::empty());
    } else {
        let less = b.drop_last();
        lemma_split_last(a, less);
        assert(s.drop_last() =~= a.push('/') + less);
        assert(s.last() == b.last());
        assert(split(a, '/').push(less).drop_last() =~= split(a, '/'));
        assert(less.push(b.last()) =~= b);
    }
}

/// A name more at the end of a path is a name more.
pub proof fn lemma_one_name_more(path: Seq<char>, name: Seq<char>)
    requires
        is_name(name),
    ensures
        components(path.push('/') + name) == components(path).push(name),
{
    lemma_split_last(path, name);
    assert(split(path, '/').push(name).drop_last() =~= split(path, '/'));
}

/// A path of one name more.
pub proof fn lemma_path_of_push(names: Seq<Seq<char>>, name: Seq<char>)
    ensures
        names.len() > 0 ==> path_of(names.push(name)) == path_of(names).push('/') + name,
        names.len() == 0 ==> path_of(names.push(name)) == seq!['/'] + name,
{
    let more = names.push(name);
    assert(more.drop_last() =~= names);
    if names.len() > 0 {
        assert(path_of(more) =~= path_of(names).push('/') + name);
    }
}

/// The names of the path of names are those names.
pub proof fn law_path_of_names_reads_back(names: Seq<Seq<char>>)
    requires
        are_names(names),
    ensures
        components(path_of(names)) == names,
    decreases names.len(),
{
    if names.len() == 0 {
        assert(path_of(names) =~= seq!['/']);
        let nothing = Seq::<char>::empty();
        lemma_split_last(nothing, nothing);
        assert(nothing.push('/') + nothing =~= seq!['/']);
        assert(split(nothing, '/') =~= seq![nothing]);
        reveal_with_fuel(not_empty_parts, 3);
        assert(components(path_of(names)) =~= names);
    } else {
        let less = names.drop_last();
        let name = names.last();
        assert(is_name(names[names.len() - 1]));
        assert forall|i: int| 0 <= i < less.len() implies is_name(#[trigger] less[i]) by {
            assert(is_name(names[i]));
        }
        law_path_of_names_reads_back(less);
        lemma_path_of_push(less, name);
        assert(less.push(name) =~= names);
        if less.len() == 0 {
            let nothing = Seq::<char>::empty();
            assert(nothing.push('/') + name =~= seq!['/'] + name);
            lemma_one_name_more(nothing, name);
            assert(split(nothing, '/') =~= seq![nothing]);
            reveal_with_fuel(not_empty_parts, 2);
            assert(components(nothing) =~= Seq::empty());
            assert(components(path_of(names)) =~= names);
        } else {
            lemma_one_name_more(path_of(less), name);
        }
    }
}

/// What a path is made of are names.
pub proof fn lemma_components_are_names(path: Seq<char>)
    ensures
        are_names(components(path)),
{
    lemma_split_parts(path);
    lemma_not_empty_are_names(split(path, '/'));
}

/// No part of a path has a slash.
proof fn lemma_split_parts(path: Seq<char>)
    ensures
        forall|i: int, j: int|
            0 <= i < split(path, '/').len() && 0 <= j < split(path, '/')[i].len()
                ==> #[trigger] split(path, '/')[i][j] != '/',
    decreases path.len(),
{
    if path.len() > 0 {
        let less = split(path.drop_last(), '/');
        lemma_split_parts(path.drop_last());
        lemma_split_not_empty(path.drop_last(), '/');
        let parts = split(path, '/');
        assert forall|i: int, j: int|
            0 <= i < parts.len() && 0 <= j < parts[i].len() implies #[trigger] parts[i][j]
            != '/' by {
            if path.last() == '/' {
                if i < less.len() {
                    assert(parts[i] == less[i]);
                    assert(less[i][j] != '/');
                }
            } else {
                if i < less.len() - 1 {
                    assert(parts[i] == less[i]);
                    assert(less[i][j] != '/');
                } else if j < less.last().len() {
                    assert(less[less.len() - 1][j] != '/');
                }
            }
        }
    }
}

/// The parts that are not empty and have no slash are names.
proof fn lemma_not_empty_are_names(parts: Seq<Seq<char>>)
    requires
        forall|i: int, j: int|
            0 <= i < parts.len() && 0 <= j < parts[i].len() ==> #[trigger] parts[i][j] != '/',
    ensures
        are_names(not_empty_parts(parts)),
    decreases parts.len(),
{
    if parts.len() > 0 {
        let less = parts.drop_last();
        assert forall|i: int, j: int|
            0 <= i < less.len() && 0 <= j < less[i].len() implies #[trigger] less[i][j] != '/' by {
            assert(parts[i][j] != '/');
        }
        lemma_not_empty_are_names(less);
        assert forall|j: int| 0 <= j < parts.last().len() implies parts.last()[j] != '/' by {
            assert(parts[parts.len() - 1][j] != '/');
        }
    }
}

/// A slash parts names and is nothing else: behind a slash a path has no name more, a name behind a
/// slash is one name more, and a name alone is a path of that name.
pub proof fn law_slashes_part_names(path: Seq<char>, name: Seq<char>)
    requires
        is_name(name),
    ensures
        components(Seq::<char>::empty()) == Seq::<Seq<char>>::empty(),
        components(path.push('/')) == components(path),
        components(path.push('/') + name) == components(path).push(name),
        components(name) == seq![name],
{
    let nothing = Seq::<char>::empty();
    assert(split(nothing, '/') =~= seq![nothing]);
    reveal_with_fuel(not_empty_parts, 2);
    assert(components(nothing) =~= Seq::empty());
    lemma_one_name_more(path, name);
    lemma_split_last(path, nothing);
    assert(path.push('/') + nothing =~= path.push('/'));
    assert(split(path, '/').push(nothing).drop_last() =~= split(path, '/'));
    lemma_split_none(name, '/');
    assert(seq![name].drop_last() =~= Seq::empty());
    assert(components(name) =~= seq![name]);
}

/// The normal form has the names of the path, and is its own normal form.
pub proof fn law_normal_form(path: Seq<char>)
    ensures
        components(normal(path)) == components(path),
        normal(normal(path)) == normal(path),
        normal(path).len() > 0,
        normal(path)[0] == '/',
{
    lemma_components_are_names(path);
    law_path_of_names_reads_back(components(path));
}

/// The last slash of a path with one name more.
proof fn lemma_last_slash(a: Seq<char>, name: Seq<char>)
    requires
        is_name(name),
    ensures
        last_index(a.push('/') + name, '/') == Some(a.len() as int),
{
    let s = a.push('/') + name;
    assert forall|j: int| a.len() < j < s.len() implies s[j] != '/' by {
        assert(s[j] == name[j - a.len() - 1]);
    }
    lemma_last_index(s, '/', a.len() as int);
}

/// The directory of a path of names is the path of all names but the last, and its name is
/// the last.
pub proof fn law_dir_and_name(names: Seq<Seq<char>>)
    requires
        are_names(names),
        names.len() > 0,
    ensures
        dir_and_name(path_of(names)) == (path_of(names.drop_last()), names.last()),
{
    let less = names.drop_last();
    let name = names.last();
    assert(is_name(names[names.len() - 1]));
    lemma_path_of_push(less, name);
    assert(less.push(name) =~= names);
    let path = path_of(names);
    if less.len() == 0 {
        let nothing = Seq::<char>::empty();
        assert(nothing.push('/') + name =~= path);
        lemma_last_slash(nothing, name);
        assert(path.skip(1) =~= name);
        assert(path_of(less) =~= seq!['/']);
    } else {
        lemma_last_slash(path_of(less), name);
        let n = path_of(less).len() as int;
        assert(path.take(n) =~= path_of(less));
        assert(path.skip(n + 1) =~= name);
    }
}

} // verus!
