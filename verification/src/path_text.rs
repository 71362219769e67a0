//! Text-level path analysis: everything the classifier and planner need to
//! know about a path is derived here from its characters. A path is held as
//! a plain string whose components are separated by `/`; the base name is
//! the text after the last separator, and a file's extension is the suffix
//! of the base name from its last dot on, provided that dot is not the
//! name's first character.

use vstd::prelude::*;
use vstd::string::*;

verus! {

/// The index of the last occurrence of `c` in `s`, or `-1` when `s` does not
/// contain `c`.
pub open spec fn last_index_of(s: Seq<char>, c: char) -> int
    decreases s.len(),
{
    if s.len() == 0 {
        -1
    } else if s[s.len() - 1] == c {
        s.len() - 1
    } else {
        last_index_of(s.drop_last(), c)
    }
}

/// True when `c` occurs somewhere in `s`.
pub open spec fn has_char(s: Seq<char>, c: char) -> bool {
    exists|i: int| 0 <= i < s.len() && s[i] == c
}

/// What `last_index_of` returns: a position below the length that carries
/// `c` and is followed by no further occurrence, or `-1` when there is none.
pub proof fn lemma_last_index_of_props(s: Seq<char>, c: char)
    ensures
        -1 <= last_index_of(s, c) < s.len(),
        last_index_of(s, c) >= 0 ==> s[last_index_of(s, c)] == c,
        forall|j: int| last_index_of(s, c) < j < s.len() ==> s[j] != c,
    decreases s.len(),
{
    if s.len() > 0 && s[s.len() - 1] != c {
        lemma_last_index_of_props(s.drop_last(), c);
        assert(forall|j: int| last_index_of(s, c) < j < s.len() - 1 ==> s.drop_last()[j] == s[j]);
    }
}

/// A position that carries `c` and is followed by no further occurrence is
/// the last occurrence.
pub proof fn lemma_last_index_of_at(s: Seq<char>, c: char, i: int)
    requires
        0 <= i < s.len(),
        s[i] == c,
        forall|j: int| i < j < s.len() ==> s[j] != c,
    ensures
        last_index_of(s, c) == i,
    decreases s.len(),
{
    if i < s.len() - 1 {
        assert(s.drop_last()[i] == s[i]);
        assert(forall|j: int| i < j < s.len() - 1 ==> s.drop_last()[j] == s[j]);
        lemma_last_index_of_at(s.drop_last(), c, i);
    }
}

/// The index of the last occurrence of `c` in `s`, if any.
pub fn find_last(s: &str, c: char) -> (r: Option<usize>)
    ensures
        match r {
            Some(i) => i == last_index_of(s@, c),
            None => last_index_of(s@, c) == -1,
        },
{
    let len = s.unicode_len();
    let mut i = len;
    proof {
        assert(s@.subrange(0, len as int) =~= s@);
    }
    while i > 0
        invariant
            i <= len,
            len == s@.len(),
            last_index_of(s@, c) == last_index_of(s@.subrange(0, i as int), c),
        decreases i,
    {
        i = i - 1;
        let ch = s.get_char(i);
        proof {
            assert(s@.subrange(0, i + 1).len() == i + 1);
            assert(s@.subrange(0, i + 1)[i as int] == s@[i as int]);
        }
        if ch == c {
            proof {
                assert(last_index_of(s@.subrange(0, i + 1), c) == i);
            }
            return Some(i);
        }
        proof {
            assert(s@.subrange(0, i + 1).drop_last() =~= s@.subrange(0, i as int));
        }
    }
    proof {
        assert(s@.subrange(0, 0) =~= Seq::<char>::empty());
    }
    None
}

/// True when the two string slices hold the same characters.
pub fn str_eq(a: &str, b: &str) -> (r: bool)
    ensures
        r == (a@ == b@),
{
    let la = a.unicode_len();
    let lb = b.unicode_len();
    if la != lb {
        return false;
    }
    let mut i: usize = 0;
    while i < la
        invariant
            i <= la,
            la == a@.len(),
            la == b@.len(),
            forall|j: int| 0 <= j < i ==> a@[j] == b@[j],
        decreases la - i,
    {
        if a.get_char(i) != b.get_char(i) {
            return false;
        }
        i = i + 1;
    }
    proof {
        assert(a@ =~= b@);
    }
    true
}

/// The concatenation of two string slices.
pub fn concat_strs(a: &str, b: &str) -> (r: String)
    ensures
        r@ == a@ + b@,
{
    let mut r = a.to_owned();
    r.append(b);
    r
}

/// The parent directory of a path: the text before the last separator, or
/// the root when the only separator is the leading one. Empty for a path
/// with no separator, and for the root itself, which has no parent.
pub open spec fn parent_spec(p: Seq<char>) -> Seq<char> {
    let li = last_index_of(p, '/');
    if li < 0 {
        Seq::<char>::empty()
    } else if li == 0 {
        if p.len() == 1 {
            Seq::<char>::empty()
        } else {
            seq!['/']
        }
    } else {
        p.subrange(0, li)
    }
}

/// True when the path has a parent directory at all: the root and the empty
/// path are the only ones without.
pub open spec fn has_parent_spec(p: Seq<char>) -> bool {
    p.len() > 0 && !(p.len() == 1 && p[0] == '/')
}

/// True when the two paths both have a parent directory and those parents
/// are structurally equal. A path without a parent shares a directory with
/// nothing.
pub open spec fn same_dir_spec(p1: Seq<char>, p2: Seq<char>) -> bool {
    has_parent_spec(p1) && has_parent_spec(p2) && parent_spec(p1) == parent_spec(p2)
}

/// The text after the last separator: the full base name, extension
/// included. The whole path when it has no separator.
pub open spec fn file_name_spec(p: Seq<char>) -> Seq<char> {
    if last_index_of(p, '/') < 0 {
        p
    } else {
        p.subrange(last_index_of(p, '/') + 1, p.len() as int)
    }
}

/// The base name without its extension. A directory's base name is taken
/// whole, dots and all; a file loses its suffix from the last dot on, unless
/// that dot opens the name.
pub open spec fn stem_of_name(name: Seq<char>, is_file: bool) -> Seq<char> {
    if is_file && last_index_of(name, '.') >= 1 {
        name.subrange(0, last_index_of(name, '.'))
    } else {
        name
    }
}

/// The extension of a base name, leading dot included. Empty for
/// directories, for files without a dot, and for files whose only dot opens
/// the name.
pub open spec fn ext_of_name(name: Seq<char>, is_file: bool) -> Seq<char> {
    if is_file && last_index_of(name, '.') >= 1 {
        name.subrange(last_index_of(name, '.'), name.len() as int)
    } else {
        Seq::<char>::empty()
    }
}

/// The base name of a path without its extension.
pub open spec fn stem_spec(p: Seq<char>, is_file: bool) -> Seq<char> {
    stem_of_name(file_name_spec(p), is_file)
}

/// The extension of a path, leading dot included.
pub open spec fn ext_spec(p: Seq<char>, is_file: bool) -> Seq<char> {
    ext_of_name(file_name_spec(p), is_file)
}

/// A directory joined with a base name. A separator is put between the two
/// unless the directory already ends with one, as the root does; an empty
/// directory leaves the name bare.
pub open spec fn join_spec(dir: Seq<char>, name: Seq<char>) -> Seq<char> {
    if dir.len() == 0 {
        name
    } else if dir.last() == '/' {
        dir + name
    } else {
        dir.push('/') + name
    }
}

/// A path fit for an exchange: it has a separator, does not end with one —
/// so its base name is nonempty — and the separator before the base name is
/// not doubled.
pub open spec fn wf_path(p: Seq<char>) -> bool {
    &&& 0 <= last_index_of(p, '/') < p.len() - 1
    &&& (last_index_of(p, '/') == 0 || p[last_index_of(p, '/') - 1] != '/')
}

/// True when `child` lies strictly inside `parent`'s subtree: `parent` is a
/// proper prefix of `child` that ends at a component boundary.
pub open spec fn contains_spec(parent: Seq<char>, child: Seq<char>) -> bool {
    &&& child.len() > parent.len()
    &&& child.subrange(0, parent.len() as int) == parent
    &&& (child[parent.len() as int] == '/' || parent.len() == 0 || parent[parent.len() - 1]
        == '/')
}

/// Split a path into its parent directory and its full base name.
pub fn split_parent(p: &str) -> (r: (String, String))
    ensures
        r.0@ == parent_spec(p@),
        r.1@ == file_name_spec(p@),
{
    proof {
        lemma_last_index_of_props(p@, '/');
    }
    match find_last(p, '/') {
        Some(i) => {
            let len = s_len(p);
            let name = p.substring_char(i + 1, len).to_owned();
            let parent = if i == 0 {
                if len == 1 {
                    String::new()
                } else {
                    let root = "/".to_owned();
                    proof {
                        reveal_strlit("/");
                        assert(root@ =~= seq!['/']);
                    }
                    root
                }
            } else {
                p.substring_char(0, i).to_owned()
            };
            (parent, name)
        },
        None => (String::new(), p.to_owned()),
    }
}

/// True when the path has a parent directory: anything but the root and the
/// empty path.
pub fn has_parent(p: &str) -> (r: bool)
    ensures
        r == has_parent_spec(p@),
{
    let len = p.unicode_len();
    if len == 0 {
        return false;
    }
    !(len == 1 && p.get_char(0) == '/')
}

/// The character length of a string slice.
fn s_len(s: &str) -> (r: usize)
    ensures
        r == s@.len(),
{
    s.unicode_len()
}

/// Split a full base name into its stem and its extension, leading dot
/// included. Directories keep their whole name as the stem.
pub fn split_stem_ext(name: &str, is_file: bool) -> (r: (String, String))
    ensures
        r.0@ == stem_of_name(name@, is_file),
        r.1@ == ext_of_name(name@, is_file),
{
    proof {
        lemma_last_index_of_props(name@, '.');
    }
    if !is_file {
        return (name.to_owned(), String::new());
    }
    match find_last(name, '.') {
        Some(k) => {
            if k >= 1 {
                let len = s_len(name);
                let stem = name.substring_char(0, k).to_owned();
                let ext = name.substring_char(k, len).to_owned();
                (stem, ext)
            } else {
                (name.to_owned(), String::new())
            }
        },
        None => (name.to_owned(), String::new()),
    }
}

/// Join a directory with a base name by a single separator.
pub fn join_path(dir: &str, name: &str) -> (r: String)
    ensures
        r@ == join_spec(dir@, name@),
{
    let dlen = dir.unicode_len();
    if dlen == 0 {
        return name.to_owned();
    }
    let mut r = dir.to_owned();
    if dir.get_char(dlen - 1) != '/' {
        r.append("/");
    }
    r.append(name);
    proof {
        reveal_strlit("/");
        assert(r@ =~= join_spec(dir@, name@));
    }
    r
}

/// A well-formed path is its parent joined with its base name, the base
/// name holds no separator, and the parent is nonempty and ends with a
/// separator only when it is the root.
pub proof fn lemma_split_join(p: Seq<char>)
    requires
        wf_path(p),
    ensures
        join_spec(parent_spec(p), file_name_spec(p)) == p,
        !has_char(file_name_spec(p), '/'),
        file_name_spec(p).len() > 0,
        parent_spec(p).len() > 0,
        parent_spec(p).last() == '/' ==> parent_spec(p).len() == 1,
{
    lemma_last_index_of_props(p, '/');
    let li = last_index_of(p, '/');
    assert(p[li] == '/');
    if li == 0 {
        assert(parent_spec(p) =~= seq!['/']);
        assert(join_spec(parent_spec(p), file_name_spec(p)) =~= p);
    } else {
        assert(parent_spec(p).last() == p[li - 1]);
        assert(join_spec(parent_spec(p), file_name_spec(p)) =~= p);
    }
    assert forall|i: int| 0 <= i < file_name_spec(p).len() implies file_name_spec(p)[i]
        != '/' by {
        assert(file_name_spec(p)[i] == p[li + 1 + i]);
    }
}

/// Splitting a join gives the two parts back, provided the name is nonempty
/// and holds no separator, and the directory is nonempty and ends with a
/// separator only when it is the root.
pub proof fn lemma_join_split(dir: Seq<char>, name: Seq<char>)
    requires
        !has_char(name, '/'),
        name.len() > 0,
        dir.len() > 0,
        dir.last() == '/' ==> dir.len() == 1,
    ensures
        parent_spec(join_spec(dir, name)) == dir,
        file_name_spec(join_spec(dir, name)) == name,
        wf_path(join_spec(dir, name)),
{
    let j = join_spec(dir, name);
    if dir.last() == '/' {
        assert(j[0] == '/');
        assert forall|k: int| 0 < k < j.len() implies j[k] != '/' by {
            assert(j[k] == name[k - 1]);
        }
        lemma_last_index_of_at(j, '/', 0);
        assert(parent_spec(j) =~= dir);
        assert(file_name_spec(j) =~= name);
    } else {
        assert(j[dir.len() as int] == '/');
        assert forall|k: int| dir.len() < k < j.len() implies j[k] != '/' by {
            assert(j[k] == name[k - dir.len() - 1]);
        }
        lemma_last_index_of_at(j, '/', dir.len() as int);
        assert(j[dir.len() - 1] == dir.last());
        assert(parent_spec(j) =~= dir);
        assert(file_name_spec(j) =~= name);
    }
}

/// Stem and extension together restore the full base name.
pub proof fn lemma_stem_ext_glue(name: Seq<char>, is_file: bool)
    ensures
        stem_of_name(name, is_file) + ext_of_name(name, is_file) == name,
{
    lemma_last_index_of_props(name, '.');
    assert(stem_of_name(name, is_file) + ext_of_name(name, is_file) =~= name);
}

/// Neither the stem nor the extension of a separator-free base name holds a
/// separator.
pub proof fn lemma_stem_ext_no_slash(name: Seq<char>, is_file: bool)
    requires
        !has_char(name, '/'),
    ensures
        !has_char(stem_of_name(name, is_file), '/'),
        !has_char(ext_of_name(name, is_file), '/'),
{
    lemma_last_index_of_props(name, '.');
    let stem = stem_of_name(name, is_file);
    let ext = ext_of_name(name, is_file);
    assert forall|i: int| 0 <= i < stem.len() implies stem[i] != '/' by {
        assert(stem[i] == name[i]);
    }
    if is_file && last_index_of(name, '.') >= 1 {
        let k = last_index_of(name, '.');
        assert forall|i: int| 0 <= i < ext.len() implies ext[i] != '/' by {
            assert(ext[i] == name[k + i]);
        }
    }
}

/// A concatenation holds a character exactly when one of its parts does.
pub proof fn lemma_has_char_concat(a: Seq<char>, b: Seq<char>, c: char)
    ensures
        has_char(a + b, c) <==> (has_char(a, c) || has_char(b, c)),
{
    if has_char(a, c) {
        let i = choose|i: int| 0 <= i < a.len() && a[i] == c;
        assert((a + b)[i] == c);
    }
    if has_char(b, c) {
        let i = choose|i: int| 0 <= i < b.len() && b[i] == c;
        assert((a + b)[a.len() + i] == c);
    }
    if has_char(a + b, c) {
        let i = choose|i: int| 0 <= i < (a + b).len() && (a + b)[i] == c;
        if i < a.len() {
            assert(a[i] == c);
        } else {
            assert(b[i - a.len()] == c);
        }
    }
}

/// A stem and an extension recombine cleanly: splitting their concatenation
/// gives them back unchanged.
pub open spec fn recombines(stem: Seq<char>, ext: Seq<char>, is_file: bool) -> bool {
    stem_of_name(stem + ext, is_file) == stem && ext_of_name(stem + ext, is_file) == ext
}

/// The shapes under which a stem and an extension recombine cleanly: a
/// directory has no extension; a file either has no extension and no dot
/// past the first character of its stem, or a nonempty stem and an extension
/// that is a single leading dot followed by dotless text.
pub proof fn lemma_recombines(stem: Seq<char>, ext: Seq<char>, is_file: bool)
    requires
        is_file ==> (ext.len() == 0 && !has_char(stem.skip(1), '.')) || (stem.len() >= 1
            && ext.len() >= 1 && ext[0] == '.' && !has_char(ext.skip(1), '.')),
        !is_file ==> ext.len() == 0,
    ensures
        recombines(stem, ext, is_file),
{
    let name = stem + ext;
    if !is_file {
        assert(name =~= stem);
        assert(ext =~= Seq::<char>::empty());
    } else if ext.len() == 0 {
        assert(name =~= stem);
        assert(ext =~= Seq::<char>::empty());
        lemma_last_index_of_props(name, '.');
        let k = last_index_of(name, '.');
        if k >= 1 {
            assert(stem[k] == '.');
            assert(stem.skip(1)[k - 1] == stem[k]);
            assert(has_char(stem.skip(1), '.'));
        }
    } else {
        assert(name[stem.len() as int] == '.');
        assert forall|j: int| stem.len() < j < name.len() implies name[j] != '.' by {
            assert(name[j] == ext[j - stem.len()]);
            assert(ext.skip(1)[j - stem.len() - 1] == ext[j - stem.len()]);
        }
        lemma_last_index_of_at(name, '.', stem.len() as int);
        assert(stem_of_name(name, is_file) =~= stem);
        assert(ext_of_name(name, is_file) =~= ext);
    }
}

/// `n` copies of the character `c` in a row.
pub open spec fn char_repeat(c: char, n: nat) -> Seq<char>
    decreases n,
{
    if n == 0 {
        Seq::<char>::empty()
    } else {
        char_repeat(c, (n - 1) as nat).push(c)
    }
}

/// True when `p` occurs among the listed path strings.
pub open spec fn taken_contains(taken: Seq<Seq<char>>, p: Seq<char>) -> bool {
    exists|i: int| 0 <= i < taken.len() && taken[i] == p
}

/// True when `p` equals one of the strings in `taken`.
pub fn contains_path_str(taken: &Vec<String>, p: &str) -> (r: bool)
    ensures
        r == taken_contains(taken.deep_view(), p@),
{
    let n = taken.len();
    let mut i: usize = 0;
    while i < n
        invariant
            i <= n,
            n == taken@.len(),
            taken.deep_view().len() == taken@.len(),
            forall|j: int| 0 <= j < taken@.len() ==> taken.deep_view()[j] == taken@[j]@,
            forall|j: int| 0 <= j < i ==> taken@[j]@ != p@,
        decreases n - i,
    {
        if str_eq(taken[i].as_str(), p) {
            proof {
                assert(taken.deep_view()[i as int] == p@);
            }
            return true;
        }
        i = i + 1;
    }
    false
}

/// The length of the longest string in the list; zero when it is empty.
pub open spec fn max_len(taken: Seq<Seq<char>>) -> int
    decreases taken.len(),
{
    if taken.len() == 0 {
        0
    } else {
        let m = max_len(taken.drop_last());
        if taken.last().len() > m {
            taken.last().len() as int
        } else {
            m
        }
    }
}

/// No listed string is longer than `max_len`, which is never negative.
pub proof fn lemma_max_len(taken: Seq<Seq<char>>)
    ensures
        max_len(taken) >= 0,
        forall|i: int| 0 <= i < taken.len() ==> taken[i].len() <= max_len(taken),
    decreases taken.len(),
{
    if taken.len() > 0 {
        lemma_max_len(taken.drop_last());
        assert(forall|i: int| 0 <= i < taken.len() - 1 ==> taken[i] == taken.drop_last()[i]);
    }
}

} // verus!
