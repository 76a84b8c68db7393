//! Paths as Unix has them: the last name, another name in its place, and paths that are
//! the same. Only `/` separates components; there are no drives and no shares.
use crate::common::utils::join_path;
use crate::text::{chars_of, same, split, string_of};
use vstd::prelude::*;

verus! {

/// `path` without the separators at its end.
pub open spec fn without_end_separators(path: Seq<char>) -> Seq<char>
    decreases path.len(),
{
    if path.len() > 0 && path.last() == '/' {
        without_end_separators(path.drop_last())
    } else {
        path
    }
}

/// Where the last component of `path` starts: behind its last separator.
pub open spec fn component_start(path: Seq<char>) -> int
    decreases path.len(),
{
    if path.len() == 0 || path.last() == '/' {
        path.len() as int
    } else {
        component_start(path.drop_last())
    }
}

/// The name of the file that `path` leads to: its last component, where separators at
/// the end and components `.` behind another one do not count. A path that ends in
/// `..`, or leads nowhere, names no file.
pub open spec fn file_name(path: Seq<char>) -> Option<Seq<char>>
    decreases path.len(),
{
    let p = without_end_separators(path);
    let start = component_start(p);
    if p.len() == 0 || p.len() > path.len() || start < 0 || start >= p.len() {
        None
    } else if p.skip(start) == seq!['.'] {
        if start == 0 {
            None
        } else {
            file_name(p.take(start))
        }
    } else if p.skip(start) == seq!['.', '.'] {
        None
    } else {
        Some(p.skip(start))
    }
}

proof fn lemma_without_end(path: Seq<char>)
    ensures
        without_end_separators(path).len() <= path.len(),
        without_end_separators(path).len() > 0 ==> without_end_separators(path).last() != '/',
        without_end_separators(path) == path.take(without_end_separators(path).len() as int),
    decreases path.len(),
{
    if path.len() > 0 && path.last() == '/' {
        lemma_without_end(path.drop_last());
        let n = without_end_separators(path).len() as int;
        assert(path.drop_last().take(n) == path.take(n));
    } else {
        assert(path.take(path.len() as int) == path);
    }
}

/// How many of the first `end` characters are left without the separators at the end.
fn end_without_separators(chars: &Vec<char>, end: usize) -> (r: usize)
    requires
        end <= chars@.len(),
    ensures
        r <= end,
        r > 0 ==> chars@[r - 1] != '/',
        chars@.take(r as int) == without_end_separators(chars@.take(end as int)),
{
    let mut r: usize = end;
    while r > 0 && chars[r - 1] == '/'
        invariant
            r <= end <= chars@.len(),
            without_end_separators(chars@.take(end as int)) == without_end_separators(
                chars@.take(r as int),
            ),
        decreases r,
    {
        assert(chars@.take(r as int).drop_last() == chars@.take(r - 1));
        assert(chars@.take(r as int).last() == chars@[r - 1]);
        r -= 1;
    }
    if r > 0 {
        assert(chars@.take(r as int).last() == chars@[r - 1]);
    }
    r
}

/// Where the last component of the first `end` characters starts.
fn start_of_component(chars: &Vec<char>, end: usize) -> (r: usize)
    requires
        end <= chars@.len(),
    ensures
        r <= end,
        end > 0 && chars@[end - 1] != '/' ==> r < end,
        r == component_start(chars@.take(end as int)),
{
    let mut r: usize = end;
    while r > 0 && chars[r - 1] != '/'
        invariant
            r <= end <= chars@.len(),
            component_start(chars@.take(end as int)) == component_start(chars@.take(r as int)),
        decreases r,
    {
        assert(chars@.take(r as int).drop_last() == chars@.take(r - 1));
        assert(chars@.take(r as int).last() == chars@[r - 1]);
        r -= 1;
    }
    if r > 0 {
        assert(chars@.take(r as int).last() == chars@[r - 1]);
    }
    r
}

fn name_within(chars: &Vec<char>, end: usize) -> (r: Option<String>)
    requires
        end <= chars@.len(),
    ensures
        match r {
            Some(name) => file_name(chars@.take(end as int)) == Some(name@),
            None => file_name(chars@.take(end as int)) is None,
        },
    decreases end,
{
    let stop: usize = end_without_separators(chars, end);
    if stop == 0 {
        return None;
    }
    let start: usize = start_of_component(chars, stop);
    let ghost p = chars@.take(stop as int);
    let ghost c = p.skip(start as int);
    assert(c == chars@.subrange(start as int, stop as int));
    assert(c[0] == chars@[start as int]);
    if stop - start == 1 && chars[start] == '.' {
        assert(c =~= seq!['.']);
        if start == 0 {
            return None;
        }
        assert(p.take(start as int) == chars@.take(start as int));
        return name_within(chars, start);
    }
    if stop - start == 2 && chars[start] == '.' && chars[start + 1] == '.' {
        assert(c =~= seq!['.', '.']);
        assert(c.len() == 2);
        return None;
    }
    proof {
        if c == seq!['.'] {
            assert(c.len() == 1 && c[0] == '.');
        }
        if c == seq!['.', '.'] {
            assert(c.len() == 2 && c[0] == '.' && c[1] == '.');
            assert(chars@[start + 1] == c[1]);
        }
    }
    Some(string_of(chars, start, stop))
}

/// Finds the name of the file that `path` leads to.
pub fn file_name_of(path: &str) -> (r: Option<String>)
    ensures
        match r {
            Some(name) => file_name(path@) == Some(name@),
            None => file_name(path@) is None,
        },
{
    let chars = chars_of(path);
    assert(chars@.take(chars@.len() as int) == chars@);
    name_within(&chars, chars.len())
}

/// A file name never holds a separator, and never is empty, `.` or `..`.
pub proof fn law_file_name_is_plain(path: Seq<char>)
    ensures
        file_name(path) matches Some(name) ==> name.len() > 0 && !name.contains('/') && name
            != seq!['.'] && name != seq!['.', '.'],
    decreases path.len(),
{
    lemma_without_end(path);
    let p = without_end_separators(path);
    let start = component_start(p);
    lemma_component_plain(p);
    if p.len() > 0 && 0 <= start < p.len() && p.skip(start) == seq!['.'] && start > 0 {
        law_file_name_is_plain(p.take(start));
    }
}

proof fn lemma_component_plain(path: Seq<char>)
    ensures
        0 <= component_start(path) <= path.len(),
        forall|i: int| component_start(path) <= i < path.len() ==> path[i] != '/',
    decreases path.len(),
{
    if path.len() > 0 && path.last() != '/' {
        let rest = path.drop_last();
        lemma_component_plain(rest);
        assert forall|i: int| component_start(path) <= i < path.len() implies path[i] != '/' by {
            if i < rest.len() {
                assert(rest[i] == path[i]);
            }
        }
    }
}

/// `path` without what does not count at its end: separators, and components `.` behind
/// another one. Of a path that holds nothing else, its root is left.
pub open spec fn tidy_end(path: Seq<char>) -> Seq<char>
    decreases path.len(),
{
    let p = without_end_separators(path);
    let start = component_start(p);
    if p.len() == 0 {
        if path.len() == 0 {
            path
        } else {
            path.take(1)
        }
    } else if p.len() > path.len() || start <= 0 || start >= p.len() {
        p
    } else if p.skip(start) == seq!['.'] {
        tidy_end(p.take(start))
    } else {
        p
    }
}

/// The directory that holds what `path` names.
pub open spec fn parent(path: Seq<char>) -> Seq<char> {
    let p = tidy_end(path);
    tidy_end(p.take(component_start(p)))
}

/// `path` with `name` in place of the file name, or behind it where it names no file.
pub open spec fn renamed(path: Seq<char>, name: Seq<char>) -> Seq<char> {
    crate::common::utils::joined(
        if file_name(path) is Some {
            parent(path)
        } else {
            path
        },
        name,
    )
}

/// How many of the first `end` characters are left without what does not count.
fn tidy_within(chars: &Vec<char>, end: usize) -> (r: usize)
    requires
        end <= chars@.len(),
    ensures
        r <= end,
        chars@.take(r as int) == tidy_end(chars@.take(end as int)),
    decreases end,
{
    let stop: usize = end_without_separators(chars, end);
    let ghost path = chars@.take(end as int);
    if stop == 0 {
        if end == 0 {
            return 0;
        }
        assert(path.take(1) == chars@.take(1));
        return 1;
    }
    let start: usize = start_of_component(chars, stop);
    let ghost p = chars@.take(stop as int);
    let ghost c = p.skip(start as int);
    assert(c == chars@.subrange(start as int, stop as int));
    assert(c[0] == chars@[start as int]);
    if start > 0 && stop - start == 1 && chars[start] == '.' {
        assert(c =~= seq!['.']);
        assert(p.take(start as int) == chars@.take(start as int));
        return tidy_within(chars, start);
    }
    proof {
        if c == seq!['.'] {
            assert(c.len() == 1 && c[0] == '.');
        }
    }
    stop
}

/// Puts `name` in place of the file name of `path`.
pub fn with_file_name(path: &str, name: &str) -> (r: String)
    ensures
        r@ == renamed(path@, name@),
{
    if file_name_of(path).is_none() {
        return join_path(path, name);
    }
    let chars = chars_of(path);
    assert(chars@.take(chars@.len() as int) == chars@);
    let end: usize = tidy_within(&chars, chars.len());
    let start: usize = start_of_component(&chars, end);
    assert(chars@.take(end as int).take(start as int) == chars@.take(start as int));
    let stop: usize = tidy_within(&chars, start);
    assert(chars@.take(stop as int) == chars@.subrange(0, stop as int));
    join_path(string_of(&chars, 0, stop).as_str(), name)
}

/// The pieces between separators that are components: those that hold something, other
/// than `.` behind the first place.
pub open spec fn component_pieces(pieces: Seq<Seq<char>>) -> Seq<Seq<char>>
    decreases pieces.len(),
{
    if pieces.len() == 0 {
        Seq::empty()
    } else {
        let before = component_pieces(pieces.drop_last());
        let piece = pieces.last();
        if piece.len() == 0 || (pieces.len() > 1 && piece == "."@) {
            before
        } else {
            before.push(piece)
        }
    }
}

/// The components of a path.
pub open spec fn components(path: Seq<char>) -> Seq<Seq<char>> {
    component_pieces(crate::text::pieces(path, '/'))
}

/// The path starts at the root.
pub open spec fn is_absolute(path: Seq<char>) -> bool {
    path.len() > 0 && path[0] == '/'
}

/// The paths have the same components: more separators than one, separators at the end
/// and components `.` behind another one make no difference.
pub open spec fn is_same_path(a: Seq<char>, b: Seq<char>) -> bool {
    is_absolute(a) == is_absolute(b) && components(a) == components(b)
}

/// Finds the components of a path.
pub fn components_of(path: &str) -> (r: Vec<String>)
    ensures
        crate::text::views(r@) == components(path@),
{
    let parts = split(path, '/');
    let ghost texts = crate::text::views(parts@);
    let mut out: Vec<String> = Vec::new();
    assert(texts.take(0) =~= Seq::empty());
    for i in 0..parts.len()
        invariant
            texts == crate::text::views(parts@),
            crate::text::views(out@) == component_pieces(texts.take(i as int)),
    {
        let ghost before = crate::text::views(out@);
        proof {
            assert(texts.take(i + 1).drop_last() == texts.take(i as int));
            assert(texts.take(i + 1).last() == parts@[i as int]@);
        }
        let part = parts[i].as_str();
        if !part.is_empty() && !(i > 0 && same(part, ".")) {
            out.push(parts[i].clone());
            assert(crate::text::views(out@) =~= before.push(parts@[i as int]@));
        }
    }
    assert(texts.take(parts@.len() as int) == texts);
    out
}

fn starts_at_root(path: &str) -> (r: bool)
    ensures
        r == is_absolute(path@),
{
    let chars = chars_of(path);
    chars.len() > 0 && chars[0] == '/'
}

/// Whether two paths have the same components.
pub fn same_path(a: &str, b: &str) -> (r: bool)
    ensures
        r == is_same_path(a@, b@),
{
    if starts_at_root(a) != starts_at_root(b) {
        return false;
    }
    let left = components_of(a);
    let right = components_of(b);
    let ghost x = components(a@);
    let ghost y = components(b@);
    assert(left@.len() == x.len() && right@.len() == y.len());
    if left.len() != right.len() {
        return false;
    }
    for i in 0..left.len()
        invariant
            x == components(a@),
            y == components(b@),
            crate::text::views(left@) == x,
            crate::text::views(right@) == y,
            left@.len() == right@.len(),
            forall|k: int| 0 <= k < i ==> #[trigger] x[k] == y[k],
    {
        assert(x[i as int] == left@[i as int]@);
        assert(y[i as int] == right@[i as int]@);
        if !same(left[i].as_str(), right[i].as_str()) {
            return false;
        }
    }
    assert(x =~= y);
    true
}

/// A separator at the end makes no difference to a path.
pub proof fn law_end_separator_ignored(path: Seq<char>)
    requires
        path.len() > 0,
    ensures
        is_same_path(path.push('/'), path),
{
    let longer = path.push('/');
    assert(longer.drop_last() == path);
    let pieces = crate::text::pieces(path, '/');
    assert(pieces.push(Seq::empty()).drop_last() == pieces);
}

/// A name can be a component of its own: it holds something, no separator, and is neither
/// `.` nor `..`.
pub open spec fn is_plain(name: Seq<char>) -> bool {
    name.len() > 0 && !name.contains('/') && name != seq!['.'] && name != seq!['.', '.']
}

proof fn lemma_component_behind(dir: Seq<char>, name: Seq<char>)
    requires
        !name.contains('/'),
    ensures
        component_start(dir + seq!['/'] + name) == dir.len() + 1,
        component_start(name) == 0,
    decreases name.len(),
{
    let path = dir + seq!['/'] + name;
    if name.len() > 0 {
        let rest = name.drop_last();
        assert(name[name.len() - 1] == name.last());
        assert(!rest.contains('/')) by {
            if rest.contains('/') {
                let k = choose|k: int| 0 <= k < rest.len() && rest[k] == '/';
                assert(name[k] == '/');
            }
        }
        lemma_component_behind(dir, rest);
        assert(path.drop_last() =~= dir + seq!['/'] + rest);
        assert(path.last() == name.last());
    } else {
        assert(path.last() == '/');
    }
}

/// The last part of a path is the name of the file: whatever directory stands in front of
/// it, and with nothing in front.
pub proof fn law_last_part_is_the_file_name(dir: Seq<char>, name: Seq<char>)
    requires
        is_plain(name),
    ensures
        file_name(name) == Some(name),
        file_name(dir + seq!['/'] + name) == Some(name),
{
    lemma_component_behind(dir, name);
    let path = dir + seq!['/'] + name;
    assert(name[name.len() - 1] == name.last());
    assert(path.last() == name.last());
    assert(path.skip(dir.len() as int + 1) =~= name);
    assert(name.skip(0) =~= name);
}

/// Separators and a component `.` at the end of a path change nothing about the file that
/// it names, and one that ends in `..` names none.
pub proof fn law_file_name_ignores_the_end(path: Seq<char>)
    ensures
        file_name(path.push('/')) == file_name(path),
        file_name(path + seq!['/', '.']) == file_name(path),
        file_name(path + seq!['/', '.', '.']) is None,
{
    assert(path.push('/').drop_last() =~= path);
    lemma_without_end(path);
    lemma_without_end(path.push('/'));
    lemma_component_behind(path, seq!['.']);
    lemma_component_behind(path, seq!['.', '.']);
    let a = path + seq!['/', '.'];
    let b = path + seq!['/', '.', '.'];
    assert(a =~= path + seq!['/'] + seq!['.']);
    assert(b =~= path + seq!['/'] + seq!['.', '.']);
    assert(a.skip(path.len() as int + 1) =~= seq!['.']);
    assert(b.skip(path.len() as int + 1) =~= seq!['.', '.']);
    assert(seq!['.', '.'] != seq!['.']) by {
        assert(seq!['.', '.'].len() == 2);
    }
    assert(a.take(path.len() as int + 1) =~= path.push('/'));
}

proof fn lemma_tidy_below(dir: Seq<char>, name: Seq<char>)
    requires
        is_plain(name),
    ensures
        tidy_end(dir + seq!['/'] + name) == dir + seq!['/'] + name,
        component_start(dir + seq!['/'] + name) == dir.len() + 1,
        (dir + seq!['/'] + name).take(dir.len() as int + 1) == dir.push('/'),
{
    let path = dir + seq!['/'] + name;
    lemma_component_behind(dir, name);
    assert(name[name.len() - 1] == name.last());
    assert(name.contains(name.last()));
    assert(path.last() == name.last());
    assert(without_end_separators(path) == path);
    assert(path.skip(dir.len() as int + 1) =~= name);
    assert(path.take(dir.len() as int + 1) =~= dir.push('/'));
}

proof fn lemma_tidy_dir(dir: Seq<char>)
    requires
        dir.len() > 0,
        dir.last() != '/',
        dir.skip(component_start(dir)) != seq!['.'],
    ensures
        tidy_end(dir.push('/')) == dir,
{
    let above = dir.push('/');
    assert(above.drop_last() =~= dir);
    assert(above.last() == '/');
    lemma_component_plain(dir);
    assert(without_end_separators(dir) == dir);
    assert(without_end_separators(above) == without_end_separators(dir));
}

/// A file below a directory gets another name where it is: the directory stays.
pub proof fn law_renamed_in_place(dir: Seq<char>, old_name: Seq<char>, name: Seq<char>)
    requires
        is_plain(old_name),
        name.len() > 0,
        name[0] != '/',
        dir.len() > 0,
        dir.last() != '/',
        dir.skip(component_start(dir)) != seq!['.'],
    ensures
        renamed(dir + seq!['/'] + old_name, name) == dir + seq!['/'] + name,
{
    reveal_strlit("/");
    assert("/"@ =~= seq!['/']);
    law_last_part_is_the_file_name(dir, old_name);
    lemma_tidy_below(dir, old_name);
    lemma_tidy_dir(dir);
    assert(parent(dir + seq!['/'] + old_name) == dir);
}

/// A file with no directory in front of it, or at the root, gets another name there.
pub proof fn law_renamed_alone(old_name: Seq<char>, name: Seq<char>)
    requires
        is_plain(old_name),
        name.len() > 0,
        name[0] != '/',
    ensures
        renamed(old_name, name) == name,
        renamed(seq!['/'] + old_name, name) == seq!['/'] + name,
{
    let none = Seq::<char>::empty();
    law_last_part_is_the_file_name(none, old_name);
    lemma_component_behind(none, old_name);
    assert(old_name[old_name.len() - 1] == old_name.last());
    assert(old_name.contains(old_name.last()));
    assert(without_end_separators(old_name) == old_name);
    assert(tidy_end(old_name) == old_name);
    assert(old_name.take(0) =~= none);
    assert(without_end_separators(none) == none);
    assert(tidy_end(none) == none);
    assert(parent(old_name) == none);
    assert(none + name =~= name);

    let rooted = seq!['/'] + old_name;
    assert(rooted =~= none + seq!['/'] + old_name);
    lemma_tidy_below(none, old_name);
    let root = seq!['/'];
    assert(none.push('/') =~= root);
    assert(root.drop_last() =~= none);
    assert(root.last() == '/');
    assert(without_end_separators(root) == without_end_separators(none));
    assert(root.take(1) =~= root);
    assert(tidy_end(root) == root);
    assert(parent(rooted) == root);
}

/// Separators and a component `.` at the end make no difference to where a file is renamed.
pub proof fn law_renamed_ignores_the_end(path: Seq<char>, name: Seq<char>)
    requires
        file_name(path) is Some,
    ensures
        renamed(path.push('/'), name) == renamed(path, name),
        renamed(path + seq!['/', '.'], name) == renamed(path, name),
{
    law_file_name_ignores_the_end(path);
    let slashed = path.push('/');
    assert(slashed.drop_last() =~= path);
    assert(slashed.last() == '/');
    lemma_without_end(path);
    assert(without_end_separators(slashed) == without_end_separators(path));
    assert(without_end_separators(path).len() > 0);
    assert(tidy_end(slashed) == tidy_end(path));
    let dotted = path + seq!['/', '.'];
    assert(dotted =~= path + seq!['/'] + seq!['.']);
    lemma_component_behind(path, seq!['.']);
    assert(dotted.last() == '.');
    assert(without_end_separators(dotted) == dotted);
    assert(dotted.skip(path.len() as int + 1) =~= seq!['.']);
    assert(dotted.take(path.len() as int + 1) =~= slashed);
    assert(tidy_end(dotted) == tidy_end(slashed));
}

proof fn lemma_component_pieces_all(parts: Seq<Seq<char>>)
    requires
        forall|i: int| 0 <= i < parts.len() ==> (#[trigger] parts[i]).len() > 0 && parts[i] != "."@,
    ensures
        component_pieces(parts) == parts,
        component_pieces(seq![Seq::<char>::empty()] + parts) == parts,
    decreases parts.len(),
{
    let rooted = seq![Seq::<char>::empty()] + parts;
    if parts.len() > 0 {
        let d = parts.drop_last();
        assert forall|i: int| 0 <= i < d.len() implies (#[trigger] d[i]).len() > 0 && d[i]
            != "."@ by {
            assert(d[i] == parts[i]);
        }
        lemma_component_pieces_all(d);
        assert(parts[parts.len() - 1] == parts.last());
        assert(rooted.drop_last() =~= seq![Seq::<char>::empty()] + d);
        assert(rooted.last() == parts.last());
        assert(d.push(parts.last()) =~= parts);
    } else {
        assert(parts =~= Seq::<Seq<char>>::empty());
        assert(rooted.drop_last() =~= Seq::<Seq<char>>::empty());
        assert(component_pieces(Seq::<Seq<char>>::empty()) =~= Seq::<Seq<char>>::empty());
        assert(rooted.last().len() == 0);
        assert(component_pieces(rooted) =~= Seq::<Seq<char>>::empty());
    }
}

/// A path is known by its components: those that it was put together from, with a separator
/// between each two, and with or without the root in front.
pub proof fn law_path_is_its_components(parts: Seq<Seq<char>>)
    requires
        parts.len() > 0,
        forall|i: int| 0 <= i < parts.len() ==> is_plain(#[trigger] parts[i]),
    ensures
        components(crate::text::joined_with(parts, seq!['/'])) == parts,
        components(seq!['/'] + crate::text::joined_with(parts, seq!['/'])) == parts,
        !is_absolute(crate::text::joined_with(parts, seq!['/'])),
        is_absolute(seq!['/'] + crate::text::joined_with(parts, seq!['/'])),
{
    reveal_strlit(".");
    assert("."@ =~= seq!['.']);
    assert forall|i: int| 0 <= i < parts.len() implies !(#[trigger] parts[i]).contains('/')
        && parts[i].len() > 0 && parts[i] != "."@ by {
        assert(is_plain(parts[i]));
    }
    crate::text::law_split_undoes_join(parts, '/');
    lemma_component_pieces_all(parts);
    let rooted = seq![Seq::<char>::empty()] + parts;
    assert forall|i: int| 0 <= i < rooted.len() implies !(#[trigger] rooted[i]).contains('/') by {
        if i > 0 {
            assert(rooted[i] == parts[i - 1]);
        }
    }
    crate::text::law_split_undoes_join(rooted, '/');
    lemma_joined_behind_root(parts);
    lemma_joined_head(parts);
}

proof fn lemma_joined_behind_root(parts: Seq<Seq<char>>)
    requires
        parts.len() > 0,
    ensures
        crate::text::joined_with(seq![Seq::<char>::empty()] + parts, seq!['/']) == seq!['/']
            + crate::text::joined_with(parts, seq!['/']),
    decreases parts.len(),
{
    let rooted = seq![Seq::<char>::empty()] + parts;
    let d = parts.drop_last();
    assert(rooted.drop_last() =~= seq![Seq::<char>::empty()] + d);
    assert(rooted.last() == parts.last());
    if parts.len() == 1 {
        assert(rooted.drop_last() =~= seq![Seq::<char>::empty()]);
        let root = seq![Seq::<char>::empty()];
        assert(crate::text::joined_with(root, seq!['/']) == root[0]);
        assert(crate::text::joined_with(rooted, seq!['/']) =~= seq!['/'] + parts[0]);
    } else {
        lemma_joined_behind_root(d);
        let head = crate::text::joined_with(d, seq!['/']);
        assert((seq!['/'] + head) + seq!['/'] + parts.last() =~= seq!['/'] + (head + seq!['/']
            + parts.last()));
    }
}

proof fn lemma_joined_head(parts: Seq<Seq<char>>)
    requires
        parts.len() > 0,
        is_plain(parts[0]),
    ensures
        crate::text::joined_with(parts, seq!['/']).len() > 0,
        crate::text::joined_with(parts, seq!['/'])[0] != '/',
    decreases parts.len(),
{
    if parts.len() == 1 {
        assert(parts[0][0] != '/') by {
            assert(parts[0].contains(parts[0][0]));
        }
    } else {
        assert(parts.drop_last()[0] == parts[0]);
        lemma_joined_head(parts.drop_last());
    }
}

/// Two paths that lead to different places are not the same: those put together from
/// components are the same only when the components are, and when both start at the root or
/// neither does.
pub proof fn law_different_components_differ(a: Seq<Seq<char>>, b: Seq<Seq<char>>)
    requires
        a.len() > 0,
        b.len() > 0,
        forall|i: int| 0 <= i < a.len() ==> is_plain(#[trigger] a[i]),
        forall|i: int| 0 <= i < b.len() ==> is_plain(#[trigger] b[i]),
    ensures
        is_same_path(
            crate::text::joined_with(a, seq!['/']),
            crate::text::joined_with(b, seq!['/']),
        ) <==> a == b,
        is_same_path(
            seq!['/'] + crate::text::joined_with(a, seq!['/']),
            seq!['/'] + crate::text::joined_with(b, seq!['/']),
        ) <==> a == b,
        !is_same_path(
            seq!['/'] + crate::text::joined_with(a, seq!['/']),
            crate::text::joined_with(b, seq!['/']),
        ),
{
    law_path_is_its_components(a);
    law_path_is_its_components(b);
}

/// A path is the same as itself, and sameness goes both ways and on.
pub proof fn law_same_path_is_sameness(a: Seq<char>, b: Seq<char>, c: Seq<char>)
    ensures
        is_same_path(a, a),
        is_same_path(a, b) ==> is_same_path(b, a),
        is_same_path(a, b) && is_same_path(b, c) ==> is_same_path(a, c),
{
}

proof fn lemma_piece_without_effect(x: Seq<Seq<char>>, piece: Seq<char>, y: Seq<Seq<char>>)
    requires
        x.len() > 0,
        piece.len() == 0 || piece == "."@,
    ensures
        component_pieces(x + seq![piece] + y) == component_pieces(x + y),
    decreases y.len(),
{
    let longer = x + seq![piece] + y;
    let shorter = x + y;
    if y.len() == 0 {
        assert(longer.drop_last() =~= x);
        assert(longer.last() == piece);
        assert(shorter =~= x);
    } else {
        let d = y.drop_last();
        lemma_piece_without_effect(x, piece, d);
        assert(longer.drop_last() =~= x + seq![piece] + d);
        assert(shorter.drop_last() =~= x + d);
        assert(longer.last() == y.last());
        assert(shorter.last() == y.last());
    }
}

/// More separators than one, and components `.` behind the first, make no difference to a
/// path, wherever they stand in it.
pub proof fn law_empty_and_dot_parts_ignored(a: Seq<char>, b: Seq<char>)
    requires
        a.len() > 0,
    ensures
        is_same_path(a + seq!['/', '/'] + b, a + seq!['/'] + b),
        is_same_path(a + seq!['/', '.', '/'] + b, a + seq!['/'] + b),
        is_same_path(a + seq!['/', '.'], a),
{
    reveal_strlit(".");
    let dot = seq!['.'];
    assert("."@ =~= dot);
    let none = Seq::<char>::empty();
    let x = crate::text::pieces(a, '/');
    let y = crate::text::pieces(b, '/');
    crate::text::law_join_undoes_split(a, '/');
    crate::text::law_pieces_of_both(a, b, '/');
    crate::text::law_pieces_of_both(a.push('/'), b, '/');
    crate::text::law_pieces_of_both(a, none, '/');
    crate::text::law_pieces_of_both(a + seq!['/'] + dot, b, '/');
    crate::text::law_pieces_of_both(a, dot, '/');
    assert(a + seq!['/'] + none =~= a.push('/'));
    assert(a.push('/') + seq!['/'] + b =~= a + seq!['/', '/'] + b);
    assert(a + seq!['/'] + dot + seq!['/'] + b =~= a + seq!['/', '.', '/'] + b);
    assert(a + seq!['/'] + dot =~= a + seq!['/', '.']);
    assert(crate::text::pieces(dot, '/') =~= seq![dot]) by {
        assert(dot.drop_last() =~= none);
        assert(crate::text::pieces(none, '/') =~= seq![none]);
        assert(seq![none].drop_last() =~= Seq::<Seq<char>>::empty());
        assert(none.push('.') =~= dot);
    }
    assert(crate::text::pieces(none, '/') =~= seq![none]);
    lemma_piece_without_effect(x, none, y);
    lemma_piece_without_effect(x, dot, y);
    lemma_piece_without_effect(x, dot, Seq::empty());
    assert(x + seq![dot] + Seq::<Seq<char>>::empty() =~= x + seq![dot]);
    assert(x + Seq::<Seq<char>>::empty() =~= x);
    assert((a + seq!['/', '/'] + b)[0] == a[0]);
    assert((a + seq!['/', '.', '/'] + b)[0] == a[0]);
    assert((a + seq!['/'] + b)[0] == a[0]);
    assert((a + seq!['/', '.'])[0] == a[0]);
}

}
