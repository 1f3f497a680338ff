//! Paths, as the text of their slash-separated components.

use vstd::prelude::*;
use vstd::string::*;

verus! {

/// `String::push` appends one character.
pub assume_specification[ String::push ](s: &mut String, c: char)
    ensures
        final(s)@ == old(s)@.push(c),
;

/// The path that `part` names when it is read from the directory `base`: an absolute
/// `part` stands alone, any other follows `base` and, where `base` does not end in one,
/// a separator.
pub open spec fn joined(base: Seq<char>, part: Seq<char>) -> Seq<char> {
    if part.len() > 0 && part[0] == '/' {
        part
    } else if base.len() == 0 || base.last() == '/' {
        base + part
    } else {
        base.push('/') + part
    }
}

/// Reads the path `part` from the directory `base`.
pub fn join(base: &str, part: &str) -> (path: String)
    ensures
        path@ == joined(base@, part@),
{
    let part_len: usize = part.unicode_len();
    if part_len > 0 && part.get_char(0) == '/' {
        return part.to_owned();
    }
    let mut path = base.to_owned();
    let base_len: usize = base.unicode_len();
    if base_len > 0 && base.get_char(base_len - 1) != '/' {
        path.push('/');
    }
    path.append(part);
    path
}

/// A joined path ends in the part that was joined to it.
pub proof fn lemma_joined_ends_in_part(base: Seq<char>, part: Seq<char>)
    ensures
        joined(base, part).len() >= part.len(),
        joined(base, part).skip(joined(base, part).len() - part.len()) == part,
{
    assert(joined(base, part).skip(joined(base, part).len() - part.len()) =~= part);
}

/// The text with every `from` turned into `to`.
pub open spec fn replaced(text: Seq<char>, from: char, to: char) -> Seq<char> {
    text.map_values(
        |c: char|
            if c == from {
                to
            } else {
                c
            },
    )
}

/// Turns every `from` of the text into `to`.
pub fn replace(text: &str, from: char, to: char) -> (out: String)
    ensures
        out@ == replaced(text@, from, to),
{
    let mut out = String::new();
    for c in it: text.chars()
        invariant
            it.seq() == text@,
            out@ == replaced(text@.take(it.index() as int), from, to),
    {
        out.push(
            if c == from {
                to
            } else {
                c
            },
        );
        assert(text@.take(it.index() + 1) == text@.take(it.index() as int).push(c));
    }
    assert(text@.take(text@.len() as int) == text@);
    out
}

/// What stands behind the last separator of a path.
pub open spec fn last_segment(path: Seq<char>) -> Seq<char>
    decreases path.len(),
{
    if path.len() == 0 || path.last() == '/' {
        Seq::empty()
    } else {
        last_segment(path.drop_last()).push(path.last())
    }
}

/// The name of what a path leads to: its last segment, where empty segments and single dots
/// are passed over. A path that leads to a root, or ends in two dots, has no name.
pub open spec fn last_name(path: Seq<char>) -> Option<Seq<char>>
    decreases path.len(),
{
    if path.len() == 0 {
        None
    } else if path.last() == '/' || last_segment(path) == seq!['.'] {
        last_name(path.drop_last())
    } else if last_segment(path) == seq!['.', '.'] {
        None
    } else {
        Some(last_segment(path))
    }
}

/// Finds where the last segment of the first `end` characters of a path begins.
fn segment_start(path: &str, end: usize) -> (start: usize)
    requires
        end <= path@.len(),
    ensures
        start <= end,
        last_segment(path@.take(end as int)) == path@.subrange(start as int, end as int),
{
    let mut start: usize = end;
    while start > 0 && path.get_char(start - 1) != '/'
        invariant
            start <= end <= path@.len(),
            last_segment(path@.take(end as int)) == last_segment(path@.take(start as int))
                + path@.subrange(start as int, end as int),
        decreases start,
    {
        let ghost cut = path@.take(start as int);
        assert(cut.drop_last() =~= path@.take(start - 1));
        assert(cut.last() == path@[start - 1]);
        assert(last_segment(cut) == last_segment(cut.drop_last()).push(cut.last()));
        assert(last_segment(cut.drop_last()).push(cut.last()) + path@.subrange(
            start as int,
            end as int,
        ) =~= last_segment(cut.drop_last()) + path@.subrange(start - 1, end as int));
        start = start - 1;
    }
    assert(last_segment(path@.take(start as int)) =~= Seq::<char>::empty());
    assert(Seq::<char>::empty() + path@.subrange(start as int, end as int) =~= path@.subrange(
        start as int,
        end as int,
    ));
    start
}

/// Finds the name of what a path leads to, if it has one.
pub fn file_name(path: &str) -> (name: Option<String>)
    ensures
        crate::uri::chars_of(name) == last_name(path@),
{
    let mut end: usize = path.unicode_len();
    assert(path@.take(end as int) =~= path@);
    while end > 0
        invariant
            end <= path@.len(),
            last_name(path@.take(end as int)) == last_name(path@),
        decreases end,
    {
        let ghost cut = path@.take(end as int);
        assert(cut.drop_last() =~= path@.take(end - 1));
        let start: usize = segment_start(path, end);
        let len: usize = end - start;
        if path.get_char(end - 1) == '/' || (len == 1 && path.get_char(start) == '.') {
            assert(cut.last() == '/' || last_segment(cut) =~= seq!['.']);
            end = end - 1;
        } else if len == 2 && path.get_char(start) == '.' && path.get_char(start + 1) == '.' {
            assert(last_segment(cut) =~= seq!['.', '.']);
            return None;
        } else {
            proof {
                let segment = last_segment(cut);
                let dot = seq!['.'];
                let dots = seq!['.', '.'];
                assert(segment == dot ==> segment.len() == 1 && segment[0] == dot[0]);
                assert(segment == dots ==> segment.len() == 2 && segment[0] == dots[0]
                    && segment[1] == dots[1]);
            }
            return Some(path.substring_char(start, end).to_owned());
        }
    }
    None
}

/// Where the segments of a path begin: behind the root, or behind a dot that stands for the
/// current directory, or at its beginning.
pub open spec fn body_start(path: Seq<char>) -> nat {
    if path.len() > 0 && (path[0] == '/' || (path[0] == '.' && (path.len() == 1 || path[1]
        == '/'))) {
        1
    } else {
        0
    }
}

/// A path without the empty segments and single dots at its end, but with its first `start`
/// characters.
pub open spec fn stripped(path: Seq<char>, start: nat) -> Seq<char>
    decreases path.len(),
{
    if path.len() > start && (path.last() == '/' || last_segment(path) == seq!['.']) {
        stripped(path.drop_last(), start)
    } else {
        path
    }
}

/// The directory that holds what a path leads to: the path without its last segment, where
/// empty segments and single dots are passed over. A root and an empty path have none; that of
/// the current directory is the empty path.
pub open spec fn parent_dir(path: Seq<char>) -> Option<Seq<char>> {
    let start = body_start(path);
    let bare = stripped(path, start);
    if bare.len() > start {
        Some(stripped(bare.take(bare.len() - last_segment(bare).len()), start))
    } else if start > 0 && path[0] == '.' {
        Some(Seq::empty())
    } else {
        None
    }
}

/// Finds where the first `end` characters of a path end without empty segments and single
/// dots.
fn strip(path: &str, end: usize, start: usize) -> (bare: usize)
    requires
        end <= path@.len(),
    ensures
        bare <= end,
        stripped(path@.take(end as int), start as nat) == path@.take(bare as int),
{
    let mut bare: usize = end;
    while bare > start
        invariant
            bare <= end <= path@.len(),
            stripped(path@.take(end as int), start as nat) == stripped(
                path@.take(bare as int),
                start as nat,
            ),
        ensures
            stripped(path@.take(end as int), start as nat) == path@.take(bare as int),
        decreases bare,
    {
        let ghost cut = path@.take(bare as int);
        assert(cut.drop_last() =~= path@.take(bare - 1));
        let segment: usize = segment_start(path, bare);
        let dotted = bare - segment == 1 && path.get_char(segment) == '.';
        proof {
            let dot = seq!['.'];
            let last = last_segment(cut);
            assert(dotted ==> last =~= dot);
            assert(last == dot ==> last.len() == 1 && last[0] == dot[0]);
        }
        if path.get_char(bare - 1) != '/' && !dotted {
            break;
        }
        bare = bare - 1;
    }
    bare
}

/// Finds the directory that holds what a path leads to, if there is one.
pub fn parent(path: &str) -> (dir: Option<String>)
    ensures
        crate::uri::chars_of(dir) == parent_dir(path@),
{
    let len: usize = path.unicode_len();
    assert(path@.take(len as int) =~= path@);
    let from_here = len > 0 && path.get_char(0) == '.' && (len == 1 || path.get_char(1) == '/');
    let start: usize = if from_here || (len > 0 && path.get_char(0) == '/') {
        1
    } else {
        0
    };
    let bare: usize = strip(path, len, start);
    if bare > start {
        let segment: usize = segment_start(path, bare);
        let ghost cut = path@.take(bare as int);
        assert(cut.take(segment as int) =~= path@.take(segment as int));
        assert(cut.len() - last_segment(cut).len() == segment);
        let end: usize = strip(path, segment, start);
        assert(path@.subrange(0, end as int) =~= path@.take(end as int));
        Some(path.substring_char(0, end).to_owned())
    } else if from_here {
        let none = String::new();
        assert(none@ =~= Seq::<char>::empty());
        Some(none)
    } else {
        None
    }
}

/// The last segment of a path is what stands behind a separator, where no other follows.
pub proof fn lemma_last_segment(dir: Seq<char>, name: Seq<char>)
    requires
        !name.contains('/'),
    ensures
        last_segment(dir.push('/') + name) == name,
    decreases name.len(),
{
    let path = dir.push('/') + name;
    if name.len() == 0 {
        assert(path =~= dir.push('/'));
    } else {
        assert(path.last() == name.last());
        assert(name[name.len() - 1] != '/');
        assert(path.drop_last() =~= dir.push('/') + name.drop_last());
        assert(!name.drop_last().contains('/')) by {
            assert(forall|i: int| 0 <= i < name.len() - 1 ==> name.drop_last()[i] == name[i]);
        }
        lemma_last_segment(dir, name.drop_last());
        assert(name.drop_last().push(name.last()) =~= name);
    }
}

/// A file in a directory whose path ends in a plain name is held by that directory.
pub proof fn lemma_parent_of_joined(above: Seq<char>, dir_name: Seq<char>, name: Seq<char>)
    requires
        dir_name.len() > 1,
        !dir_name.contains('/'),
        name.len() > 1,
        !name.contains('/'),
    ensures
        ({
            let dir = above.push('/') + dir_name;
            parent_dir(joined(dir, name)) == Some(dir)
        }),
{
    let dir = above.push('/') + dir_name;
    let path = joined(dir, name);
    let start = body_start(path);
    assert(name[0] != '/' && name[name.len() - 1] != '/');
    assert(dir_name[dir_name.len() - 1] != '/');
    assert(dir.last() == dir_name.last());
    assert(path =~= dir.push('/') + name);
    assert(path.last() == name.last());
    lemma_last_segment(dir, name);
    lemma_last_segment(above, dir_name);
    assert(last_segment(path) == name && name.len() != seq!['.'].len());
    assert(stripped(path, start) == path);
    assert(path.take(path.len() - name.len()) =~= dir.push('/'));
    assert(dir.push('/').drop_last() =~= dir);
    assert(last_segment(dir) == dir_name && dir_name.len() != seq!['.'].len());
    assert(stripped(dir, start) == dir);
    assert(stripped(dir.push('/'), start) == stripped(dir, start));
}

/// Reading a path from a directory: an absolute path stands alone. Any other stands whole
/// behind the whole directory, with one separator between them, unless the directory is empty
/// or ends in one.
pub proof fn lemma_joined(base: Seq<char>, part: Seq<char>)
    ensures
        part.len() > 0 && part[0] == '/' ==> joined(base, part) == part,
        !(part.len() > 0 && part[0] == '/') ==> {
            let path = joined(base, part);
            let separated = base.len() > 0 && base[base.len() - 1] != '/';
            let gap: int = if separated {
                1
            } else {
                0
            };
            &&& path.len() == base.len() + gap + part.len()
            &&& path.take(base.len() as int) == base
            &&& path.skip(base.len() + gap) == part
            &&& separated ==> path[base.len() as int] == '/'
        },
{
    let path = joined(base, part);
    if !(part.len() > 0 && part[0] == '/') {
        assert(path.take(base.len() as int) =~= base);
        assert(path.skip(path.len() - part.len()) =~= part);
    }
}

/// Replacing a character changes that character wherever it stands, and nothing else.
pub proof fn lemma_replaced(text: Seq<char>, from: char, to: char)
    ensures
        replaced(text, from, to).len() == text.len(),
        forall|i: int|
            0 <= i < text.len() ==> #[trigger] replaced(text, from, to)[i] == if text[i] == from {
                to
            } else {
                text[i]
            },
{
}

/// The last segment of a path holds no separator, the path ends in it, and what stands before
/// it, if anything does, is a separator.
pub proof fn lemma_last_segment_ends_path(path: Seq<char>)
    ensures
        ({
            let segment = last_segment(path);
            let cut = path.len() - segment.len();
            &&& !segment.contains('/')
            &&& 0 <= cut
            &&& path.skip(cut) == segment
            &&& cut > 0 ==> path[cut - 1] == '/'
        }),
    decreases path.len(),
{
    let segment = last_segment(path);
    if path.len() == 0 || path.last() == '/' {
        assert(path.skip(path.len() as int) =~= segment);
    } else {
        let before = path.drop_last();
        lemma_last_segment_ends_path(before);
        let cut = path.len() - segment.len();
        assert(path.skip(cut) =~= before.skip(cut).push(path.last()));
        assert forall|i: int| 0 <= i < segment.len() implies segment[i] != '/' by {
            if i < segment.len() - 1 {
                assert(segment[i] == last_segment(before)[i]);
            }
        }
    }
}

/// The last segment of a text without separators is the text.
proof fn lemma_last_segment_alone(name: Seq<char>)
    requires
        !name.contains('/'),
    ensures
        last_segment(name) == name,
{
    lemma_last_segment_ends_path(name);
    let cut = name.len() - last_segment(name).len();
    if cut > 0 {
        assert(name[cut - 1] == '/');
    }
    assert(name.skip(0) =~= name);
}

/// The name of what a path leads to is the last one in the path. A separator or a single dot
/// at the end of the path makes no difference to it; two dots leave no name, and neither does
/// a path without any.
pub proof fn lemma_last_name(dir: Seq<char>, name: Seq<char>)
    requires
        !name.contains('/'),
        name.len() > 0,
        name != seq!['.'],
    ensures
        last_name(Seq::empty()) is None,
        last_name(seq!['.']) is None,
        last_name(dir.push('/')) == last_name(dir),
        last_name(dir.push('/').push('.')) == last_name(dir),
        last_name(dir.push('/') + name) == if name == seq!['.', '.'] {
            None
        } else {
            Some(name)
        },
        last_name(name) == if name == seq!['.', '.'] {
            None
        } else {
            Some(name)
        },
{
    let none = Seq::<char>::empty();
    let dot = seq!['.'];
    assert(!dot.contains('/')) by {
        assert(dot[0] != '/');
    }
    lemma_last_segment_alone(dot);
    assert(dot.drop_last() =~= none);
    assert(dir.push('/').drop_last() =~= dir);
    lemma_last_segment(dir, dot);
    assert(dir.push('/') + dot =~= dir.push('/').push('.'));
    assert(dir.push('/').push('.').drop_last() =~= dir.push('/'));
    lemma_last_segment(dir, name);
    lemma_last_segment_alone(name);
    let path = dir.push('/') + name;
    assert(path.last() == name.last());
    assert(name[name.len() - 1] != '/');
    reveal_with_fuel(last_name, 3);
}

/// The directory that holds what a path leads to is the path without its last name. A
/// separator or a single dot at the end of the path makes no difference to it, nor do more
/// than one separator, or single dots, between the directory and the name. A root and an empty
/// path have none; that of a name alone, and of the current directory, is the empty path.
pub proof fn lemma_parent_dir(dir: Seq<char>, name: Seq<char>)
    requires
        !name.contains('/'),
        name.len() > 0,
        name != seq!['.'],
    ensures
        parent_dir(Seq::empty()) is None,
        parent_dir(seq!['/']) is None,
        parent_dir(seq!['.']) == Some(Seq::<char>::empty()),
        parent_dir(name) == Some(Seq::<char>::empty()),
        parent_dir(seq!['/'] + name) == Some(seq!['/']),
        parent_dir(seq!['.', '/'] + name) == Some(seq!['.']),
        parent_dir(dir.push('/')) == parent_dir(dir),
        parent_dir(dir.push('/').push('.')) == parent_dir(dir),
        parent_dir(dir.push('/').push('/') + name) == parent_dir(dir.push('/') + name),
        parent_dir(dir.push('/').push('.').push('/') + name) == parent_dir(dir.push('/') + name),
        dir.len() > 0 && dir.last() != '/' && last_segment(dir) != seq!['.'] ==> parent_dir(
            dir.push('/') + name,
        ) == Some(dir),
{
    let none = Seq::<char>::empty();
    let root = seq!['/'];
    let dot = seq!['.'];
    assert(!dot.contains('/')) by {
        assert(dot[0] != '/');
    }
    assert(name[0] != '/' && name[name.len() - 1] != '/');
    lemma_last_segment_alone(dot);
    lemma_last_segment_alone(name);
    assert(name.len() == 1 ==> name[0] != '.') by {
        if name.len() == 1 && name[0] == '.' {
            assert(name =~= dot);
        }
    }
    assert(body_start(name) == 0);
    assert(stripped(name, 0) == name);
    assert(name.take(0) =~= none);
    lemma_parent_below(none, name);
    assert(none.push('/') + name =~= root + name);
    assert(stripped(root, 1) == root);
    assert(none.push('/') =~= root);
    lemma_parent_below(dot, name);
    assert(dot.push('/') + name =~= seq!['.', '/'] + name);
    assert(dot.push('/').drop_last() =~= dot);
    assert(stripped(dot.push('/'), 1) == stripped(dot, 1));
    let slashed = dir.push('/');
    let start = body_start(slashed);
    let twice = slashed.push('/');
    let dotted = slashed.push('.');
    lemma_parent_below(dir, name);
    lemma_parent_below(slashed, name);
    lemma_parent_below(dotted, name);
    assert(twice[0] == slashed[0] && dotted.push('/')[0] == slashed[0]);
    assert(dir.len() > 0 ==> twice[1] == slashed[1] && dotted.push('/')[1] == slashed[1]);
    assert(twice.drop_last() =~= slashed);
    assert(dotted.push('/').drop_last() =~= dotted);
    assert(dotted.drop_last() =~= slashed);
    lemma_last_segment(dir, dot);
    assert(slashed + dot =~= dotted);
    if dir.len() > 0 {
        lemma_strips_end(dir);
    } else {
        assert(slashed =~= root);
    }
}

proof fn lemma_strips_end(dir: Seq<char>)
    requires
        dir.len() > 0,
    ensures
        body_start(dir.push('/')) == body_start(dir),
        body_start(dir.push('/').push('.')) == body_start(dir),
        stripped(dir.push('/'), body_start(dir)) == stripped(dir, body_start(dir)),
        stripped(dir.push('/').push('.'), body_start(dir)) == stripped(dir, body_start(dir)),
        parent_dir(dir.push('/')) == parent_dir(dir),
        parent_dir(dir.push('/').push('.')) == parent_dir(dir),
{
    let dot = seq!['.'];
    assert(!dot.contains('/')) by {
        assert(dot[0] != '/');
    }
    let slashed = dir.push('/');
    let dotted = slashed.push('.');
    assert(slashed[0] == dir[0] && dotted[0] == dir[0]);
    assert(dir.len() > 1 ==> slashed[1] == dir[1] && dotted[1] == dir[1]);
    assert(slashed.drop_last() =~= dir);
    assert(dotted.drop_last() =~= slashed);
    lemma_last_segment(dir, dot);
    assert(slashed + dot =~= dotted);
}

proof fn lemma_parent_below(dir: Seq<char>, name: Seq<char>)
    requires
        !name.contains('/'),
        name.len() > 0,
        name != seq!['.'],
    ensures
        ({
            let start = body_start(dir.push('/'));
            parent_dir(dir.push('/') + name) == Some(stripped(dir.push('/'), start))
        }),
{
    let above = dir.push('/');
    let path = above + name;
    assert(name[name.len() - 1] != '/');
    lemma_last_segment(dir, name);
    assert(path.last() == name.last());
    assert(path[0] == above[0]);
    assert(dir.len() > 0 ==> path[1] == above[1]);
    assert(dir.len() == 0 ==> path[0] == '/');
    assert(body_start(path) == body_start(above));
    assert(path.take(path.len() - name.len()) =~= above);
}

} // verus!
