//! Paths as text, their parts split by slashes.
use crate::text;
use vstd::prelude::*;
use vstd::string::*;

verus! {

/// Where the last segment of `path` begins: just past the last slash.
pub open spec fn segment_start(path: Seq<char>) -> int
    decreases path.len(),
{
    if path.len() == 0 || path.last() == '/' {
        path.len() as int
    } else {
        segment_start(path.drop_last())
    }
}

/// Where the file name of a path ends: slashes and single dots behind it are
/// passed over, and a path that ends in two dots has none.
pub open spec fn name_end(path: Seq<char>) -> Option<int>
    decreases path.len(),
{
    if path.len() == 0 {
        None
    } else if path.last() == '/' {
        name_end(path.drop_last())
    } else {
        let last = path.skip(segment_start(path));
        if last == seq!['.'] {
            name_end(path.drop_last())
        } else if last == seq!['.', '.'] {
            None
        } else {
            Some(path.len() as int)
        }
    }
}

/// Where the file name of a path begins.
pub open spec fn name_start(path: Seq<char>) -> int {
    match name_end(path) {
        Some(end) => segment_start(path.take(end)),
        None => path.len() as int,
    }
}

/// The file name of a path: its last component.
pub open spec fn name_of(path: Seq<char>) -> Option<Seq<char>> {
    match name_end(path) {
        Some(end) => Some(path.subrange(name_start(path), end)),
        None => None,
    }
}

/// Where the last dot of a name is.
pub open spec fn last_dot(name: Seq<char>) -> Option<int>
    decreases name.len(),
{
    if name.len() == 0 {
        None
    } else if name.last() == '.' {
        Some(name.len() - 1)
    } else {
        last_dot(name.drop_last())
    }
}

/// The extension of a file name: what comes after its last dot, unless that dot
/// begins the name.
pub open spec fn extension_of(name: Seq<char>) -> Option<Seq<char>> {
    match last_dot(name) {
        Some(at) => if at > 0 {
            Some(name.skip(at + 1))
        } else {
            None
        },
        None => None,
    }
}

/// A path with its file name's extension replaced; a path without a file name as
/// it is.
pub open spec fn swapped(path: Seq<char>, extension: Seq<char>) -> Seq<char> {
    match name_of(path) {
        None => path,
        Some(name) => {
            let stem = match last_dot(name) {
                Some(at) if at > 0 => at,
                _ => name.len() as int,
            };
            path.take(name_start(path) + stem) + "."@ + extension
        },
    }
}

/// `name` in the directory `dir`.
pub open spec fn joined(dir: Seq<char>, name: Seq<char>) -> Seq<char> {
    if dir.len() == 0 || dir.last() == '/' {
        dir + name
    } else {
        dir + "/"@ + name
    }
}

proof fn lemma_segment(path: Seq<char>)
    ensures
        0 <= segment_start(path) <= path.len(),
    decreases path.len(),
{
    if path.len() > 0 && path.last() != '/' {
        lemma_segment(path.drop_last());
    }
}

/// Where the file name of a path begins and ends.
fn name_span(chars: &Vec<char>) -> (r: Option<(usize, usize)>)
    ensures
        match r {
            Some((start, end)) => start <= end <= chars@.len() && name_end(chars@) == Some(
                end as int,
            ) && name_start(chars@) == start,
            None => name_end(chars@) is None,
        },
{
    let ghost path = chars@;
    let mut end: usize = chars.len();
    proof {
        assert(path.take(end as int) =~= path);
    }
    while end > 0
        invariant
            end <= chars.len(),
            chars@ == path,
            name_end(path) == name_end(path.take(end as int)),
        decreases end,
    {
        let ghost cur = path.take(end as int);
        proof {
            lemma_segment(cur);
            assert(cur.last() == chars@[end - 1]);
            assert(cur.drop_last() =~= path.take(end - 1));
        }
        if chars[end - 1] == '/' {
            end -= 1;
        } else {
            let mut from: usize = end;
            while from > 0 && chars[from - 1] != '/'
                invariant
                    from <= end <= chars.len(),
                    chars@ == path,
                    segment_start(path.take(end as int)) == segment_start(path.take(from as int)),
                decreases from,
            {
                proof {
                    let t = path.take(from as int);
                    assert(t.last() == chars@[from - 1]);
                    assert(t.drop_last() =~= path.take(from - 1));
                }
                from -= 1;
            }
            let ghost last = cur.skip(segment_start(cur));
            proof {
                if from > 0 {
                    assert(path.take(from as int).last() == chars@[from - 1]);
                }
                assert(segment_start(cur) == from);
                assert(last =~= chars@.subrange(from as int, end as int));
            }
            if end - from == 1 && chars[from] == '.' {
                assert(last =~= seq!['.']);
                end -= 1;
            } else if end - from == 2 && chars[from] == '.' && chars[from + 1] == '.' {
                assert(last =~= seq!['.', '.']);
                return None;
            } else {
                proof {
                    if last == seq!['.'] {
                        assert(last.len() == 1 && last[0] == '.');
                    }
                    if last == seq!['.', '.'] {
                        assert(last.len() == 2 && last[0] == '.' && last[1] == '.');
                    }
                }
                return Some((from, end));
            }
        }
    }
    None
}

/// Where the last dot of `chars[start..end]` is, from its start.
fn dot_in(chars: &Vec<char>, start: usize, end: usize) -> (r: Option<usize>)
    requires
        start <= end <= chars@.len(),
    ensures
        match r {
            Some(at) => at < end - start && last_dot(chars@.subrange(start as int, end as int))
                == Some(at as int),
            None => last_dot(chars@.subrange(start as int, end as int)) is None,
        },
{
    let ghost name = chars@.subrange(start as int, end as int);
    let mut i: usize = end;
    proof {
        assert(name.take(end - start) =~= name);
    }
    while i > start
        invariant
            start <= i <= end <= chars@.len(),
            name == chars@.subrange(start as int, end as int),
            last_dot(name) == last_dot(name.take(i - start)),
        decreases i,
    {
        proof {
            let t = name.take(i - start);
            assert(t.last() == chars@[i - 1]);
            assert(t.drop_last() =~= name.take(i - start - 1));
        }
        if chars[i - 1] == '.' {
            return Some(i - 1 - start);
        }
        i -= 1;
    }
    None
}

/// The file name of a path.
pub fn file_name(path: &str) -> (r: Option<String>)
    ensures
        match r {
            Some(s) => name_of(path@) == Some(s@),
            None => name_of(path@) is None,
        },
{
    let chars = text::chars_of(path);
    match name_span(&chars) {
        Some((start, end)) => Some(text::text_of(&chars, start, end)),
        None => None,
    }
}

/// The extension of a file name.
pub fn extension(name: &str) -> (r: Option<String>)
    ensures
        match r {
            Some(s) => extension_of(name@) == Some(s@),
            None => extension_of(name@) is None,
        },
{
    let chars = text::chars_of(name);
    assert(chars@.subrange(0, chars@.len() as int) =~= name@);
    match dot_in(&chars, 0, chars.len()) {
        Some(at) => {
            if at == 0 {
                return None;
            }
            let ext = text::text_of(&chars, at + 1, chars.len());
            assert(ext@ =~= name@.skip(at + 1));
            Some(ext)
        },
        None => None,
    }
}

/// A path with its file name's extension replaced.
pub fn with_extension(path: &str, extension: &str) -> (r: String)
    ensures
        r@ == swapped(path@, extension@),
{
    let chars = text::chars_of(path);
    match name_span(&chars) {
        Some((start, end)) => {
            let stem: usize = match dot_in(&chars, start, end) {
                Some(at) => if at > 0 {
                    start + at
                } else {
                    end
                },
                None => end,
            };
            let front = text::text_of(&chars, 0, stem);
            assert(front@ =~= path@.take(stem as int));
            text::join3(front.as_str(), ".", extension)
        },
        None => path.to_owned(),
    }
}

/// `name` in the directory `dir`.
pub fn join(dir: &str, name: &str) -> (r: String)
    ensures
        r@ == joined(dir@, name@),
{
    let chars = text::chars_of(dir);
    if chars.len() == 0 || chars[chars.len() - 1] == '/' {
        text::join2(dir, name)
    } else {
        text::join3(dir, "/", name)
    }
}

proof fn lemma_segment_of(dir: Seq<char>, name: Seq<char>)
    requires
        dir.len() == 0 || dir.last() == '/',
        !name.contains('/'),
    ensures
        segment_start(dir + name) == dir.len(),
    decreases name.len(),
{
    if name.len() == 0 {
        assert(dir + name =~= dir);
    } else {
        let front = name.drop_last();
        assert((dir + name).last() == name.last());
        assert(name.contains(name[name.len() - 1]));
        assert(!front.contains('/')) by {
            if front.contains('/') {
                let i = choose|i: int| 0 <= i < front.len() && front[i] == '/';
                assert(name[i] == '/');
            }
        }
        assert((dir + name).drop_last() =~= dir + front);
        lemma_segment_of(dir, front);
    }
}

proof fn lemma_last_dot(stem: Seq<char>, rest: Seq<char>)
    requires
        !rest.contains('.'),
    ensures
        last_dot(stem + seq!['.'] + rest) == Some(stem.len() as int),
        last_dot(rest) is None,
    decreases rest.len(),
{
    let all = stem + seq!['.'] + rest;
    if rest.len() > 0 {
        let front = rest.drop_last();
        assert(rest.contains(rest[rest.len() - 1]));
        assert(!front.contains('.')) by {
            if front.contains('.') {
                let i = choose|i: int| 0 <= i < front.len() && front[i] == '.';
                assert(rest[i] == '.');
            }
        }
        assert(all.drop_last() =~= stem + seq!['.'] + front);
        lemma_last_dot(stem, front);
    }
}

/// Law: what follows the last slash of a path is its file name, unless that is one or
/// two dots; a slash behind it makes no difference.
pub proof fn law_file_name(dir: Seq<char>, name: Seq<char>)
    requires
        dir.len() == 0 || dir.last() == '/',
        name.len() > 0,
        !name.contains('/'),
        name != seq!['.'],
        name != seq!['.', '.'],
    ensures
        name_of(dir + name) == Some(name),
        name_start(dir + name) == dir.len(),
        name_of(dir + name + seq!['/']) == Some(name),
{
    let path = dir + name;
    lemma_segment_of(dir, name);
    assert(name.contains(name[name.len() - 1]));
    assert(path.last() == name.last());
    assert(path.skip(dir.len() as int) =~= name);
    assert(path.take(path.len() as int) =~= path);
    assert(path.subrange(dir.len() as int, path.len() as int) =~= name);
    let more = path + seq!['/'];
    assert(more.last() == '/');
    assert(more.drop_last() =~= path);
    assert(more.take(path.len() as int) =~= path);
    assert(more.subrange(dir.len() as int, path.len() as int) =~= name);
}

/// Law: a new extension takes the place of the old one, from the last dot of the file
/// name on, and is added where there is none; the directory and the stem stay.
pub proof fn law_extension_is_replaced(
    dir: Seq<char>,
    stem: Seq<char>,
    old: Seq<char>,
    new: Seq<char>,
)
    requires
        dir.len() == 0 || dir.last() == '/',
        stem.len() > 0,
        old.len() > 0,
        !stem.contains('/'),
        !old.contains('/'),
        !old.contains('.'),
    ensures
        swapped(dir + stem + seq!['.'] + old, new) == dir + stem + seq!['.'] + new,
        swapped(dir + old, new) == dir + old + seq!['.'] + new,
{
    reveal_strlit(".");
    assert("."@ =~= seq!['.']);
    let name = stem + seq!['.'] + old;
    let path = dir + name;
    assert(!name.contains('/')) by {
        if name.contains('/') {
            let i = choose|i: int| 0 <= i < name.len() && name[i] == '/';
            if i < stem.len() {
                assert(stem[i] == '/');
            } else if i > stem.len() {
                assert(old[i - stem.len() - 1] == '/');
            }
        }
    }
    assert(name.last() == old.last());
    assert(old.contains(old[old.len() - 1]));
    if name == seq!['.', '.'] {
        assert(name.last() == '.');
    }
    assert(name.len() >= 3);
    assert(old != seq!['.'] && old != seq!['.', '.']) by {
        assert(old[0] != '.') by {
            assert(old.contains(old[0]));
        }
    }
    law_file_name(dir, name);
    law_file_name(dir, old);
    lemma_last_dot(stem, old);
    assert(dir + stem + seq!['.'] + old =~= path);
    assert(path.take((dir.len() + stem.len()) as int) =~= dir + stem);
    assert((dir + old).take((dir.len() + old.len()) as int) =~= dir + old);
}

/// Law: what follows the last dot of a file name is its extension; a name without a
/// dot, or with no other than the one it begins with, has none.
pub proof fn law_extension(stem: Seq<char>, ext: Seq<char>)
    requires
        !ext.contains('.'),
    ensures
        stem.len() > 0 && stem + seq!['.'] + ext != seq!['.', '.'] ==> extension_of(
            stem + seq!['.'] + ext,
        ) == Some(ext),
        extension_of(ext) is None,
        extension_of(seq!['.'] + ext) is None,
{
    let name = stem + seq!['.'] + ext;
    lemma_last_dot(stem, ext);
    lemma_last_dot(Seq::empty(), ext);
    assert(Seq::<char>::empty() + seq!['.'] + ext =~= seq!['.'] + ext);
    assert(name.skip(stem.len() as int + 1) =~= ext);
    assert(name.subrange(stem.len() as int + 1, name.len() as int) =~= ext);
}

} // verus!
