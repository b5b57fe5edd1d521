//! Unix paths as text: joining a component, and the parent of a path.
use vstd::prelude::*;
use vstd::string::*;

use crate::text::characters;

verus! {

/// `part` taken relative to `base`: an absolute `part` stands for itself, any other is put
/// behind `base` with exactly one separator where `base` does not end in one.
pub open spec fn joined(base: Seq<char>, part: Seq<char>) -> Seq<char> {
    if part.len() > 0 && part[0] == '/' {
        part
    } else if base.len() > 0 && base.last() != '/' {
        base.push('/') + part
    } else {
        base + part
    }
}

/// Joins `part` to `base`.
pub fn join(base: &str, part: &str) -> (r: String)
    ensures
        r@ == joined(base@, part@),
{
    proof {
        reveal_strlit("/");
    }
    let part_absolute: bool = part.unicode_len() > 0 && part.get_char(0) == '/';
    if part_absolute {
        return part.to_string();
    }
    let n: usize = base.unicode_len();
    if n > 0 && base.get_char(n - 1) != '/' {
        let r = base.to_string().concat("/").concat(part);
        assert(base@ + "/"@ =~= base@.push('/'));
        r
    } else {
        base.to_string().concat(part)
    }
}

/// Whether a relative path starts with the component `.`, the only place where that component
/// counts.
pub open spec fn starts_here(p: Seq<char>) -> bool {
    p.len() > 0 && p[0] == '.' && (p.len() == 1 || p[1] == '/')
}

/// Where the components of `p` start, behind the root or a leading `.`.
pub open spec fn body_start(p: Seq<char>) -> nat {
    if p.len() > 0 && p[0] == '/' || starts_here(p) {
        1
    } else {
        0
    }
}

/// Where the last component of `p` starts: behind the last separator of the body.
pub open spec fn component_start(p: Seq<char>, start: nat) -> nat
    decreases p.len(),
{
    if p.len() <= start {
        start
    } else if p.last() == '/' {
        p.len()
    } else {
        component_start(p.drop_last(), start)
    }
}

/// Components that count for nothing: the empty one and `.`.
pub open spec fn is_idle(component: Seq<char>) -> bool {
    component.len() == 0 || component =~= seq!['.']
}

/// `p` without its last component and the separator before it.
pub open spec fn without_last(p: Seq<char>, start: nat) -> Seq<char> {
    let c = component_start(p, start);
    p.take(
        if c > start {
            c - 1
        } else {
            start as int
        },
    )
}

/// `p` without the components at its end that count for nothing.
pub open spec fn without_idle_tail(p: Seq<char>, start: nat) -> Seq<char>
    decreases p.len(),
    via without_idle_tail_shrinks
{
    if p.len() > start && is_idle(p.skip(component_start(p, start) as int)) {
        without_idle_tail(without_last(p, start), start)
    } else {
        p
    }
}

#[via_fn]
proof fn without_idle_tail_shrinks(p: Seq<char>, start: nat) {
    component_start_bounds(p, start);
}

proof fn component_start_bounds(p: Seq<char>, start: nat)
    ensures
        start <= component_start(p, start),
        start <= p.len() ==> component_start(p, start) <= p.len(),
    decreases p.len(),
{
    if p.len() > start && p.last() != '/' {
        component_start_bounds(p.drop_last(), start);
    }
}

/// The path without its final component, if it has one.
pub open spec fn parent_of(p: Seq<char>) -> Option<Seq<char>> {
    let start = body_start(p);
    let q = without_idle_tail(p, start);
    if q.len() > start {
        Some(without_idle_tail(without_last(q, start), start))
    } else if starts_here(p) {
        Some(Seq::<char>::empty())
    } else {
        None
    }
}

fn last_component(chars: &Vec<char>, len: usize, start: usize) -> (c: usize)
    requires
        start <= len <= chars.len(),
    ensures
        c == component_start(chars@.take(len as int), start as nat),
        start <= c <= len,
{
    let mut c: usize = len;
    while c > start && chars[c - 1] != '/'
        invariant
            start <= c <= len <= chars.len(),
            component_start(chars@.take(len as int), start as nat) == component_start(
                chars@.take(c as int),
                start as nat,
            ),
        decreases c,
    {
        assert(chars@.take(c as int).drop_last() =~= chars@.take(c - 1));
        c = c - 1;
    }
    c
}

fn cut_last(chars: &Vec<char>, len: usize, start: usize) -> (r: usize)
    requires
        start < len <= chars.len(),
    ensures
        start <= r < len,
        chars@.take(r as int) == without_last(chars@.take(len as int), start as nat),
{
    let c: usize = last_component(chars, len, start);
    let r: usize = if c > start {
        c - 1
    } else {
        start
    };
    assert(chars@.take(len as int).take(r as int) =~= chars@.take(r as int));
    r
}

fn cut_idle_tail(chars: &Vec<char>, len: usize, start: usize) -> (r: usize)
    requires
        start <= len <= chars.len(),
    ensures
        start <= r <= len,
        chars@.take(r as int) == without_idle_tail(chars@.take(len as int), start as nat),
{
    let mut r: usize = len;
    while r > start
        invariant
            start <= r <= len <= chars.len(),
            without_idle_tail(chars@.take(len as int), start as nat) == without_idle_tail(
                chars@.take(r as int),
                start as nat,
            ),
        decreases r,
    {
        let c: usize = last_component(chars, r, start);
        let ghost component = chars@.take(r as int).skip(c as int);
        if c == r || (c + 1 == r && chars[c] == '.') {
            assert(is_idle(component)) by {
                if c != r {
                    assert(component =~= seq!['.']);
                }
            }
            r = cut_last(chars, r, start);
        } else {
            assert(!is_idle(component)) by {
                if component.len() == 1 {
                    assert(component[0] == chars[c as int]);
                }
            }
            return r;
        }
    }
    r
}

/// The parent of the path `p`.
pub fn parent(p: &str) -> (r: Option<String>)
    ensures
        r is Some <==> parent_of(p@) is Some,
        r matches Some(text) ==> text@ == parent_of(p@)->0,
{
    let chars = characters(p);
    let n: usize = chars.len();
    let here: bool = n > 0 && chars[0] == '.' && (n == 1 || chars[1] == '/');
    let start: usize = if (n > 0 && chars[0] == '/') || here {
        1
    } else {
        0
    };
    assert(chars@.take(n as int) =~= p@);
    let q: usize = cut_idle_tail(&chars, n, start);
    if q > start {
        let cut: usize = cut_last(&chars, q, start);
        let end: usize = cut_idle_tail(&chars, cut, start);
        assert(p@.subrange(0, end as int) =~= chars@.take(end as int));
        Some(p.substring_char(0, end).to_string())
    } else if here {
        Some(String::new())
    } else {
        None
    }
}

/// Whether `path` is `dir` or leads below it.
pub open spec fn within(path: Seq<char>, dir: Seq<char>) -> bool {
    path == dir || (path.len() > dir.len() && path.take(dir.len() as int) == dir
        && path[dir.len() as int] == '/')
}

/// Whether `path` is `dir` or leads below it.
pub fn is_within(path: &String, dir: &String) -> (r: bool)
    ensures
        r == within(path@, dir@),
{
    if *path == *dir {
        return true;
    }
    let n: usize = dir.as_str().unicode_len();
    if path.as_str().unicode_len() <= n || path.as_str().get_char(n) != '/' {
        return false;
    }
    let head: String = path.as_str().substring_char(0, n).to_string();
    assert(path@.subrange(0, n as int) =~= path@.take(n as int));
    head == *dir
}

/// Names that stand for one entry of a directory: not empty, not `.`, without a separator.
pub open spec fn is_entry_name(name: Seq<char>) -> bool {
    &&& name.len() > 0
    &&& name != seq!['.']
    &&& forall|i: int| 0 <= i < name.len() ==> name[i] != '/'
}

proof fn component_start_behind_separator(base: Seq<char>, name: Seq<char>, start: nat)
    requires
        start <= base.len(),
        base.len() > start ==> base.last() == '/',
        forall|i: int| 0 <= i < name.len() ==> name[i] != '/',
    ensures
        component_start(base + name, start) == base.len(),
    decreases name.len(),
{
    let p = base + name;
    if name.len() > 0 {
        assert(p.last() == name.last());
        assert(p.drop_last() =~= base + name.drop_last());
        component_start_behind_separator(base, name.drop_last(), start);
    } else {
        assert(p =~= base);
    }
}

/// A path to which an entry name was joined has a parent.
pub proof fn joined_path_has_a_parent(base: Seq<char>, entry: Seq<char>)
    requires
        is_entry_name(entry),
    ensures
        parent_of(joined(base, entry)) is Some,
{
    let p = joined(base, entry);
    let head = p.take(p.len() - entry.len());
    assert(p =~= head + entry);
    let start = body_start(p);
    if start == 1 && head.len() == 0 {
        assert(p[0] == entry[0]);
        assert(p =~= entry);
        if p.len() == 1 {
            assert(entry =~= seq!['.']);
        } else {
            assert(p[1] == entry[1]);
        }
    }
    component_start_behind_separator(head, entry, start);
    assert(p.skip(head.len() as int) =~= entry);
}

/// Joining one entry name and taking the parent gives back a directory that is absolute and
/// whose own last component is an entry name.
pub proof fn parent_undoes_join(dir: Seq<char>, last: Seq<char>, entry: Seq<char>)
    requires
        dir.len() > 0,
        dir[0] == '/',
        dir.last() != '/',
        is_entry_name(last),
        is_entry_name(entry),
    ensures
        parent_of(joined(joined(dir, last), entry)) == Some(joined(dir, last)),
{
    let base = joined(dir, last);
    let p = joined(base, entry);
    assert(base == dir.push('/') + last);
    assert(base.last() == last.last());
    assert(p == base.push('/') + entry);
    component_start_behind_separator(base.push('/'), entry, 1);
    assert(p.skip(base.len() as int + 1) =~= entry);
    assert(p.take(base.len() as int) =~= base);
    component_start_behind_separator(dir.push('/'), last, 1);
    assert(base.skip(dir.len() as int + 1) =~= last);
}

/// An absolute part stands for itself. Any other is found at the end of what is joined, behind
/// the base, with one separator between them unless the base is empty or ends in one.
pub proof fn joining(base: Seq<char>, part: Seq<char>)
    ensures
        part.len() > 0 && part[0] == '/' ==> joined(base, part) == part,
        !(part.len() > 0 && part[0] == '/') ==> ({
            let p = joined(base, part);
            &&& p.take(base.len() as int) == base
            &&& p.skip(p.len() - part.len()) == part
            &&& base.len() == 0 || base.last() == '/' ==> p.len() == base.len() + part.len()
            &&& base.len() > 0 && base.last() != '/' ==> p.len() == base.len() + part.len() + 1
                && p[base.len() as int] == '/'
        }),
{
    if !(part.len() > 0 && part[0] == '/') {
        let p = joined(base, part);
        assert(p.take(base.len() as int) =~= base);
        assert(p.skip(p.len() - part.len()) =~= part);
    }
}

/// A path lies in a directory exactly if it is the directory, or the directory, a separator and
/// something more.
pub proof fn lying_within(dir: Seq<char>, rest: Seq<char>, path: Seq<char>)
    ensures
        within(dir, dir),
        within(dir + seq!['/'] + rest, dir),
        within(path, dir) && path != dir ==> path == dir + seq!['/'] + path.skip(
            dir.len() as int + 1,
        ),
{
    let p = dir + seq!['/'] + rest;
    assert(p.take(dir.len() as int) =~= dir);
    assert(p[dir.len() as int] == '/');
    if within(path, dir) && path != dir {
        let n = dir.len() as int;
        assert(path =~= path.take(n) + seq![path[n]] + path.skip(n + 1));
    }
}

proof fn without_idle_separator(p: Seq<char>, start: nat)
    requires
        p.len() >= start,
    ensures
        without_idle_tail(p.push('/'), start) == without_idle_tail(p, start),
        without_idle_tail(p.push('/').push('.'), start) == without_idle_tail(p, start),
{
    let q = p.push('/');
    assert(q.skip(q.len() as int) =~= Seq::<char>::empty());
    assert(q.take(p.len() as int) =~= p);
    let r = q.push('.');
    assert(r =~= q + seq!['.']);
    component_start_behind_separator(q, seq!['.'], start);
    assert(r.skip(q.len() as int) =~= seq!['.']);
    assert(r.take(p.len() as int) =~= p);
}

/// A separator, or a separator and a dot, at the end of a path does not change its parent.
pub proof fn parent_skips_separators_and_dots(p: Seq<char>)
    requires
        p.len() > 0,
    ensures
        parent_of(p.push('/')) == parent_of(p),
        parent_of(p.push('/').push('.')) == parent_of(p),
{
    let start = body_start(p);
    without_idle_separator(p, start);
    assert(body_start(p.push('/')) == start);
    assert(body_start(p.push('/').push('.')) == start);
}

proof fn parent_behind(base: Seq<char>, entry: Seq<char>)
    requires
        is_entry_name(entry),
        base.len() > 0 ==> base.last() == '/',
    ensures
        ({
            let start = body_start(base + entry);
            let rest = if base.len() > start {
                base.drop_last()
            } else {
                base
            };
            &&& start <= base.len()
            &&& parent_of(base + entry) == Some(without_idle_tail(rest, start))
        }),
{
    let p = base + entry;
    let start = body_start(p);
    if base.len() == 0 {
        assert(p =~= entry);
        assert(start == 0) by {
            if start == 1 {
                assert(p[0] == entry[0]);
                if p.len() == 1 {
                    assert(entry =~= seq!['.']);
                } else {
                    assert(p[1] == entry[1]);
                }
            }
        }
    }
    component_start_behind_separator(base, entry, start);
    assert(p.skip(base.len() as int) =~= entry);
    if base.len() > 0 {
        assert(p.take(base.len() - 1) =~= base.drop_last());
    }
    assert(p.take(base.len() as int) =~= base);
}

/// The parent of an entry name is the empty path, that of an entry of the root is the root, and
/// that of an entry of the dot is the dot. The empty path and the root have none, and a dot has
/// the empty path.
pub proof fn parents_of_short_paths(entry: Seq<char>)
    requires
        is_entry_name(entry),
    ensures
        parent_of(entry) == Some(Seq::<char>::empty()),
        parent_of(seq!['/'] + entry) == Some(seq!['/']),
        parent_of(seq!['.', '/'] + entry) == Some(seq!['.']),
        parent_of(Seq::empty()) == None::<Seq<char>>,
        parent_of(seq!['/']) == None::<Seq<char>>,
        parent_of(seq!['.']) == Some(Seq::<char>::empty()),
{
    let none = Seq::<char>::empty();
    parent_behind(none, entry);
    assert(none + entry =~= entry);
    parent_behind(seq!['/'], entry);
    parent_behind(seq!['.', '/'], entry);
    let p = seq!['.', '/'] + entry;
    assert(p[0] == '.' && p[1] == '/');
    assert(seq!['.', '/'].drop_last() =~= seq!['.']);
}

/// The parent of an entry of a directory is the directory, where that ends in an entry name.
pub proof fn parent_of_an_entry(above: Seq<char>, last: Seq<char>, entry: Seq<char>)
    requires
        is_entry_name(last),
        is_entry_name(entry),
        above.len() > 0 ==> above.last() == '/',
    ensures
        parent_of(above + last + seq!['/'] + entry) == Some(above + last),
{
    let dir = above + last;
    let base = dir.push('/');
    assert(above + last + seq!['/'] + entry =~= base + entry);
    parent_behind(base, entry);
    parent_behind(above, last);
    let start = body_start(base + entry);
    let p = base + entry;
    assert(p.take(dir.len() as int) =~= dir);
    assert(p[0] == dir[0]);
    assert(start == body_start(dir)) by {
        if dir.len() == 1 {
            assert(p[1] == '/');
            if above.len() == 0 {
                assert(dir =~= last);
                if dir[0] == '.' {
                    assert(last =~= seq!['.']);
                }
            }
        } else {
            assert(p[1] == dir[1]);
        }
    }
    component_start_behind_separator(above, last, start);
    assert(dir.skip(above.len() as int) =~= last);
    assert(base.drop_last() =~= dir);
}

/// More separators, or a dot between separators, before the last entry do not change the parent.
pub proof fn parent_collapses_separators(p: Seq<char>, entry: Seq<char>)
    requires
        is_entry_name(entry),
    ensures
        parent_of(p + seq!['/', '/'] + entry) == parent_of(p + seq!['/'] + entry),
        parent_of(p + seq!['/', '.', '/'] + entry) == parent_of(p + seq!['/'] + entry),
{
    let one = p.push('/');
    let two = one.push('/');
    let dot = one.push('.').push('/');
    assert(p + seq!['/'] + entry =~= one + entry);
    assert(p + seq!['/', '/'] + entry =~= two + entry);
    assert(p + seq!['/', '.', '/'] + entry =~= dot + entry);
    parent_behind(one, entry);
    parent_behind(two, entry);
    parent_behind(dot, entry);
    let start = body_start(one + entry);
    assert(two.drop_last() =~= one);
    assert(dot.drop_last() =~= one.push('.'));
    assert(one.drop_last() =~= p);
    if p.len() == 0 {
        assert(one[0] == '/');
        assert(one =~= seq!['/']);
        assert(one.push('.') =~= one + seq!['.']);
        component_start_behind_separator(one, seq!['.'], 1);
        assert(one.push('.').skip(1) =~= seq!['.']);
        assert(one.push('.').take(1) =~= one);
    } else {
        assert((one + entry)[0] == p[0] && (two + entry)[0] == p[0] && (dot + entry)[0] == p[0]);
        if p.len() > 1 {
            assert((one + entry)[1] == p[1] && (two + entry)[1] == p[1] && (dot + entry)[1] == p[1]);
        } else {
            assert((one + entry)[1] == '/' && (two + entry)[1] == '/' && (dot + entry)[1] == '/');
        }
        without_idle_separator(p, start);
    }
}

/// An entry name is not empty, not a dot, and has no separator.
pub proof fn entry_names(name: Seq<char>)
    ensures
        is_entry_name(name) <==> name.len() > 0 && name != seq!['.'] && !name.contains('/'),
{
}

} // verus!
