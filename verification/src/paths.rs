use vstd::prelude::*;

use crate::text::same_text;
use crate::words::{
    chars_of, is_last_place, rsplit_once, split_at_last, text_views,
};

verus! {

/// A relative path below a directory, as Unix writes it: one slash between the two, unless
/// the directory ends in one or is empty.
pub open spec fn joined_path(directory: Seq<char>, name: Seq<char>) -> Seq<char> {
    if directory.len() == 0 || directory.last() == '/' {
        directory + name
    } else {
        directory + "/"@ + name
    }
}

/// Whether a text ends in a slash.
fn ends_in_slash(text: &str) -> (ends: bool)
    ensures
        ends == (text@.len() > 0 && text@.last() == '/'),
{
    let n = text.unicode_len();
    n > 0 && text.get_char(n - 1) == '/'
}

pub fn join_path(directory: &str, name: &str) -> (path: String)
    ensures
        path@ == joined_path(directory@, name@),
{
    let mut path = directory.to_owned();
    if !directory.is_empty() && !ends_in_slash(directory) {
        path.append("/");
    }
    path.append(name);
    path
}

pub proof fn lemma_split_is_shorter(text: Seq<char>)
    ensures
        split_at_last(text, '/') matches Some((before, _)) ==> before.len() < text.len(),
{
}

/// The parts of a path between its slashes.
pub open spec fn segments(path: Seq<char>) -> Seq<Seq<char>>
    decreases path.len(),
{
    match split_at_last(path, '/') {
        Some((before, after)) => {
            proof {
                lemma_split_is_shorter(path);
            }
            segments(before).push(after)
        },
        None => seq![path],
    }
}

/// The components among the first `n` segments: empty ones do not count, nor does a dot,
/// unless it begins the path.
pub open spec fn components_of(segments: Seq<Seq<char>>, n: nat) -> Seq<Seq<char>>
    decreases n,
{
    if n == 0 {
        Seq::empty()
    } else {
        let before = components_of(segments, (n - 1) as nat);
        let segment = segments[n - 1];
        if segment.len() == 0 || (segment == "."@ && n > 1) {
            before
        } else {
            before.push(segment)
        }
    }
}

/// The components of a path.
pub open spec fn components(path: Seq<char>) -> Seq<Seq<char>> {
    components_of(segments(path), segments(path).len())
}

pub open spec fn is_rooted(path: Seq<char>) -> bool {
    path.len() > 0 && path[0] == '/'
}

/// Whether two texts write the same Unix path, without a look at the file system.
pub open spec fn is_same_path(a: Seq<char>, b: Seq<char>) -> bool {
    is_rooted(a) == is_rooted(b) && components(a) == components(b)
}

fn split_segments(path: &str) -> (all: Vec<String>)
    ensures
        text_views(all@) == segments(path@),
    decreases path@.len(),
{
    match rsplit_once(path, '/') {
        Some((before, after)) => {
            proof {
                lemma_split_is_shorter(path@);
            }
            let mut all = split_segments(before);
            let ghost first = all@;
            all.push(after.to_owned());
            assert(text_views(all@) =~= text_views(first).push(after@));
            all
        },
        None => {
            let mut all: Vec<String> = Vec::new();
            all.push(path.to_owned());
            assert(text_views(all@) =~= seq![path@]);
            all
        },
    }
}

fn split_components(path: &str) -> (all: Vec<String>)
    ensures
        text_views(all@) == components(path@),
{
    let parts = split_segments(path);
    let ghost views = segments(path@);
    let mut all: Vec<String> = Vec::new();
    assert(text_views(all@) =~= Seq::empty());
    let mut i: usize = 0;
    while i < parts.len()
        invariant
            i <= parts@.len(),
            views == text_views(parts@),
            text_views(all@) == components_of(views, i as nat),
        decreases parts@.len() - i,
    {
        let part = &parts[i];
        assert(views[i as int] == part@);
        let ghost before = all@;
        if !(part.as_str().is_empty() || (same_text(part.as_str(), ".") && i > 0)) {
            all.push(part.clone());
            assert(text_views(all@) =~= text_views(before).push(part@));
        }
        i += 1;
    }
    all
}

pub fn starts_with_slash(path: &str) -> (rooted: bool)
    ensures
        rooted == is_rooted(path@),
{
    !path.is_empty() && path.get_char(0) == '/'
}

pub fn same_path(a: &str, b: &str) -> (same: bool)
    ensures
        same == is_same_path(a@, b@),
{
    if starts_with_slash(a) != starts_with_slash(b) {
        return false;
    }
    let x = split_components(a);
    let y = split_components(b);
    if x.len() != y.len() {
        assert(text_views(x@).len() != text_views(y@).len());
        return false;
    }
    let mut i: usize = 0;
    while i < x.len()
        invariant
            i <= x@.len(),
            x@.len() == y@.len(),
            text_views(x@) == components(a@),
            text_views(y@) == components(b@),
            forall|j: int| 0 <= j < i ==> x@[j]@ == y@[j]@,
        decreases x@.len() - i,
    {
        if !same_text(x[i].as_str(), y[i].as_str()) {
            proof {
                assert(text_views(x@)[i as int] != text_views(y@)[i as int]);
            }
            return false;
        }
        i += 1;
    }
    assert(text_views(x@) =~= text_views(y@));
    true
}

/// Where what follows the root, or the dot that begins a relative path, starts.
pub open spec fn body_start(path: Seq<char>) -> nat {
    if is_rooted(path) || begins_with_dot(path) {
        1
    } else {
        0
    }
}

/// Whether a relative path begins with a dot as a component.
pub open spec fn begins_with_dot(path: Seq<char>) -> bool {
    path.len() > 0 && path[0] == '.' && (path.len() == 1 || path[1] == '/')
}

/// Where the last segment of a path's body starts.
pub open spec fn last_segment_start(path: Seq<char>, body: nat) -> nat {
    if exists|i: int| body <= i && is_last_place(path, '/', i) {
        ((choose|i: int| body <= i && is_last_place(path, '/', i)) + 1) as nat
    } else {
        body
    }
}

/// A path without its last segment and the slash before it.
pub open spec fn without_last_segment(path: Seq<char>, body: nat) -> Seq<char> {
    let start = last_segment_start(path, body);
    path.take(if start > body {
        start - 1
    } else {
        body as int
    })
}

/// A path without the slashes and dots at its end that are no components.
pub open spec fn trimmed_path(path: Seq<char>, body: nat) -> Seq<char>
    decreases path.len(),
{
    let start = last_segment_start(path, body);
    let last = path.skip(start as int);
    if path.len() > body && start <= path.len() && (last.len() == 0 || last == "."@) {
        proof {
            lemma_without_last_segment(path, body);
        }
        trimmed_path(without_last_segment(path, body), body)
    } else {
        path
    }
}

pub proof fn lemma_without_last_segment(path: Seq<char>, body: nat)
    requires
        path.len() > body,
    ensures
        body <= last_segment_start(path, body) <= path.len(),
        body <= without_last_segment(path, body).len() < path.len(),
{
    if exists|i: int| body <= i && is_last_place(path, '/', i) {
        let i = choose|i: int| body <= i && is_last_place(path, '/', i);
        assert(0 <= i < path.len());
    }
}

/// The directory that a Unix path is in: the path without its last component, where it has
/// one.
pub open spec fn parent_of(path: Seq<char>) -> Option<Seq<char>> {
    let body = body_start(path);
    let whole = trimmed_path(path, body);
    if whole.len() > body {
        Some(trimmed_path(without_last_segment(whole, body), body))
    } else if begins_with_dot(path) {
        Some(Seq::empty())
    } else {
        None
    }
}

/// Where the last segment of the first `len` characters starts.
fn find_last_segment(chars: &Vec<char>, len: usize, body: usize) -> (start: usize)
    requires
        body < len <= chars@.len(),
    ensures
        start == last_segment_start(chars@.take(len as int), body as nat),
        body <= start <= len,
{
    let ghost path = chars@.take(len as int);
    let mut i: usize = len;
    while i > body
        invariant
            body <= i <= len <= chars@.len(),
            path == chars@.take(len as int),
            forall|j: int| i <= j < len ==> #[trigger] path[j] != '/',
        decreases i,
    {
        i -= 1;
        if chars[i] == '/' {
            proof {
                assert(path[i as int] == '/');
                assert(is_last_place(path, '/', i as int));
                let k = choose|k: int| body <= k && is_last_place(path, '/', k);
                assert(k == i);
            }
            return i + 1;
        }
        assert(path[i as int] != '/');
    }
    assert forall|k: int| body <= k implies !is_last_place(path, '/', k) by {
        if k < len {
            assert(path[k] != '/');
        }
    }
    body
}

/// How many of the first `len` characters are left without slashes and dots at the end.
fn trim_path(chars: &Vec<char>, len: usize, body: usize) -> (rest: usize)
    requires
        body <= len <= chars@.len(),
    ensures
        body <= rest <= len,
        chars@.take(rest as int) == trimmed_path(chars@.take(len as int), body as nat),
{
    let mut rest: usize = len;
    proof {
        reveal_strlit(".");
        assert("."@ =~= seq!['.']);
    }
    while rest > body
        invariant
            body <= rest <= len <= chars@.len(),
            "."@ == seq!['.'],
            trimmed_path(chars@.take(len as int), body as nat) == trimmed_path(
                chars@.take(rest as int),
                body as nat,
            ),
        decreases rest,
    {
        let start = find_last_segment(chars, rest, body);
        let ghost path = chars@.take(rest as int);
        let ghost last = path.skip(start as int);
        let empty = start == rest;
        let dot = start < rest && rest - start == 1 && chars[start] == '.';
        proof {
            if dot {
                assert(last[0] == chars@[start as int]);
                assert(last =~= "."@);
            }
            if last == "."@ {
                assert(last.len() == 1);
                assert(last[0] == chars@[start as int]);
            }
            lemma_without_last_segment(path, body as nat);
        }
        if !(empty || dot) {
            return rest;
        }
        let next = if start > body {
            start - 1
        } else {
            body
        };
        assert(without_last_segment(path, body as nat) =~= chars@.take(next as int));
        rest = next;
    }
    rest
}

pub fn parent_path(path: &str) -> (parent: Option<String>)
    ensures
        crate::text::text_view(parent) == parent_of(path@),
{
    let chars = chars_of(path);
    let dotted = chars.len() > 0 && chars[0] == '.' && (chars.len() == 1 || chars[1] == '/');
    let body: usize = if (chars.len() > 0 && chars[0] == '/') || dotted {
        1
    } else {
        0
    };
    assert(chars@.take(chars@.len() as int) =~= path@);
    let whole = trim_path(&chars, chars.len(), body);
    if whole > body {
        let ghost q = chars@.take(whole as int);
        let start = find_last_segment(&chars, whole, body);
        let cut = if start > body {
            start - 1
        } else {
            body
        };
        proof {
            lemma_without_last_segment(q, body as nat);
            assert(without_last_segment(q, body as nat) =~= chars@.take(cut as int));
        }
        let len = trim_path(&chars, cut, body);
        assert(path@.subrange(0, len as int) =~= chars@.take(len as int));
        Some(path.substring_char(0, len).to_owned())
    } else if dotted {
        let none = String::new();
        assert(none@ =~= Seq::empty());
        Some(none)
    } else {
        None
    }
}

} // verus!
