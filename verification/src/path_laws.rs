use vstd::prelude::*;

use crate::paths::{
    begins_with_dot, body_start, components, components_of, is_same_path, joined_path,
    last_segment_start, lemma_split_is_shorter, lemma_without_last_segment, parent_of, segments,
    trimmed_path, without_last_segment,
};
use crate::text_laws::law_text_is_split_at_the_last_place;
use crate::words::is_last_place;

verus! {

/// Whether a text can be the name of a file in a directory.
pub open spec fn is_name(text: Seq<char>) -> bool {
    text.len() > 0 && !text.contains('/') && text != seq!['.']
}

/// A name below a directory comes after the directory, unchanged, with one slash between them,
/// unless the directory is empty or has the slash.
pub proof fn law_joined_name_follows_the_directory(directory: Seq<char>, name: Seq<char>)
    ensures
        joined_path(Seq::empty(), name) == name,
        joined_path(directory + seq!['/'], name) == directory + seq!['/'] + name,
        directory.len() > 0 && directory.last() != '/' ==> joined_path(directory, name) == directory
            + seq!['/'] + name,
{
    reveal_strlit("/");
    assert("/"@ =~= seq!['/']);
    assert(Seq::<char>::empty() + name =~= name);
    assert((directory + seq!['/']).last() == '/');
}

proof fn lemma_segments_of_both(a: Seq<char>, b: Seq<char>)
    ensures
        segments(a + seq!['/'] + b) == segments(a) + segments(b),
        segments(a).len() > 0,
        segments(b).len() > 0,
    decreases b.len(),
{
    let whole = a + seq!['/'] + b;
    if exists|i: int| is_last_place(b, '/', i) {
        let i = choose|i: int| is_last_place(b, '/', i);
        let before = b.take(i);
        let after = b.skip(i + 1);
        assert(!after.contains('/')) by {
            if after.contains('/') {
                let j = after.index_of('/');
                assert(after[j] == b[i + 1 + j]);
            }
        }
        let start = a + seq!['/'] + before;
        assert(whole =~= start + seq!['/'] + after) by {
            assert(b =~= before + seq!['/'] + after);
        }
        law_text_is_split_at_the_last_place(start, '/', after);
        lemma_split_is_shorter(whole);
        lemma_split_is_shorter(b);
        lemma_segments_of_both(a, before);
        assert((segments(a) + segments(before)).push(after) =~= segments(a) + segments(
            before,
        ).push(after));
    } else {
        assert(!b.contains('/')) by {
            if b.contains('/') {
                lemma_some_last_place(b, b.index_of('/'));
            }
        }
        law_text_is_split_at_the_last_place(a, '/', b);
        lemma_split_is_shorter(whole);
        assert(segments(a).push(b) =~= segments(a) + seq![b]);
    }
}

proof fn lemma_some_last_place(text: Seq<char>, at: int)
    requires
        0 <= at < text.len(),
        text[at] == '/',
    ensures
        exists|i: int| is_last_place(text, '/', i),
    decreases text.len() - at,
{
    if !is_last_place(text, '/', at) {
        let next = choose|j: int| at < j < text.len() && text[j] == '/';
        lemma_some_last_place(text, next);
    }
}

proof fn lemma_name_is_one_segment(name: Seq<char>)
    requires
        !name.contains('/'),
    ensures
        segments(name) == seq![name],
{
    law_text_is_split_at_the_last_place(Seq::empty(), '/', name);
}

proof fn lemma_first_components(s: Seq<Seq<char>>, t: Seq<Seq<char>>, n: nat)
    requires
        n <= s.len(),
    ensures
        components_of(s + t, n) == components_of(s, n),
    decreases n,
{
    if n > 0 {
        lemma_first_components(s, t, (n - 1) as nat);
        assert((s + t)[n - 1] == s[n - 1]);
    }
}

/// A segment that is no component can be left out.
proof fn lemma_no_component(s: Seq<Seq<char>>, x: Seq<char>, t: Seq<Seq<char>>)
    requires
        s.len() > 0,
        x.len() == 0 || x == "."@,
    ensures
        components_of(s + seq![x] + t, s.len() + 1 + t.len()) == components_of(
            s + t,
            s.len() + t.len(),
        ),
    decreases t.len(),
{
    let whole = s + seq![x] + t;
    let rest = s + t;
    if t.len() == 0 {
        assert(whole =~= s + seq![x]);
        assert(rest =~= s);
        lemma_first_components(s, seq![x], s.len());
        assert(whole[s.len() as int] == x);
    } else {
        let u = t.drop_last();
        let end = seq![t.last()];
        assert(whole =~= (s + seq![x] + u) + end);
        assert(rest =~= (s + u) + end);
        lemma_no_component(s, x, u);
        lemma_first_components(s + seq![x] + u, end, (s.len() + 1 + u.len()) as nat);
        lemma_first_components(s + u, end, (s.len() + u.len()) as nat);
        assert(whole.last() == t.last() && rest.last() == t.last());
    }
}

/// A slash more between two parts of a path, a dot between them, or a slash more at its end make
/// no other path.
pub proof fn law_path_is_the_same_with_slashes_and_dots(a: Seq<char>, b: Seq<char>)
    ensures
        is_same_path(a + seq!['/'] + b, a + seq!['/', '/'] + b),
        is_same_path(a + seq!['/'] + b, a + seq!['/', '.', '/'] + b),
        a.len() > 0 ==> is_same_path(a, a + seq!['/']),
{
    reveal_strlit(".");
    assert("."@ =~= seq!['.']);
    let none = Seq::<char>::empty();
    let dot = seq!['.'];
    lemma_segments_of_both(a, b);
    lemma_segments_of_both(none, b);
    lemma_segments_of_both(a, none + seq!['/'] + b);
    lemma_segments_of_both(dot, b);
    lemma_segments_of_both(a, dot + seq!['/'] + b);
    lemma_segments_of_both(a, none);
    assert(!none.contains('/'));
    assert(!dot.contains('/'));
    lemma_name_is_one_segment(none);
    lemma_name_is_one_segment(dot);
    assert(a + seq!['/'] + (none + seq!['/'] + b) =~= a + seq!['/', '/'] + b);
    assert(a + seq!['/'] + (dot + seq!['/'] + b) =~= a + seq!['/', '.', '/'] + b);
    assert(a + seq!['/'] + none =~= a + seq!['/']);
    let s = segments(a);
    let t = segments(b);
    assert(s + (seq![none] + t) =~= s + seq![none] + t);
    assert(s + (seq![dot] + t) =~= s + seq![dot] + t);
    lemma_no_component(s, none, t);
    lemma_no_component(s, dot, t);
    lemma_no_component(s, none, Seq::empty());
    assert(s + seq![none] + Seq::<Seq<char>>::empty() =~= s + seq![none]);
    assert(s + Seq::<Seq<char>>::empty() =~= s);
}

proof fn lemma_components_below(a: Seq<char>, name: Seq<char>)
    requires
        is_name(name),
    ensures
        components(a + seq!['/'] + name) == components(a).push(name),
{
    reveal_strlit(".");
    assert("."@ =~= seq!['.']);
    lemma_segments_of_both(a, name);
    lemma_name_is_one_segment(name);
    lemma_first_components(segments(a), seq![name], segments(a).len());
}

/// Names in directories write the same path just where the names are the same and the directories
/// are. A path from the root is never one that is not.
pub proof fn law_same_path_has_the_same_name_and_directory(
    a: Seq<char>,
    x: Seq<char>,
    b: Seq<char>,
    y: Seq<char>,
)
    requires
        is_name(x),
        is_name(y),
    ensures
        a.len() > 0 && b.len() > 0 ==> (is_same_path(
            a + seq!['/'] + x,
            b + seq!['/'] + y,
        ) <==> x == y && is_same_path(a, b)),
        is_same_path(seq!['/'] + x, seq!['/'] + y) <==> x == y,
        is_same_path(x, y) <==> x == y,
        a.len() > 0 && a[0] != '/' ==> !is_same_path(a, seq!['/'] + b),
{
    let none = Seq::<char>::empty();
    lemma_components_below(a, x);
    lemma_components_below(b, y);
    lemma_components_below(none, x);
    lemma_components_below(none, y);
    assert(none + seq!['/'] + x =~= seq!['/'] + x);
    assert(none + seq!['/'] + y =~= seq!['/'] + y);
    assert(components(a).push(x).drop_last() =~= components(a));
    assert(components(b).push(y).drop_last() =~= components(b));
    assert(components(a).push(x).last() == x);
    assert(components(b).push(y).last() == y);
    assert(components(none).push(x).last() == x);
    assert(components(none).push(y).last() == y);
    lemma_lone_component(x);
    lemma_lone_component(y);
    assert(seq![x][0] == x);
    assert(seq![y][0] == y);
    assert(x[0] != '/') by {
        assert(x.contains(x[0]));
    }
    assert(y[0] != '/') by {
        assert(y.contains(y[0]));
    }
}

proof fn lemma_lone_component(name: Seq<char>)
    requires
        is_name(name),
    ensures
        components(name) == seq![name],
{
    lemma_name_is_one_segment(name);
    assert(components_of(seq![name], 0) =~= Seq::empty());
    assert(components_of(seq![name], 1) == components_of(seq![name], 0).push(name));
    assert(components(name) =~= seq![name]);
}

/// What is in a directory has the directory for its parent: one that is written without a slash or
/// a dot at its end, the root, or that of a bare name. A slash more at the end changes nothing, and
/// the root and the empty path have no parent.
pub proof fn law_parent_is_the_directory(directory: Seq<char>, name: Seq<char>, path: Seq<char>)
    requires
        is_name(name),
    ensures
        directory.len() > 0 && directory.last() != '/' && !(directory.len() > 1 && directory.last()
            == '.' && directory[directory.len() - 2] == '/') ==> parent_of(
            directory + seq!['/'] + name,
        ) == Some(directory),
        parent_of(seq!['/'] + name) == Some(seq!['/']),
        parent_of(name) == Some(Seq::<char>::empty()),
        path.len() > 0 ==> parent_of(path + seq!['/']) == parent_of(path),
        parent_of(seq!['/']) is None,
        parent_of(Seq::empty()) is None,
{
    reveal_strlit(".");
    assert("."@ =~= seq!['.']);
    if directory.len() > 0 && directory.last() != '/' && !(directory.len() > 1 && directory.last()
        == '.' && directory[directory.len() - 2] == '/') {
        let whole = directory + seq!['/'] + name;
        let body = body_start(whole);
        assert(whole[0] == directory[0]);
        assert(whole[1] == if directory.len() > 1 {
            directory[1]
        } else {
            '/'
        });
        assert(body == body_start(directory));
        lemma_last_segment(directory, name, body);
        lemma_untrimmed(directory, body);
    }
    lemma_name_start(name);
    let rooted = seq!['/'] + name;
    assert(rooted[0] == '/');
    assert(rooted.skip(1) =~= name);
    lemma_last_segment_of_body(rooted, 1);
    assert(rooted.take(1) =~= seq!['/']);
    assert(name.skip(0) =~= name);
    lemma_last_segment_of_body(name, 0);
    assert(name.take(0) =~= Seq::empty());
    if path.len() > 0 {
        let longer = path + seq!['/'];
        assert(longer[0] == path[0]);
        assert(path.len() > 1 ==> longer[1] == path[1]);
        assert(body_start(longer) == body_start(path));
        lemma_slash_is_last(path, Seq::empty(), body_start(path));
        assert(path + seq!['/'] + Seq::<char>::empty() =~= longer);
        assert(longer.take(path.len() as int) =~= path);
        assert(trimmed_path(longer, body_start(path)) == trimmed_path(path, body_start(path)));
    }
}

proof fn lemma_name_start(name: Seq<char>)
    requires
        is_name(name),
    ensures
        name[0] != '/',
        !begins_with_dot(name),
{
    assert(name.contains(name[0]));
    if begins_with_dot(name) {
        if name.len() == 1 {
            assert(name =~= seq!['.']);
        } else {
            assert(name.contains(name[1]));
        }
    }
}

/// The last segment after the last slash.
proof fn lemma_slash_is_last(before: Seq<char>, after: Seq<char>, body: nat)
    requires
        !after.contains('/'),
        body <= before.len(),
    ensures
        last_segment_start(before + seq!['/'] + after, body) == before.len() + 1,
{
    let path = before + seq!['/'] + after;
    let at = before.len() as int;
    assert forall|j: int| at < j < path.len() implies #[trigger] path[j] != '/' by {
        assert(path[j] == after[j - at - 1]);
        assert(after.contains(after[j - at - 1]));
    }
    assert(path[at] == '/');
    assert(is_last_place(path, '/', at));
    let i = choose|i: int| body <= i && is_last_place(path, '/', i);
    assert(i == at);
}

proof fn lemma_last_segment(directory: Seq<char>, name: Seq<char>, body: nat)
    requires
        is_name(name),
        body <= directory.len(),
    ensures
        ({
            let path = directory + seq!['/'] + name;
            &&& trimmed_path(path, body) == path
            &&& without_last_segment(path, body) == directory
        }),
{
    reveal_strlit(".");
    assert("."@ =~= seq!['.']);
    let path = directory + seq!['/'] + name;
    lemma_slash_is_last(directory, name, body);
    assert(path.skip(directory.len() as int + 1) =~= name);
    assert(path.take(directory.len() as int) =~= directory);
}

/// A body without a slash is its own last segment.
proof fn lemma_last_segment_of_body(path: Seq<char>, body: nat)
    requires
        body <= path.len(),
        is_name(path.skip(body as int)),
    ensures
        last_segment_start(path, body) == body,
        trimmed_path(path, body) == path,
{
    reveal_strlit(".");
    assert("."@ =~= seq!['.']);
    let name = path.skip(body as int);
    assert forall|i: int| body <= i implies !is_last_place(path, '/', i) by {
        if i < path.len() {
            assert(path[i] == name[i - body]);
            assert(name.contains(name[i - body]));
        }
    }
}

/// A path that does not end in a slash or a dot is not trimmed.
proof fn lemma_untrimmed(path: Seq<char>, body: nat)
    requires
        path.len() > 0,
        path.last() != '/',
        !(path.len() > 1 && path.last() == '.' && path[path.len() - 2] == '/'),
        body == body_start(path),
    ensures
        trimmed_path(path, body) == path,
{
    reveal_strlit(".");
    assert("."@ =~= seq!['.']);
    if path.len() > body {
        lemma_without_last_segment(path, body);
        let start = last_segment_start(path, body) as int;
        let last = path.skip(start);
        if exists|i: int| body <= i && is_last_place(path, '/', i) {
            let i = choose|i: int| body <= i && is_last_place(path, '/', i);
            assert(start == i + 1 && path[i] == '/');
            if last.len() == 1 {
                assert(last[0] == path.last());
            }
        } else if last == "."@ {
            assert(last[0] == path[start]);
            assert(last.len() == 1);
        }
    }
}

} // verus!
