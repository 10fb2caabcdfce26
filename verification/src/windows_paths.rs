use vstd::prelude::*;

use crate::text::starts_with;
use crate::words::chars_of;

verus! {

/// Whether a path is a drive and nothing else.
pub open spec fn is_drive(path: Seq<char>) -> bool {
    &&& path.len() == 2
    &&& 'a' <= path[0] <= 'z' || 'A' <= path[0] <= 'Z'
    &&& path[1] == ':'
}

/// Whether Windows takes a path by the letter: only backslashes separate its parts.
pub open spec fn is_verbatim(path: Seq<char>) -> bool {
    r"\\?\"@.is_prefix_of(path)
}

/// The first place of a backslash from `at` on, or the end of the path.
pub open spec fn next_backslash(path: Seq<char>, at: nat) -> nat
    decreases path.len() - at,
{
    if at >= path.len() {
        path.len()
    } else if path[at as int] == '\\' {
        at
    } else {
        next_backslash(path, at + 1)
    }
}

/// Where the prefix of a verbatim path ends: behind a server and its share, or behind the one
/// part that stands for a drive or a volume.
pub open spec fn verbatim_prefix(path: Seq<char>) -> nat {
    if r"\\?\UNC\"@.is_prefix_of(path) {
        let server = next_backslash(path, 8);
        let share = next_backslash(path, server + 1);
        if share > server + 1 {
            share
        } else {
            server
        }
    } else {
        next_backslash(path, 4)
    }
}

/// A text with one backslash for several in a row, and with none at its end.
pub open spec fn squeezed(text: Seq<char>) -> Seq<char>
    decreases text.len(),
{
    if text.len() == 0 {
        Seq::empty()
    } else if text.last() == '\\' {
        squeezed(text.drop_last())
    } else if text.len() > 1 && text[text.len() - 2] == '\\' {
        squeezed(text.drop_last()) + r"\"@ + seq![text.last()]
    } else {
        squeezed(text.drop_last()) + seq![text.last()]
    }
}

/// A text with backslashes for its slashes.
pub open spec fn backslashed(text: Seq<char>) -> Seq<char> {
    text.map_values(
        |c: char|
            if c == '/' {
                '\\'
            } else {
                c
            },
    )
}

/// A relative path of plain names below a directory, as Windows writes it: one backslash
/// between the two, unless the directory is empty, ends in a separator, or is a drive, whose
/// current directory is then meant. A verbatim directory is written anew, part by part, and so
/// is what comes below it.
pub open spec fn windows_joined_path(directory: Seq<char>, name: Seq<char>) -> Seq<char> {
    if is_verbatim(directory) {
        let prefix = verbatim_prefix(directory) as int;
        directory.take(prefix) + squeezed(directory.skip(prefix)) + r"\"@ + backslashed(name)
    } else if directory.len() == 0 || directory.last() == '/' || directory.last() == '\\'
        || is_drive(directory) {
        directory + name
    } else {
        directory + r"\"@ + name
    }
}

fn find_backslash(chars: &Vec<char>, at: usize) -> (place: usize)
    ensures
        place == next_backslash(chars@, at as nat),
        place <= chars@.len(),
{
    let mut i: usize = at;
    while i < chars.len() && chars[i] != '\\'
        invariant
            next_backslash(chars@, i as nat) == next_backslash(chars@, at as nat),
        decreases chars@.len() - i,
    {
        i += 1;
    }
    if i < chars.len() {
        i
    } else {
        chars.len()
    }
}

fn find_verbatim_prefix(path: &str, chars: &Vec<char>) -> (end: usize)
    requires
        chars@ == path@,
        is_verbatim(path@),
    ensures
        end == verbatim_prefix(path@),
        end <= chars@.len(),
{
    proof {
        reveal_strlit(r"\\?\");
        reveal_strlit(r"\\?\UNC\");
    }
    if starts_with(path, r"\\?\UNC\") {
        let server = find_backslash(chars, 8);
        if server == chars.len() {
            return server;
        }
        let share = find_backslash(chars, server + 1);
        if share > server + 1 {
            share
        } else {
            server
        }
    } else {
        find_backslash(chars, 4)
    }
}

/// One character of a text.
fn text_at(text: &str, i: usize) -> (one: &str)
    requires
        i < text@.len(),
        text@.len() <= usize::MAX,
    ensures
        one@ == seq![text@[i as int]],
{
    let one = text.substring_char(i, i + 1);
    assert(one@ =~= seq![text@[i as int]]);
    one
}

/// Adds the squeezed rest of a path.
fn append_squeezed(path: &mut String, text: &str, chars: &Vec<char>, from: usize)
    requires
        chars@ == text@,
        from <= chars@.len(),
    ensures
        final(path)@ == old(path)@ + squeezed(text@.skip(from as int)),
{
    let ghost rest = text@.skip(from as int);
    let mut i: usize = from;
    assert(old(path)@ + squeezed(rest.take(0)) =~= old(path)@);
    while i < chars.len()
        invariant
            from <= i <= chars@.len(),
            chars@ == text@,
            rest == text@.skip(from as int),
            path@ == old(path)@ + squeezed(rest.take(i - from)),
        decreases chars@.len() - i,
    {
        let ghost before = path@;
        let ghost part = rest.take(i - from + 1);
        proof {
            assert(part.drop_last() =~= rest.take(i - from));
            assert(part.last() == chars@[i as int]);
            assert(i > from ==> part[part.len() - 2] == chars@[i - 1]);
        }
        if chars[i] != '\\' {
            if i > from && chars[i - 1] == '\\' {
                path.append(r"\");
            }
            path.append(text_at(text, i));
            assert(path@ =~= old(path)@ + squeezed(part));
        }
        i += 1;
    }
    assert(rest.take(i - from) =~= rest);
}

/// Adds a path with backslashes for its slashes.
fn append_backslashed(path: &mut String, name: &str)
    ensures
        final(path)@ == old(path)@ + backslashed(name@),
{
    let chars = chars_of(name);
    let mut i: usize = 0;
    assert(old(path)@ + backslashed(name@).take(0) =~= old(path)@);
    while i < chars.len()
        invariant
            i <= chars@.len(),
            chars@ == name@,
            path@ == old(path)@ + backslashed(name@).take(i as int),
        decreases chars@.len() - i,
    {
        let ghost before = path@;
        if chars[i] == '/' {
            proof {
                reveal_strlit(r"\");
            }
            path.append(r"\");
        } else {
            path.append(text_at(name, i));
        }
        i += 1;
        assert(path@ =~= old(path)@ + backslashed(name@).take(i as int));
    }
    assert(backslashed(name@).take(i as int) =~= backslashed(name@));
}

pub fn join_windows_path(directory: &str, name: &str) -> (path: String)
    ensures
        path@ == windows_joined_path(directory@, name@),
{
    let chars = chars_of(directory);
    if starts_with(directory, r"\\?\") {
        let prefix = find_verbatim_prefix(directory, &chars);
        let mut path = directory.substring_char(0, prefix).to_owned();
        assert(path@ =~= directory@.take(prefix as int));
        append_squeezed(&mut path, directory, &chars, prefix);
        path.append(r"\");
        append_backslashed(&mut path, name);
        return path;
    }
    let n = chars.len();
    let drive = n == 2 && (('a' <= chars[0] && chars[0] <= 'z') || ('A' <= chars[0] && chars[0]
        <= 'Z')) && chars[1] == ':';
    let mut path = directory.to_owned();
    if n > 0 && chars[n - 1] != '/' && chars[n - 1] != '\\' && !drive {
        path.append(r"\");
    }
    path.append(name);
    path
}

/// A name below a directory comes after the directory, unchanged, with at most one backslash
/// between them, which is there just where the directory neither is empty, nor ends in a separator,
/// nor is a drive. Only a verbatim directory is written anew, and then the name comes last, with
/// backslashes for its slashes.
pub proof fn law_joined_name_comes_after_the_directory(directory: Seq<char>, name: Seq<char>)
    ensures
        ({
            let path = windows_joined_path(directory, name);
            let between = path.len() - directory.len() - name.len();
            let bare = directory.len() == 0 || directory.last() == '/' || directory.last() == '\\'
                || (directory.len() == 2 && directory[1] == ':' && ('a' <= directory[0] <= 'z'
                || 'A' <= directory[0] <= 'Z'));
            &&& !is_verbatim(directory) ==> {
                &&& path.take(directory.len() as int) == directory
                &&& path.skip(path.len() - name.len()) == name
                &&& bare ==> between == 0
                &&& !bare ==> between == 1 && path[directory.len() as int] == '\\'
            }
            &&& is_verbatim(directory) ==> {
                let end = path.skip(path.len() - name.len());
                &&& path.len() > name.len()
                &&& path[path.len() - name.len() - 1] == '\\'
                &&& forall|i: int|
                    0 <= i < name.len() ==> #[trigger] end[i] == if name[i] == '/' {
                        '\\'
                    } else {
                        name[i]
                    }
            }
        }),
{
    reveal_strlit(r"\");
    let path = windows_joined_path(directory, name);
    if !is_verbatim(directory) {
        assert(path.take(directory.len() as int) =~= directory);
        assert(path.skip(path.len() - name.len()) =~= name);
    }
}

} // verus!
