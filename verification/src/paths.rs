//! The components of paths, as the operating system reads them.

use crate::text::{same_text, split};
use vstd::prelude::*;
use vstd::string::StringExecFns;

verus! {

use crate::text::{split_text, texts};

/// A part of a path names something: it is not empty, and a lone dot does only at the start.
pub open spec fn is_component(part: Seq<char>, index: int) -> bool {
    part.len() > 0 && (part != "."@ || index == 0)
}

/// The components among the first parts of a path.
pub open spec fn components_of(parts: Seq<Seq<char>>) -> Seq<Seq<char>>
    decreases parts.len(),
{
    if parts.len() == 0 {
        Seq::empty()
    } else {
        let rest = components_of(parts.drop_last());
        if is_component(parts.last(), parts.len() - 1) {
            rest.push(parts.last())
        } else {
            rest
        }
    }
}

/// A character that separates the components of a path on Windows.
pub open spec fn is_separator(c: char) -> bool {
    c == '/' || c == '\\'
}

/// A path with a slash for each backslash.
pub open spec fn slashed(path: Seq<char>) -> Seq<char> {
    Seq::new(
        path.len(),
        |i: int|
            if path[i] == '\\' {
                '/'
            } else {
                path[i]
            },
    )
}

/// A path begins with the letter of a drive.
pub open spec fn has_drive(path: Seq<char>) -> bool {
    path.len() >= 2 && ('a' <= path[0] <= 'z' || 'A' <= path[0] <= 'Z') && path[1] == ':'
}

/// Tells whether a path begins with the letter of a drive.
pub fn starts_with_drive(path: &str) -> (drive: bool)
    ensures
        drive == has_drive(path@),
{
    if path.unicode_len() < 2 {
        return false;
    }
    let letter = path.get_char(0);
    (('a' <= letter && letter <= 'z') || ('A' <= letter && letter <= 'Z')) && path.get_char(1)
        == ':'
}

/// Where a part of a text that begins at some place ends: before the next separator, or at the end
/// of the text.
pub open spec fn part_end(separator: char, text: Seq<char>, from: int) -> int
    decreases text.len() - from,
{
    if from >= text.len() || text[from] == separator {
        from
    } else {
        part_end(separator, text, from + 1)
    }
}

/// Where the name of a server and that of a share end, which follow each other from some place;
/// where the share has no name, where the server ends.
pub open spec fn share_end(separator: char, text: Seq<char>, from: int) -> int {
    let server = part_end(separator, text, from);
    if server < text.len() && part_end(separator, text, server + 1) > server + 1 {
        part_end(separator, text, server + 1)
    } else {
        server
    }
}

/// A path on Windows is verbatim: it begins with `\\?\`, and a slash separates no names in it.
pub open spec fn is_verbatim(path: Seq<char>) -> bool {
    path.len() >= 4 && path[0] == '\\' && path[1] == '\\' && path[2] == '?' && path[3] == '\\'
}

/// Where the prefix of a verbatim path ends: after a server and a share, after a drive, or after a
/// name.
pub open spec fn verbatim_end(path: Seq<char>) -> int {
    if path.len() >= 8 && path[4] == 'U' && path[5] == 'N' && path[6] == 'C' && is_separator(
        path[7],
    ) {
        share_end('\\', path, 8)
    } else if has_drive(path.skip(4)) && (path.len() == 6 || is_separator(path[6])) {
        6
    } else {
        part_end('\\', path, 4)
    }
}

/// A path on Windows begins with two separators.
pub open spec fn is_remote(path: Seq<char>) -> bool {
    path.len() >= 2 && is_separator(path[0]) && is_separator(path[1])
}

/// Where the prefix of a path on Windows ends, which is at the start if it has none: a verbatim
/// prefix, a device as in `\\.\COM42`, a share as in `\\server\share`, or a drive as in `C:`.
pub open spec fn prefix_end(path: Seq<char>) -> int {
    if is_verbatim(path) {
        verbatim_end(path)
    } else if is_remote(path) {
        let text = slashed(path);
        let server = part_end('/', text, 2);
        if path.len() >= 4 && path[2] == '.' && is_separator(path[3]) {
            part_end('/', text, 4)
        } else if server > 2 && share_end('/', text, 2) > server {
            share_end('/', text, 2)
        } else {
            0
        }
    } else if has_drive(path) {
        2
    } else {
        0
    }
}

/// What follows the prefix of a path on Windows begins at a root.
pub open spec fn is_rooted(path: Seq<char>) -> bool {
    prefix_end(path) < path.len() && is_separator(path[prefix_end(path)])
}

/// The parts that are not empty.
pub open spec fn named_parts(parts: Seq<Seq<char>>) -> Seq<Seq<char>>
    decreases parts.len(),
{
    if parts.len() == 0 {
        Seq::empty()
    } else if parts.last().len() == 0 {
        named_parts(parts.drop_last())
    } else {
        named_parts(parts.drop_last()).push(parts.last())
    }
}

/// What follows the prefix, and the root, of a verbatim path: a lone dot is a name there too.
pub open spec fn verbatim_names(path: Seq<char>) -> Seq<Seq<char>> {
    let end = prefix_end(path);
    named_parts(
        split_text(
            '\\',
            path.skip(
                if is_rooted(path) {
                    end + 1
                } else {
                    end
                },
            ),
        ),
    )
}

/// What follows the prefix, and the root, of a path on Windows that is not verbatim. A lone dot
/// counts only at the start of a path without a prefix.
pub open spec fn plain_names(path: Seq<char>) -> Seq<Seq<char>> {
    let rest = slashed(path.skip(prefix_end(path)));
    components_of(
        split_text(
            '/',
            if prefix_end(path) > 0 {
                "/"@ + rest
            } else {
                rest
            },
        ),
    )
}

/// The components of a path on Windows: its prefix as it is written, its root as a backslash, and
/// its names. A prefix of a server or a device implies a root, unless it is verbatim.
pub open spec fn windows_parts(path: Seq<char>) -> Seq<Seq<char>> {
    let end = prefix_end(path);
    let prefix = if end > 0 {
        seq![path.take(end)]
    } else {
        Seq::empty()
    };
    let root = if is_rooted(path) || end > 0 && is_remote(path) && !is_verbatim(path) {
        seq!["\\"@]
    } else {
        Seq::empty()
    };
    prefix + root + (if is_verbatim(path) {
        verbatim_names(path)
    } else {
        plain_names(path)
    })
}

/// The components of a path. A root that reads as a slash is not one of them; on Windows the root
/// reads as a backslash.
pub open spec fn path_parts(path: Seq<char>, windows: bool) -> Seq<Seq<char>> {
    if windows {
        windows_parts(path)
    } else {
        components_of(split_text('/', path))
    }
}

proof fn lemma_part_end(separator: char, text: Seq<char>, from: int)
    requires
        0 <= from <= text.len(),
    ensures
        from <= part_end(separator, text, from) <= text.len(),
    decreases text.len() - from,
{
    if from < text.len() && text[from] != separator {
        lemma_part_end(separator, text, from + 1);
    }
}

fn end_of_part(separator: char, text: &str, from: usize) -> (end: usize)
    requires
        from <= text@.len(),
    ensures
        end == part_end(separator, text@, from as int),
        from <= end <= text@.len(),
{
    let len: usize = text.unicode_len();
    let mut end: usize = from;
    while end < len && text.get_char(end) != separator
        invariant
            from <= end <= len,
            len == text@.len(),
            part_end(separator, text@, from as int) == part_end(separator, text@, end as int),
        decreases len - end,
    {
        end = end + 1;
    }
    end
}

fn end_of_share(separator: char, text: &str, from: usize) -> (end: usize)
    requires
        from <= text@.len(),
    ensures
        end == share_end(separator, text@, from as int),
        from <= end <= text@.len(),
{
    let server: usize = end_of_part(separator, text, from);
    if server < text.unicode_len() {
        let share: usize = end_of_part(separator, text, server + 1);
        if share > server + 1 {
            return share;
        }
    }
    server
}

fn separates(c: char) -> (separator: bool)
    ensures
        separator == is_separator(c),
{
    c == '/' || c == '\\'
}

/// Tells whether a path on Windows is verbatim.
pub fn starts_verbatim(path: &str) -> (verbatim: bool)
    ensures
        verbatim == is_verbatim(path@),
{
    path.unicode_len() >= 4 && path.get_char(0) == '\\' && path.get_char(1) == '\\'
        && path.get_char(2) == '?' && path.get_char(3) == '\\'
}

fn end_of_verbatim(path: &str) -> (end: usize)
    requires
        is_verbatim(path@),
    ensures
        end == verbatim_end(path@),
        4 <= end <= path@.len(),
{
    let len: usize = path.unicode_len();
    if len >= 8 && path.get_char(4) == 'U' && path.get_char(5) == 'N' && path.get_char(6) == 'C'
        && separates(path.get_char(7)) {
        return end_of_share('\\', path, 8);
    }
    let name = path.substring_char(4, len);
    assert(name@ =~= path@.skip(4));
    if starts_with_drive(name) && (len == 6 || separates(path.get_char(6))) {
        return 6;
    }
    end_of_part('\\', path, 4)
}

/// Finds where the prefix of a path on Windows ends.
pub fn end_of_prefix(path: &str) -> (end: usize)
    ensures
        end == prefix_end(path@),
        end <= path@.len(),
{
    if starts_verbatim(path) {
        return end_of_verbatim(path);
    }
    let len: usize = path.unicode_len();
    if len >= 2 && separates(path.get_char(0)) && separates(path.get_char(1)) {
        let text = with_slashes(path);
        if len >= 4 && path.get_char(2) == '.' && separates(path.get_char(3)) {
            return end_of_part('/', text.as_str(), 4);
        }
        let server: usize = end_of_part('/', text.as_str(), 2);
        let share: usize = end_of_share('/', text.as_str(), 2);
        return if server > 2 && share > server {
            share
        } else {
            0
        };
    }
    if starts_with_drive(path) {
        2
    } else {
        0
    }
}

fn starts_at_root(path: &str) -> (rooted: bool)
    ensures
        rooted == is_rooted(path@),
{
    let end: usize = end_of_prefix(path);
    end < path.unicode_len() && separates(path.get_char(end))
}

/// Lists the names of a verbatim path.
pub fn names_of_verbatim(path: &str) -> (names: Vec<String>)
    ensures
        texts(names@) == verbatim_names(path@),
{
    let len: usize = path.unicode_len();
    let end: usize = end_of_prefix(path);
    let start: usize = if starts_at_root(path) {
        end + 1
    } else {
        end
    };
    let rest = path.substring_char(start, len);
    assert(rest@ =~= path@.skip(start as int));
    let parts = split('\\', rest);
    let ghost all = split_text('\\', rest@);
    let mut names: Vec<String> = Vec::new();
    let mut index: usize = 0;
    proof {
        assert(all.take(0) =~= Seq::<Seq<char>>::empty());
        assert(texts(names@) =~= named_parts(all.take(0)));
    }
    while index < parts.len()
        invariant
            index <= parts.len(),
            texts(parts@) == all,
            texts(names@) == named_parts(all.take(index as int)),
        decreases parts.len() - index,
    {
        proof {
            let next = all.take(index + 1);
            assert(next.drop_last() =~= all.take(index as int));
            assert(texts(parts@)[index as int] == parts@[index as int]@);
            assert(next.last() == parts@[index as int]@);
        }
        if parts[index].as_str().unicode_len() > 0 {
            let part = parts[index].clone();
            let ghost former = names@;
            names.push(part);
            assert(texts(names@) =~= texts(former).push(part@));
        }
        index = index + 1;
    }
    assert(all.take(index as int) =~= all);
    names
}

fn names_of_plain(path: &str) -> (names: Vec<String>)
    ensures
        texts(names@) == plain_names(path@),
{
    let end: usize = end_of_prefix(path);
    let rest = path.substring_char(end, path.unicode_len());
    assert(rest@ =~= path@.skip(end as int));
    let slashes = with_slashes(rest);
    if end > 0 {
        let mut text = String::from_str("/");
        text.append(slashes.as_str());
        slash_components(text.as_str())
    } else {
        slash_components(slashes.as_str())
    }
}

fn components_on_windows(path: &str) -> (components: Vec<String>)
    ensures
        texts(components@) == windows_parts(path@),
{
    let end: usize = end_of_prefix(path);
    let verbatim = starts_verbatim(path);
    let remote = path.unicode_len() >= 2 && separates(path.get_char(0)) && separates(
        path.get_char(1),
    );
    let mut components: Vec<String> = Vec::new();
    if end > 0 {
        let prefix = path.substring_char(0, end);
        assert(prefix@ =~= path@.take(end as int));
        components.push(String::from_str(prefix));
        assert(texts(components@) =~= seq![path@.take(end as int)]);
    } else {
        assert(texts(components@) =~= Seq::<Seq<char>>::empty());
    }
    let ghost prefix = texts(components@);
    if starts_at_root(path) || end > 0 && remote && !verbatim {
        components.push(String::from_str("\\"));
        assert(texts(components@) =~= prefix + seq!["\\"@]);
    } else {
        assert(texts(components@) =~= prefix + Seq::<Seq<char>>::empty());
    }
    let ghost former = components@;
    let mut names = if verbatim {
        names_of_verbatim(path)
    } else {
        names_of_plain(path)
    };
    let ghost last = names@;
    components.append(&mut names);
    assert(texts(components@) =~= texts(former) + texts(last));
    components
}

/// Lists the components of a path.
pub fn path_components(path: &str, windows: bool) -> (components: Vec<String>)
    ensures
        texts(components@) == path_parts(path@, windows),
{
    if windows {
        components_on_windows(path)
    } else {
        slash_components(path)
    }
}

fn with_slashes(path: &str) -> (result: String)
    ensures
        result@ == slashed(path@),
{
    let len: usize = path.unicode_len();
    let mut result = String::new();
    let mut index: usize = 0;
    while index < len
        invariant
            len == path@.len(),
            index <= len,
            result@ == slashed(path@).take(index as int),
        decreases len - index,
    {
        let ghost before = result@;
        proof {
            reveal_strlit("/");
        }
        if path.get_char(index) == '\\' {
            result.append("/");
        } else {
            result.append(path.substring_char(index, index + 1));
        }
        assert(result@ =~= slashed(path@).take(index + 1));
        index = index + 1;
    }
    assert(slashed(path@).take(index as int) =~= slashed(path@));
    result
}

fn slash_components(path: &str) -> (components: Vec<String>)
    ensures
        texts(components@) == components_of(split_text('/', path@)),
{
    let parts = split('/', path);
    let dot = ".";
    let mut components: Vec<String> = Vec::new();
    let mut index: usize = 0;
    let ghost all = split_text('/', path@);
    proof {
        assert(all.take(0) =~= Seq::<Seq<char>>::empty());
        assert(texts(components@) =~= components_of(all.take(0)));
    }
    while index < parts.len()
        invariant
            index <= parts.len(),
            dot@ == "."@,
            texts(parts@) == all,
            texts(components@) == components_of(all.take(index as int)),
        decreases parts.len() - index,
    {
        let ghost next = all.take(index + 1);
        proof {
            assert(next.drop_last() =~= all.take(index as int));
            assert(texts(parts@)[index as int] == parts@[index as int]@);
            assert(next.last() == parts@[index as int]@);
        }
        let is_dot = same_text(parts[index].as_str(), dot);
        if parts[index].as_str().unicode_len() > 0 && (!is_dot || index == 0) {
            let part = parts[index].clone();
            let ghost former = components@;
            components.push(part);
            assert(texts(components@) =~= texts(former).push(part@));
        }
        index = index + 1;
    }
    assert(all.take(index as int) =~= all);
    components
}

/// No component of a path is empty.
pub proof fn lemma_parts_nonempty(path: Seq<char>, windows: bool)
    ensures
        ({
            let parts = path_parts(path, windows);
            forall|i: int| 0 <= i < parts.len() ==> (#[trigger] parts[i]).len() > 0
        }),
{
    reveal_strlit("\\");
    lemma_components_nonempty(split_text('/', path));
    if windows {
        let rest = slashed(path.skip(prefix_end(path)));
        lemma_components_nonempty(split_text('/', rest));
        lemma_components_nonempty(split_text('/', "/"@ + rest));
        lemma_named_nonempty(split_text('\\', path.skip(prefix_end(path))));
        lemma_named_nonempty(split_text('\\', path.skip(prefix_end(path) + 1)));
        lemma_prefix_end(path);
        let names = if is_verbatim(path) {
            verbatim_names(path)
        } else {
            plain_names(path)
        };
        let parts = path_parts(path, windows);
        assert forall|i: int| 0 <= i < parts.len() implies (#[trigger] parts[i]).len() > 0 by {
            if i >= parts.len() - names.len() {
                assert(parts[i] == names[i - (parts.len() - names.len())]);
            }
        }
    }
}

proof fn lemma_prefix_end(path: Seq<char>)
    ensures
        0 <= prefix_end(path) <= path.len(),
{
    let text = slashed(path);
    if path.len() >= 8 {
        lemma_part_end('\\', path, 8);
        let server = part_end('\\', path, 8);
        if server < path.len() {
            lemma_part_end('\\', path, server + 1);
        }
    }
    if path.len() >= 4 {
        lemma_part_end('\\', path, 4);
        lemma_part_end('/', text, 4);
    }
    if path.len() >= 2 {
        lemma_part_end('/', text, 2);
        let server = part_end('/', text, 2);
        if server < path.len() {
            lemma_part_end('/', text, server + 1);
        }
    }
}

proof fn lemma_named_nonempty(parts: Seq<Seq<char>>)
    ensures
        forall|i: int|
            0 <= i < named_parts(parts).len() ==> (#[trigger] named_parts(parts)[i]).len() > 0,
    decreases parts.len(),
{
    if parts.len() > 0 {
        let rest = named_parts(parts.drop_last());
        let all = named_parts(parts);
        lemma_named_nonempty(parts.drop_last());
        assert forall|i: int| 0 <= i < all.len() implies (#[trigger] all[i]).len() > 0 by {
            if i < rest.len() {
                assert(all[i] == rest[i]);
            }
        }
    }
}

proof fn lemma_components_nonempty(parts: Seq<Seq<char>>)
    ensures
        forall|i: int|
            0 <= i < components_of(parts).len() ==> (#[trigger] components_of(parts)[i]).len() > 0,
    decreases parts.len(),
{
    if parts.len() > 0 {
        let rest = components_of(parts.drop_last());
        let all = components_of(parts);
        lemma_components_nonempty(parts.drop_last());
        assert forall|i: int| 0 <= i < all.len() implies (#[trigger] all[i]).len() > 0 by {
            if i < rest.len() {
                assert(all[i] == rest[i]);
            }
        }
    }
}

} // verus!
