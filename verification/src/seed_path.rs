//! Where the seed of an autotune cache is kept, and how its file is cut into entries.

use crate::paths::path_components;
use crate::text::same_text;
use vstd::prelude::*;
use vstd::string::StringExecFns;

verus! {

use crate::joining::{
    are_apart, are_parts_of, flat, lemma_flat_parts, lemma_parts_are_unique,
    lemma_parts_of_push, lemma_whole_is_one_part, without,
};
use crate::paths::{components_of, lemma_parts_nonempty, path_parts};
use crate::text::{lemma_split_nonempty, split_text, texts};

/// What a text becomes as the name of a file: what no file can be named with is replaced, by the
/// rules of Windows too if `windows`, and a long name is cut short if `truncate`.
pub uninterp spec fn sanitized(
    name: Seq<char>,
    windows: bool,
    truncate: bool,
    replacement: Seq<char>,
) -> Seq<char>;

/// Calls `sanitize_filename::sanitize_with_options` with the given options.
///
/// Where the replacement is an underscore, the name that comes back holds no slash. It is then
/// empty only if the given one is, and it is never a dot or two dots.
#[verifier::external_body]
fn sanitize(name: &str, windows: bool, truncate: bool, replacement: &str) -> (result: String)
    ensures
        result@ == sanitized(name@, windows, truncate, replacement@),
        replacement@ == "_"@ ==> {
            &&& !result@.contains('/')
            &&& name@.len() > 0 ==> result@.len() > 0
            &&& result@ != "."@
            &&& result@ != ".."@
        },
{
    sanitize_filename::sanitize_with_options(
        name,
        sanitize_filename::Options { windows, truncate, replacement },
    )
}

/// Where the last dot of a name is, or -1.
pub open spec fn last_dot(name: Seq<char>) -> int
    decreases name.len(),
{
    if name.len() == 0 {
        -1
    } else if name.last() == '.' {
        name.len() - 1
    } else {
        last_dot(name.drop_last())
    }
}

/// A file name with the part from its last dot on replaced; a dot at the start does not count, and
/// two dots name no file.
pub open spec fn with_extension(name: Seq<char>, extension: Seq<char>) -> Seq<char> {
    if name == ".."@ {
        name
    } else if last_dot(name) <= 0 {
        name + "."@ + extension
    } else {
        name.take(last_dot(name)) + "."@ + extension
    }
}

/// Replaces the extension of a file name.
pub fn set_extension(name: &str, extension: &str) -> (result: String)
    ensures
        result@ == with_extension(name@, extension@),
{
    if same_text(name, "..") {
        return String::from_str(name);
    }
    let len: usize = name.unicode_len();
    let mut end: usize = len;
    assert(name@.take(len as int) =~= name@);
    while end > 0 && name.get_char(end - 1) != '.'
        invariant
            end <= len,
            len == name@.len(),
            last_dot(name@) == last_dot(name@.take(end as int)),
        decreases end,
    {
        assert(name@.take(end as int).drop_last() =~= name@.take(end - 1));
        end = end - 1;
    }
    proof {
        if end > 0 {
            assert(name@.take(end as int).last() == '.');
        }
    }
    let stem = if end <= 1 {
        name
    } else {
        name.substring_char(0, end - 1)
    };
    proof {
        if end > 1 {
            assert(name@.subrange(0, end - 1) =~= name@.take(end - 1));
        }
    }
    let mut result = String::from_str(stem);
    result.append(".");
    result.append(extension);
    result
}

/// The components of the identity of a tuner on a device.
pub open spec fn identity_components(
    name: Seq<char>,
    device_id: Seq<char>,
    windows: bool,
) -> Seq<Seq<char>> {
    path_parts(device_id + "/"@ + name, windows)
}

/// The directories below the root of a seed cache, before the extension is set.
pub open spec fn bare_seed_path(
    version: Seq<char>,
    name: Seq<char>,
    device_id: Seq<char>,
    windows: bool,
) -> Seq<Seq<char>> {
    let components = identity_components(name, device_id, windows);
    seq!["autotune"@, version] + Seq::new(
        components.len(),
        |i: int| sanitized(components[i], windows, true, "_"@),
    )
}

/// Names the file of a legacy seed, below the root of the seed cache: each component of the
/// identity is a directory or, the last one, the file.
pub fn legacy_seed_path(version: &str, name: &str, device_id: &str, windows: bool) -> (path: Vec<
    String,
>)
    ensures
        ({
            let bare = bare_seed_path(version@, name@, device_id@, windows);
            texts(path@) == bare.update(
                bare.len() - 1,
                with_extension(bare.last(), "json.log"@),
            )
        }),
        forall|i: int|
            2 <= i < path@.len() ==> is_plain_name((#[trigger] path@[i])@),
        path@.len() == 2 + identity_components(name@, device_id@, windows).len(),
        path@[0]@ == "autotune"@,
        path@.len() > 2 ==> path@[1]@ == version@,
        path@.len() == 2 ==> path@[1]@ == with_extension(version@, "json.log"@),
        forall|i: int|
            0 <= i < path@.len() - 3 ==> (#[trigger] path@[i + 2])@ == sanitized(
                identity_components(name@, device_id@, windows)[i],
                windows,
                true,
                "_"@,
            ),
        path@.len() > 2 ==> path@.last()@ == with_extension(
            sanitized(
                identity_components(name@, device_id@, windows).last(),
                windows,
                true,
                "_"@,
            ),
            "json.log"@,
        ),
{
    let mut identity = String::from_str(device_id);
    identity.append("/");
    identity.append(name);
    let components = path_components(identity.as_str(), windows);
    let mut path: Vec<String> = Vec::new();
    path.push(String::from_str("autotune"));
    path.push(String::from_str(version));
    let ghost parts = identity_components(name@, device_id@, windows);
    let ghost bare = bare_seed_path(version@, name@, device_id@, windows);
    let mut index: usize = 0;
    proof {
        assert(texts(path@) =~= bare.take(2));
        lemma_parts_nonempty(device_id@ + "/"@ + name@, windows);
    }
    while index < components.len()
        invariant
            index <= components.len(),
            texts(components@) == parts,
            bare == bare_seed_path(version@, name@, device_id@, windows),
            parts == identity_components(name@, device_id@, windows),
            path@.len() == index + 2,
            texts(path@) == bare.take(index + 2),
            forall|i: int| 0 <= i < parts.len() ==> (#[trigger] parts[i]).len() > 0,
            forall|i: int| 2 <= i < path@.len() ==> is_plain_name((#[trigger] path@[i])@),
        decreases components.len() - index,
    {
        assert(texts(components@)[index as int] == components@[index as int]@);
        let segment = sanitize(components[index].as_str(), windows, true, "_");
        let ghost former = path@;
        path.push(segment);
        proof {
            assert(parts[index as int].len() > 0);
            assert(bare[index + 2] == sanitized(parts[index as int], windows, true, "_"@));
            assert(texts(path@) =~= texts(former).push(segment@));
            assert(texts(path@) =~= bare.take(index + 3));
        }
        index = index + 1;
    }
    assert(bare.take(index + 2) =~= bare);
    let last: usize = path.len() - 1;
    let file = set_extension(path[last].as_str(), "json.log");
    let ghost former = path@;
    proof {
        assert(texts(former)[last as int] == former[last as int]@);
        assert(bare.last() == former[last as int]@);
        if last >= 2 {
            lemma_extension_is_plain(former[last as int]@);
        }
        assert(texts(former.update(last as int, file)) =~= texts(former).update(
            last as int,
            file@,
        ));
    }
    path.set(last, file);
    proof {
        let parts = identity_components(name@, device_id@, windows);
        let all = texts(path@);
        assert(all[0] == path@[0]@ && all[1] == path@[1]@ && all[last as int]
            == path@[last as int]@);
        assert forall|i: int| 0 <= i < path@.len() - 3 implies (#[trigger] path@[i + 2])@
            == sanitized(parts[i], windows, true, "_"@) by {
            assert(all[i + 2] == path@[i + 2]@);
        }
    }
    path
}

/// A seed is below `autotune` and the version of the library; each component of the identity
/// follows as a name of its own, made fit for a file by the rules of the platform, cut short where
/// it is long, and with an underscore for what no name can hold.
pub proof fn law_seed_path_layout(
    version: Seq<char>,
    name: Seq<char>,
    device_id: Seq<char>,
    windows: bool,
    i: int,
)
    requires
        0 <= i < path_parts(device_id + "/"@ + name, windows).len(),
    ensures
        ({
            let bare = bare_seed_path(version, name, device_id, windows);
            let parts = path_parts(device_id + "/"@ + name, windows);
            &&& bare.len() == parts.len() + 2
            &&& bare[0] == "autotune"@
            &&& bare[1] == version
            &&& bare[i + 2] == sanitized(parts[i], windows, true, "_"@)
        }),
{
}

/// A name that stays in its directory.
pub open spec fn is_plain_name(name: Seq<char>) -> bool {
    name.len() > 0 && !name.contains('/') && name != "."@ && name != ".."@
}

proof fn lemma_last_dot_bounds(name: Seq<char>)
    ensures
        -1 <= last_dot(name) < name.len(),
    decreases name.len(),
{
    if name.len() > 0 {
        lemma_last_dot_bounds(name.drop_last());
    }
}

proof fn lemma_extension_is_plain(name: Seq<char>)
    requires
        is_plain_name(name),
    ensures
        is_plain_name(with_extension(name, "json.log"@)),
{
    lemma_last_dot_bounds(name);
    reveal_strlit("json.log");
    reveal_strlit(".");
    reveal_strlit("..");
    let stem = if last_dot(name) <= 0 {
        name
    } else {
        name.take(last_dot(name))
    };
    let result = with_extension(name, "json.log"@);
    assert(result =~= stem + "."@ + "json.log"@);
    if result.contains('/') {
        let n = choose|n: int| 0 <= n < result.len() && result[n] == '/';
        if n < stem.len() {
            assert(name[n] == '/');
            assert(name.contains('/'));
        } else if n == stem.len() {
            assert(result[n] == '.');
        } else {
            let m = n - stem.len() - 1;
            assert(result[n] == "json.log"@[m]);
        }
    }
    assert(result.len() >= 9);
}

/// The lines of a file that are not empty.
pub open spec fn lines_of(bytes: Seq<u8>) -> Seq<Seq<u8>> {
    nonempty(raw_lines(bytes))
}

/// The parts of a file between its line feeds.
pub open spec fn raw_lines(bytes: Seq<u8>) -> Seq<Seq<u8>>
    decreases bytes.len(),
{
    if bytes.len() == 0 {
        seq![Seq::<u8>::empty()]
    } else {
        let rest = raw_lines(bytes.drop_last());
        if bytes.last() == 10 {
            rest.push(Seq::empty())
        } else {
            rest.update(rest.len() - 1, rest.last().push(bytes.last()))
        }
    }
}

/// The lines that are not empty.
pub open spec fn nonempty(lines: Seq<Seq<u8>>) -> Seq<Seq<u8>>
    decreases lines.len(),
{
    if lines.len() == 0 {
        Seq::empty()
    } else if lines.last().len() == 0 {
        nonempty(lines.drop_last())
    } else {
        nonempty(lines.drop_last()).push(lines.last())
    }
}

/// What lines hold.
pub open spec fn line_views(lines: Seq<Vec<u8>>) -> Seq<Seq<u8>> {
    Seq::new(lines.len(), |i: int| lines[i]@)
}

/// Cuts the file of a seed into its entries: one for each line that is not empty.
pub fn seed_lines(bytes: &Vec<u8>) -> (lines: Vec<Vec<u8>>)
    ensures
        line_views(lines@) == lines_of(bytes@),
        forall|i: int|
            0 <= i < lines@.len() ==> (#[trigger] lines@[i])@.len() > 0 && !lines@[i]@.contains(
                10u8,
            ),
        flat(line_views(lines@)) == without(bytes@, 10u8),
        forall|parts: Seq<Seq<u8>>| #[trigger]
            are_parts_of(parts, 10u8, bytes@) ==> line_views(lines@) == parts.filter(
                |part: Seq<u8>| part.len() > 0,
            ),
        bytes@.len() > 0 && !bytes@.contains(10u8) ==> line_views(lines@) == seq![bytes@],
{
    proof {
        law_lines_are_cut_at_line_feeds(bytes@);
        law_lines_keep_every_other_byte(bytes@);
        assert forall|parts: Seq<Seq<u8>>| #[trigger]
            are_parts_of(parts, 10u8, bytes@) implies lines_of(bytes@) == parts.filter(
            |part: Seq<u8>| part.len() > 0,
        ) by {
            law_entries_are_the_nonempty_parts(bytes@, parts);
        }
        if bytes@.len() > 0 && !bytes@.contains(10u8) {
            law_one_line(bytes@);
        }
    }
    let mut lines: Vec<Vec<u8>> = Vec::new();
    let mut current: Vec<u8> = Vec::new();
    let mut index: usize = 0;
    let ghost mut raw: Seq<Seq<u8>> = Seq::empty();
    proof {
        assert(bytes@.take(0) =~= Seq::<u8>::empty());
        assert(raw.push(current@) =~= raw_lines(bytes@.take(0)));
        assert(line_views(lines@) =~= nonempty(raw));
    }
    while index < bytes.len()
        invariant
            index <= bytes.len(),
            raw.push(current@) == raw_lines(bytes@.take(index as int)),
            line_views(lines@) == nonempty(raw),
        decreases bytes.len() - index,
    {
        let ghost next = bytes@.take(index + 1);
        let ghost before = raw;
        let ghost done = current@;
        proof {
            assert(next.drop_last() =~= bytes@.take(index as int));
            assert(next.last() == bytes@[index as int]);
        }
        let byte: u8 = bytes[index];
        if byte == 10 {
            proof {
                raw = before.push(done);
                assert(raw.drop_last() =~= before);
            }
            if current.len() > 0 {
                let ghost former = lines@;
                lines.push(current);
                assert(line_views(lines@) =~= line_views(former).push(done));
            }
            current = Vec::new();
            assert(raw.push(current@) =~= raw_lines(next));
        } else {
            current.push(byte);
            proof {
                assert(before.push(current@) =~= before.push(done).update(
                    before.len() as int,
                    done.push(byte),
                ));
                assert(raw.push(current@) =~= raw_lines(next));
            }
        }
        index = index + 1;
    }
    let ghost done = current@;
    proof {
        assert(bytes@.take(index as int) =~= bytes@);
        assert(raw.push(done).drop_last() =~= raw);
    }
    if current.len() > 0 {
        let ghost former = lines@;
        lines.push(current);
        assert(line_views(lines@) =~= line_views(former).push(done));
    }
    assert forall|i: int| 0 <= i < lines@.len() implies (#[trigger] lines@[i])@.len() > 0
        && !lines@[i]@.contains(10u8) by {
        assert(line_views(lines@)[i] == lines@[i]@);
    }
    lines
}

/// The file is cut at its line feeds and nowhere else: no part holds a line feed, and the parts
/// with one line feed between each two are the file again. There is one way to cut it so.
pub proof fn law_lines_are_cut_at_line_feeds(bytes: Seq<u8>)
    ensures
        are_parts_of(raw_lines(bytes), 10u8, bytes),
        forall|parts: Seq<Seq<u8>>| #[trigger]
            are_parts_of(parts, 10u8, bytes) ==> parts == raw_lines(bytes),
    decreases bytes.len(),
{
    if bytes.len() > 0 {
        law_lines_are_cut_at_line_feeds(bytes.drop_last());
        lemma_parts_of_push(
            raw_lines(bytes.drop_last()),
            10u8,
            bytes.drop_last(),
            bytes.last(),
        );
        assert(bytes.drop_last().push(bytes.last()) =~= bytes);
    } else {
        assert(bytes =~= Seq::<u8>::empty());
        lemma_whole_is_one_part(10u8, bytes);
    }
    assert forall|parts: Seq<Seq<u8>>| #[trigger] are_parts_of(parts, 10u8, bytes) implies parts
        == raw_lines(bytes) by {
        lemma_parts_are_unique(parts, raw_lines(bytes), 10u8, bytes);
    }
}

/// The entries of a file are its parts that are not empty, in their order.
pub proof fn law_entries_are_the_nonempty_parts(bytes: Seq<u8>, parts: Seq<Seq<u8>>)
    requires
        are_parts_of(parts, 10u8, bytes),
    ensures
        lines_of(bytes) == parts.filter(|part: Seq<u8>| part.len() > 0),
{
    law_lines_are_cut_at_line_feeds(bytes);
    lemma_nonempty_is_filter(parts);
}

/// Every byte but the line feeds is kept, in order; no entry is empty or holds a line feed.
pub proof fn law_lines_keep_every_other_byte(bytes: Seq<u8>)
    ensures
        flat(lines_of(bytes)) == without(bytes, 10u8),
        are_apart(lines_of(bytes), 10u8),
        forall|i: int| 0 <= i < lines_of(bytes).len() ==> (#[trigger] lines_of(bytes)[i]).len() > 0,
{
    law_lines_are_cut_at_line_feeds(bytes);
    lemma_flat_parts(raw_lines(bytes), 10u8);
    lemma_nonempty_keeps(raw_lines(bytes), 10u8);
}

/// A file without a line feed, if it is not empty, is one entry, unchanged.
pub proof fn law_one_line(bytes: Seq<u8>)
    requires
        bytes.len() > 0,
        !bytes.contains(10u8),
    ensures
        lines_of(bytes) == seq![bytes],
{
    lemma_whole_is_one_part(10u8, bytes);
    law_lines_are_cut_at_line_feeds(bytes);
    assert(seq![bytes].drop_last() =~= Seq::<Seq<u8>>::empty());
    reveal_with_fuel(nonempty, 2);
    assert(lines_of(bytes) =~= seq![bytes]);
}

/// A line feed between two files, as between two writes to a log, joins their entries.
pub proof fn law_lines_of_appended(first: Seq<u8>, second: Seq<u8>)
    ensures
        lines_of(first.push(10u8) + second) == lines_of(first) + lines_of(second),
{
    law_lines_are_cut_at_line_feeds(first);
    law_lines_are_cut_at_line_feeds(second);
    let whole = first.push(10u8) + second;
    law_lines_are_cut_at_line_feeds(whole);
    lemma_raw_lines_of_appended(first, second);
    lemma_nonempty_adds(raw_lines(first), raw_lines(second));
}

proof fn lemma_raw_lines_of_appended(first: Seq<u8>, second: Seq<u8>)
    ensures
        raw_lines(first.push(10u8) + second) == raw_lines(first) + raw_lines(second),
    decreases second.len(),
{
    let whole = first.push(10u8) + second;
    if second.len() == 0 {
        assert(whole.drop_last() =~= first);
        assert(raw_lines(whole) =~= raw_lines(first) + raw_lines(second));
    } else {
        lemma_raw_lines_of_appended(first, second.drop_last());
        law_lines_are_cut_at_line_feeds(second.drop_last());
        assert(whole.drop_last() =~= first.push(10u8) + second.drop_last());
        assert(raw_lines(whole) =~= raw_lines(first) + raw_lines(second));
    }
}

proof fn lemma_nonempty_adds(first: Seq<Seq<u8>>, second: Seq<Seq<u8>>)
    ensures
        nonempty(first + second) == nonempty(first) + nonempty(second),
    decreases second.len(),
{
    if second.len() == 0 {
        assert(first + second =~= first);
        assert(nonempty(first) + nonempty(second) =~= nonempty(first));
    } else {
        lemma_nonempty_adds(first, second.drop_last());
        assert((first + second).drop_last() =~= first + second.drop_last());
        assert(nonempty(first + second) =~= nonempty(first) + nonempty(second));
    }
}

proof fn lemma_nonempty_is_filter(lines: Seq<Seq<u8>>)
    ensures
        nonempty(lines) == lines.filter(|part: Seq<u8>| part.len() > 0),
    decreases lines.len(),
{
    reveal(Seq::filter);
    if lines.len() > 0 {
        lemma_nonempty_is_filter(lines.drop_last());
    }
}

proof fn lemma_nonempty_keeps(lines: Seq<Seq<u8>>, separator: u8)
    requires
        are_apart(lines, separator),
    ensures
        flat(nonempty(lines)) == flat(lines),
        are_apart(nonempty(lines), separator),
        forall|i: int| 0 <= i < nonempty(lines).len() ==> (#[trigger] nonempty(lines)[i]).len() > 0,
    decreases lines.len(),
{
    if lines.len() > 0 {
        let rest = lines.drop_last();
        assert(!lines[lines.len() - 1].contains(separator));
        assert forall|i: int| 0 <= i < rest.len() implies !(#[trigger] rest[i]).contains(
            separator,
        ) by {
            assert(rest[i] == lines[i]);
        }
        lemma_nonempty_keeps(rest, separator);
        if lines.last().len() == 0 {
            assert(flat(rest) + lines.last() =~= flat(rest));
        } else {
            let longer = nonempty(rest).push(lines.last());
            assert(longer.drop_last() =~= nonempty(rest));
            assert forall|i: int| 0 <= i < longer.len() implies !(#[trigger] longer[i]).contains(
                separator,
            ) && longer[i].len() > 0 by {
                if i < nonempty(rest).len() {
                    assert(longer[i] == nonempty(rest)[i]);
                }
            }
        }
    }
}

/// A slash at the start of an identity makes no difference to the file of its seed, unless the
/// identity begins with a lone dot; on Windows the root is kept.
pub proof fn law_absolute_identity(path: Seq<char>)
    requires
        split_text('/', path)[0] != "."@,
    ensures
        path_parts(seq!['/'] + path, false) == path_parts(path, false),
{
    lemma_split_after_slash(path);
    lemma_split_nonempty('/', path);
    lemma_components_shift(split_text('/', path));
}

proof fn lemma_split_after_slash(path: Seq<char>)
    ensures
        split_text('/', seq!['/'] + path) == seq![Seq::<char>::empty()] + split_text('/', path),
    decreases path.len(),
{
    let longer = seq!['/'] + path;
    if path.len() == 0 {
        assert(longer.drop_last() =~= Seq::<char>::empty());
        assert(longer.last() == '/');
        reveal_with_fuel(split_text, 2);
        assert(split_text('/', longer) =~= seq![Seq::<char>::empty()] + split_text('/', path));
    } else {
        assert(longer.drop_last() =~= seq!['/'] + path.drop_last());
        assert(longer.last() == path.last());
        lemma_split_after_slash(path.drop_last());
        lemma_split_nonempty('/', path.drop_last());
        assert(split_text('/', longer) =~= seq![Seq::<char>::empty()] + split_text('/', path));
    }
}

proof fn lemma_components_shift(parts: Seq<Seq<char>>)
    requires
        parts.len() > 0,
        parts[0] != "."@,
    ensures
        components_of(seq![Seq::<char>::empty()] + parts) == components_of(parts),
    decreases parts.len(),
{
    let longer = seq![Seq::<char>::empty()] + parts;
    assert(longer.last() == parts.last());
    if parts.len() == 1 {
        assert(longer.drop_last() =~= seq![Seq::<char>::empty()]);
        assert(seq![Seq::<char>::empty()].drop_last() =~= Seq::<Seq<char>>::empty());
        assert(parts.drop_last() =~= Seq::<Seq<char>>::empty());
        reveal_with_fuel(components_of, 3);
    } else {
        assert(longer.drop_last() =~= seq![Seq::<char>::empty()] + parts.drop_last());
        lemma_components_shift(parts.drop_last());
    }
}

} // verus!
