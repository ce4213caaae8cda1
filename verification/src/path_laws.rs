//! What holds of paths, their components and the names of files.

use crate::cuda_install::{cccl_include_path, include_path, Platform};
use vstd::prelude::*;

verus! {

use crate::cuda_install::{backslashed, headers, joined, resolved};
use crate::joining::lemma_whole_is_one_part;
use crate::paths::{
    components_of, has_drive, is_rooted, is_separator, is_verbatim, named_parts, part_end,
    path_parts, prefix_end, slashed, verbatim_names, windows_parts,
};
use crate::seed_path::{identity_components, last_dot, with_extension};
use crate::text::{
    law_join_splits_back, law_split_joins_back, law_split_of_joined, lemma_split_nonempty,
    split_text,
};

/// A part of a text goes on to the next separator: there is none in it, and one follows unless the
/// text ends.
pub proof fn law_part_ends_at_separator(separator: char, text: Seq<char>, from: int)
    requires
        0 <= from <= text.len(),
    ensures
        from <= part_end(separator, text, from) <= text.len(),
        forall|i: int| from <= i < part_end(separator, text, from) ==> text[i] != separator,
        part_end(separator, text, from) < text.len() ==> text[part_end(separator, text, from)]
            == separator,
    decreases text.len() - from,
{
    if from < text.len() && text[from] != separator {
        law_part_ends_at_separator(separator, text, from + 1);
    }
}

proof fn lemma_part_end_is(separator: char, text: Seq<char>, from: int, end: int)
    requires
        0 <= from <= end <= text.len(),
        forall|i: int| from <= i < end ==> text[i] != separator,
        end < text.len() ==> text[end] == separator,
    ensures
        part_end(separator, text, from) == end,
{
    law_part_ends_at_separator(separator, text, from);
    let found = part_end(separator, text, from);
    if found < end {
        assert(text[found] != separator);
    } else if end < found {
        assert(text[end] != separator);
    }
}

proof fn lemma_components_add(a: Seq<Seq<char>>, b: Seq<Seq<char>>)
    requires
        a.len() > 0,
        b.len() > 0 ==> b[0] != "."@,
    ensures
        components_of(a + b) == components_of(a) + components_of(b),
    decreases b.len(),
{
    if b.len() == 0 {
        assert(a + b =~= a);
        assert(components_of(a) + components_of(b) =~= components_of(a));
    } else {
        lemma_components_add(a, b.drop_last());
        assert((a + b).drop_last() =~= a + b.drop_last());
        assert(components_of(a + b) =~= components_of(a) + components_of(b));
    }
}

/// The components of two paths with a slash between them are those of the first, then those of the
/// second, unless the second begins with a lone dot.
pub proof fn law_components_of_joined(a: Seq<char>, b: Seq<char>)
    requires
        split_text('/', b)[0] != "."@,
    ensures
        path_parts(a.push('/') + b, false) == path_parts(a, false) + path_parts(b, false),
{
    law_split_of_joined('/', a, b);
    lemma_split_nonempty('/', a);
    lemma_components_add(split_text('/', a), split_text('/', b));
}

/// A name without a slash is the one component of itself, and an empty one has none.
pub proof fn law_name_is_one_component(name: Seq<char>)
    requires
        !name.contains('/'),
    ensures
        name.len() > 0 ==> path_parts(name, false) == seq![name],
        name.len() == 0 ==> path_parts(name, false) == Seq::<Seq<char>>::empty(),
{
    lemma_whole_is_one_part('/', name);
    law_join_splits_back('/', name, seq![name]);
    assert(seq![name].drop_last() =~= Seq::<Seq<char>>::empty());
    reveal_with_fuel(components_of, 2);
    if name.len() > 0 {
        assert(path_parts(name, false) =~= seq![name]);
    } else {
        assert(path_parts(name, false) =~= Seq::<Seq<char>>::empty());
    }
}

/// A lone dot, or nothing, after a slash names no further component.
pub proof fn law_lone_dot_is_no_component(path: Seq<char>)
    ensures
        path_parts(path.push('/').push('.'), false) == path_parts(path, false),
        path_parts(path.push('/'), false) == path_parts(path, false),
{
    let dot = seq!['.'];
    reveal_strlit(".");
    assert("."@ =~= dot);
    law_split_of_joined('/', path, dot);
    lemma_split_nonempty('/', path);
    assert(path.push('/') + dot =~= path.push('/').push('.'));
    lemma_whole_is_one_part('/', dot);
    law_join_splits_back('/', dot, seq![dot]);
    let parts = split_text('/', path);
    assert((parts + seq![dot]).drop_last() =~= parts);
    assert((parts + seq![dot]).last() == dot);
    let empty = Seq::<char>::empty();
    law_split_of_joined('/', path, empty);
    assert(path.push('/') + empty =~= path.push('/'));
    assert(split_text('/', empty) =~= seq![empty]);
    assert((parts + seq![empty]).drop_last() =~= parts);
    assert((parts + seq![empty]).last() == empty);
}

/// Every component is part of the path and holds no slash; none is empty, and none but the first is
/// a lone dot.
pub proof fn law_components_are_names(path: Seq<char>)
    ensures
        forall|i: int|
            0 <= i < path_parts(path, false).len() ==> (#[trigger] path_parts(path, false)[i]).len()
                > 0 && !path_parts(path, false)[i].contains('/') && (path_parts(path, false)[i]
                == "."@ ==> i == 0),
{
    law_split_joins_back('/', path);
    lemma_components_are_parts(split_text('/', path));
}

proof fn lemma_components_are_parts(parts: Seq<Seq<char>>)
    ensures
        components_of(parts).len() <= parts.len(),
        forall|i: int|
            0 <= i < components_of(parts).len() ==> (#[trigger] components_of(parts)[i]).len() > 0
                && parts.contains(components_of(parts)[i]) && (components_of(parts)[i] == "."@ ==> i
                == 0),
    decreases parts.len(),
{
    if parts.len() > 0 {
        let rest = parts.drop_last();
        lemma_components_are_parts(rest);
        let all = components_of(parts);
        if parts.len() == 1 {
            assert(rest =~= Seq::<Seq<char>>::empty());
        }
        assert forall|i: int| 0 <= i < all.len() implies (#[trigger] all[i]).len() > 0
            && parts.contains(all[i]) && (all[i] == "."@ ==> i == 0) by {
            if i < components_of(rest).len() {
                assert(all[i] == components_of(rest)[i]);
                let n = choose|n: int| 0 <= n < rest.len() && rest[n] == all[i];
                assert(parts[n] == all[i]);
            } else {
                assert(all[i] == parts.last());
                assert(parts[parts.len() - 1] == all[i]);
            }
        }
    }
}

/// The identity of a tuner on a device is that of the device, then that of the tuner.
pub proof fn law_identity_begins_with_device(name: Seq<char>, device_id: Seq<char>)
    requires
        split_text('/', name)[0] != "."@,
    ensures
        identity_components(name, device_id, false) == path_parts(device_id, false) + path_parts(
            name,
            false,
        ),
{
    reveal_strlit("/");
    assert(device_id + "/"@ + name =~= device_id.push('/') + name);
    law_components_of_joined(device_id, name);
}

proof fn lemma_last_dot_is(stem: Seq<char>, former: Seq<char>)
    requires
        !former.contains('.'),
    ensures
        last_dot(stem.push('.') + former) == stem.len(),
    decreases former.len(),
{
    let name = stem.push('.') + former;
    if former.len() == 0 {
        assert(name.last() == '.');
    } else {
        let rest = former.drop_last();
        assert(former[former.len() - 1] != '.');
        if rest.contains('.') {
            let n = choose|n: int| 0 <= n < rest.len() && rest[n] == '.';
            assert(former[n] == '.');
        }
        lemma_last_dot_is(stem, rest);
        assert(name.drop_last() =~= stem.push('.') + rest);
        assert(name.last() == former.last());
    }
}

proof fn lemma_no_dot(name: Seq<char>)
    requires
        !name.contains('.'),
    ensures
        last_dot(name) == -1,
    decreases name.len(),
{
    if name.len() > 0 {
        let rest = name.drop_last();
        assert(name[name.len() - 1] != '.');
        if rest.contains('.') {
            let n = choose|n: int| 0 <= n < rest.len() && rest[n] == '.';
            assert(name[n] == '.');
        }
        lemma_no_dot(rest);
    }
}

/// What follows the last dot of a file name is its extension, and is replaced; what comes before
/// the dot is kept.
pub proof fn law_extension_is_replaced(stem: Seq<char>, former: Seq<char>, extension: Seq<char>)
    requires
        stem.len() > 0,
        !former.contains('.'),
        stem.len() > 1 || stem[0] != '.' || former.len() > 0,
    ensures
        with_extension(stem.push('.') + former, extension) == stem.push('.') + extension,
{
    reveal_strlit("..");
    reveal_strlit(".");
    let name = stem.push('.') + former;
    lemma_last_dot_is(stem, former);
    if name == ".."@ {
        assert(name[0] == '.');
        assert(stem[0] == name[0]);
        assert(name.len() == stem.len() + 1 + former.len());
    }
    assert(name.take(stem.len() as int) =~= stem);
    assert(stem + "."@ + extension =~= stem.push('.') + extension);
}

/// A file name without a dot after its first character has no extension; the new one is added.
pub proof fn law_extension_is_added(name: Seq<char>, extension: Seq<char>)
    requires
        name.len() > 0,
        !name.skip(1).contains('.'),
    ensures
        with_extension(name, extension) == name.push('.') + extension,
{
    reveal_strlit("..");
    reveal_strlit(".");
    assert(name + "."@ + extension =~= name.push('.') + extension);
    let rest = name.skip(1);
    if name == ".."@ {
        assert(rest[0] == '.');
    }
    if name[0] == '.' {
        lemma_last_dot_is(Seq::empty(), rest);
        assert(Seq::<char>::empty().push('.') + rest =~= name);
    } else {
        if name.contains('.') {
            let n = choose|n: int| 0 <= n < name.len() && name[n] == '.';
            assert(rest[n - 1] == '.');
        }
        lemma_no_dot(name);
    }
}

/// A file keeps the extension that it was given.
pub proof fn law_extension_stays(name: Seq<char>, extension: Seq<char>, stem: Seq<char>)
    requires
        stem.len() > 0,
        !extension.contains('.'),
        with_extension(name, extension) == stem.push('.') + extension,
        stem.len() > 1 || stem[0] != '.' || extension.len() > 0,
    ensures
        with_extension(with_extension(name, extension), extension) == with_extension(
            name,
            extension,
        ),
{
    law_extension_is_replaced(stem, extension, extension);
}

/// Two dots name a directory, and take no extension.
pub proof fn law_two_dots_take_no_extension(extension: Seq<char>)
    ensures
        with_extension(".."@, extension) == ".."@,
{
}

/// A path on Windows that begins with the letter of a drive and a colon has the drive as its first
/// component.
pub proof fn law_drive_is_a_component(letter: char, rest: Seq<char>)
    requires
        'a' <= letter <= 'z' || 'A' <= letter <= 'Z',
    ensures
        prefix_end(seq![letter, ':'] + rest) == 2,
        windows_parts(seq![letter, ':'] + rest)[0] == seq![letter, ':'],
        is_rooted(seq![letter, ':'] + rest) <==> rest.len() > 0 && (rest[0] == '/' || rest[0]
            == '\\'),
{
    let path = seq![letter, ':'] + rest;
    assert(path[0] == letter && path[1] == ':');
    assert(path.take(2) =~= seq![letter, ':']);
}

/// A path on Windows that begins with two backslashes, a server and a share has both as its first
/// component, and a root after them.
pub proof fn law_share_is_a_component(server: Seq<char>, share: Seq<char>, rest: Seq<char>)
    requires
        server.len() > 0,
        share.len() > 0,
        forall|i: int| 0 <= i < server.len() ==> !is_separator(#[trigger] server[i]),
        forall|i: int| 0 <= i < share.len() ==> !is_separator(#[trigger] share[i]),
        rest.len() > 0 ==> rest[0] == '/' || rest[0] == '\\',
        server != seq!['?'],
        server != seq!['.'],
    ensures
        ({
            let prefix = seq!['\\', '\\'] + server.push('\\') + share;
            &&& prefix_end(prefix + rest) == prefix.len()
            &&& windows_parts(prefix + rest)[0] == prefix
            &&& windows_parts(prefix + rest)[1] == "\\"@
        }),
{
    let prefix = seq!['\\', '\\'] + server.push('\\') + share;
    let path = prefix + rest;
    let text = slashed(path);
    let end: int = 2 + server.len() as int;
    assert(path[0] == '\\' && path[1] == '\\');
    assert forall|i: int| 2 <= i < end implies text[i] != '/' by {
        assert(path[i] == server[i - 2]);
    }
    assert(path[end] == '\\');
    lemma_part_end_is('/', text, 2, end);
    assert forall|i: int| end + 1 <= i < prefix.len() implies text[i] != '/' by {
        assert(path[i] == share[i - end - 1]);
    }
    if rest.len() > 0 {
        assert(path[prefix.len() as int] == rest[0]);
    }
    lemma_part_end_is('/', text, end + 1, prefix.len() as int);
    assert(path[2] == server[0]);
    if server.len() == 1 {
        assert(server =~= seq![server[0]]);
    } else {
        assert(path[3] == server[1]);
    }
    assert(!is_verbatim(path));
    assert(path.take(prefix.len() as int) =~= prefix);
}

/// A verbatim path to a drive has the drive in its prefix.
pub proof fn law_verbatim_drive(letter: char, rest: Seq<char>)
    requires
        'a' <= letter <= 'z' || 'A' <= letter <= 'Z',
        rest.len() > 0 ==> rest[0] == '/' || rest[0] == '\\',
    ensures
        prefix_end(seq!['\\', '\\', '?', '\\', letter, ':'] + rest) == 6,
{
    let path = seq!['\\', '\\', '?', '\\', letter, ':'] + rest;
    assert(path.skip(4)[0] == letter && path.skip(4)[1] == ':');
    assert(path[5] == ':');
    if rest.len() > 0 {
        assert(path[6] == rest[0]);
    }
}

/// A verbatim path to a share has the server and the share in its prefix.
pub proof fn law_verbatim_share(server: Seq<char>, share: Seq<char>, rest: Seq<char>)
    requires
        share.len() > 0,
        !server.contains('\\'),
        !share.contains('\\'),
        rest.len() > 0 ==> rest[0] == '\\',
    ensures
        ({
            let prefix = seq!['\\', '\\', '?', '\\', 'U', 'N', 'C', '\\'] + server.push('\\')
                + share;
            prefix_end(prefix + rest) == prefix.len()
        }),
{
    let prefix = seq!['\\', '\\', '?', '\\', 'U', 'N', 'C', '\\'] + server.push('\\') + share;
    let path = prefix + rest;
    let end: int = 8 + server.len() as int;
    assert forall|i: int| 8 <= i < end implies path[i] != '\\' by {
        assert(path[i] == server[i - 8]);
    }
    assert(path[end] == '\\');
    lemma_part_end_is('\\', path, 8, end);
    assert forall|i: int| end + 1 <= i < prefix.len() implies path[i] != '\\' by {
        assert(path[i] == share[i - end - 1]);
    }
    if rest.len() > 0 {
        assert(path[prefix.len() as int] == rest[0]);
    }
    lemma_part_end_is('\\', path, end + 1, prefix.len() as int);
}

/// A path on Windows to a device, as `\\.\COM42`, has the device in its prefix, and a root after
/// it.
pub proof fn law_device_is_a_component(name: Seq<char>, rest: Seq<char>)
    requires
        forall|i: int| 0 <= i < name.len() ==> !is_separator(#[trigger] name[i]),
        rest.len() > 0 ==> rest[0] == '/' || rest[0] == '\\',
    ensures
        ({
            let prefix = seq!['\\', '\\', '.', '\\'] + name;
            &&& prefix_end(prefix + rest) == prefix.len()
            &&& windows_parts(prefix + rest)[0] == prefix
            &&& windows_parts(prefix + rest)[1] == "\\"@
        }),
{
    let prefix = seq!['\\', '\\', '.', '\\'] + name;
    let path = prefix + rest;
    let text = slashed(path);
    assert(path[0] == '\\' && path[1] == '\\' && path[2] == '.' && path[3] == '\\');
    assert forall|i: int| 4 <= i < prefix.len() implies text[i] != '/' by {
        assert(path[i] == name[i - 4]);
    }
    if rest.len() > 0 {
        assert(path[prefix.len() as int] == rest[0]);
    }
    lemma_part_end_is('/', text, 4, prefix.len() as int);
    assert(path.take(prefix.len() as int) =~= prefix);
}

/// A verbatim path to anything else has the first name in its prefix.
pub proof fn law_verbatim_name(name: Seq<char>, rest: Seq<char>)
    requires
        !name.contains('\\'),
        rest.len() > 0 ==> rest[0] == '\\',
        !has_drive(name + rest),
        name.len() != 3 || name[0] != 'U' || name[1] != 'N' || name[2] != 'C',
        !name.contains('/'),
    ensures
        ({
            let prefix = seq!['\\', '\\', '?', '\\'] + name;
            &&& prefix_end(prefix + rest) == prefix.len()
            &&& windows_parts(prefix + rest)[0] == prefix
        }),
{
    let prefix = seq!['\\', '\\', '?', '\\'] + name;
    let path = prefix + rest;
    assert(path.skip(4) =~= name + rest);
    assert forall|i: int| 4 <= i < prefix.len() implies path[i] != '\\' by {
        assert(path[i] == name[i - 4]);
    }
    if rest.len() > 0 {
        assert(path[prefix.len() as int] == rest[0]);
    }
    lemma_part_end_is('\\', path, 4, prefix.len() as int);
    if path.len() >= 8 && path[4] == 'U' && path[5] == 'N' && path[6] == 'C' && is_separator(
        path[7],
    ) {
        assert(name.len() >= 3) by {
            if name.len() < 3 {
                assert(path[4 + name.len() as int] == rest[0]);
            }
        }
        assert(name[0] == path[4] && name[1] == path[5] && name[2] == path[6]);
        if name.len() > 3 {
            assert(name[3] == path[7]);
        }
    }
    assert(path.take(prefix.len() as int) =~= prefix);
}

/// A path on Windows that begins with one separator has a root as its first component, written as a
/// backslash, and then the components of what follows.
pub proof fn law_root_is_a_component(separator: char, rest: Seq<char>)
    requires
        separator == '/' || separator == '\\',
        rest.len() > 0 ==> rest[0] != '/' && rest[0] != '\\',
        split_text('/', slashed(rest))[0] != "."@,
    ensures
        windows_parts(seq![separator] + rest) == seq!["\\"@] + path_parts(slashed(rest), false),
{
    let path = seq![separator] + rest;
    assert(path[0] == separator);
    if rest.len() > 0 {
        assert(path[1] == rest[0]);
    }
    assert(path.skip(0) =~= path);
    assert(slashed(path) =~= Seq::<char>::empty().push('/') + slashed(rest));
    law_components_of_joined(Seq::empty(), slashed(rest));
    law_name_is_one_component(Seq::empty());
    assert(windows_parts(path) =~= seq!["\\"@] + path_parts(slashed(rest), false));
}

/// What follows the prefix of a path on Windows that is not verbatim has the components that it has
/// on its own, with a slash for each backslash; they come after the prefix, as it is written, and
/// after the root, if there is one.
pub proof fn law_names_follow_the_prefix(path: Seq<char>)
    requires
        prefix_end(path) > 0,
        !is_verbatim(path),
        split_text('/', slashed(path.skip(prefix_end(path))))[0] != "."@,
    ensures
        ({
            let names = path_parts(slashed(path.skip(prefix_end(path))), false);
            let prefix = path.take(prefix_end(path));
            let begins = is_separator(path[0]);
            &&& begins || is_rooted(path) ==> windows_parts(path) == seq![prefix, "\\"@] + names
            &&& !begins && !is_rooted(path) ==> windows_parts(path) == seq![prefix] + names
        }),
{
    let rest = slashed(path.skip(prefix_end(path)));
    reveal_strlit("/");
    assert("/"@ + rest =~= Seq::<char>::empty().push('/') + rest);
    law_components_of_joined(Seq::empty(), rest);
    law_name_is_one_component(Seq::empty());
    let names = path_parts(rest, false);
    let prefix = path.take(prefix_end(path));
    assert(Seq::<Seq<char>>::empty() + names =~= names);
    if is_separator(path[0]) || is_rooted(path) {
        assert(windows_parts(path) =~= seq![prefix, "\\"@] + names);
    } else {
        assert(windows_parts(path) =~= seq![prefix] + names);
    }
}

/// The names of a verbatim path follow its prefix and its root, if it has one.
pub proof fn law_names_of_a_verbatim_path(path: Seq<char>)
    requires
        is_verbatim(path),
    ensures
        ({
            let end = prefix_end(path);
            let prefix = path.take(end);
            &&& is_rooted(path) ==> windows_parts(path) == seq![prefix, "\\"@] + split_text(
                '\\',
                path.skip(end + 1),
            ).filter(|part: Seq<char>| part.len() > 0)
            &&& !is_rooted(path) ==> windows_parts(path) == seq![prefix] + split_text(
                '\\',
                path.skip(end),
            ).filter(|part: Seq<char>| part.len() > 0)
        }),
{
    let end = prefix_end(path);
    let prefix = path.take(end);
    law_names_are_the_nonempty_parts(split_text('\\', path.skip(end)));
    law_names_are_the_nonempty_parts(split_text('\\', path.skip(end + 1)));
    lemma_verbatim_prefix(path);
    if is_rooted(path) {
        assert(windows_parts(path) =~= seq![prefix, "\\"@] + verbatim_names(path));
    } else {
        assert(windows_parts(path) =~= seq![prefix] + verbatim_names(path));
    }
}

proof fn lemma_verbatim_prefix(path: Seq<char>)
    requires
        is_verbatim(path),
    ensures
        4 <= prefix_end(path) <= path.len(),
{
    law_part_ends_at_separator('\\', path, 4);
    if path.len() >= 8 {
        law_part_ends_at_separator('\\', path, 8);
        let server = part_end('\\', path, 8);
        if server < path.len() {
            law_part_ends_at_separator('\\', path, server + 1);
        }
    }
}

/// The names of a verbatim path are the parts between its backslashes that are not empty, in their
/// order.
pub proof fn law_names_are_the_nonempty_parts(parts: Seq<Seq<char>>)
    ensures
        named_parts(parts) == parts.filter(|part: Seq<char>| part.len() > 0),
    decreases parts.len(),
{
    reveal(Seq::filter);
    if parts.len() > 0 {
        law_names_are_the_nonempty_parts(parts.drop_last());
    }
}

/// Slashes are put for backslashes and for nothing else.
pub proof fn law_backslashes_become_slashes(path: Seq<char>)
    ensures
        slashed(path).len() == path.len(),
        !slashed(path).contains('\\'),
        forall|i: int|
            0 <= i < path.len() ==> (#[trigger] slashed(path)[i] == '/' <==> path[i] == '/'
                || path[i] == '\\'),
        forall|i: int|
            0 <= i < path.len() && path[i] != '\\' ==> #[trigger] slashed(path)[i] == path[i],
{
}

/// A path on Windows without a drive, a share or a root has the components that it has with a slash
/// for each backslash on other systems.
pub proof fn law_relative_path_on_windows(path: Seq<char>)
    requires
        !has_drive(path),
        path.len() > 0 ==> path[0] != '/' && path[0] != '\\',
    ensures
        path_parts(path, true) == path_parts(slashed(path), false),
{
    assert(path.skip(0) =~= path);
    assert(path_parts(path, true) =~= path_parts(slashed(path), false));
}

/// The headers are in `include` below the installation: one separator of the platform is put
/// between, where the installation does not end in one.
pub proof fn law_headers_are_below_installation(installation: Seq<char>, platform: Platform)
    requires
        platform == Platform::Windows ==> !is_verbatim(installation),
    ensures
        ({
            let windows = platform == Platform::Windows;
            let ends = installation.len() == 0 || installation.last() == '/' || windows && (
            installation.last() == '\\' || installation.len() == 2 && has_drive(installation));
            headers(installation, platform) == (if ends {
                installation
            } else if windows {
                installation.push('\\')
            } else {
                installation.push('/')
            }) + "include"@
        }),
{
    reveal_strlit("/");
    reveal_strlit("\\");
    assert(installation + "/"@ =~= installation.push('/'));
    assert(installation + "\\"@ =~= installation.push('\\'));
}

/// The CCCL headers are in `cccl` below the other headers, whatever the installation.
pub proof fn law_cccl_is_below_headers(
    installation: &str,
    platform: Platform,
    directory: String,
    cccl: String,
)
    requires
        call_ensures(include_path, (installation, platform), directory),
        call_ensures(cccl_include_path, (installation, platform), cccl),
        platform == Platform::Windows ==> !is_verbatim(installation@) && !is_verbatim(directory@),
    ensures
        cccl@ == directory@.push(
            if platform == Platform::Windows {
                '\\'
            } else {
                '/'
            },
        ) + "cccl"@,
{
    reveal_strlit("/");
    reveal_strlit("\\");
    reveal_strlit("include");
    law_headers_are_below_installation(installation@, platform);
    assert(directory@.last() == 'e');
    assert(directory@.len() >= 7);
    assert(directory@ + "/"@ =~= directory@.push('/'));
    assert(directory@ + "\\"@ =~= directory@.push('\\'));
}

/// A verbatim path keeps its prefix, has one backslash before each of its names, and ends in the
/// new component. Names without dots are all kept.
pub proof fn law_verbatim_join(path: Seq<char>, component: Seq<char>)
    requires
        is_verbatim(path),
        forall|i: int|
            0 <= i < verbatim_names(path).len() ==> #[trigger] verbatim_names(path)[i] != "."@
                && verbatim_names(path)[i] != ".."@,
    ensures
        joined(path, component, Platform::Windows) == path.take(prefix_end(path)) + backslashed(
            verbatim_names(path).push(component),
        ),
{
    let names = verbatim_names(path);
    law_plain_names_are_kept(names);
    assert(names.push(component).drop_last() =~= names);
    assert(joined(path, component, Platform::Windows) =~= path.take(prefix_end(path))
        + backslashed(names.push(component)));
}

/// Names that are no dots stay as they are.
pub proof fn law_plain_names_are_kept(names: Seq<Seq<char>>)
    requires
        forall|i: int|
            0 <= i < names.len() ==> #[trigger] names[i] != "."@ && names[i] != ".."@,
    ensures
        resolved(names) == names,
    decreases names.len(),
{
    if names.len() > 0 {
        let rest = names.drop_last();
        assert forall|i: int| 0 <= i < rest.len() implies #[trigger] rest[i] != "."@ && rest[i]
            != ".."@ by {
            assert(rest[i] == names[i]);
        }
        law_plain_names_are_kept(rest);
        assert(names[names.len() - 1] != "."@);
        assert(rest.push(names.last()) =~= names);
    } else {
        assert(resolved(names) =~= names);
    }
}

/// A lone dot changes nothing, and two dots undo the name before them; none of them is left.
pub proof fn law_dots_are_resolved(names: Seq<Seq<char>>, name: Seq<char>)
    requires
        name != "."@,
        name != ".."@,
    ensures
        resolved(names.push("."@)) == resolved(names),
        resolved(names.push(name)) == resolved(names).push(name),
        resolved(names.push(name).push(".."@)) == resolved(names),
        resolved(seq![".."@]) == Seq::<Seq<char>>::empty(),
        !resolved(names).contains("."@),
        !resolved(names).contains(".."@),
    decreases names.len(),
{
    reveal_strlit(".");
    reveal_strlit("..");
    assert("."@.len() != ".."@.len());
    assert(names.push("."@).drop_last() =~= names);
    assert(names.push(name).drop_last() =~= names);
    assert(names.push(name).push(".."@).drop_last() =~= names.push(name));
    assert(resolved(names).push(name).drop_last() =~= resolved(names));
    assert(seq![".."@].drop_last() =~= Seq::<Seq<char>>::empty());
    reveal_with_fuel(resolved, 3);
    if names.len() > 0 {
        let rest = names.drop_last();
        law_dots_are_resolved(rest, name);
        let before = resolved(rest);
        let after = resolved(names);
        assert forall|i: int| 0 <= i < after.len() implies after[i] != "."@ && after[i]
            != ".."@ by {
            if i < before.len() {
                assert(before.contains(before[i]));
            }
        }
    }
}

} // verus!
