//! Sequences that are cut into parts and put together again.

use vstd::prelude::*;

verus! {

/// Parts put together, with a separator between each two.
pub open spec fn joined_by<T>(parts: Seq<Seq<T>>, separator: T) -> Seq<T>
    decreases parts.len(),
{
    if parts.len() == 0 {
        Seq::empty()
    } else if parts.len() == 1 {
        parts[0]
    } else {
        joined_by(parts.drop_last(), separator).push(separator) + parts.last()
    }
}

/// No part holds the separator.
pub open spec fn are_apart<T>(parts: Seq<Seq<T>>, separator: T) -> bool {
    forall|i: int| 0 <= i < parts.len() ==> !(#[trigger] parts[i]).contains(separator)
}

/// The parts are what a separator cuts a sequence into: no part holds the separator, and with one
/// separator between each two of them they are the sequence again.
pub open spec fn are_parts_of<T>(parts: Seq<Seq<T>>, separator: T, whole: Seq<T>) -> bool {
    &&& parts.len() > 0
    &&& are_apart(parts, separator)
    &&& joined_by(parts, separator) == whole
}

/// Parts put together, with nothing between them.
pub open spec fn flat<T>(parts: Seq<Seq<T>>) -> Seq<T>
    decreases parts.len(),
{
    if parts.len() == 0 {
        Seq::empty()
    } else {
        flat(parts.drop_last()) + parts.last()
    }
}

/// What is left of a sequence without one of its values.
pub open spec fn without<T>(whole: Seq<T>, value: T) -> Seq<T>
    decreases whole.len(),
{
    if whole.len() == 0 {
        Seq::empty()
    } else if whole.last() == value {
        without(whole.drop_last(), value)
    } else {
        without(whole.drop_last(), value).push(whole.last())
    }
}

/// One more value after the parts of a sequence: a separator starts a part, and another value goes
/// to the last part.
pub proof fn lemma_parts_of_push<T>(parts: Seq<Seq<T>>, separator: T, whole: Seq<T>, value: T)
    requires
        are_parts_of(parts, separator, whole),
    ensures
        value == separator ==> are_parts_of(
            parts.push(Seq::empty()),
            separator,
            whole.push(value),
        ),
        value != separator ==> are_parts_of(
            parts.update(parts.len() - 1, parts.last().push(value)),
            separator,
            whole.push(value),
        ),
{
    if value == separator {
        let longer = parts.push(Seq::empty());
        assert(longer.drop_last() =~= parts);
        assert(joined_by(longer, separator) =~= whole.push(value));
        assert forall|i: int| 0 <= i < longer.len() implies !(#[trigger] longer[i]).contains(
            separator,
        ) by {
            if i < parts.len() {
                assert(longer[i] == parts[i]);
            }
        }
    } else {
        let last = parts.last().push(value);
        let longer = parts.update(parts.len() - 1, last);
        assert(longer.drop_last() =~= parts.drop_last());
        assert(joined_by(longer, separator) =~= whole.push(value));
        assert forall|i: int| 0 <= i < longer.len() implies !(#[trigger] longer[i]).contains(
            separator,
        ) by {
            if i < parts.len() - 1 {
                assert(longer[i] == parts[i]);
            } else {
                assert(!parts[parts.len() - 1].contains(separator));
                if last.contains(separator) {
                    let n = choose|n: int| 0 <= n < last.len() && last[n] == separator;
                    assert(parts.last()[n] == separator);
                }
            }
        }
    }
}

/// A sequence is cut in one way only.
pub proof fn lemma_parts_are_unique<T>(a: Seq<Seq<T>>, b: Seq<Seq<T>>, separator: T, whole: Seq<T>)
    requires
        are_parts_of(a, separator, whole),
        are_parts_of(b, separator, whole),
    ensures
        a == b,
    decreases a.len() + b.len(),
{
    let (x, y) = (a.last(), b.last());
    assert(a[a.len() - 1] == x && b[b.len() - 1] == y);
    lemma_joined_ends_with_last(a, separator);
    lemma_joined_ends_with_last(b, separator);
    if x.len() < y.len() {
        lemma_last_is_shortest(a, separator, y);
    } else if y.len() < x.len() {
        lemma_last_is_shortest(b, separator, x);
    }
    assert(x =~= whole.skip(whole.len() - x.len()));
    assert(y =~= whole.skip(whole.len() - y.len()));
    if a.len() == 1 && b.len() > 1 {
        assert(whole == x);
        let rest = joined_by(b.drop_last(), separator);
        assert(whole.len() == rest.len() + 1 + y.len());
    } else if b.len() == 1 && a.len() > 1 {
        let rest = joined_by(a.drop_last(), separator);
        assert(whole.len() == rest.len() + 1 + x.len());
    } else if a.len() > 1 {
        let (r, s) = (joined_by(a.drop_last(), separator), joined_by(b.drop_last(), separator));
        assert(r =~= whole.take(whole.len() - x.len() - 1));
        assert(s =~= whole.take(whole.len() - y.len() - 1));
        assert(a.drop_last().len() > 0 && b.drop_last().len() > 0);
        assert forall|i: int| 0 <= i < a.drop_last().len() implies !(#[trigger] a.drop_last()[
            i]).contains(separator) by {
            assert(a.drop_last()[i] == a[i]);
        }
        assert forall|i: int| 0 <= i < b.drop_last().len() implies !(#[trigger] b.drop_last()[
            i]).contains(separator) by {
            assert(b.drop_last()[i] == b[i]);
        }
        lemma_parts_are_unique(a.drop_last(), b.drop_last(), separator, r);
        assert(a =~= a.drop_last().push(x));
        assert(b =~= b.drop_last().push(y));
    } else {
        assert(a =~= seq![x]);
        assert(b =~= seq![y]);
    }
}

proof fn lemma_joined_ends_with_last<T>(parts: Seq<Seq<T>>, separator: T)
    requires
        parts.len() > 0,
    ensures
        ({
            let whole = joined_by(parts, separator);
            let last = parts.last();
            &&& whole.len() >= last.len()
            &&& whole.skip(whole.len() - last.len()) == last
            &&& parts.len() > 1 ==> whole.len() > last.len() && whole[whole.len() - last.len() - 1]
                == separator
        }),
{
    let whole = joined_by(parts, separator);
    let last = parts.last();
    assert(whole.skip(whole.len() - last.len()) =~= last);
}

/// What follows the last separator is the last part, so nothing longer that ends the sequence is
/// without a separator.
proof fn lemma_last_is_shortest<T>(parts: Seq<Seq<T>>, separator: T, other: Seq<T>)
    requires
        parts.len() > 0,
        parts.last().len() < other.len(),
        other.len() <= joined_by(parts, separator).len(),
        joined_by(parts, separator).skip(joined_by(parts, separator).len() - other.len()) == other,
    ensures
        other.contains(separator),
{
    let whole = joined_by(parts, separator);
    let last = parts.last();
    if parts.len() == 1 {
        assert(whole == last);
    } else {
        lemma_joined_ends_with_last(parts, separator);
        let n = other.len() - last.len() - 1;
        assert(other[n] == whole[whole.len() - other.len() + n]);
        assert(other[n] == separator);
        assert(other.contains(separator));
    }
}

/// A sequence without separators is one part.
pub proof fn lemma_whole_is_one_part<T>(separator: T, whole: Seq<T>)
    requires
        !whole.contains(separator),
    ensures
        are_parts_of(seq![whole], separator, whole),
{
    assert(joined_by(seq![whole], separator) == whole);
}

/// Parts with nothing between them are the sequence without its separators.
pub proof fn lemma_flat_parts<T>(parts: Seq<Seq<T>>, separator: T)
    requires
        are_apart(parts, separator),
    ensures
        flat(parts) == without(joined_by(parts, separator), separator),
    decreases parts.len(),
{
    if parts.len() > 0 {
        let rest = parts.drop_last();
        assert(!parts[parts.len() - 1].contains(separator));
        assert forall|i: int| 0 <= i < rest.len() implies !(#[trigger] rest[i]).contains(
            separator,
        ) by {
            assert(rest[i] == parts[i]);
        }
        lemma_flat_parts(rest, separator);
        if parts.len() == 1 {
            lemma_without_add(Seq::empty(), parts.last(), separator);
            assert(Seq::<T>::empty() + parts.last() =~= parts.last());
            assert(flat(rest) =~= Seq::<T>::empty());
        } else {
            let before = joined_by(rest, separator);
            lemma_without_add(before.push(separator), parts.last(), separator);
            assert(before.push(separator).drop_last() =~= before);
        }
    }
}

proof fn lemma_without_add<T>(before: Seq<T>, after: Seq<T>, value: T)
    requires
        !after.contains(value),
    ensures
        without(before + after, value) == without(before, value) + after,
    decreases after.len(),
{
    if after.len() == 0 {
        assert(before + after =~= before);
        assert(without(before, value) + after =~= without(before, value));
    } else {
        let rest = after.drop_last();
        assert(after[after.len() - 1] != value);
        if rest.contains(value) {
            let n = choose|n: int| 0 <= n < rest.len() && rest[n] == value;
            assert(after[n] == value);
        }
        lemma_without_add(before, rest, value);
        assert((before + after).drop_last() =~= before + rest);
        assert(without(before, value) + after =~= (without(before, value) + rest).push(
            after.last(),
        ));
    }
}

} // verus!
