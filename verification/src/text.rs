//! Texts and their parts.

use vstd::prelude::*;
use vstd::string::StringExecFns;

verus! {

use crate::joining::{
    are_parts_of, lemma_parts_are_unique, lemma_parts_of_push, lemma_whole_is_one_part,
};

/// The parts of a text between the places of a separator.
pub open spec fn split_text(separator: char, text: Seq<char>) -> Seq<Seq<char>>
    decreases text.len(),
{
    if text.len() == 0 {
        seq![Seq::<char>::empty()]
    } else {
        let rest = split_text(separator, text.drop_last());
        if text.last() == separator {
            rest.push(Seq::empty())
        } else {
            rest.update(rest.len() - 1, rest.last().push(text.last()))
        }
    }
}

/// What strings hold.
pub open spec fn texts(strings: Seq<String>) -> Seq<Seq<char>> {
    Seq::new(strings.len(), |i: int| strings[i]@)
}

/// A text has at least one part.
pub proof fn lemma_split_nonempty(separator: char, text: Seq<char>)
    ensures
        split_text(separator, text).len() > 0,
    decreases text.len(),
{
    if text.len() > 0 {
        lemma_split_nonempty(separator, text.drop_last());
    }
}

/// Cuts a text at each place of a separator.
pub fn split(separator: char, text: &str) -> (parts: Vec<String>)
    ensures
        texts(parts@) == split_text(separator, text@),
        are_parts_of(texts(parts@), separator, text@),
{
    proof {
        law_split_joins_back(separator, text@);
    }
    let len: usize = text.unicode_len();
    let mut parts: Vec<String> = Vec::new();
    let mut current = String::new();
    let mut index: usize = 0;
    proof {
        assert(text@.take(0) =~= Seq::<char>::empty());
        assert(texts(parts@).push(current@) =~= split_text(separator, text@.take(0)));
    }
    while index < len
        invariant
            len == text@.len(),
            index <= len,
            texts(parts@).push(current@) == split_text(separator, text@.take(index as int)),
        decreases len - index,
    {
        let ghost before = texts(parts@).push(current@);
        let ghost next = text@.take(index + 1);
        proof {
            assert(next.drop_last() =~= text@.take(index as int));
            assert(next.last() == text@[index as int]);
        }
        if text.get_char(index) == separator {
            parts.push(current);
            current = String::new();
            proof {
                assert(texts(parts@) =~= before);
                assert(texts(parts@).push(current@) =~= split_text(separator, next));
            }
        } else {
            let ghost former = current@;
            current.append(text.substring_char(index, index + 1));
            proof {
                assert(text@.subrange(index as int, index + 1) =~= seq![text@[index as int]]);
                assert(current@ =~= former.push(text@[index as int]));
                assert(texts(parts@).push(current@) =~= split_text(separator, next));
            }
        }
        index = index + 1;
    }
    proof {
        assert(text@.take(index as int) =~= text@);
        assert(texts(parts@.push(current)) =~= texts(parts@).push(current@));
    }
    parts.push(current);
    parts
}

/// Compares two texts.
pub fn same_text(a: &str, b: &str) -> (same: bool)
    ensures
        same == (a@ == b@),
{
    String::from_str(a) == String::from_str(b)
}

/// Cutting a text loses nothing: no part holds the separator, and the parts with one separator
/// between each two are the text again.
pub proof fn law_split_joins_back(separator: char, text: Seq<char>)
    ensures
        are_parts_of(split_text(separator, text), separator, text),
    decreases text.len(),
{
    if text.len() > 0 {
        law_split_joins_back(separator, text.drop_last());
        lemma_parts_of_push(
            split_text(separator, text.drop_last()),
            separator,
            text.drop_last(),
            text.last(),
        );
        assert(text.drop_last().push(text.last()) =~= text);
    } else {
        assert(text =~= Seq::<char>::empty());
        lemma_whole_is_one_part(separator, text);
    }
}

/// Whatever parts without a separator are joined by it, cutting the text gives them back.
pub proof fn law_join_splits_back(separator: char, text: Seq<char>, parts: Seq<Seq<char>>)
    requires
        are_parts_of(parts, separator, text),
    ensures
        split_text(separator, text) == parts,
{
    law_split_joins_back(separator, text);
    lemma_parts_are_unique(split_text(separator, text), parts, separator, text);
}

/// The parts of two texts with a separator between them are those of the first, then those of the
/// second.
pub proof fn law_split_of_joined(separator: char, a: Seq<char>, b: Seq<char>)
    ensures
        split_text(separator, a.push(separator) + b) == split_text(separator, a) + split_text(
            separator,
            b,
        ),
    decreases b.len(),
{
    let whole = a.push(separator) + b;
    if b.len() == 0 {
        assert(whole.drop_last() =~= a);
        assert(split_text(separator, whole) =~= split_text(separator, a) + split_text(
            separator,
            b,
        ));
    } else {
        law_split_of_joined(separator, a, b.drop_last());
        lemma_split_nonempty(separator, b.drop_last());
        assert(whole.drop_last() =~= a.push(separator) + b.drop_last());
        assert(split_text(separator, whole) =~= split_text(separator, a) + split_text(
            separator,
            b,
        ));
    }
}

} // verus!
