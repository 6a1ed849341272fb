//! Lists of texts kept as one text, with a semicolon between each two items, as the
//! tags and the check list of an event are stored.

use crate::text::chars_of;
use vstd::prelude::*;

verus! {

/// The pieces of `s` between the occurrences of `separator`, in order. A text
/// without the separator is one piece, and so is the empty text.
pub open spec fn split_on(s: Seq<char>, separator: char) -> Seq<Seq<char>>
    decreases s.len(),
{
    if s.len() == 0 {
        seq![Seq::empty()]
    } else {
        let before = split_on(s.drop_last(), separator);
        if s.last() == separator {
            before.push(Seq::empty())
        } else {
            before.drop_last().push(before.last().push(s.last()))
        }
    }
}

/// The items in one text, with `separator` between each two.
pub open spec fn joined_with(items: Seq<Seq<char>>, separator: char) -> Seq<char>
    decreases items.len(),
{
    if items.len() == 0 {
        Seq::empty()
    } else if items.len() == 1 {
        items[0]
    } else {
        joined_with(items.drop_last(), separator) + seq![separator] + items.last()
    }
}

/// Whether `separator` occurs in none of the items.
pub open spec fn free_of(items: Seq<Seq<char>>, separator: char) -> bool {
    forall|i: int, j: int|
        0 <= i < items.len() && 0 <= j < items[i].len() ==> #[trigger] items[i][j] != separator
}

/// A text always has at least one piece.
pub proof fn lemma_split_is_not_empty(s: Seq<char>, separator: char)
    ensures
        split_on(s, separator).len() >= 1,
    decreases s.len(),
{
    if s.len() > 0 {
        lemma_split_is_not_empty(s.drop_last(), separator);
    }
}

/// The pieces of a text, joined again, are the text.
pub proof fn lemma_join_of_split(s: Seq<char>, separator: char)
    ensures
        joined_with(split_on(s, separator), separator) == s,
    decreases s.len(),
{
    if s.len() == 0 {
        assert(split_on(s, separator)[0] =~= s);
    } else {
        let rest = s.drop_last();
        let before = split_on(rest, separator);
        lemma_split_is_not_empty(rest, separator);
        lemma_join_of_split(rest, separator);
        if s.last() == separator {
            let all = before.push(Seq::empty());
            assert(all.drop_last() =~= before);
            assert(joined_with(all, separator) =~= rest + seq![separator]);
            assert(rest + seq![separator] =~= s);
        } else {
            let last = before.last().push(s.last());
            let all = before.drop_last().push(last);
            assert(all.drop_last() =~= before.drop_last());
            if before.len() == 1 {
                assert(joined_with(before, separator) == before[0]);
                assert(joined_with(all, separator) =~= rest.push(s.last()));
            } else {
                assert(joined_with(all, separator) =~= joined_with(before, separator).push(
                    s.last(),
                ));
            }
            assert(rest.push(s.last()) =~= s);
        }
    }
}

/// A piece added behind a separator is a piece of its own.
proof fn lemma_split_append(s: Seq<char>, item: Seq<char>, separator: char)
    requires
        forall|j: int| 0 <= j < item.len() ==> item[j] != separator,
    ensures
        split_on(s + seq![separator] + item, separator) == split_on(s, separator).push(item),
    decreases item.len(),
{
    let whole = s + seq![separator] + item;
    if item.len() == 0 {
        assert(whole.drop_last() =~= s);
        assert(item =~= Seq::empty());
    } else {
        let shorter = item.drop_last();
        lemma_split_append(s, shorter, separator);
        assert(whole.drop_last() =~= s + seq![separator] + shorter);
        assert(whole.last() == item.last());
        let before = split_on(s, separator).push(shorter);
        assert(before.drop_last() =~= split_on(s, separator));
        assert(shorter.push(item.last()) =~= item);
    }
}

/// A text without the separator is its own single piece.
proof fn lemma_split_single(item: Seq<char>, separator: char)
    requires
        forall|j: int| 0 <= j < item.len() ==> item[j] != separator,
    ensures
        split_on(item, separator) == seq![item],
    decreases item.len(),
{
    if item.len() == 0 {
        assert(item =~= Seq::<char>::empty());
    } else {
        lemma_split_single(item.drop_last(), separator);
        let before = seq![item.drop_last()];
        assert(before.last() == item.drop_last());
        assert(item.drop_last().push(item.last()) =~= item);
        assert(before.drop_last().push(item) =~= seq![item]);
    }
}

/// Items that are free of the separator come back from their joined text as they
/// went in, provided there is at least one.
pub proof fn lemma_split_of_join(items: Seq<Seq<char>>, separator: char)
    requires
        items.len() >= 1,
        free_of(items, separator),
    ensures
        split_on(joined_with(items, separator), separator) == items,
    decreases items.len(),
{
    if items.len() == 1 {
        lemma_split_single(items[0], separator);
        assert(seq![items[0]] =~= items);
    } else {
        let rest = items.drop_last();
        assert(free_of(rest, separator)) by {
            assert forall|i: int, j: int|
                0 <= i < rest.len() && 0 <= j < rest[i].len() implies #[trigger] rest[i][j]
                != separator by {
                assert(rest[i] == items[i]);
                assert(items[i][j] != separator);
            }
        }
        lemma_split_of_join(rest, separator);
        assert forall|j: int| 0 <= j < items.last().len() implies items.last()[j]
            != separator by {
            assert(items[items.len() - 1][j] != separator);
        }
        lemma_split_append(joined_with(rest, separator), items.last(), separator);
        assert(rest.push(items.last()) =~= items);
    }
}

/// The items of a stored list: the pieces of `text` between semicolons.
pub fn split_list(text: &str) -> (r: Vec<String>)
    ensures
        r.deep_view() == split_on(text@, ';'),
{
    let chars = chars_of(text);
    let mut items: Vec<String> = Vec::new();
    let mut start: usize = 0;
    let mut i: usize = 0;
    proof {
        assert(text@.take(0) =~= Seq::<char>::empty());
        assert(text@.subrange(0, 0) =~= Seq::<char>::empty());
        assert(items.deep_view() =~= split_on(text@.take(0), ';').drop_last());
    }
    while i < chars.len()
        invariant
            chars@ == text@,
            start <= i <= chars.len(),
            split_on(text@.take(i as int), ';').len() >= 1,
            items.deep_view() == split_on(text@.take(i as int), ';').drop_last(),
            text@.subrange(start as int, i as int) == split_on(text@.take(i as int), ';').last(),
        decreases chars.len() - i,
    {
        let ghost before = split_on(text@.take(i as int), ';');
        let ghost now = split_on(text@.take(i + 1), ';');
        proof {
            assert(text@.take(i + 1).drop_last() =~= text@.take(i as int));
            assert(text@.take(i + 1).last() == chars@[i as int]);
        }
        if chars[i] == ';' {
            let ghost old_items = items.deep_view();
            let item = String::from_str(text.substring_char(start, i));
            items.push(item);
            start = i + 1;
            proof {
                assert(now == before.push(Seq::empty()));
                assert(items.deep_view() =~= old_items.push(before.last()));
                assert(old_items.push(before.last()) =~= before);
                assert(now.drop_last() =~= before);
                assert(text@.subrange(i + 1, i + 1) =~= Seq::<char>::empty());
            }
        } else {
            proof {
                assert(now == before.drop_last().push(before.last().push(chars@[i as int])));
                assert(now.drop_last() =~= before.drop_last());
                assert(text@.subrange(start as int, i + 1) =~= text@.subrange(
                    start as int,
                    i as int,
                ).push(chars@[i as int]));
            }
        }
        i += 1;
    }
    let ghost all = split_on(text@, ';');
    let ghost old_items = items.deep_view();
    let item = String::from_str(text.substring_char(start, i));
    items.push(item);
    proof {
        assert(text@.take(i as int) =~= text@);
        assert(items.deep_view() =~= old_items.push(all.last()));
        assert(all.drop_last().push(all.last()) =~= all);
    }
    items
}

/// The items as one stored list: a semicolon between each two.
pub fn join_list(items: &Vec<String>) -> (r: String)
    ensures
        r@ == joined_with(items.deep_view(), ';'),
{
    let mut text = String::new();
    let mut i: usize = 0;
    proof {
        reveal_strlit(";");
        assert(";"@ =~= seq![';']);
        assert(items.deep_view().take(0) =~= Seq::<Seq<char>>::empty());
    }
    while i < items.len()
        invariant
            i <= items.len(),
            ";"@ == seq![';'],
            text@ == joined_with(items.deep_view().take(i as int), ';'),
        decreases items.len() - i,
    {
        proof {
            let all = items.deep_view();
            assert(all.take(i + 1).drop_last() =~= all.take(i as int));
            assert(all.take(i + 1).last() == items@[i as int]@);
            if i == 0 {
                assert(all.take(1)[0] == items@[0]@);
                assert(Seq::<char>::empty() + items@[0]@ =~= items@[0]@);
            }
        }
        if i > 0 {
            text.append(";");
        }
        text.append(items[i].as_str());
        i += 1;
    }
    proof {
        let all = items.deep_view();
        assert(all.take(all.len() as int) =~= all);
    }
    text
}

} // verus!
