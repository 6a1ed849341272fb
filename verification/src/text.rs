//! Text primitives shared by the filters: the whitespace class, blank strings and
//! whitespace-separated tokens.

use vstd::prelude::*;

verus! {

/// The characters with the Unicode property `White_Space`.
pub open spec fn is_whitespace(c: char) -> bool {
    let n = c as u32;
    ||| 0x09 <= n <= 0x0D
    ||| n == 0x20
    ||| n == 0x85
    ||| n == 0xA0
    ||| n == 0x1680
    ||| 0x2000 <= n <= 0x200A
    ||| n == 0x2028
    ||| n == 0x2029
    ||| n == 0x202F
    ||| n == 0x205F
    ||| n == 0x3000
}

/// Whether `c` has the Unicode property `White_Space`.
pub fn char_is_whitespace(c: char) -> (r: bool)
    ensures
        r == is_whitespace(c),
{
    let n: u32 = c as u32;
    (0x09 <= n && n <= 0x0D) || n == 0x20 || n == 0x85 || n == 0xA0 || n == 0x1680 || (0x2000 <= n
        && n <= 0x200A) || n == 0x2028 || n == 0x2029 || n == 0x202F || n == 0x205F || n == 0x3000
}

/// The characters of `s`, in order.
pub fn chars_of(s: &str) -> (out: Vec<char>)
    ensures
        out@ == s@,
{
    let mut out: Vec<char> = Vec::new();
    for c in it: s.chars()
        invariant
            out@ == it.seq().take(it.index()),
            it.seq() == s@,
    {
        out.push(c);
    }
    out
}

/// Whether `a` and `b` hold the same characters.
pub fn same_text(a: &str, b: &str) -> (r: bool)
    ensures
        r == (a@ == b@),
{
    let x = chars_of(a);
    let y = chars_of(b);
    if x.len() != y.len() {
        return false;
    }
    let mut i: usize = 0;
    while i < x.len()
        invariant
            i <= x.len(),
            x@ == a@,
            y@ == b@,
            x.len() == y.len(),
            forall|j: int| 0 <= j < i ==> x@[j] == y@[j],
        decreases x.len() - i,
    {
        if x[i] != y[i] {
            return false;
        }
        i += 1;
    }
    proof {
        assert(x@ =~= y@);
    }
    true
}

/// Whether every character of `s` is whitespace; the empty sequence is blank.
pub open spec fn is_blank(s: Seq<char>) -> bool {
    forall|i: int| 0 <= i < s.len() ==> is_whitespace(#[trigger] s[i])
}

/// Whether nothing is left of `s` once the whitespace around it is taken away.
pub fn str_is_blank(s: &str) -> (r: bool)
    ensures
        r == is_blank(s@),
{
    let mut blank = true;
    for c in it: s.chars()
        invariant
            it.seq() == s@,
            blank == is_blank(s@.take(it.index())),
    {
        proof {
            let k = it.index();
            assert(s@.take(k + 1) =~= s@.take(k).push(c));
            if is_blank(s@.take(k)) && is_whitespace(c) {
                assert(is_blank(s@.take(k + 1)));
            } else if !is_whitespace(c) {
                assert(s@.take(k + 1)[k] == c);
            } else {
                let j = choose|j: int| 0 <= j < k && !is_whitespace(#[trigger] s@.take(k)[j]);
                assert(s@.take(k + 1)[j] == s@.take(k)[j]);
            }
        }
        blank = blank && char_is_whitespace(c);
    }
    proof {
        assert(s@.take(s@.len() as int) =~= s@);
    }
    blank
}

/// Whether at least one of `items` is not blank.
pub open spec fn any_filled(items: Seq<Seq<char>>) -> bool {
    exists|i: int| 0 <= i < items.len() && !is_blank(#[trigger] items[i])
}

/// Whether at least one of `items` holds something besides whitespace.
pub fn has_filled_item(items: &Vec<String>) -> (r: bool)
    ensures
        r == any_filled(items.deep_view()),
{
    let mut i: usize = 0;
    while i < items.len()
        invariant
            i <= items.len(),
            forall|j: int| 0 <= j < i ==> is_blank(#[trigger] items.deep_view()[j]),
        decreases items.len() - i,
    {
        if !str_is_blank(items[i].as_str()) {
            assert(!is_blank(items.deep_view()[i as int]));
            return true;
        }
        i += 1;
    }
    false
}

/// The words of `s`: its maximal runs of characters that are not whitespace, in
/// order. Read from the back: a whitespace character adds nothing, any other
/// character lengthens the last word when its left neighbour belongs to a word, and
/// opens a new word otherwise.
pub open spec fn split_whitespace(s: Seq<char>) -> Seq<Seq<char>>
    decreases s.len(),
{
    if s.len() == 0 {
        Seq::empty()
    } else {
        let before = split_whitespace(s.drop_last());
        let c = s.last();
        if is_whitespace(c) {
            before
        } else if s.len() >= 2 && !is_whitespace(s[s.len() - 2]) {
            before.drop_last().push(before.last().push(c))
        } else {
            before.push(seq![c])
        }
    }
}

/// Every word holds at least one character and no whitespace, and a text that
/// ends in a character of a word has a word.
pub proof fn lemma_words_hold_no_whitespace(s: Seq<char>)
    ensures
        forall|k: int, j: int|
            0 <= k < split_whitespace(s).len() && 0 <= j < split_whitespace(s)[k].len()
                ==> !is_whitespace(#[trigger] split_whitespace(s)[k][j]),
        forall|k: int|
            0 <= k < split_whitespace(s).len() ==> (#[trigger] split_whitespace(s)[k]).len() > 0,
        s.len() > 0 && !is_whitespace(s.last()) ==> split_whitespace(s).len() > 0,
    decreases s.len(),
{
    if s.len() > 0 {
        let rest = s.drop_last();
        lemma_words_hold_no_whitespace(rest);
        let before = split_whitespace(rest);
        let words = split_whitespace(s);
        let c = s.last();
        if !is_whitespace(c) {
            if s.len() >= 2 && !is_whitespace(s[s.len() - 2]) {
                assert(rest.last() == s[s.len() - 2]);
                let last = before.last().push(c);
                assert(words == before.drop_last().push(last));
                assert forall|k: int, j: int|
                    0 <= k < words.len() && 0 <= j < words[k].len() implies !is_whitespace(
                    #[trigger] words[k][j],
                ) by {
                    if k < words.len() - 1 {
                        assert(words[k] == before[k]);
                    } else if j < before.last().len() {
                        assert(words[k][j] == before[before.len() - 1][j]);
                    }
                }
                assert forall|k: int| 0 <= k < words.len() implies (#[trigger] words[k]).len()
                    > 0 by {
                    if k < words.len() - 1 {
                        assert(words[k] == before[k]);
                    }
                }
            } else {
                assert(words == before.push(seq![c]));
                assert forall|k: int, j: int|
                    0 <= k < words.len() && 0 <= j < words[k].len() implies !is_whitespace(
                    #[trigger] words[k][j],
                ) by {
                    if k < before.len() {
                        assert(words[k] == before[k]);
                    }
                }
                assert forall|k: int| 0 <= k < words.len() implies (#[trigger] words[k]).len()
                    > 0 by {
                    if k < before.len() {
                        assert(words[k] == before[k]);
                    }
                }
            }
        }
    }
}

/// A text has no words exactly when it is blank.
pub proof fn lemma_blank_has_no_words(s: Seq<char>)
    ensures
        is_blank(s) <==> split_whitespace(s).len() == 0,
    decreases s.len(),
{
    if s.len() > 0 {
        let rest = s.drop_last();
        lemma_blank_has_no_words(rest);
        lemma_words_hold_no_whitespace(rest);
        if is_blank(s) {
            assert forall|i: int| 0 <= i < rest.len() implies is_whitespace(#[trigger] rest[i]) by {
                assert(rest[i] == s[i]);
            }
            assert(is_whitespace(s[s.len() - 1]));
        } else if is_whitespace(s.last()) {
            let i = choose|i: int| 0 <= i < s.len() && !is_whitespace(#[trigger] s[i]);
            assert(rest[i] == s[i]);
        } else if s.len() >= 2 && !is_whitespace(s[s.len() - 2]) {
            assert(rest.last() == s[s.len() - 2]);
        }
        if split_whitespace(s).len() == 0 {
            assert(is_whitespace(s.last()));
            assert forall|i: int| 0 <= i < s.len() implies is_whitespace(#[trigger] s[i]) by {
                if i < rest.len() {
                    assert(rest[i] == s[i]);
                }
            }
        }
    }
}

/// Where each word of `chars` begins and ends: for the word at position `k`, the
/// index of its first character and the index just past its last.
pub fn word_spans(chars: &Vec<char>) -> (spans: Vec<(usize, usize)>)
    ensures
        spans@.len() == split_whitespace(chars@).len(),
        forall|k: int|
            0 <= k < spans@.len() ==> {
                &&& (#[trigger] spans@[k]).0 < spans@[k].1 <= chars@.len()
                &&& chars@.subrange(spans@[k].0 as int, spans@[k].1 as int) == split_whitespace(
                    chars@,
                )[k]
            },
{
    let mut spans: Vec<(usize, usize)> = Vec::new();
    let mut in_word = false;
    let mut i: usize = 0;
    while i < chars.len()
        invariant
            i <= chars.len(),
            in_word == (i > 0 && !is_whitespace(chars@[i - 1])),
            in_word ==> spans@.len() > 0 && spans@[spans@.len() - 1].1 == i,
            spans@.len() == split_whitespace(chars@.take(i as int)).len(),
            forall|k: int|
                0 <= k < spans@.len() ==> {
                    &&& (#[trigger] spans@[k]).0 < spans@[k].1 <= i
                    &&& chars@.subrange(spans@[k].0 as int, spans@[k].1 as int)
                        == split_whitespace(chars@.take(i as int))[k]
                },
        decreases chars.len() - i,
    {
        let c = chars[i];
        let ghost before = split_whitespace(chars@.take(i as int));
        let ghost old_spans = spans@;
        proof {
            assert(chars@.take(i + 1).drop_last() =~= chars@.take(i as int));
            assert(chars@.take(i + 1).last() == c);
            if i > 0 {
                assert(chars@.take(i + 1)[i - 1] == chars@[i - 1]);
            }
        }
        if char_is_whitespace(c) {
            in_word = false;
        } else if in_word {
            let last = spans.len() - 1;
            let start = spans[last].0;
            spans.set(last, (start, i + 1));
            proof {
                assert(chars@.subrange(start as int, i + 1) =~= chars@.subrange(
                    start as int,
                    i as int,
                ).push(c));
                assert forall|k: int| 0 <= k < spans@.len() implies {
                    &&& (#[trigger] spans@[k]).0 < spans@[k].1 <= i + 1
                    &&& chars@.subrange(spans@[k].0 as int, spans@[k].1 as int)
                        == split_whitespace(chars@.take(i + 1))[k]
                } by {
                    if k < last {
                        assert(spans@[k] == old_spans[k]);
                    }
                }
            }
        } else {
            spans.push((i, i + 1));
            in_word = true;
            proof {
                assert(chars@.subrange(i as int, i + 1) =~= seq![c]);
                assert forall|k: int| 0 <= k < spans@.len() implies {
                    &&& (#[trigger] spans@[k]).0 < spans@[k].1 <= i + 1
                    &&& chars@.subrange(spans@[k].0 as int, spans@[k].1 as int)
                        == split_whitespace(chars@.take(i + 1))[k]
                } by {
                    if k < old_spans.len() {
                        assert(spans@[k] == old_spans[k]);
                    }
                }
            }
        }
        i += 1;
    }
    proof {
        assert(chars@.take(chars@.len() as int) =~= chars@);
    }
    spans
}

} // verus!
