use vstd::prelude::*;

use crate::text::{
    char_is_whitespace, chars_of, is_whitespace, join_str, joined, string_from_chars,
};

verus! {

/// `c` is ASCII whitespace in the sense of `char::is_ascii_whitespace`: space,
/// horizontal tab, line feed, form feed or carriage return.
pub open spec fn is_ascii_whitespace(c: char) -> bool {
    c == ' ' || c == '\t' || c == '\n' || c == '\x0C' || c == '\r'
}

/// Whether `c` separates words: ASCII whitespace when `ascii`, Unicode
/// whitespace otherwise.
pub open spec fn is_word_break(c: char, ascii: bool) -> bool {
    if ascii {
        is_ascii_whitespace(c)
    } else {
        is_whitespace(c)
    }
}

/// Reading `s` from the left: the words finished so far, and the word being
/// read.
pub open spec fn word_scan(s: Seq<char>, ascii: bool) -> (Seq<Seq<char>>, Seq<char>)
    decreases s.len(),
{
    if s.len() == 0 {
        (Seq::<Seq<char>>::empty(), Seq::<char>::empty())
    } else {
        let before = word_scan(s.drop_last(), ascii);
        if is_word_break(s.last(), ascii) {
            if before.1.len() > 0 {
                (before.0.push(before.1), Seq::<char>::empty())
            } else {
                before
            }
        } else {
            (before.0, before.1.push(s.last()))
        }
    }
}

/// The maximal runs of characters of `s` that do not break words, in order
/// (`split_ascii_whitespace` when `ascii`, `split_whitespace` otherwise).
pub open spec fn words_of(s: Seq<char>, ascii: bool) -> Seq<Seq<char>> {
    let scan = word_scan(s, ascii);
    if scan.1.len() > 0 {
        scan.0.push(scan.1)
    } else {
        scan.0
    }
}

fn char_is_ascii_whitespace(c: char) -> (r: bool)
    ensures
        r == is_ascii_whitespace(c),
{
    c == ' ' || c == '\t' || c == '\n' || c == '\x0C' || c == '\r'
}

fn split_words(s: &str, ascii: bool) -> (r: Vec<String>)
    ensures
        r@.map_values(|w: String| w@) == words_of(s@, ascii),
{
    let cs = chars_of(s);
    let mut r: Vec<String> = Vec::new();
    let mut cur: Vec<char> = Vec::new();
    let mut i: usize = 0;
    assert(cs@.subrange(0, 0) =~= Seq::<char>::empty());
    assert(r@.map_values(|w: String| w@) =~= Seq::<Seq<char>>::empty());
    while i < cs.len()
        invariant
            cs@ == s@,
            i <= cs@.len(),
            r@.map_values(|w: String| w@) == word_scan(cs@.subrange(0, i as int), ascii).0,
            cur@ == word_scan(cs@.subrange(0, i as int), ascii).1,
        decreases cs@.len() - i,
    {
        let ghost prefix = cs@.subrange(0, i as int);
        let ghost next = cs@.subrange(0, i + 1);
        assert(next.drop_last() =~= prefix);
        assert(next.last() == cs@[i as int]);
        let c = cs[i];
        let brk = if ascii {
            char_is_ascii_whitespace(c)
        } else {
            char_is_whitespace(c)
        };
        if brk {
            if cur.len() > 0 {
                let w = string_from_chars(cur.as_slice());
                let ghost before = r@;
                r.push(w);
                assert(r@.map_values(|w: String| w@) =~= before.map_values(|w: String| w@).push(
                    cur@,
                ));
                cur = Vec::new();
                assert(cur@ =~= Seq::<char>::empty());
            }
        } else {
            cur.push(c);
        }
        i = i + 1;
    }
    assert(cs@.subrange(0, cs@.len() as int) =~= s@);
    if cur.len() > 0 {
        let w = string_from_chars(cur.as_slice());
        let ghost before = r@;
        r.push(w);
        assert(r@.map_values(|w: String| w@) =~= before.map_values(|w: String| w@).push(cur@));
    }
    r
}

/// The words of a recovery phrase, split at ASCII whitespace
/// (`phrase.split_ascii_whitespace()`), as the page that shows a new account's
/// seed words reads them.
pub fn split_ascii_whitespace_words(phrase: &str) -> (r: Vec<String>)
    ensures
        r@.map_values(|w: String| w@) == words_of(phrase@, true),
{
    split_words(phrase, true)
}

/// The words of a recovery phrase, split at any whitespace
/// (`phrase.split_whitespace()`), as the profile page reads them.
pub fn split_whitespace_words(phrase: &str) -> (r: Vec<String>)
    ensures
        r@.map_values(|w: String| w@) == words_of(phrase@, false),
{
    split_words(phrase, false)
}

/// The text put on the clipboard when the seed words are copied: one word per
/// line (`words.join("\n")`).
pub fn seed_copy_text(words: &Vec<String>) -> (r: String)
    ensures
        r@ == joined(words@.map_values(|w: String| w@), seq!['\n']),
{
    proof {
        reveal_strlit("\n");
        assert("\n"@ =~= seq!['\n']);
    }
    join_str(words, "\n")
}

/// One row of the seed-word grid: two words with their numbers, counted from 1.
#[derive(Debug)]
pub struct SeedRow {
    pub first_number: usize,
    pub first_word: String,
    pub second_number: usize,
    pub second_word: String,
}

/// The rows of the seed-word grid: the words in pairs, in order, each word with
/// its position counted from 1; an odd last word is left out
/// (`words.chunks_exact(2)`).
pub fn seed_word_rows(words: &Vec<String>) -> (rows: Vec<SeedRow>)
    ensures
        rows@.len() == words@.len() / 2,
        forall|i: int|
            0 <= i < rows@.len() ==> {
                &&& #[trigger] rows@[i].first_number == 2 * i + 1
                &&& rows@[i].second_number == 2 * i + 2
                &&& rows@[i].first_word@ == words@[2 * i]@
                &&& rows@[i].second_word@ == words@[2 * i + 1]@
            },
{
    let n = words.len() / 2;
    assert(2 * n <= words@.len()) by (nonlinear_arith)
        requires
            n == words@.len() / 2,
    ;
    let mut rows: Vec<SeedRow> = Vec::new();
    let mut i: usize = 0;
    while i < n
        invariant
            n == words@.len() / 2,
            2 * n <= words@.len(),
            words@.len() <= usize::MAX,
            i <= n,
            rows@.len() == i,
            forall|k: int|
                0 <= k < i ==> {
                    &&& #[trigger] rows@[k].first_number == 2 * k + 1
                    &&& rows@[k].second_number == 2 * k + 2
                    &&& rows@[k].first_word@ == words@[2 * k]@
                    &&& rows@[k].second_word@ == words@[2 * k + 1]@
                },
        decreases n - i,
    {
        let row = SeedRow {
            first_number: 2 * i + 1,
            first_word: words[2 * i].clone(),
            second_number: 2 * i + 2,
            second_word: words[2 * i + 1].clone(),
        };
        let ghost before = rows@;
        rows.push(row);
        assert forall|k: int| 0 <= k < i + 1 implies {
            &&& #[trigger] rows@[k].first_number == 2 * k + 1
            &&& rows@[k].second_number == 2 * k + 2
            &&& rows@[k].first_word@ == words@[2 * k]@
            &&& rows@[k].second_word@ == words@[2 * k + 1]@
        } by {
            if k < i {
                assert(rows@[k] == before[k]);
            }
        }
        i = i + 1;
    }
    rows
}

/// A list of words that a phrase can hold: none is empty and none holds a
/// character that breaks words.
pub open spec fn well_formed_words(ws: Seq<Seq<char>>, ascii: bool) -> bool {
    forall|i: int|
        0 <= i < ws.len() ==> (#[trigger] ws[i]).len() > 0 && forall|j: int|
            0 <= j < ws[i].len() ==> !is_word_break(ws[i][j], ascii)
}

proof fn lemma_scan_append_word(q: Seq<char>, w: Seq<char>, ascii: bool)
    requires
        forall|j: int| 0 <= j < w.len() ==> !is_word_break(#[trigger] w[j], ascii),
    ensures
        word_scan(q + w, ascii) == (word_scan(q, ascii).0, word_scan(q, ascii).1 + w),
    decreases w.len(),
{
    if w.len() == 0 {
        assert(q + w =~= q);
        assert(word_scan(q, ascii).1 + w =~= word_scan(q, ascii).1);
    } else {
        let w2 = w.drop_last();
        assert forall|j: int| 0 <= j < w2.len() implies !is_word_break(#[trigger] w2[j], ascii) by {
            assert(w2[j] == w[j]);
        }
        lemma_scan_append_word(q, w2, ascii);
        assert((q + w).drop_last() =~= q + w2);
        assert((q + w).last() == w.last());
        assert(!is_word_break(w[w.len() - 1], ascii));
        assert((word_scan(q, ascii).1 + w2).push(w.last()) =~= word_scan(q, ascii).1 + w);
    }
}

proof fn lemma_scan_joined(ws: Seq<Seq<char>>, ascii: bool)
    requires
        ws.len() >= 1,
        well_formed_words(ws, ascii),
    ensures
        word_scan(joined(ws, seq!['\n']), ascii) == (ws.drop_last(), ws.last()),
    decreases ws.len(),
{
    let w = ws.last();
    assert(ws[ws.len() - 1].len() > 0);
    assert forall|j: int| 0 <= j < w.len() implies !is_word_break(#[trigger] w[j], ascii) by {
        assert(ws[ws.len() - 1][j] == w[j]);
    }
    if ws.len() == 1 {
        let e = Seq::<char>::empty();
        lemma_scan_append_word(e, w, ascii);
        assert(e + w =~= w);
        assert(Seq::<char>::empty() + w =~= w);
        assert(ws.drop_last() =~= Seq::<Seq<char>>::empty());
    } else {
        let rest = ws.drop_last();
        assert forall|i: int| 0 <= i < rest.len() implies (#[trigger] rest[i]).len() > 0
            && forall|j: int| 0 <= j < rest[i].len() ==> !is_word_break(rest[i][j], ascii) by {
            assert(rest[i] == ws[i]);
        }
        lemma_scan_joined(rest, ascii);
        let jr = joined(rest, seq!['\n']);
        let q = jr + seq!['\n'];
        assert(q.drop_last() =~= jr);
        assert(q.last() == '\n');
        assert(rest.last() == ws[ws.len() - 2]);
        assert(rest.last().len() > 0);
        assert(rest.drop_last().push(rest.last()) =~= rest);
        assert(word_scan(q, ascii) == (rest, Seq::<char>::empty()));
        lemma_scan_append_word(q, w, ascii);
        assert(Seq::<char>::empty() + w =~= w);
        assert(joined(ws, seq!['\n']) == q + w);
    }
}

/// The copied seed words read back as the same words: splitting one word per
/// line gives back every word, in order, as long as no word is empty or holds
/// whitespace.
pub proof fn lemma_copied_words_read_back(ws: Seq<Seq<char>>, ascii: bool)
    requires
        well_formed_words(ws, ascii),
    ensures
        words_of(joined(ws, seq!['\n']), ascii) == ws,
{
    if ws.len() == 0 {
        assert(words_of(Seq::<char>::empty(), ascii) =~= ws);
    } else {
        lemma_scan_joined(ws, ascii);
        assert(ws[ws.len() - 1].len() > 0);
        assert(ws.drop_last().push(ws.last()) =~= ws);
    }
}

/// `c` separates words in the given mode, spelled out: one of space, tab,
/// line feed, form feed and carriage return when `ascii`, any Unicode
/// whitespace otherwise.
pub open spec fn separates(c: char, ascii: bool) -> bool {
    if ascii {
        c == ' ' || c == '\t' || c == '\n' || c == '\x0C' || c == '\r'
    } else {
        is_whitespace(c)
    }
}

proof fn lemma_scan_after_separator(a: Seq<char>, c: char, x: Seq<char>, ascii: bool)
    requires
        separates(c, ascii),
    ensures
        word_scan(a + seq![c] + x, ascii) == (words_of(a, ascii) + word_scan(x, ascii).0, word_scan(
            x,
            ascii,
        ).1),
    decreases x.len(),
{
    let w = words_of(a, ascii);
    if x.len() == 0 {
        let q = a + seq![c];
        assert(a + seq![c] + x =~= q);
        assert(q.drop_last() =~= a);
        assert(q.last() == c);
        assert(w + Seq::<Seq<char>>::empty() =~= w);
    } else {
        let xd = x.drop_last();
        lemma_scan_after_separator(a, c, xd, ascii);
        let p = a + seq![c] + x;
        assert(p.drop_last() =~= a + seq![c] + xd);
        assert(p.last() == x.last());
        let inner = word_scan(xd, ascii);
        assert((w + inner.0).push(inner.1) =~= w + inner.0.push(inner.1));
    }
}

/// A separator splits a phrase into the words before it and the words after
/// it: in Unicode mode every whitespace character (space included), in ASCII
/// mode every ASCII whitespace character. So words joined by single spaces
/// split back into those words.
pub proof fn lemma_separator_splits_words(a: Seq<char>, c: char, b: Seq<char>, ascii: bool)
    requires
        separates(c, ascii),
    ensures
        words_of(a + seq![c] + b, ascii) == words_of(a, ascii) + words_of(b, ascii),
{
    lemma_scan_after_separator(a, c, b, ascii);
    let w = words_of(a, ascii);
    let sb = word_scan(b, ascii);
    if sb.1.len() > 0 {
        assert((w + sb.0).push(sb.1) =~= w + sb.0.push(sb.1));
    }
}

proof fn lemma_scan_words_clean(s: Seq<char>, ascii: bool)
    ensures
        forall|i: int|
            0 <= i < word_scan(s, ascii).0.len() ==> (#[trigger] word_scan(s, ascii).0[i]).len() > 0
                && forall|j: int|
                0 <= j < word_scan(s, ascii).0[i].len() ==> !separates(
                    word_scan(s, ascii).0[i][j],
                    ascii,
                ),
        forall|j: int|
            0 <= j < word_scan(s, ascii).1.len() ==> !separates(
                #[trigger] word_scan(s, ascii).1[j],
                ascii,
            ),
    decreases s.len(),
{
    if s.len() > 0 {
        lemma_scan_words_clean(s.drop_last(), ascii);
        let before = word_scan(s.drop_last(), ascii);
        let now = word_scan(s, ascii);
        if !is_word_break(s.last(), ascii) {
            assert forall|j: int| 0 <= j < now.1.len() implies !separates(#[trigger] now.1[j], ascii) by {
                if j < before.1.len() {
                    assert(now.1[j] == before.1[j]);
                }
            }
        } else if before.1.len() > 0 {
            assert forall|i: int| 0 <= i < now.0.len() implies (#[trigger] now.0[i]).len() > 0
                && forall|j: int| 0 <= j < now.0[i].len() ==> !separates(now.0[i][j], ascii) by {
                if i < before.0.len() {
                    assert(now.0[i] == before.0[i]);
                }
            }
        }
    }
}

/// Every word of a phrase is non-empty and holds no separator.
pub proof fn lemma_words_are_clean(s: Seq<char>, ascii: bool)
    ensures
        forall|i: int|
            0 <= i < words_of(s, ascii).len() ==> (#[trigger] words_of(s, ascii)[i]).len() > 0
                && forall|j: int|
                0 <= j < words_of(s, ascii)[i].len() ==> !separates(words_of(s, ascii)[i][j], ascii),
{
    lemma_scan_words_clean(s, ascii);
    let sc = word_scan(s, ascii);
    if sc.1.len() > 0 {
        assert forall|i: int| 0 <= i < words_of(s, ascii).len() implies (#[trigger] words_of(
            s,
            ascii,
        )[i]).len() > 0 && forall|j: int|
            0 <= j < words_of(s, ascii)[i].len() ==> !separates(words_of(s, ascii)[i][j], ascii) by {
            if i < sc.0.len() {
                assert(words_of(s, ascii)[i] == sc.0[i]);
            } else {
                assert(words_of(s, ascii)[i] == sc.1);
            }
        }
    }
}

} // verus!
