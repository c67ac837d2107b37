//! The `text-stats` tool: character, word and line counts, and the most
//! frequent words.

use vstd::prelude::*;
use vstd::utf8::encode_utf8;
use crate::category::ToolCategory;
use crate::error::{ToolError, is_invalid_input};
use crate::request::{missing_input_message, require_input};
use crate::text::{chars_of, char_is_ascii_punct, char_is_ws, is_ascii_alpha, is_ascii_digit, is_ascii_punct, is_ws, string_of};
use crate::tool::Tool;
use crate::url_codec::utf8_len;

verus! {

/// The character classes the tool counts.
pub enum CharClass {
    /// Not whitespace.
    NonSpace,
    /// Whitespace (`char::is_whitespace`).
    Space,
    /// ASCII letters.
    Letter,
    /// ASCII digits.
    Digit,
    /// ASCII punctuation.
    Punctuation,
    /// CJK ideographs: U+4E00–U+9FFF, U+3400–U+4DBF, U+F900–U+FAFF.
    Cjk,
}

/// CJK unified ideographs, extension A, and compatibility ideographs.
pub open spec fn is_cjk(c: char) -> bool {
    ||| '\u{4e00}' <= c <= '\u{9fff}'
    ||| '\u{3400}' <= c <= '\u{4dbf}'
    ||| '\u{f900}' <= c <= '\u{faff}'
}

pub open spec fn in_class(c: char, k: CharClass) -> bool {
    match k {
        CharClass::NonSpace => !is_ws(c),
        CharClass::Space => is_ws(c),
        CharClass::Letter => is_ascii_alpha(c),
        CharClass::Digit => is_ascii_digit(c),
        CharClass::Punctuation => is_ascii_punct(c),
        CharClass::Cjk => is_cjk(c),
    }
}

/// How many characters of `s` are in class `k`.
pub open spec fn count_class(s: Seq<char>, k: CharClass) -> nat
    decreases s.len(),
{
    if s.len() == 0 {
        0
    } else {
        count_class(s.drop_last(), k) + if in_class(s.last(), k) {
            1nat
        } else {
            0nat
        }
    }
}

/// The whitespace-separated words of `s` (`str::split_whitespace`).
pub open spec fn words(s: Seq<char>) -> Seq<Seq<char>>
    decreases s.len(),
{
    if s.len() == 0 {
        Seq::empty()
    } else {
        let prev = words(s.drop_last());
        let c = s.last();
        if is_ws(c) {
            prev
        } else if s.len() >= 2 && !is_ws(s[s.len() - 2]) {
            prev.update(prev.len() - 1, prev.last().push(c))
        } else {
            prev.push(seq![c])
        }
    }
}

/// The number of lines (`str::lines`): one per `\n`, plus one for a last
/// line that does not end in `\n`; none for the empty text.
pub open spec fn line_count(s: Seq<char>) -> nat
    decreases s.len(),
{
    if s.len() == 0 {
        0
    } else {
        newline_count(s.drop_last()) + 1
    }
}

/// The number of `\n` in `s`.
pub open spec fn newline_count(s: Seq<char>) -> nat
    decreases s.len(),
{
    if s.len() == 0 {
        0
    } else {
        newline_count(s.drop_last()) + if s.last() == '\n' {
            1nat
        } else {
            0nat
        }
    }
}

/// `w` without its leading ASCII punctuation.
pub open spec fn trim_punct_start(w: Seq<char>) -> Seq<char>
    decreases w.len(),
{
    if w.len() > 0 && is_ascii_punct(w[0]) {
        trim_punct_start(w.drop_first())
    } else {
        w
    }
}

/// `w` without its trailing ASCII punctuation.
pub open spec fn trim_punct_end(w: Seq<char>) -> Seq<char>
    decreases w.len(),
{
    if w.len() > 0 && is_ascii_punct(w.last()) {
        trim_punct_end(w.drop_last())
    } else {
        w
    }
}

/// `w` with ASCII punctuation trimmed from both ends (`trim_matches`).
pub open spec fn trim_punct(w: Seq<char>) -> Seq<char> {
    trim_punct_end(trim_punct_start(w))
}

/// The first entry of table `t` for word `w`.
pub open spec fn find_word(t: Seq<(Seq<char>, nat)>, w: Seq<char>) -> Option<int>
    decreases t.len(),
{
    if t.len() == 0 {
        None
    } else {
        match find_word(t.drop_last(), w) {
            Some(k) => Some(k),
            None => if t.last().0 == w {
                Some(t.len() - 1)
            } else {
                None
            },
        }
    }
}

/// Counts one more occurrence of `w` in table `t` (a new entry at the end
/// for a new word).
pub open spec fn add_word(t: Seq<(Seq<char>, nat)>, w: Seq<char>) -> Seq<(Seq<char>, nat)> {
    match find_word(t, w) {
        Some(k) => t.update(k, (w, t[k].1 + 1)),
        None => t.push((w, 1nat)),
    }
}

/// The frequency table of the words `ws` once trimmed of punctuation (empty
/// words are skipped), in order of first occurrence.
pub open spec fn tally(ws: Seq<Seq<char>>) -> Seq<(Seq<char>, nat)>
    decreases ws.len(),
{
    if ws.len() == 0 {
        Seq::empty()
    } else {
        let w = trim_punct(ws.last());
        if w.len() == 0 {
            tally(ws.drop_last())
        } else {
            add_word(tally(ws.drop_last()), w)
        }
    }
}

/// Inserts `x` after every entry whose count is at least `x`'s.
pub open spec fn insert_by_count(s: Seq<(Seq<char>, nat)>, x: (Seq<char>, nat)) -> Seq<(Seq<char>, nat)>
    decreases s.len(),
{
    if s.len() == 0 {
        seq![x]
    } else if x.1 > s[0].1 {
        seq![x] + s
    } else {
        seq![s[0]] + insert_by_count(s.drop_first(), x)
    }
}

/// Table `t` sorted by decreasing count; equal counts keep their order.
pub open spec fn sort_by_count(t: Seq<(Seq<char>, nat)>) -> Seq<(Seq<char>, nat)>
    decreases t.len(),
{
    if t.len() == 0 {
        Seq::empty()
    } else {
        insert_by_count(sort_by_count(t.drop_last()), t.last())
    }
}

/// The word frequencies the tool reports: at most 50 entries, most frequent
/// first, ties in order of first occurrence.
pub open spec fn top_words(s: Seq<char>) -> Seq<(Seq<char>, nat)> {
    let sorted = sort_by_count(tally(words(s)));
    if sorted.len() <= 50 {
        sorted
    } else {
        sorted.take(50)
    }
}

/// A word table entry as plain values.
pub open spec fn entry_view(e: (Vec<char>, usize)) -> (Seq<char>, nat) {
    (e.0@, e.1 as nat)
}

/// A word table as plain values.
pub open spec fn table_view(t: Seq<(Vec<char>, usize)>) -> Seq<(Seq<char>, nat)> {
    t.map_values(|e: (Vec<char>, usize)| entry_view(e))
}

/// A list of words as plain values.
pub open spec fn words_view(ws: Seq<Vec<char>>) -> Seq<Seq<char>> {
    ws.map_values(|w: Vec<char>| w@)
}

fn char_in_class(c: char, k: &CharClass) -> (r: bool)
    ensures
        r == in_class(c, *k),
{
    match k {
        CharClass::NonSpace => !char_is_ws(c),
        CharClass::Space => char_is_ws(c),
        CharClass::Letter => ('A' <= c && c <= 'Z') || ('a' <= c && c <= 'z'),
        CharClass::Digit => '0' <= c && c <= '9',
        CharClass::Punctuation => char_is_ascii_punct(c),
        CharClass::Cjk => ('\u{4e00}' <= c && c <= '\u{9fff}') || ('\u{3400}' <= c && c
            <= '\u{4dbf}') || ('\u{f900}' <= c && c <= '\u{faff}'),
    }
}

/// How many characters of `cs` are in class `k`.
pub fn count_chars(cs: &Vec<char>, k: CharClass) -> (r: usize)
    ensures
        r == count_class(cs@, k),
{
    let mut n: usize = 0;
    let mut i: usize = 0;
    while i < cs.len()
        invariant
            i <= cs@.len(),
            n == count_class(cs@.take(i as int), k),
            n <= i,
        decreases cs.len() - i,
    {
        assert(cs@.take(i + 1).drop_last() =~= cs@.take(i as int));
        if char_in_class(cs[i], &k) {
            n = n + 1;
        }
        i = i + 1;
    }
    assert(cs@.take(cs@.len() as int) =~= cs@);
    n
}

/// The number of lines of `cs`.
pub fn count_lines(cs: &Vec<char>) -> (r: usize)
    ensures
        r == line_count(cs@),
{
    if cs.len() == 0 {
        return 0;
    }
    let mut n: usize = 0;
    let mut i: usize = 0;
    while i + 1 < cs.len()
        invariant
            cs@.len() > 0,
            i < cs@.len(),
            n == newline_count(cs@.take(i as int)),
            n <= i,
        decreases cs.len() - i,
    {
        assert(cs@.take(i + 1).drop_last() =~= cs@.take(i as int));
        if cs[i] == '\n' {
            n = n + 1;
        }
        i = i + 1;
    }
    assert(cs@.drop_last() =~= cs@.take(i as int));
    n + 1
}

proof fn lemma_words_nonempty(s: Seq<char>)
    requires
        s.len() > 0,
        !is_ws(s.last()),
    ensures
        words(s).len() > 0,
    decreases s.len(),
{
    if s.len() >= 2 && !is_ws(s[s.len() - 2]) {
        assert(s.drop_last().last() == s[s.len() - 2]);
        lemma_words_nonempty(s.drop_last());
    }
}

/// The whitespace-separated words of `cs`.
pub fn split_words(cs: &Vec<char>) -> (r: Vec<Vec<char>>)
    ensures
        words_view(r@) == words(cs@),
{
    let mut ws: Vec<Vec<char>> = Vec::new();
    let mut i: usize = 0;
    while i < cs.len()
        invariant
            i <= cs@.len(),
            words_view(ws@) == words(cs@.take(i as int)),
        decreases cs.len() - i,
    {
        let c = cs[i];
        let ghost pre = cs@.take(i + 1);
        assert(pre.drop_last() =~= cs@.take(i as int));
        assert(pre.last() == c);
        if char_is_ws(c) {
        } else if i >= 1 && !char_is_ws(cs[i - 1]) {
            assert(pre[pre.len() - 2] == cs@[i - 1]);
            proof {
                assert(cs@.take(i as int).last() == cs@[i - 1]);
                lemma_words_nonempty(cs@.take(i as int));
            }
            let ghost before = ws@;
            let mut last = ws.pop().unwrap();
            last.push(c);
            ws.push(last);
            assert(words_view(ws@) =~= words_view(before).update(
                words_view(before).len() - 1,
                words_view(before).last().push(c),
            ));
        } else {
            let ghost before = ws@;
            let mut w: Vec<char> = Vec::new();
            w.push(c);
            ws.push(w);
            assert(words_view(ws@) =~= words_view(before).push(seq![c]));
        }
        i = i + 1;
    }
    assert(cs@.take(cs@.len() as int) =~= cs@);
    ws
}

proof fn lemma_trim_start_skip(w: Seq<char>, a: int)
    requires
        0 <= a <= w.len(),
        forall|j: int| 0 <= j < a ==> is_ascii_punct(#[trigger] w[j]),
        a < w.len() ==> !is_ascii_punct(w[a]),
    ensures
        trim_punct_start(w) == w.skip(a),
    decreases a,
{
    if a == 0 {
        assert(w.skip(0) =~= w);
    } else {
        let t = w.drop_first();
        assert forall|j: int| 0 <= j < a - 1 implies is_ascii_punct(#[trigger] t[j]) by {
            assert(t[j] == w[j + 1]);
        }
        lemma_trim_start_skip(t, a - 1);
        assert(t.skip(a - 1) =~= w.skip(a));
    }
}

proof fn lemma_trim_end_take(w: Seq<char>, b: int)
    requires
        0 <= b <= w.len(),
        forall|j: int| b <= j < w.len() ==> is_ascii_punct(#[trigger] w[j]),
        b > 0 ==> !is_ascii_punct(w[b - 1]),
    ensures
        trim_punct_end(w) == w.take(b),
    decreases w.len() - b,
{
    if b == w.len() {
        assert(w.take(b) =~= w);
    } else {
        let t = w.drop_last();
        assert forall|j: int| b <= j < t.len() implies is_ascii_punct(#[trigger] t[j]) by {
            assert(t[j] == w[j]);
        }
        lemma_trim_end_take(t, b);
        assert(t.take(b) =~= w.take(b));
    }
}

/// `w` with ASCII punctuation trimmed from both ends.
pub fn trim_punctuation(w: &Vec<char>) -> (r: Vec<char>)
    ensures
        r@ == trim_punct(w@),
{
    let n = w.len();
    let mut a: usize = 0;
    while a < n && char_is_ascii_punct(w[a])
        invariant
            a <= n,
            n == w@.len(),
            forall|j: int| 0 <= j < a ==> is_ascii_punct(#[trigger] w@[j]),
        decreases n - a,
    {
        a = a + 1;
    }
    proof {
        lemma_trim_start_skip(w@, a as int);
    }
    let ghost s = w@.skip(a as int);
    let mut b: usize = n;
    while b > a && char_is_ascii_punct(w[b - 1])
        invariant
            a <= b <= n,
            n == w@.len(),
            forall|j: int| b <= j < n ==> is_ascii_punct(#[trigger] w@[j]),
        decreases b,
    {
        b = b - 1;
    }
    proof {
        assert forall|j: int| b - a <= j < s.len() implies is_ascii_punct(#[trigger] s[j]) by {
            assert(s[j] == w@[j + a]);
        }
        if b > a {
            assert(s[b - a - 1] == w@[b - 1]);
        }
        lemma_trim_end_take(s, b - a);
    }
    let mut r: Vec<char> = Vec::new();
    let mut i = a;
    while i < b
        invariant
            a <= i <= b,
            b <= n,
            n == w@.len(),
            r@ == w@.subrange(a as int, i as int),
        decreases b - i,
    {
        r.push(w[i]);
        i = i + 1;
        assert(r@ =~= w@.subrange(a as int, i as int));
    }
    assert(r@ =~= s.take(b - a));
    r
}

/// Whether two character vectors hold the same characters.
fn same_chars(a: &Vec<char>, b: &Vec<char>) -> (r: bool)
    ensures
        r == (a@ == b@),
{
    if a.len() != b.len() {
        return false;
    }
    let mut i: usize = 0;
    while i < a.len()
        invariant
            a@.len() == b@.len(),
            i <= a@.len(),
            forall|j: int| 0 <= j < i ==> a@[j] == b@[j],
        decreases a.len() - i,
    {
        if a[i] != b[i] {
            return false;
        }
        i = i + 1;
    }
    assert(a@ =~= b@);
    true
}

proof fn lemma_find_word_first(t: Seq<(Seq<char>, nat)>, w: Seq<char>, k: int)
    requires
        0 <= k < t.len(),
        t[k].0 == w,
        forall|j: int| 0 <= j < k ==> (#[trigger] t[j]).0 != w,
    ensures
        find_word(t, w) == Some(k),
    decreases t.len(),
{
    if k < t.len() - 1 {
        lemma_find_word_first(t.drop_last(), w, k);
    } else {
        lemma_find_word_none(t.drop_last(), w);
    }
}

proof fn lemma_find_word_none(t: Seq<(Seq<char>, nat)>, w: Seq<char>)
    requires
        forall|j: int| 0 <= j < t.len() ==> (#[trigger] t[j]).0 != w,
    ensures
        find_word(t, w) is None,
    decreases t.len(),
{
    if t.len() > 0 {
        lemma_find_word_none(t.drop_last(), w);
    }
}

/// Counts one more occurrence of `w` in the word table `t`.
fn count_word(t: &mut Vec<(Vec<char>, usize)>, w: Vec<char>, bound: Ghost<nat>)
    requires
        forall|j: int| 0 <= j < old(t)@.len() ==> (#[trigger] old(t)@[j]).1 < bound@,
        1 <= bound@ <= usize::MAX,
    ensures
        table_view(final(t)@) == add_word(table_view(old(t)@), w@),
        forall|j: int| 0 <= j < final(t)@.len() ==> (#[trigger] final(t)@[j]).1 <= bound@,
{
    let ghost tv = table_view(t@);
    let mut k: usize = 0;
    while k < t.len()
        invariant
            k <= t@.len(),
            t@ == old(t)@,
            tv == table_view(t@),
            forall|j: int| 0 <= j < k ==> (#[trigger] tv[j]).0 != w@,
            forall|j: int| 0 <= j < t@.len() ==> (#[trigger] t@[j]).1 < bound@,
            bound@ <= usize::MAX,
        decreases t.len() - k,
    {
        if same_chars(&t[k].0, &w) {
            proof {
                lemma_find_word_first(tv, w@, k as int);
            }
            let n = t[k].1;
            let ghost before = t@;
            t.set(k, (w, n + 1));
            assert(table_view(t@) =~= tv.update(k as int, (tv[k as int].0, tv[k as int].1 + 1)));
            assert forall|j: int| 0 <= j < t@.len() implies (#[trigger] t@[j]).1 <= bound@ by {
                if j != k {
                    assert(t@[j] == before[j]);
                }
            }
            return;
        }
        assert(tv[k as int].0 == t@[k as int].0@);
        k = k + 1;
    }
    proof {
        lemma_find_word_none(tv, w@);
    }
    let ghost before = t@;
    t.push((w, 1));
    assert(table_view(t@) =~= tv.push((w@, 1nat)));
    assert forall|j: int| 0 <= j < t@.len() implies (#[trigger] t@[j]).1 <= bound@ by {
        if j < before.len() {
            assert(t@[j] == before[j]);
        }
    }
}

/// The frequency table of `ws`, trimmed of punctuation, first occurrence first.
pub fn tally_words(ws: &Vec<Vec<char>>) -> (r: Vec<(Vec<char>, usize)>)
    ensures
        table_view(r@) == tally(words_view(ws@)),
        forall|j: int| 0 <= j < r@.len() ==> (#[trigger] r@[j]).1 <= ws@.len(),
{
    let mut t: Vec<(Vec<char>, usize)> = Vec::new();
    let mut i: usize = 0;
    while i < ws.len()
        invariant
            i <= ws@.len(),
            table_view(t@) == tally(words_view(ws@.take(i as int))),
            forall|j: int| 0 <= j < t@.len() ==> (#[trigger] t@[j]).1 <= i,
        decreases ws.len() - i,
    {
        assert(words_view(ws@.take(i + 1)).drop_last() =~= words_view(ws@.take(i as int)));
        assert(words_view(ws@.take(i + 1)).last() == ws@[i as int]@);
        let w = trim_punctuation(&ws[i]);
        if w.len() > 0 {
            count_word(&mut t, w, Ghost((i + 1) as nat));
        }
        i = i + 1;
    }
    assert(ws@.take(ws@.len() as int) =~= ws@);
    t
}

proof fn lemma_insert_by_count_at(s: Seq<(Seq<char>, nat)>, x: (Seq<char>, nat), p: int)
    requires
        0 <= p <= s.len(),
        forall|j: int| 0 <= j < p ==> (#[trigger] s[j]).1 >= x.1,
        p < s.len() ==> x.1 > s[p].1,
    ensures
        insert_by_count(s, x) == s.insert(p, x),
    decreases s.len(),
{
    if s.len() == 0 {
        assert(s.insert(p, x) =~= seq![x]);
    } else if p == 0 {
        assert(s.insert(p, x) =~= seq![x] + s);
    } else {
        let t = s.drop_first();
        assert forall|j: int| 0 <= j < p - 1 implies (#[trigger] t[j]).1 >= x.1 by {
            assert(t[j] == s[j + 1]);
        }
        lemma_insert_by_count_at(t, x, p - 1);
        assert(s.insert(p, x) =~= seq![s[0]] + t.insert(p - 1, x));
    }
}

/// The word table sorted by decreasing count (stable).
pub fn sort_table(t: Vec<(Vec<char>, usize)>) -> (r: Vec<(Vec<char>, usize)>)
    ensures
        table_view(r@) == sort_by_count(table_view(t@)),
{
    let ghost tv = table_view(t@);
    let ghost all = t@;
    let mut out: Vec<(Vec<char>, usize)> = Vec::new();
    for e in it: t
        invariant
            it.seq() == all,
            tv == table_view(all),
            table_view(out@) == sort_by_count(tv.take(it.index() as int)),
    {
        let ghost k = it.index();
        assert(e == all[k as int]);
        let ghost sorted = table_view(out@);
        let mut p: usize = 0;
        while p < out.len() && out[p].1 >= e.1
            invariant
                p <= out@.len(),
                sorted == table_view(out@),
                forall|j: int| 0 <= j < p ==> (#[trigger] sorted[j]).1 >= e.1,
            decreases out.len() - p,
        {
            p = p + 1;
        }
        proof {
            lemma_insert_by_count_at(sorted, entry_view(e), p as int);
            assert(tv.take(k + 1).drop_last() =~= tv.take(k as int));
            assert(tv.take(k + 1).last() == entry_view(e));
        }
        out.insert(p, e);
        assert(table_view(out@) =~= sorted.insert(p as int, entry_view(e)));
    }
    assert(tv.take(all.len() as int) =~= tv);
    out
}

/// One entry of the word frequencies.
pub struct WordCount {
    pub word: String,
    pub count: usize,
}

/// The most frequent words of `cs`: at most 50, most frequent first.
pub fn word_frequency(cs: &Vec<char>) -> (r: Vec<WordCount>)
    ensures
        r@.len() == top_words(cs@).len(),
        forall|j: int| 0 <= j < r@.len() ==> (#[trigger] r@[j]).word@ == top_words(cs@)[j].0 && r@[j].count == top_words(cs@)[j].1,
{
    let ws = split_words(cs);
    let table = tally_words(&ws);
    let mut sorted = sort_table(table);
    if sorted.len() > 50 {
        let ghost full = table_view(sorted@);
        sorted.truncate(50);
        assert(table_view(sorted@) =~= full.take(50));
    }
    let ghost top = table_view(sorted@);
    assert(top == top_words(cs@));
    let mut r: Vec<WordCount> = Vec::new();
    let mut i: usize = 0;
    while i < sorted.len()
        invariant
            i <= sorted@.len(),
            top == table_view(sorted@),
            r@.len() == i,
            forall|j: int| 0 <= j < i ==> (#[trigger] r@[j]).word@ == top[j].0 && r@[j].count == top[j].1,
        decreases sorted.len() - i,
    {
        let word = string_of(&sorted[i].0);
        r.push(WordCount { word, count: sorted[i].1 });
        i = i + 1;
    }
    r
}

/// The `text-stats` tool's request.
pub struct TextStatsInput {
    /// The `input` field, when it is a string.
    pub input: Option<String>,
    /// The `show_word_freq` field, when it is a boolean (default `false`).
    pub show_word_freq: Option<bool>,
}

/// The `text-stats` tool's answer.
pub struct TextStatsOutput {
    pub char_count: usize,
    pub char_count_no_space: usize,
    pub word_count: usize,
    pub line_count: usize,
    pub byte_count: usize,
    pub letter_count: usize,
    pub digit_count: usize,
    pub space_count: usize,
    pub punctuation_count: usize,
    pub cjk_char_count: usize,
    /// Present when word frequencies were asked for and there is a word.
    pub word_frequency: Option<Vec<WordCount>>,
}

/// The counts the tool reports for text `s`.
pub open spec fn stats_match(out: TextStatsOutput, s: Seq<char>) -> bool {
    &&& out.char_count == s.len()
    &&& out.char_count_no_space == count_class(s, CharClass::NonSpace)
    &&& out.word_count == words(s).len()
    &&& out.line_count == line_count(s)
    &&& out.byte_count == encode_utf8(s).len() as usize
    &&& out.letter_count == count_class(s, CharClass::Letter)
    &&& out.digit_count == count_class(s, CharClass::Digit)
    &&& out.space_count == count_class(s, CharClass::Space)
    &&& out.punctuation_count == count_class(s, CharClass::Punctuation)
    &&& out.cjk_char_count == count_class(s, CharClass::Cjk)
}

/// The word frequencies in the answer are `top_words(s)`.
pub open spec fn frequencies_match(f: Vec<WordCount>, s: Seq<char>) -> bool {
    &&& f@.len() == top_words(s).len()
    &&& forall|j: int| 0 <= j < f@.len() ==> (#[trigger] f@[j]).word@ == top_words(s)[j].0 && f@[j].count == top_words(s)[j].1
}

/// The `text-stats` tool.
#[derive(Clone, Copy)]
pub struct TextStats;

impl Tool for TextStats {
    open spec fn spec_id(&self) -> Seq<char> {
        "text-stats"@
    }

    open spec fn spec_name(&self) -> Seq<char> {
        "文本统计"@
    }

    open spec fn spec_description(&self) -> Seq<char> {
        "分析文本的字符数、单词数、行数、字频等统计信息"@
    }

    open spec fn spec_category(&self) -> ToolCategory {
        ToolCategory::Text
    }

    open spec fn spec_cpu_intensive(&self) -> bool {
        false
    }

    fn id(&self) -> &'static str {
        "text-stats"
    }

    fn name(&self) -> &'static str {
        "文本统计"
    }

    fn description(&self) -> &'static str {
        "分析文本的字符数、单词数、行数、字频等统计信息"
    }

    fn category(&self) -> ToolCategory {
        ToolCategory::Text
    }

    fn is_cpu_intensive(&self) -> bool {
        false
    }
}

impl TextStats {
    /// Counts characters, words and lines of the request's `input`, and,
    /// when `show_word_freq` is set and there is a word, the most frequent
    /// words.
    pub fn execute(&self, req: TextStatsInput) -> (r: Result<TextStatsOutput, ToolError>)
        ensures
            req.input is None ==> (r matches Err(e) && is_invalid_input(e, missing_input_message())),
            req.input matches Some(s) ==> r matches Ok(out) && {
                &&& stats_match(out, s@)
                &&& (req.show_word_freq == Some(true) && words(s@).len() > 0) <==> out.word_frequency is Some
                &&& out.word_frequency matches Some(f) ==> frequencies_match(f, s@)
            },
    {
        let input = require_input(req.input)?;
        let show_freq = match req.show_word_freq {
            Some(b) => b,
            None => false,
        };
        let cs = chars_of(input.as_str());
        let char_count = cs.len();
        let char_no_space = count_chars(&cs, CharClass::NonSpace);
        let ws = split_words(&cs);
        let word_count = ws.len();
        assert(words_view(ws@).len() == ws@.len());
        let line_count = count_lines(&cs);
        let byte_count = input.as_str().len();
        let letter_count = count_chars(&cs, CharClass::Letter);
        let digit_count = count_chars(&cs, CharClass::Digit);
        let space_count = count_chars(&cs, CharClass::Space);
        let punctuation_count = count_chars(&cs, CharClass::Punctuation);
        let cjk_char_count = count_chars(&cs, CharClass::Cjk);
        let word_frequency = if show_freq && word_count > 0 {
            Some(word_frequency(&cs))
        } else {
            None
        };
        Ok(TextStatsOutput {
            char_count,
            char_count_no_space: char_no_space,
            word_count,
            line_count,
            byte_count,
            letter_count,
            digit_count,
            space_count,
            punctuation_count,
            cjk_char_count,
            word_frequency,
        })
    }
}

/// Every character is either whitespace or not: the counts without spaces
/// and of spaces add up to the character count.
pub proof fn law_space_split(s: Seq<char>)
    ensures
        count_class(s, CharClass::NonSpace) + count_class(s, CharClass::Space) == s.len(),
    decreases s.len(),
{
    if s.len() > 0 {
        law_space_split(s.drop_last());
    }
}

/// Counts never decrease along a table.
pub open spec fn by_decreasing_count(t: Seq<(Seq<char>, nat)>) -> bool {
    forall|i: int, j: int| 0 <= i < j < t.len() ==> (#[trigger] t[i]).1 >= (#[trigger] t[j]).1
}

proof fn lemma_insert_by_count_point(s: Seq<(Seq<char>, nat)>, x: (Seq<char>, nat)) -> (p: int)
    ensures
        0 <= p <= s.len(),
        forall|j: int| 0 <= j < p ==> (#[trigger] s[j]).1 >= x.1,
        p < s.len() ==> x.1 > s[p].1,
        insert_by_count(s, x) == s.insert(p, x),
    decreases s.len(),
{
    if s.len() == 0 || x.1 > s[0].1 {
        lemma_insert_by_count_at(s, x, 0);
        0
    } else {
        let t = s.drop_first();
        let q = lemma_insert_by_count_point(t, x);
        assert forall|j: int| 0 <= j < q + 1 implies (#[trigger] s[j]).1 >= x.1 by {
            if j > 0 {
                assert(s[j] == t[j - 1]);
            }
        }
        lemma_insert_by_count_at(s, x, q + 1);
        q + 1
    }
}

proof fn lemma_sort_by_count_sorted(t: Seq<(Seq<char>, nat)>)
    ensures
        by_decreasing_count(sort_by_count(t)),
        sort_by_count(t).len() == t.len(),
        forall|i: int| 0 <= i < sort_by_count(t).len() ==> exists|j: int| 0 <= j < t.len() && #[trigger] sort_by_count(t)[i] == t[j],
    decreases t.len(),
{
    if t.len() > 0 {
        let u = t.drop_last();
        let x = t.last();
        lemma_sort_by_count_sorted(u);
        let s = sort_by_count(u);
        let p = lemma_insert_by_count_point(s, x);
        let r = s.insert(p, x);
        assert forall|i: int, j: int| 0 <= i < j < r.len() implies (#[trigger] r[i]).1 >= (#[trigger] r[j]).1 by {
            if j < p {
                assert(r[i] == s[i] && r[j] == s[j]);
            } else if j == p {
                assert(r[i] == s[i] && r[j] == x);
            } else if i > p {
                assert(r[i] == s[i - 1] && r[j] == s[j - 1]);
            } else if i == p {
                assert(r[i] == x && r[j] == s[j - 1]);
                assert(s[p].1 >= s[j - 1].1);
            } else {
                assert(r[i] == s[i] && r[j] == s[j - 1]);
            }
        }
        assert forall|i: int| 0 <= i < r.len() implies exists|j: int| 0 <= j < t.len() && #[trigger] r[i] == t[j] by {
            if i == p {
                assert(r[i] == t[t.len() - 1]);
            } else {
                let k = if i < p { i } else { i - 1 };
                assert(r[i] == s[k]);
                let j = choose|j: int| 0 <= j < u.len() && s[k] == u[j];
                assert(u[j] == t[j]);
            }
        }
    }
}

proof fn lemma_find_word_range(t: Seq<(Seq<char>, nat)>, w: Seq<char>)
    ensures
        find_word(t, w) matches Some(k) ==> 0 <= k < t.len(),
    decreases t.len(),
{
    if t.len() > 0 {
        lemma_find_word_range(t.drop_last(), w);
    }
}

proof fn lemma_tally_positive(ws: Seq<Seq<char>>)
    ensures
        forall|i: int| 0 <= i < tally(ws).len() ==> (#[trigger] tally(ws)[i]).1 >= 1,
    decreases ws.len(),
{
    if ws.len() > 0 {
        lemma_tally_positive(ws.drop_last());
        let t = tally(ws.drop_last());
        let w = trim_punct(ws.last());
        if w.len() > 0 {
            lemma_find_word_range(t, w);
            assert forall|i: int| 0 <= i < add_word(t, w).len() implies (#[trigger] add_word(t, w)[i]).1 >= 1 by {
                match find_word(t, w) {
                    Some(k) => {
                        if i != k {
                            assert(add_word(t, w)[i] == t[i]);
                        }
                    },
                    None => {
                        if i < t.len() {
                            assert(add_word(t, w)[i] == t[i]);
                        }
                    },
                }
            }
        }
    }
}

/// The reported word frequencies are at most 50, most frequent first, and
/// each word occurs at least once.
pub proof fn law_top_words_order(s: Seq<char>)
    ensures
        top_words(s).len() <= 50,
        by_decreasing_count(top_words(s)),
        forall|i: int| 0 <= i < top_words(s).len() ==> (#[trigger] top_words(s)[i]).1 >= 1,
{
    let t = tally(words(s));
    lemma_sort_by_count_sorted(t);
    lemma_tally_positive(words(s));
    let sorted = sort_by_count(t);
    assert forall|i: int| 0 <= i < top_words(s).len() implies (#[trigger] top_words(s)[i]).1 >= 1 by {
        assert(top_words(s)[i] == sorted[i]);
        let j = choose|j: int| 0 <= j < t.len() && sorted[i] == t[j];
    }
    assert forall|i: int, j: int| 0 <= i < j < top_words(s).len() implies (#[trigger] top_words(s)[i]).1 >= (#[trigger] top_words(s)[j]).1 by {
        assert(top_words(s)[i] == sorted[i] && top_words(s)[j] == sorted[j]);
    }
}

/// The digit, letter and punctuation counts count exactly the ASCII digits
/// `0`-`9`, the ASCII letters `a`-`z` and `A`-`Z`, and the ASCII
/// punctuation characters (`!`-`/`, `:`-`@`, `[`-`` ` ``, `{`-`~`) of the text.
pub proof fn law_class_counts(s: Seq<char>)
    ensures
        count_class(s, CharClass::Digit) == s.filter(|c: char| '0' <= c && c <= '9').len(),
        count_class(s, CharClass::Letter) == s.filter(|c: char| ('a' <= c && c <= 'z') || ('A' <= c && c <= 'Z')).len(),
        count_class(s, CharClass::Punctuation) == s.filter(
            |c: char| ('!' <= c && c <= '/') || (':' <= c && c <= '@') || ('[' <= c && c <= '`') || ('{' <= c && c <= '~'),
        ).len(),
    decreases s.len(),
{
    reveal(Seq::filter);
    if s.len() > 0 {
        law_class_counts(s.drop_last());
    }
}

} // verus!
