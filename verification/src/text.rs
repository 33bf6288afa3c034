//! Text handling over sequences of characters.

use vstd::prelude::*;

verus! {

/// `String::push` appends one character to the end of the string.
pub assume_specification[ String::push ](s: &mut String, ch: char)
    ensures
        final(s)@ == old(s)@.push(ch),
;

/// The texts held by a sequence of strings.
pub open spec fn texts(v: Seq<String>) -> Seq<Seq<char>> {
    v.map_values(|s: String| s@)
}

/// The text held by an optional string.
pub open spec fn opt_text(o: Option<String>) -> Option<Seq<char>> {
    match o {
        Some(s) => Some(s@),
        None => None,
    }
}

/// The characters with the Unicode `White_Space` property.
pub open spec fn is_whitespace(c: char) -> bool {
    ||| '\u{9}' <= c <= '\u{d}'
    ||| c == ' '
    ||| c == '\u{85}'
    ||| c == '\u{a0}'
    ||| c == '\u{1680}'
    ||| '\u{2000}' <= c <= '\u{200a}'
    ||| c == '\u{2028}'
    ||| c == '\u{2029}'
    ||| c == '\u{202f}'
    ||| c == '\u{205f}'
    ||| c == '\u{3000}'
}

pub fn char_is_whitespace(c: char) -> (r: bool)
    ensures
        r == is_whitespace(c),
{
    ('\u{9}' <= c && c <= '\u{d}') || c == ' ' || c == '\u{85}' || c == '\u{a0}'
        || c == '\u{1680}' || ('\u{2000}' <= c && c <= '\u{200a}') || c == '\u{2028}'
        || c == '\u{2029}' || c == '\u{202f}' || c == '\u{205f}' || c == '\u{3000}'
}

/// The characters of `s`, in order.
pub fn chars_of(s: &str) -> (r: Vec<char>)
    ensures
        r@ == s@,
{
    let mut out: Vec<char> = Vec::new();
    for c in it: s.chars()
        invariant
            out@ == s@.take(it.index()),
            it.seq() == s@,
    {
        out.push(c);
    }
    assert(s@.take(s@.len() as int) == s@);
    out
}

/// The string made of `chars[from..to]`.
pub fn slice_text(chars: &Vec<char>, from: usize, to: usize) -> (r: String)
    requires
        from <= to <= chars@.len(),
    ensures
        r@ == chars@.subrange(from as int, to as int),
{
    let mut out = String::new();
    let mut i: usize = from;
    while i < to
        invariant
            from <= i <= to <= chars@.len(),
            out@ == chars@.subrange(from as int, i as int),
        decreases to - i,
    {
        out.push(chars[i]);
        i += 1;
    }
    out
}

/// Whether the two texts are equal.
pub fn same(a: &str, b: &str) -> (r: bool)
    ensures
        r == (a@ == b@),
{
    a.to_owned() == b.to_owned()
}


// ---- Trimming ----

/// `s` without its leading whitespace.
pub open spec fn trim_start(s: Seq<char>) -> Seq<char>
    decreases s.len(),
{
    if s.len() > 0 && is_whitespace(s[0]) {
        trim_start(s.skip(1))
    } else {
        s
    }
}

/// `s` without its trailing whitespace.
pub open spec fn trim_end(s: Seq<char>) -> Seq<char>
    decreases s.len(),
{
    if s.len() > 0 && is_whitespace(s.last()) {
        trim_end(s.drop_last())
    } else {
        s
    }
}

/// `s` without leading and trailing whitespace.
pub open spec fn trim(s: Seq<char>) -> Seq<char> {
    trim_end(trim_start(s))
}

/// Whether `s` holds nothing but whitespace.
pub open spec fn blank(s: Seq<char>) -> bool {
    forall|i: int| 0 <= i < s.len() ==> is_whitespace(#[trigger] s[i])
}

/// A text is blank exactly when trimming leaves nothing of it.
pub proof fn lemma_blank_is_trimmed_empty(s: Seq<char>)
    ensures
        blank(s) <==> trim(s).len() == 0,
{
    lemma_blank_trim_start(s);
    lemma_blank_trim_end(trim_start(s));
}

proof fn lemma_blank_trim_start(s: Seq<char>)
    ensures
        blank(s) <==> trim_start(s).len() == 0,
        blank(s) <==> blank(trim_start(s)),
        trim_start(s).len() <= s.len(),
        trim_start(s).len() > 0 ==> !is_whitespace(trim_start(s)[0]),
    decreases s.len(),
{
    if s.len() > 0 && is_whitespace(s[0]) {
        let t = s.skip(1);
        lemma_blank_trim_start(t);
        if blank(t) {
            assert forall|i: int| 0 <= i < s.len() implies is_whitespace(#[trigger] s[i]) by {
                if i > 0 {
                    assert(t[i - 1] == s[i]);
                }
            }
        }
        if blank(s) {
            assert forall|i: int| 0 <= i < t.len() implies is_whitespace(#[trigger] t[i]) by {
                assert(t[i] == s[i + 1]);
            }
        }
    }
}

proof fn lemma_blank_trim_end(s: Seq<char>)
    ensures
        blank(s) <==> trim_end(s).len() == 0,
    decreases s.len(),
{
    if s.len() > 0 && is_whitespace(s.last()) {
        let t = s.drop_last();
        lemma_blank_trim_end(t);
        if blank(t) {
            assert forall|i: int| 0 <= i < s.len() implies is_whitespace(#[trigger] s[i]) by {
                if i < t.len() {
                    assert(t[i] == s[i]);
                }
            }
        }
        if blank(s) {
            assert forall|i: int| 0 <= i < t.len() implies is_whitespace(#[trigger] t[i]) by {
                assert(t[i] == s[i]);
            }
        }
    } else if s.len() > 0 {
        assert(!is_whitespace(s[s.len() - 1]));
    }
}

/// Where the text of `chars` starts once leading whitespace is skipped.
fn trim_start_index(chars: &Vec<char>) -> (i: usize)
    ensures
        i <= chars@.len(),
        chars@.skip(i as int) == trim_start(chars@),
{
    let mut i: usize = 0;
    assert(chars@.skip(0) == chars@);
    while i < chars.len() && char_is_whitespace(chars[i])
        invariant
            i <= chars@.len(),
            trim_start(chars@.skip(i as int)) == trim_start(chars@),
        decreases chars@.len() - i,
    {
        assert(chars@.skip(i as int)[0] == chars@[i as int]);
        assert(chars@.skip(i as int).skip(1) == chars@.skip(i + 1));
        i += 1;
    }
    proof {
        if i < chars.len() {
            assert(chars@.skip(i as int)[0] == chars@[i as int]);
        }
    }
    i
}

/// Where the text of `chars[from..]` ends once trailing whitespace is dropped.
fn trim_end_index(chars: &Vec<char>, from: usize) -> (j: usize)
    requires
        from <= chars@.len(),
    ensures
        from <= j <= chars@.len(),
        chars@.subrange(from as int, j as int) == trim_end(chars@.skip(from as int)),
{
    let mut j: usize = chars.len();
    assert(chars@.subrange(from as int, j as int) == chars@.skip(from as int));
    while j > from && char_is_whitespace(chars[j - 1])
        invariant
            from <= j <= chars@.len(),
            trim_end(chars@.subrange(from as int, j as int)) == trim_end(chars@.skip(from as int)),
        decreases j,
    {
        assert(chars@.subrange(from as int, j as int).last() == chars@[j - 1]);
        assert(chars@.subrange(from as int, j as int).drop_last() == chars@.subrange(
            from as int,
            j - 1,
        ));
        j -= 1;
    }
    proof {
        if j > from {
            assert(chars@.subrange(from as int, j as int).last() == chars@[j - 1]);
        }
    }
    j
}

/// `s` without leading and trailing whitespace.
pub fn trimmed(s: &str) -> (r: String)
    ensures
        r@ == trim(s@),
{
    let chars = chars_of(s);
    let i = trim_start_index(&chars);
    let j = trim_end_index(&chars, i);
    slice_text(&chars, i, j)
}

/// `s` without trailing whitespace.
pub fn trimmed_end(s: &str) -> (r: String)
    ensures
        r@ == trim_end(s@),
{
    let chars = chars_of(s);
    let j = trim_end_index(&chars, 0);
    assert(chars@.skip(0) == chars@);
    slice_text(&chars, 0, j)
}

/// Whether `s` holds nothing but whitespace.
pub fn is_blank(s: &str) -> (r: bool)
    ensures
        r == blank(s@),
{
    let chars = chars_of(s);
    let mut i: usize = 0;
    while i < chars.len()
        invariant
            i <= chars@.len(),
            chars@ == s@,
            forall|k: int| 0 <= k < i ==> is_whitespace(#[trigger] chars@[k]),
        decreases chars@.len() - i,
    {
        if !char_is_whitespace(chars[i]) {
            assert(!is_whitespace(s@[i as int]));
            return false;
        }
        i += 1;
    }
    true
}

/// `s` without the trailing run of `c`.
pub open spec fn trim_end_of(s: Seq<char>, c: char) -> Seq<char>
    decreases s.len(),
{
    if s.len() > 0 && s.last() == c {
        trim_end_of(s.drop_last(), c)
    } else {
        s
    }
}

/// `s` without the trailing run of `c`.
pub fn trimmed_end_of(s: &str, c: char) -> (r: String)
    ensures
        r@ == trim_end_of(s@, c),
{
    let chars = chars_of(s);
    let mut j: usize = chars.len();
    assert(chars@.take(j as int) == chars@);
    while j > 0 && chars[j - 1] == c
        invariant
            j <= chars@.len(),
            trim_end_of(chars@.take(j as int), c) == trim_end_of(chars@, c),
        decreases j,
    {
        assert(chars@.take(j as int).last() == chars@[j - 1]);
        assert(chars@.take(j as int).drop_last() == chars@.take(j - 1));
        j -= 1;
    }
    proof {
        if j > 0 {
            assert(chars@.take(j as int).last() == chars@[j - 1]);
        }
        assert(chars@.subrange(0, j as int) == chars@.take(j as int));
    }
    slice_text(&chars, 0, j)
}

// ---- Searching and splitting ----

/// The index of the first `c` in `s`, or the length of `s` where it has none.
pub open spec fn find(s: Seq<char>, c: char) -> int
    decreases s.len(),
{
    if s.len() == 0 || s[0] == c {
        0
    } else {
        1 + find(s.skip(1), c)
    }
}

pub proof fn lemma_find(s: Seq<char>, c: char)
    ensures
        0 <= find(s, c) <= s.len(),
        find(s, c) < s.len() ==> s[find(s, c)] == c,
        forall|k: int| 0 <= k < find(s, c) ==> s[k] != c,
    decreases s.len(),
{
    if s.len() > 0 && s[0] != c {
        let t = s.skip(1);
        lemma_find(t, c);
        assert forall|k: int| 0 <= k < find(s, c) implies s[k] != c by {
            if k > 0 {
                assert(t[k - 1] == s[k]);
            }
        }
    }
}

pub proof fn lemma_find_is(s: Seq<char>, c: char, k: int)
    requires
        0 <= k <= s.len(),
        k < s.len() ==> s[k] == c,
        forall|j: int| 0 <= j < k ==> s[j] != c,
    ensures
        find(s, c) == k,
{
    lemma_find(s, c);
    let f = find(s, c);
    if f < k {
        assert(s[f] != c);
    }
    if k < f {
        assert(s[k] != c);
    }
}

/// The index of the first `c` in `chars[from..]`, or the length of `chars`.
pub fn find_from(chars: &Vec<char>, from: usize, c: char) -> (r: usize)
    requires
        from <= chars@.len(),
    ensures
        from <= r <= chars@.len(),
        r == from + find(chars@.skip(from as int), c),
{
    let mut i: usize = from;
    let ghost t = chars@.skip(from as int);
    while i < chars.len() && chars[i] != c
        invariant
            from <= i <= chars@.len(),
            t == chars@.skip(from as int),
            forall|j: int| 0 <= j < i - from ==> #[trigger] t[j] != c,
        decreases chars@.len() - i,
    {
        i += 1;
    }
    proof {
        lemma_find_is(t, c, i - from);
    }
    i
}

/// `s` cut at its first `c`, which belongs to neither part.
pub open spec fn cut(s: Seq<char>, c: char) -> Option<(Seq<char>, Seq<char>)> {
    if find(s, c) < s.len() {
        Some((s.take(find(s, c)), s.skip(find(s, c) + 1)))
    } else {
        None
    }
}

pub open spec fn opt_pair(o: Option<(String, String)>) -> Option<(Seq<char>, Seq<char>)> {
    match o {
        Some((a, b)) => Some((a@, b@)),
        None => None,
    }
}

/// `s` cut at its first `c`, which belongs to neither part.
pub fn split_once(s: &str, c: char) -> (r: Option<(String, String)>)
    ensures
        opt_pair(r) == cut(s@, c),
{
    let chars = chars_of(s);
    let k = find_from(&chars, 0, c);
    assert(chars@.skip(0) == chars@);
    if k < chars.len() {
        let a = slice_text(&chars, 0, k);
        let b = slice_text(&chars, k + 1, chars.len());
        assert(a@ == s@.take(k as int));
        assert(b@ == s@.skip(k + 1));
        Some((a, b))
    } else {
        None
    }
}

/// The pieces of `s` between the occurrences of `c`.
pub open spec fn split_seq(s: Seq<char>, c: char) -> Seq<Seq<char>>
    decreases s.len(),
    via split_seq_decreases
{
    let k = find(s, c);
    if k < s.len() {
        seq![s.take(k)] + split_seq(s.skip(k + 1), c)
    } else {
        seq![s]
    }
}

#[via_fn]
proof fn split_seq_decreases(s: Seq<char>, c: char) {
    lemma_find(s, c);
}

/// The pieces of `s` between the occurrences of `c`.
pub fn split_on(s: &str, c: char) -> (r: Vec<String>)
    ensures
        texts(r@) == split_seq(s@, c),
        r@.len() > 0,
{
    let chars = chars_of(s);
    let mut out: Vec<String> = Vec::new();
    let mut pos: usize = 0;
    assert(chars@.skip(0) == chars@);
    assert(texts(out@) + split_seq(chars@, c) == split_seq(chars@, c));
    loop
        invariant
            pos <= chars@.len(),
            chars@ == s@,
            texts(out@) + split_seq(chars@.skip(pos as int), c) == split_seq(chars@, c),
        decreases chars@.len() - pos,
    {
        let k = find_from(&chars, pos, c);
        let ghost rest = chars@.skip(pos as int);
        let piece = slice_text(&chars, pos, k);
        let ghost before = texts(out@);
        out.push(piece);
        assert(texts(out@) == before.push(piece@));
        if k < chars.len() {
            assert(piece@ == rest.take(k - pos));
            assert(rest.skip(k - pos + 1) == chars@.skip(k + 1));
            assert(texts(out@) + split_seq(chars@.skip(k + 1), c) == before + (seq![piece@]
                + split_seq(chars@.skip(k + 1), c)));
            pos = k + 1;
        } else {
            assert(piece@ == rest);
            assert(texts(out@) == before + seq![rest]);
            return out;
        }
    }
}

/// The number of leading characters of `s` that are not whitespace.
pub open spec fn word_len(s: Seq<char>) -> int
    decreases s.len(),
{
    if s.len() == 0 || is_whitespace(s[0]) {
        0
    } else {
        1 + word_len(s.skip(1))
    }
}

proof fn lemma_word_len(s: Seq<char>)
    ensures
        0 <= word_len(s) <= s.len(),
        s.len() > 0 && !is_whitespace(s[0]) ==> word_len(s) > 0,
    decreases s.len(),
{
    if s.len() > 0 && !is_whitespace(s[0]) {
        lemma_word_len(s.skip(1));
    }
}

/// The words of `s`: its maximal runs of characters that are not whitespace.
pub open spec fn words(s: Seq<char>) -> Seq<Seq<char>>
    decreases s.len(),
    via words_decreases
{
    let t = trim_start(s);
    if t.len() == 0 {
        Seq::empty()
    } else {
        seq![t.take(word_len(t))] + words(t.skip(word_len(t)))
    }
}

#[via_fn]
proof fn words_decreases(s: Seq<char>) {
    lemma_blank_trim_start(s);
    lemma_word_len(trim_start(s));
}

/// The words of `s`.
pub fn split_words(s: &str) -> (r: Vec<String>)
    ensures
        texts(r@) == words(s@),
{
    let chars = chars_of(s);
    let mut out: Vec<String> = Vec::new();
    let mut pos: usize = 0;
    assert(chars@.skip(0) == chars@);
    assert(texts(out@) + words(chars@) == words(chars@));
    loop
        invariant
            pos <= chars@.len(),
            chars@ == s@,
            texts(out@) + words(chars@.skip(pos as int)) == words(chars@),
        decreases chars@.len() - pos,
    {
        let ghost rest = chars@.skip(pos as int);
        let mut i: usize = pos;
        while i < chars.len() && char_is_whitespace(chars[i])
            invariant
                pos <= i <= chars@.len(),
                trim_start(chars@.skip(i as int)) == trim_start(chars@.skip(pos as int)),
            decreases chars@.len() - i,
        {
            assert(chars@.skip(i as int)[0] == chars@[i as int]);
            assert(chars@.skip(i as int).skip(1) == chars@.skip(i + 1));
            i += 1;
        }
        let ghost t = chars@.skip(i as int);
        proof {
            if i < chars.len() {
                assert(t[0] == chars@[i as int]);
            }
            assert(trim_start(rest) == t);
        }
        if i == chars.len() {
            assert(texts(out@) + Seq::<Seq<char>>::empty() == texts(out@));
            return out;
        }
        let mut j: usize = i;
        assert(t.skip(0) == t);
        while j < chars.len() && !char_is_whitespace(chars[j])
            invariant
                i <= j <= chars@.len(),
                t == chars@.skip(i as int),
                word_len(t) == (j - i) + word_len(t.skip(j - i)),
            decreases chars@.len() - j,
        {
            assert(t.skip(j - i)[0] == chars@[j as int]);
            assert(t.skip(j - i).skip(1) == t.skip(j - i + 1));
            j += 1;
        }
        proof {
            if j < chars.len() {
                assert(t.skip(j - i)[0] == chars@[j as int]);
            }
            assert(word_len(t) == j - i);
            lemma_word_len(t);
        }
        let word = slice_text(&chars, i, j);
        let ghost before = texts(out@);
        out.push(word);
        assert(texts(out@) == before.push(word@));
        assert(word@ == t.take(j - i));
        assert(t.skip(j - i) == chars@.skip(j as int));
        assert(texts(out@) + words(chars@.skip(j as int)) == before + (seq![word@] + words(
            chars@.skip(j as int),
        )));
        pos = j;
    }
}

/// `s` without one trailing carriage return.
pub open spec fn strip_cr(s: Seq<char>) -> Seq<char> {
    if s.len() > 0 && s.last() == '\r' {
        s.drop_last()
    } else {
        s
    }
}

/// The lines of `s`: each ends at a line feed, which may follow a carriage
/// return, or at the end of the text; the endings are left out.
pub open spec fn line_seq(s: Seq<char>) -> Seq<Seq<char>>
    decreases s.len(),
    via line_seq_decreases
{
    let k = find(s, '\n');
    if s.len() == 0 {
        Seq::empty()
    } else if k < s.len() {
        seq![strip_cr(s.take(k))] + line_seq(s.skip(k + 1))
    } else {
        seq![s]
    }
}

#[via_fn]
proof fn line_seq_decreases(s: Seq<char>) {
    lemma_find(s, '\n');
}

/// The lines of `s`.
pub fn split_lines(s: &str) -> (r: Vec<String>)
    ensures
        texts(r@) == line_seq(s@),
{
    let chars = chars_of(s);
    let mut out: Vec<String> = Vec::new();
    let mut pos: usize = 0;
    assert(chars@.skip(0) == chars@);
    assert(texts(out@) + line_seq(chars@) == line_seq(chars@));
    while pos < chars.len()
        invariant
            pos <= chars@.len(),
            chars@ == s@,
            texts(out@) + line_seq(chars@.skip(pos as int)) == line_seq(chars@),
        decreases chars@.len() - pos,
    {
        let k = find_from(&chars, pos, '\n');
        let ghost rest = chars@.skip(pos as int);
        let ghost before = texts(out@);
        if k < chars.len() {
            let ghost raw = rest.take(k - pos);
            let end: usize = if k > pos && chars[k - 1] == '\r' { k - 1 } else { k };
            let line = slice_text(&chars, pos, end);
            assert(raw == chars@.subrange(pos as int, k as int));
            assert(line@ == strip_cr(raw)) by {
                if raw.len() > 0 {
                    assert(raw.last() == chars@[k - 1]);
                }
            }
            out.push(line);
            assert(texts(out@) == before.push(line@));
            assert(rest.skip(k - pos + 1) == chars@.skip(k + 1));
            assert(texts(out@) + line_seq(chars@.skip(k + 1)) == before + (seq![line@]
                + line_seq(chars@.skip(k + 1))));
            pos = k + 1;
        } else {
            let line = slice_text(&chars, pos, k);
            assert(line@ == rest);
            out.push(line);
            assert(texts(out@) == before.push(line@));
            assert(chars@.skip(k as int).len() == 0);
            assert(texts(out@) + line_seq(chars@.skip(k as int)) == before + seq![rest]);
            pos = k;
        }
    }
    assert(chars@.skip(pos as int).len() == 0);
    assert(texts(out@) + Seq::<Seq<char>>::empty() == texts(out@));
    out
}

/// Whether `s` begins with `p`.
pub open spec fn starts_with(s: Seq<char>, p: Seq<char>) -> bool {
    p.len() <= s.len() && s.take(p.len() as int) == p
}

/// What follows the prefix `p` of `s`, where `s` begins with it.
pub open spec fn after_prefix(s: Seq<char>, p: Seq<char>) -> Option<Seq<char>> {
    if starts_with(s, p) {
        Some(s.skip(p.len() as int))
    } else {
        None
    }
}

fn matches_at(chars: &Vec<char>, at: usize, p: &Vec<char>) -> (r: bool)
    requires
        at + p@.len() <= chars@.len(),
    ensures
        r == (chars@.subrange(at as int, at + p@.len()) == p@),
{
    let mut i: usize = 0;
    let ghost w = chars@.subrange(at as int, at + p@.len());
    while i < p.len()
        invariant
            i <= p@.len(),
            at + p@.len() <= chars@.len(),
            w == chars@.subrange(at as int, at + p@.len()),
            forall|k: int| 0 <= k < i ==> w[k] == p@[k],
        decreases p@.len() - i,
    {
        assert(at + i < chars.len());
        if chars[at + i] != p[i] {
            assert(w[i as int] != p@[i as int]);
            return false;
        }
        i += 1;
    }
    assert(w == p@);
    true
}

/// Whether `s` begins with `p`.
pub fn has_prefix(s: &str, p: &str) -> (r: bool)
    ensures
        r == starts_with(s@, p@),
{
    let chars = chars_of(s);
    let pat = chars_of(p);
    if pat.len() > chars.len() {
        return false;
    }
    assert(chars@.subrange(0, pat@.len() as int) == s@.take(p@.len() as int));
    matches_at(&chars, 0, &pat)
}

/// What follows the prefix `p` of `s`.
pub fn strip_prefix(s: &str, p: &str) -> (r: Option<String>)
    ensures
        opt_text(r) == after_prefix(s@, p@),
{
    if has_prefix(s, p) {
        let chars = chars_of(s);
        let pat = chars_of(p);
        let rest = slice_text(&chars, pat.len(), chars.len());
        assert(rest@ == s@.skip(p@.len() as int));
        Some(rest)
    } else {
        None
    }
}

/// Whether `p` occurs in `s`.
pub open spec fn has_infix(s: Seq<char>, p: Seq<char>) -> bool {
    exists|i: int|
        0 <= i && i + p.len() <= s.len() && #[trigger] s.subrange(i, i + p.len() as int) == p
}

/// Whether `p` occurs in `s`.
pub fn contains(s: &str, p: &str) -> (r: bool)
    ensures
        r == has_infix(s@, p@),
{
    let chars = chars_of(s);
    let pat = chars_of(p);
    if pat.len() > chars.len() {
        return false;
    }
    let last: usize = chars.len() - pat.len();
    let mut i: usize = 0;
    loop
        invariant
            i <= last,
            last + pat@.len() == chars@.len(),
            chars@ == s@,
            pat@ == p@,
            forall|k: int|
                0 <= k < i ==> #[trigger] s@.subrange(k, k + p@.len() as int) != p@,
        decreases last - i,
    {
        if matches_at(&chars, i, &pat) {
            assert(s@.subrange(i as int, i + p@.len() as int) == p@);
            return true;
        }
        if i == last {
            assert(!has_infix(s@, p@));
            return false;
        }
        i += 1;
    }
}

// ---- Case and order ----

/// `c` with an ASCII capital letter made small.
pub open spec fn ascii_lower_char(c: char) -> char {
    if 'A' <= c <= 'Z' {
        ((c as u8) + 32) as u8 as char
    } else {
        c
    }
}

/// `s` with its ASCII capital letters made small.
pub open spec fn ascii_lower(s: Seq<char>) -> Seq<char> {
    s.map_values(|c: char| ascii_lower_char(c))
}

fn lower_char(c: char) -> (r: char)
    ensures
        r == ascii_lower_char(c),
{
    if 'A' <= c && c <= 'Z' {
        let b: u8 = c as u8;
        (b + 32) as char
    } else {
        c
    }
}

/// `s` with its ASCII capital letters made small.
pub fn to_ascii_lower(s: &str) -> (r: String)
    ensures
        r@ == ascii_lower(s@),
{
    let chars = chars_of(s);
    let mut out = String::new();
    let mut i: usize = 0;
    while i < chars.len()
        invariant
            i <= chars@.len(),
            chars@ == s@,
            out@ == ascii_lower(s@).take(i as int),
        decreases chars@.len() - i,
    {
        out.push(lower_char(chars[i]));
        i += 1;
    }
    assert(ascii_lower(s@).take(i as int) == ascii_lower(s@));
    out
}

/// Whether `a` comes before `b` in the order of their code points, character
/// by character, a proper prefix before the longer text.
pub open spec fn text_lt(a: Seq<char>, b: Seq<char>) -> bool
    decreases a.len(),
{
    if b.len() == 0 {
        false
    } else if a.len() == 0 {
        true
    } else if a[0] == b[0] {
        text_lt(a.skip(1), b.skip(1))
    } else {
        a[0] < b[0]
    }
}

/// Whether `a` comes before `b`.
pub fn less(a: &str, b: &str) -> (r: bool)
    ensures
        r == text_lt(a@, b@),
{
    let x = chars_of(a);
    let y = chars_of(b);
    let mut i: usize = 0;
    assert(x@.skip(0) == x@ && y@.skip(0) == y@);
    while i < x.len() && i < y.len() && x[i] == y[i]
        invariant
            i <= x@.len(),
            i <= y@.len(),
            text_lt(x@.skip(i as int), y@.skip(i as int)) == text_lt(x@, y@),
        decreases x@.len() - i,
    {
        assert(x@.skip(i as int).skip(1) == x@.skip(i + 1));
        assert(y@.skip(i as int).skip(1) == y@.skip(i + 1));
        i += 1;
    }
    if i == y.len() {
        false
    } else if i == x.len() {
        true
    } else {
        x[i] < y[i]
    }
}

/// The order of texts is transitive and total.
pub proof fn lemma_text_order(a: Seq<char>, b: Seq<char>, c: Seq<char>)
    ensures
        !text_lt(a, a),
        text_lt(a, b) && text_lt(b, c) ==> text_lt(a, c),
        text_lt(a, b) ==> !text_lt(b, a),
        !text_lt(a, b) && !text_lt(b, a) ==> a == b,
        !text_lt(b, a) && !text_lt(c, b) ==> !text_lt(c, a),
    decreases a.len() + b.len() + c.len(),
{
    if a.len() > 0 && b.len() > 0 && c.len() > 0 {
        lemma_text_order(a.skip(1), b.skip(1), c.skip(1));
        if a.skip(1) == b.skip(1) && a[0] == b[0] {
            assert(a =~= b) by {
                assert forall|i: int| 0 <= i < a.len() implies a[i] == b[i] by {
                    if i > 0 {
                        assert(a[i] == a.skip(1)[i - 1]);
                        assert(b[i] == b.skip(1)[i - 1]);
                    }
                }
                assert(a.skip(1).len() == b.skip(1).len());
            }
        }
    } else if a.len() > 0 && b.len() > 0 {
        lemma_text_order(a.skip(1), b.skip(1), c);
        if a.skip(1) == b.skip(1) && a[0] == b[0] {
            assert(a =~= b) by {
                assert forall|i: int| 0 <= i < a.len() implies a[i] == b[i] by {
                    if i > 0 {
                        assert(a[i] == a.skip(1)[i - 1]);
                        assert(b[i] == b.skip(1)[i - 1]);
                    }
                }
                assert(a.skip(1).len() == b.skip(1).len());
            }
        }
    } else if a.len() == 0 && b.len() == 0 {
        assert(a =~= b);
    } else if a.len() > 0 {
        lemma_text_order(a.skip(1), b, c);
    }
}

// ---- Numbers ----

/// The decimal digit of value `d`.
pub open spec fn digit_char(d: int) -> char {
    (('0' as u8) + d) as u8 as char
}

pub open spec fn is_digit(c: char) -> bool {
    '0' <= c <= '9'
}

/// The value of a decimal digit.
pub open spec fn digit_value(c: char) -> int {
    c as int - '0' as int
}

/// `n` in decimal, without leading zeros.
pub open spec fn decimal(n: nat) -> Seq<char>
    decreases n,
{
    if n < 10 {
        seq![digit_char(n as int)]
    } else {
        decimal(n / 10).push(digit_char((n % 10) as int))
    }
}

/// `n` in decimal, with a minus sign where it is negative.
pub open spec fn decimal_int(n: int) -> Seq<char> {
    if n < 0 {
        seq!['-'] + decimal((-n) as nat)
    } else {
        decimal(n as nat)
    }
}

/// `n` in decimal.
pub fn u64_text(n: u64) -> (r: String)
    ensures
        r@ == decimal(n as nat),
    decreases n,
{
    if n < 10 {
        let mut out = String::new();
        let d: u8 = n as u8;
        out.push((48 + d) as char);
        assert(out@ =~= decimal(n as nat));
        out
    } else {
        let mut out = u64_text(n / 10);
        let d: u8 = (n % 10) as u8;
        out.push((48 + d) as char);
        out
    }
}

/// `n` in decimal.
pub fn i32_text(n: i32) -> (r: String)
    ensures
        r@ == decimal_int(n as int),
{
    if n < 0 {
        let mut out = String::new();
        out.push('-');
        let m: i64 = -(n as i64);
        let digits = u64_text(m as u64);
        out.append(digits.as_str());
        assert(out@ =~= decimal_int(n as int));
        out
    } else {
        u64_text(n as u64)
    }
}

pub open spec fn all_digits(s: Seq<char>) -> bool {
    forall|i: int| 0 <= i < s.len() ==> is_digit(#[trigger] s[i])
}

/// The value of a run of decimal digits.
pub open spec fn digits_value(s: Seq<char>) -> int
    decreases s.len(),
{
    if s.len() == 0 {
        0
    } else {
        10 * digits_value(s.drop_last()) + digit_value(s.last())
    }
}

/// The number that `s` writes, where it is at most `max`: decimal digits, at
/// least one, which a plus sign may precede.
pub open spec fn parse_number(s: Seq<char>, max: int) -> Option<int> {
    let d = if s.len() > 0 && s[0] == '+' {
        s.skip(1)
    } else {
        s
    };
    if d.len() > 0 && all_digits(d) && digits_value(d) <= max {
        Some(digits_value(d))
    } else {
        None
    }
}

proof fn lemma_digits_value_grows(s: Seq<char>, k: int)
    requires
        all_digits(s),
        0 <= k <= s.len(),
    ensures
        0 <= digits_value(s.take(k)) <= digits_value(s),
    decreases s.len(),
{
    if s.len() == 0 {
        assert(s.take(k) =~= s);
    } else {
        let t = s.drop_last();
        assert(all_digits(t)) by {
            assert forall|i: int| 0 <= i < t.len() implies is_digit(#[trigger] t[i]) by {
                assert(t[i] == s[i]);
            }
        }
        assert(is_digit(s[s.len() - 1]));
        if k == s.len() {
            assert(s.take(k) =~= s);
            lemma_digits_value_grows(t, t.len() as int);
            assert(t.take(t.len() as int) =~= t);
        } else {
            assert(s.take(k) =~= t.take(k));
            lemma_digits_value_grows(t, k);
        }
    }
}

/// The number that `s` writes, where it is at most `max`.
pub fn parse_u64(s: &str, max: u64) -> (r: Option<u64>)
    ensures
        r is Some <==> parse_number(s@, max as int) is Some,
        r is Some ==> r->0 == parse_number(s@, max as int)->0,
{
    let chars = chars_of(s);
    let start: usize = if chars.len() > 0 && chars[0] == '+' { 1 } else { 0 };
    let ghost d = if s@.len() > 0 && s@[0] == '+' {
        s@.skip(1)
    } else {
        s@
    };
    assert(d == chars@.skip(start as int));
    if start == chars.len() {
        return None;
    }
    let mut value: u64 = 0;
    let mut i: usize = start;
    while i < chars.len()
        invariant
            start <= i <= chars@.len(),
            start <= 1,
            d == chars@.skip(start as int),
            d == (if s@.len() > 0 && s@[0] == '+' { s@.skip(1) } else { s@ }),
            forall|k: int| 0 <= k < i - start ==> is_digit(#[trigger] d[k]),
            value == digits_value(d.take(i - start)),
            value <= max,
        decreases chars@.len() - i,
    {
        let c = chars[i];
        assert(d[i - start] == c);
        if !('0' <= c && c <= '9') {
            assert(!is_digit(d[i - start]));
            return None;
        }
        let digit: u64 = (c as u32 - '0' as u32) as u64;
        proof {
            let next = d.take(i - start + 1);
            assert(next.drop_last() =~= d.take(i - start));
            assert(next.last() == c);
            assert(digits_value(next) == 10 * value + digit);
            if all_digits(d) {
                lemma_digits_value_grows(d, i - start + 1);
            }
        }
        if value > (u64::MAX - digit) / 10 || value * 10 + digit > max {
            return None;
        }
        value = value * 10 + digit;
        i += 1;
    }
    assert(d.take(i - start) =~= d);
    Some(value)
}

/// Reading back a number that was written in decimal gives that number.
pub proof fn law_written_numbers_are_read(n: nat, max: int)
    requires
        n <= max,
    ensures
        parse_number(decimal(n), max) == Some(n as int),
{
    lemma_decimal_digits(n);
    assert(is_digit(decimal(n)[0]));
}

proof fn lemma_decimal_digits(n: nat)
    ensures
        decimal(n).len() > 0,
        all_digits(decimal(n)),
        digits_value(decimal(n)) == n,
    decreases n,
{
    if n < 10 {
        let s = decimal(n);
        assert(s.drop_last() =~= Seq::<char>::empty());
        assert(digits_value(s.drop_last()) == 0);
    } else {
        lemma_decimal_digits(n / 10);
        let s = decimal(n);
        assert(s.drop_last() =~= decimal(n / 10));
        assert forall|i: int| 0 <= i < s.len() implies is_digit(#[trigger] s[i]) by {
            if i < s.len() - 1 {
                assert(s[i] == decimal(n / 10)[i]);
            }
        }
    }
}

// ---- Building ----

/// The pieces of `v` with `sep` between them.
pub open spec fn join_seq(v: Seq<Seq<char>>, sep: Seq<char>) -> Seq<char>
    decreases v.len(),
{
    if v.len() == 0 {
        Seq::empty()
    } else if v.len() == 1 {
        v[0]
    } else {
        join_seq(v.drop_last(), sep) + sep + v.last()
    }
}

/// The strings of `v` with `sep` between them.
pub fn join(v: &Vec<String>, sep: &str) -> (r: String)
    ensures
        r@ == join_seq(texts(v@), sep@),
{
    let mut out = String::new();
    let mut i: usize = 0;
    let ghost all = texts(v@);
    assert(all.take(0).len() == 0);
    while i < v.len()
        invariant
            i <= v@.len(),
            all == texts(v@),
            out@ == join_seq(all.take(i as int), sep@),
        decreases v@.len() - i,
    {
        if i > 0 {
            out.append(sep);
        }
        out.append(v[i].as_str());
        assert(all.take(i + 1).drop_last() =~= all.take(i as int));
        assert(all.take(i + 1).last() == v@[i as int]@);
        if i == 0 {
            assert(all.take(1)[0] == v@[0]@);
            assert(out@ =~= v@[0]@);
        }
        i += 1;
    }
    assert(all.take(i as int) =~= all);
    out
}

/// `n` spaces.
pub open spec fn spaces(n: nat) -> Seq<char> {
    Seq::new(n, |i: int| ' ')
}

/// `s` filled up with spaces on the right to at least `width` characters.
pub open spec fn pad_right(s: Seq<char>, width: nat) -> Seq<char> {
    if s.len() < width {
        s + spaces((width - s.len()) as nat)
    } else {
        s
    }
}

/// `s` filled up with spaces on the right to at least `width` characters.
pub fn padded(s: &str, width: usize) -> (r: String)
    ensures
        r@ == pad_right(s@, width as nat),
{
    let chars = chars_of(s);
    let mut out = s.to_owned();
    let mut n: usize = chars.len();
    while n < width
        invariant
            n >= s@.len(),
            s@.len() < width ==> n <= width,
            s@.len() >= width ==> n == s@.len(),
            out@ == s@ + spaces((n - s@.len()) as nat),
        decreases width - n,
    {
        out.push(' ');
        n += 1;
        assert(out@ =~= s@ + spaces((n - s@.len()) as nat));
    }
    assert(s@ + spaces(0) =~= s@);
    out
}

pub fn cat2(a: &str, b: &str) -> (r: String)
    ensures
        r@ == a@ + b@,
{
    let mut out = a.to_owned();
    out.append(b);
    out
}

pub fn cat3(a: &str, b: &str, c: &str) -> (r: String)
    ensures
        r@ == a@ + b@ + c@,
{
    let mut out = cat2(a, b);
    out.append(c);
    out
}

pub fn cat4(a: &str, b: &str, c: &str, d: &str) -> (r: String)
    ensures
        r@ == a@ + b@ + c@ + d@,
{
    let mut out = cat3(a, b, c);
    out.append(d);
    out
}

pub fn cat5(a: &str, b: &str, c: &str, d: &str, e: &str) -> (r: String)
    ensures
        r@ == a@ + b@ + c@ + d@ + e@,
{
    let mut out = cat4(a, b, c, d);
    out.append(e);
    out
}

/// Spaces, tabs and line breaks are whitespace; no character that can be seen in
/// ASCII is.
pub proof fn law_whitespace(c: char)
    ensures
        c == ' ' || c == '\t' || c == '\n' || c == '\r' ==> is_whitespace(c),
        '!' <= c <= '~' ==> !is_whitespace(c),
        is_whitespace(c) <==> ({
            let n = c as int;
            ||| 9 <= n <= 13 || n == 32 || n == 0x85 || n == 0xa0
            ||| n == 0x1680 || 0x2000 <= n <= 0x200a || n == 0x2028 || n == 0x2029
            ||| n == 0x202f || n == 0x205f || n == 0x3000
        }),
{
}

/// Trimming a text takes away whitespace at both ends, and only that, and leaves
/// none there.
pub proof fn law_trim_takes_whitespace_off(s: Seq<char>)
    ensures
        exists|front: Seq<char>, back: Seq<char>|
            #![trigger front + trim(s) + back]
            blank(front) && blank(back) && s == front + trim(s) + back,
        trim(s).len() > 0 ==> !is_whitespace(trim(s)[0]) && !is_whitespace(trim(s).last()),
{
    let t = trim_start(s);
    let front = lemma_trim_start_parts(s);
    let back = lemma_trim_end_parts(t);
    assert(front + trim(s) + back =~= s);
    lemma_blank_trim_start(s);
    if trim(s).len() > 0 {
        assert(t[0] == trim(s)[0]);
    }
}

proof fn lemma_trim_start_parts(s: Seq<char>) -> (front: Seq<char>)
    ensures
        blank(front),
        s == front + trim_start(s),
    decreases s.len(),
{
    if s.len() > 0 && is_whitespace(s[0]) {
        let rest = lemma_trim_start_parts(s.skip(1));
        let front = seq![s[0]] + rest;
        assert(s =~= seq![s[0]] + s.skip(1));
        assert(front + trim_start(s) =~= seq![s[0]] + (rest + trim_start(s.skip(1))));
        front
    } else {
        assert(s =~= Seq::<char>::empty() + s);
        Seq::empty()
    }
}

proof fn lemma_trim_end_parts(s: Seq<char>) -> (back: Seq<char>)
    ensures
        blank(back),
        s == trim_end(s) + back,
        trim_end(s).len() > 0 ==> !is_whitespace(trim_end(s).last()),
    decreases s.len(),
{
    if s.len() > 0 && is_whitespace(s.last()) {
        let rest = lemma_trim_end_parts(s.drop_last());
        let back = rest.push(s.last());
        assert(s =~= s.drop_last().push(s.last()));
        assert(trim_end(s) + back =~= (trim_end(s.drop_last()) + rest).push(s.last()));
        back
    } else {
        assert(s =~= s + Seq::<char>::empty());
        Seq::empty()
    }
}

/// Whitespace around a text is taken off, whatever there is of it, and no more.
pub proof fn law_whitespace_around_is_trimmed(front: Seq<char>, s: Seq<char>, back: Seq<char>)
    requires
        blank(front),
        blank(back),
        s.len() > 0,
        !is_whitespace(s[0]),
        !is_whitespace(s.last()),
    ensures
        trim(front + s + back) == s,
{
    let all = front + s + back;
    lemma_blank_front(front, s + back);
    assert(all =~= front + (s + back));
    assert((s + back)[0] == s[0]);
    lemma_blank_back(s, back);
}

proof fn lemma_blank_front(front: Seq<char>, s: Seq<char>)
    requires
        blank(front),
        s.len() > 0,
        !is_whitespace(s[0]),
    ensures
        trim_start(front + s) == s,
    decreases front.len(),
{
    if front.len() > 0 {
        let t = front + s;
        assert(t[0] == front[0]);
        assert forall|i: int| 0 <= i < front.skip(1).len() implies is_whitespace(
            #[trigger] front.skip(1)[i],
        ) by {
            assert(front.skip(1)[i] == front[i + 1]);
        }
        lemma_blank_front(front.skip(1), s);
        assert(t.skip(1) =~= front.skip(1) + s);
    } else {
        assert(front + s =~= s);
    }
}

proof fn lemma_blank_back(s: Seq<char>, back: Seq<char>)
    requires
        blank(back),
        s.len() > 0,
        !is_whitespace(s.last()),
    ensures
        trim_end(s + back) == s,
    decreases back.len(),
{
    if back.len() > 0 {
        let t = s + back;
        assert(t.last() == back.last());
        assert(is_whitespace(back[back.len() - 1]));
        assert forall|i: int| 0 <= i < back.drop_last().len() implies is_whitespace(
            #[trigger] back.drop_last()[i],
        ) by {
            assert(back.drop_last()[i] == back[i]);
        }
        lemma_blank_back(s, back.drop_last());
        assert(t.drop_last() =~= s + back.drop_last());
    } else {
        assert(s + back =~= s);
    }
}

/// A text is cut where the separator first stands, which belongs to neither part,
/// and not at all where it has none; and so it is split into pieces.
pub proof fn law_cut_at_the_first(front: Seq<char>, c: char, back: Seq<char>)
    requires
        forall|i: int| 0 <= i < front.len() ==> front[i] != c,
    ensures
        cut(front + seq![c] + back, c) == Some((front, back)),
        cut(front, c) is None,
        split_seq(front + seq![c] + back, c) == seq![front] + split_seq(back, c),
        split_seq(front, c) == seq![front],
{
    let s = front + seq![c] + back;
    let n = front.len() as int;
    lemma_find_is(s, c, n);
    lemma_find_is(front, c, n);
    assert(s.take(n) =~= front);
    assert(s.skip(n + 1) =~= back);
}

/// A text is read line by line: a line ends at a line feed, with or without a
/// carriage return before it, or at the end of the text.
pub proof fn law_lines_end_at_line_feeds(line: Seq<char>, rest: Seq<char>)
    requires
        forall|i: int| 0 <= i < line.len() ==> line[i] != '\n',
        line.len() > 0 ==> line.last() != '\r',
    ensures
        line_seq(line + seq!['\n'] + rest) == seq![line] + line_seq(rest),
        line_seq(line + seq!['\r', '\n'] + rest) == seq![line] + line_seq(rest),
        line_seq(Seq::empty()) == Seq::<Seq<char>>::empty(),
        line.len() > 0 ==> line_seq(line) == seq![line],
{
    let n = line.len() as int;
    let a = line + seq!['\n'] + rest;
    lemma_find_is(a, '\n', n);
    assert(a.take(n) =~= line);
    assert(a.skip(n + 1) =~= rest);
    let b = line + seq!['\r', '\n'] + rest;
    lemma_find_is(b, '\n', n + 1);
    assert(b.take(n + 1) =~= line.push('\r'));
    assert(line.push('\r').drop_last() =~= line);
    assert(b.skip(n + 2) =~= rest);
    lemma_find_is(line, '\n', n);
}

pub proof fn lemma_word_run(s: Seq<char>, n: int)
    requires
        0 <= n <= s.len(),
        forall|i: int| 0 <= i < n ==> !is_whitespace(#[trigger] s[i]),
        n < s.len() ==> is_whitespace(s[n]),
    ensures
        word_len(s) == n,
    decreases n,
{
    if n > 0 {
        let t = s.skip(1);
        assert forall|i: int| 0 <= i < n - 1 implies !is_whitespace(#[trigger] t[i]) by {
            assert(t[i] == s[i + 1]);
        }
        lemma_word_run(t, n - 1);
    }
}

/// The words of a text are its runs between whitespace.
pub proof fn law_words_stand_between_whitespace(word: Seq<char>, gap: char, rest: Seq<char>)
    requires
        word.len() > 0,
        forall|i: int| 0 <= i < word.len() ==> !is_whitespace(#[trigger] word[i]),
        is_whitespace(gap),
    ensures
        words(word + seq![gap] + rest) == seq![word] + words(rest),
        words(word) == seq![word],
        words(seq![gap] + rest) == words(rest),
        words(Seq::empty()) == Seq::<Seq<char>>::empty(),
{
    let n = word.len() as int;
    let s = word + seq![gap] + rest;
    assert(s[0] == word[0]);
    assert(trim_start(s) == s);
    assert forall|i: int| 0 <= i < n implies !is_whitespace(#[trigger] s[i]) by {
        assert(s[i] == word[i]);
    }
    lemma_word_run(s, n);
    lemma_word_run(word, n);
    assert(s.take(n) =~= word);
    assert(s.skip(n) =~= seq![gap] + rest);
    assert((seq![gap] + rest).skip(1) =~= rest);
    assert((seq![gap] + rest)[0] == gap);
    assert(trim_start(seq![gap] + rest) == trim_start(rest));
    assert(words(seq![gap] + rest) == words(rest));
    assert(words(s) == seq![s.take(n)] + words(s.skip(n)));
    assert(trim_start(word) == word);
    assert(word.take(n) =~= word);
    assert(word.skip(n) =~= Seq::<char>::empty());
    assert(words(Seq::<char>::empty()) =~= Seq::<Seq<char>>::empty());
    assert(words(word) =~= seq![word]);
}

/// Making letters small keeps the length, turns the capital letters of ASCII into
/// the small ones that stand in the same place of the alphabet, and leaves the
/// rest as it is.
pub proof fn law_small_letters(s: Seq<char>, i: int)
    requires
        0 <= i < s.len(),
    ensures
        ascii_lower(s).len() == s.len(),
        'A' <= s[i] <= 'Z' ==> ascii_lower(s)[i] as int - 'a' as int == s[i] as int - 'A' as int,
        !('A' <= s[i] <= 'Z') ==> ascii_lower(s)[i] == s[i],
        ascii_lower(ascii_lower(s)) == ascii_lower(s),
{
    assert(ascii_lower(ascii_lower(s)) =~= ascii_lower(s));
}

/// A negative number is written with a minus sign before its digits.
pub proof fn law_negative_numbers(n: int)
    ensures
        n >= 0 ==> parse_number(decimal_int(n), n) == Some(n),
        n < 0 ==> decimal_int(n)[0] == '-' && parse_number(decimal_int(n).skip(1), -n) == Some(
            -n,
        ),
{
    if n >= 0 {
        law_written_numbers_are_read(n as nat, n);
    } else {
        law_written_numbers_are_read((-n) as nat, -n);
        assert(decimal_int(n).skip(1) =~= decimal((-n) as nat));
    }
}

/// A text that is filled up begins as it is, has at least the width, and has
/// nothing but spaces behind it.
pub proof fn law_filled_up(s: Seq<char>, width: nat)
    ensures
        pad_right(s, width).len() == if s.len() < width {
            width
        } else {
            s.len()
        },
        pad_right(s, width).take(s.len() as int) == s,
        forall|i: int|
            s.len() <= i < pad_right(s, width).len() ==> #[trigger] pad_right(s, width)[i] == ' ',
{
    assert(pad_right(s, width).take(s.len() as int) =~= s);
}

/// The pieces of a text that was joined stand in it in their order, with the
/// separator between each and the next.
pub proof fn law_joined_in_order(v: Seq<Seq<char>>, sep: Seq<char>, last: Seq<char>)
    ensures
        join_seq(Seq::empty(), sep) == Seq::<char>::empty(),
        join_seq(seq![last], sep) == last,
        v.len() > 0 ==> join_seq(v.push(last), sep) == join_seq(v, sep) + sep + last,
{
    assert(v.push(last).drop_last() =~= v);
}

/// Texts are ordered by the first character in which they differ; where one is the
/// beginning of the other it comes first.
pub proof fn law_texts_are_ordered(
    common: Seq<char>,
    x: char,
    a: Seq<char>,
    y: char,
    b: Seq<char>,
)
    ensures
        x != y ==> (text_lt(common + seq![x] + a, common + seq![y] + b) <==> x < y),
        text_lt(common, common + seq![x] + a),
        !text_lt(common + seq![x] + a, common),
    decreases common.len(),
{
    let s = common + seq![x] + a;
    let t = common + seq![y] + b;
    if common.len() > 0 {
        let rest = common.skip(1);
        law_texts_are_ordered(rest, x, a, y, b);
        assert(s.skip(1) =~= rest + seq![x] + a);
        assert(t.skip(1) =~= rest + seq![y] + b);
    }
}

/// What stands in the middle of a text occurs in it.
pub proof fn lemma_infix(front: Seq<char>, middle: Seq<char>, back: Seq<char>)
    ensures
        has_infix(front + middle + back, middle),
{
    let s = front + middle + back;
    let i = front.len() as int;
    assert(s.subrange(i, i + middle.len() as int) =~= middle);
}

/// A character that is taken off the end of a text is taken off as often as it
/// stands there, and nothing else is.
pub proof fn law_taken_off_the_end(s: Seq<char>, c: char)
    ensures
        trim_end_of(s.push(c), c) == trim_end_of(s, c),
        s.len() == 0 || s.last() != c ==> trim_end_of(s, c) == s,
{
    assert(s.push(c).drop_last() =~= s);
}

/// A number may have a plus sign before it, and no minus sign; one that is too large
/// is none, and neither is a text without digits.
pub proof fn law_what_is_no_number(n: nat, max: int)
    ensures
        n <= max ==> parse_number(seq!['+'] + decimal(n), max) == Some(n as int),
        n > max ==> parse_number(decimal(n), max) is None,
        parse_number(seq!['-'] + decimal(n), max) is None,
        parse_number(Seq::empty(), max) is None,
        parse_number(seq!['+'], max) is None,
{
    lemma_decimal_digits(n);
    assert(is_digit(decimal(n)[0]));
    assert((seq!['+'] + decimal(n)).skip(1) =~= decimal(n));
    assert((seq!['-'] + decimal(n))[0] == '-');
    assert(!is_digit('-'));
    assert(seq!['+'].skip(1).len() == 0);
}

/// A text starts with another where that stands at its front, and what follows is
/// the rest; one that is shorter or differs somewhere does not.
pub proof fn law_prefixes(p: Seq<char>, rest: Seq<char>, s: Seq<char>, i: int)
    ensures
        starts_with(p + rest, p),
        after_prefix(p + rest, p) == Some(rest),
        s.len() < p.len() ==> !starts_with(s, p) && after_prefix(s, p) is None,
        0 <= i < p.len() <= s.len() && s[i] != p[i] ==> !starts_with(s, p) && after_prefix(s, p)
            is None,
{
    assert((p + rest).take(p.len() as int) =~= p);
    assert((p + rest).skip(p.len() as int) =~= rest);
    if 0 <= i < p.len() <= s.len() && s[i] != p[i] {
        assert(s.take(p.len() as int)[i] == s[i]);
    }
}

/// The last line of a text is one also where no line feed ends it, and is then taken
/// as it is.
pub proof fn law_last_lines_need_no_end(line: Seq<char>)
    requires
        line.len() > 0,
        forall|i: int| 0 <= i < line.len() ==> line[i] != '\n',
    ensures
        line_seq(line) == seq![line],
        line_seq(Seq::empty()).len() == 0,
{
    lemma_find_is(line, '\n', line.len() as int);
}

} // verus!
