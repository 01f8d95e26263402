use vstd::prelude::*;

verus! {

/// Trusted: std's `String::push` (not proved here). Its documentation says it
/// appends the given `char` to the end of the string; the contract states that
/// the character sequence afterwards is the old one with `ch` added at the end.
/// It allocates and may abort when memory runs out; that is not stated.
pub assume_specification[ std::string::String::push ](s: &mut String, ch: char)
    ensures
        final(s)@ == old(s)@.push(ch),
;

/// The characters of `s`, in order.
pub fn chars_of(s: &str) -> (res: Vec<char>)
    ensures
        res@ == s@,
{
    let mut res: Vec<char> = Vec::new();
    for c in it: s.chars()
        invariant
            res@ == it.seq().take(it.index() as int),
            it.seq() == s@,
    {
        res.push(c);
    }
    res
}

/// A string holding exactly the characters of `cs`.
pub fn string_of(cs: &[char]) -> (res: String)
    ensures
        res@ == cs@,
{
    let mut res = String::new();
    let n = cs.len();
    for i in 0..n
        invariant
            n == cs@.len(),
            res@ == cs@.take(i as int),
    {
        res.push(cs[i]);
        assert(cs@.take(i + 1) == cs@.take(i as int).push(cs@[i as int]));
    }
    assert(cs@.take(n as int) == cs@);
    res
}


/// The pieces of `list` joined, with `sep` between each two.
pub open spec fn seq_join(list: Seq<Seq<char>>, sep: Seq<char>) -> Seq<char>
    decreases list.len(),
{
    if list.len() == 0 {
        Seq::empty()
    } else if list.len() == 1 {
        list[0]
    } else {
        seq_join(list.drop_last(), sep) + sep + list.last()
    }
}

/// The texts of `parts`.
pub open spec fn texts(parts: Seq<String>) -> Seq<Seq<char>> {
    parts.map_values(|s: String| s@)
}

/// `parts` joined, with `sep` between each two.
pub fn join(parts: &[String], sep: &str) -> (res: String)
    ensures
        res@ == seq_join(texts(parts@), sep@),
{
    let mut res = String::new();
    let n = parts.len();
    let ghost list = texts(parts@);
    for i in 0..n
        invariant
            n == parts@.len(),
            list == texts(parts@),
            res@ == seq_join(list.take(i as int), sep@),
    {
        if i > 0 {
            res.append(sep);
        }
        res.append(parts[i].as_str());
        assert(list.take(i + 1).drop_last() =~= list.take(i as int));
    }
    assert(list.take(n as int) =~= list);
    res
}


// ---------------------------------------------------------------------------
// Character classes
// ---------------------------------------------------------------------------

/// `c` has the Unicode `White_Space` property.
pub open spec fn is_whitespace(c: char) -> bool {
    ||| ('\u{9}' <= c && c <= '\u{d}')
    ||| c == ' '
    ||| c == '\u{85}'
    ||| c == '\u{a0}'
    ||| c == '\u{1680}'
    ||| ('\u{2000}' <= c && c <= '\u{200a}')
    ||| c == '\u{2028}'
    ||| c == '\u{2029}'
    ||| c == '\u{202f}'
    ||| c == '\u{205f}'
    ||| c == '\u{3000}'
}

/// `c` is in the Unicode general category `Cc` (control codes).
pub open spec fn is_control(c: char) -> bool {
    c <= '\u{1f}' || ('\u{7f}' <= c && c <= '\u{9f}')
}

/// Whether `c` has the Unicode `White_Space` property.
pub fn char_is_whitespace(c: char) -> (res: bool)
    ensures
        res == is_whitespace(c),
{
    ('\u{9}' <= c && c <= '\u{d}') || c == ' ' || c == '\u{85}' || c == '\u{a0}' || c == '\u{1680}'
        || ('\u{2000}' <= c && c <= '\u{200a}') || c == '\u{2028}' || c == '\u{2029}' || c
        == '\u{202f}' || c == '\u{205f}' || c == '\u{3000}'
}

/// Whether `c` is a control code (general category `Cc`).
pub fn char_is_control(c: char) -> (res: bool)
    ensures
        res == is_control(c),
{
    c <= '\u{1f}' || ('\u{7f}' <= c && c <= '\u{9f}')
}

// ---------------------------------------------------------------------------
// Trimming
// ---------------------------------------------------------------------------

/// `s` without the characters satisfying `p` at its end.
pub open spec fn trim_end_by(s: Seq<char>, p: spec_fn(char) -> bool) -> Seq<char>
    decreases s.len(),
{
    if s.len() > 0 && p(s.last()) {
        trim_end_by(s.drop_last(), p)
    } else {
        s
    }
}

/// `s` without the characters satisfying `p` at its start.
pub open spec fn trim_start_by(s: Seq<char>, p: spec_fn(char) -> bool) -> Seq<char>
    decreases s.len(),
{
    if s.len() > 0 && p(s[0]) {
        trim_start_by(s.drop_first(), p)
    } else {
        s
    }
}

/// The test for being `c`.
pub open spec fn eq_char(c: char) -> spec_fn(char) -> bool {
    |x: char| x == c
}

/// The test for whitespace.
pub open spec fn whitespace() -> spec_fn(char) -> bool {
    |x: char| is_whitespace(x)
}

/// `s` without the copies of `c` at its end.
pub open spec fn trim_end_char(s: Seq<char>, c: char) -> Seq<char> {
    trim_end_by(s, eq_char(c))
}

/// `s` without the copies of `c` at either end.
pub open spec fn trim_char(s: Seq<char>, c: char) -> Seq<char> {
    trim_end_by(trim_start_by(s, eq_char(c)), eq_char(c))
}

/// `s` without whitespace at either end.
pub open spec fn trim_whitespace(s: Seq<char>) -> Seq<char> {
    trim_end_by(trim_start_by(s, whitespace()), whitespace())
}

/// Trimming the end leaves a prefix.
pub proof fn lemma_trim_end_by_prefix(s: Seq<char>, p: spec_fn(char) -> bool)
    ensures
        trim_end_by(s, p).len() <= s.len(),
        trim_end_by(s, p) == s.take(trim_end_by(s, p).len() as int),
        trim_end_by(s, p).len() > 0 ==> !p(trim_end_by(s, p).last()),
        forall|k: int|
            trim_end_by(s, p).len() <= k < s.len() ==> #[trigger] p(s[k]),
    decreases s.len(),
{
    if s.len() > 0 && p(s.last()) {
        lemma_trim_end_by_prefix(s.drop_last(), p);
        let t = trim_end_by(s.drop_last(), p);
        assert(t == s.take(t.len() as int)) by {
            assert(s.drop_last().take(t.len() as int) =~= s.take(t.len() as int));
        }
        assert forall|k: int| t.len() <= k < s.len() implies #[trigger] p(s[k]) by {
            if k < s.len() - 1 {
                assert(s.drop_last()[k] == s[k]);
            }
        }
    } else {
        assert(s.take(s.len() as int) =~= s);
    }
}

/// Where the run of copies of `c` that ends `cs[..end]` starts.
pub fn trimmed_end(cs: &[char], end: usize, c: char) -> (res: usize)
    requires
        end <= cs@.len(),
    ensures
        res <= end,
        cs@.take(res as int) == trim_end_char(cs@.take(end as int), c),
{
    let mut e = end;
    while e > 0 && cs[e - 1] == c
        invariant
            e <= end <= cs@.len(),
            trim_end_char(cs@.take(end as int), c) == trim_end_char(cs@.take(e as int), c),
        decreases e,
    {
        assert(cs@.take(e as int).drop_last() =~= cs@.take(e - 1));
        e = e - 1;
    }
    e
}


/// The bounds of `cs` without the copies of `c` at either end.
pub fn trim_char_bounds(cs: &[char], c: char) -> (res: (usize, usize))
    ensures
        res.0 <= res.1 <= cs@.len(),
        cs@.subrange(res.0 as int, res.1 as int) == trim_char(cs@, c),
{
    let n = cs.len();
    let mut a: usize = 0;
    assert(cs@.skip(0) =~= cs@);
    while a < n && cs[a] == c
        invariant
            a <= n == cs@.len(),
            trim_start_by(cs@, eq_char(c)) == trim_start_by(cs@.skip(a as int), eq_char(c)),
        decreases n - a,
    {
        assert(cs@.skip(a as int).drop_first() =~= cs@.skip(a + 1));
        a = a + 1;
    }
    assert(trim_start_by(cs@.skip(a as int), eq_char(c)) == cs@.skip(a as int));
    let mut b: usize = n;
    while b > a && cs[b - 1] == c
        invariant
            a <= b <= n == cs@.len(),
            trim_end_by(cs@.skip(a as int), eq_char(c)) == trim_end_by(cs@.subrange(a as int, b as int), eq_char(c)),
        decreases b,
    {
        assert(cs@.subrange(a as int, b as int).drop_last() =~= cs@.subrange(a as int, b - 1));
        b = b - 1;
    }
    assert(cs@.skip(a as int) =~= cs@.subrange(a as int, n as int));
    (a, b)
}

/// The bounds of `cs` without whitespace at either end.
pub fn trim_whitespace_bounds(cs: &[char]) -> (res: (usize, usize))
    ensures
        res.0 <= res.1 <= cs@.len(),
        cs@.subrange(res.0 as int, res.1 as int) == trim_whitespace(cs@),
{
    let n = cs.len();
    let mut a: usize = 0;
    assert(cs@.skip(0) =~= cs@);
    while a < n && char_is_whitespace(cs[a])
        invariant
            a <= n == cs@.len(),
            trim_start_by(cs@, whitespace()) == trim_start_by(cs@.skip(a as int), whitespace()),
        decreases n - a,
    {
        assert(cs@.skip(a as int).drop_first() =~= cs@.skip(a + 1));
        a = a + 1;
    }
    assert(trim_start_by(cs@.skip(a as int), whitespace()) == cs@.skip(a as int));
    let mut b: usize = n;
    while b > a && char_is_whitespace(cs[b - 1])
        invariant
            a <= b <= n == cs@.len(),
            trim_end_by(cs@.skip(a as int), whitespace()) == trim_end_by(cs@.subrange(a as int, b as int), whitespace()),
        decreases b,
    {
        assert(cs@.subrange(a as int, b as int).drop_last() =~= cs@.subrange(a as int, b - 1));
        b = b - 1;
    }
    assert(cs@.skip(a as int) =~= cs@.subrange(a as int, n as int));
    (a, b)
}


// ---------------------------------------------------------------------------
// Searching
// ---------------------------------------------------------------------------

/// The first index, from `i` on, at which `s` holds `c`.
pub open spec fn find_char_from(s: Seq<char>, c: char, i: int) -> Option<int>
    decreases s.len() - i,
{
    if i < 0 || i >= s.len() {
        None
    } else if s[i] == c {
        Some(i)
    } else {
        find_char_from(s, c, i + 1)
    }
}

/// The first index at which `s` holds `c`.
pub open spec fn find_char(s: Seq<char>, c: char) -> Option<int> {
    find_char_from(s, c, 0)
}

pub proof fn lemma_find_char_from(s: Seq<char>, c: char, i: int)
    requires
        0 <= i,
    ensures
        find_char_from(s, c, i) matches Some(k) ==> i <= k < s.len() && s[k] == c && forall|j: int|
            i <= j < k ==> s[j] != c,
        find_char_from(s, c, i) is None ==> forall|j: int| i <= j < s.len() ==> s[j] != c,
    decreases s.len() - i,
{
    if i < s.len() && s[i] != c {
        lemma_find_char_from(s, c, i + 1);
    }
}

/// The first index at which `cs` holds `c`.
pub fn find_char_index(cs: &[char], c: char) -> (res: Option<usize>)
    ensures
        match res {
            Some(k) => find_char(cs@, c) == Some(k as int),
            None => find_char(cs@, c) is None,
        },
{
    let n = cs.len();
    for i in 0..n
        invariant
            n == cs@.len(),
            find_char(cs@, c) == find_char_from(cs@, c, i as int),
    {
        if cs[i] == c {
            return Some(i);
        }
    }
    None
}

/// `s` begins with `prefix`.
pub open spec fn starts_with(s: Seq<char>, prefix: Seq<char>) -> bool {
    prefix.len() <= s.len() && s.take(prefix.len() as int) == prefix
}

/// Whether `cs` begins with the characters of `prefix`.
pub fn chars_start_with(cs: &[char], prefix: &[char]) -> (res: bool)
    ensures
        res == starts_with(cs@, prefix@),
{
    let m = prefix.len();
    if m > cs.len() {
        return false;
    }
    for i in 0..m
        invariant
            m == prefix@.len(),
            m <= cs@.len(),
            forall|k: int| 0 <= k < i ==> cs@[k] == prefix@[k],
    {
        if cs[i] != prefix[i] {
            assert(cs@.take(m as int)[i as int] != prefix@[i as int]);
            return false;
        }
    }
    assert(cs@.take(m as int) =~= prefix@);
    true
}

/// `pat` occurs in `s`.
pub open spec fn contains_seq(s: Seq<char>, pat: Seq<char>) -> bool {
    exists|i: int| 0 <= i && i + pat.len() <= s.len() && #[trigger] s.subrange(i, i + pat.len()) == pat
}

/// Whether the characters of `pat` occur in `cs`.
pub fn chars_contain(cs: &[char], pat: &[char]) -> (res: bool)
    ensures
        res == contains_seq(cs@, pat@),
{
    let n = cs.len();
    let m = pat.len();
    if m > n {
        return false;
    }
    let last = n - m;
    let mut p: usize = 0;
    loop
        invariant
            n == cs@.len(),
            m == pat@.len(),
            last == n - m,
            p <= last,
            forall|i: int| 0 <= i < p ==> #[trigger] cs@.subrange(i, i + m) != pat@,
        decreases last - p,
    {
        if chars_start_with(&cs[p..n], pat) {
            assert(cs@.subrange(p as int, n as int).take(m as int) =~= cs@.subrange(p as int, p + m));
            return true;
        }
        assert(cs@.subrange(p as int, n as int).take(m as int) =~= cs@.subrange(p as int, p + m));
        if p == last {
            return false;
        }
        p = p + 1;
    }
}

/// A text that occurs in one piece occurs in the pieces joined.
pub proof fn lemma_join_contains(list: Seq<Seq<char>>, sep: Seq<char>, pat: Seq<char>, i: int)
    requires
        0 <= i < list.len(),
        contains_seq(list[i], pat),
    ensures
        contains_seq(seq_join(list, sep), pat),
    decreases list.len(),
{
    let m = pat.len() as int;
    if list.len() == 1 {
        assert(seq_join(list, sep) == list[0]);
    } else {
        let front = seq_join(list.drop_last(), sep) + sep;
        let whole = seq_join(list, sep);
        assert(whole == front + list.last());
        if i == list.len() - 1 {
            let k = choose|k: int| 0 <= k && k + m <= list[i].len() && #[trigger] list[i].subrange(k, k + m) == pat;
            assert(whole.subrange(front.len() + k, front.len() + k + m) =~= list[i].subrange(k, k + m));
        } else {
            assert(list.drop_last()[i] == list[i]);
            lemma_join_contains(list.drop_last(), sep, pat, i);
            let inner = seq_join(list.drop_last(), sep);
            let k = choose|k: int| 0 <= k && k + m <= inner.len() && #[trigger] inner.subrange(k, k + m) == pat;
            assert(whole.subrange(k, k + m) =~= inner.subrange(k, k + m));
        }
    }
}

/// Whether two strings hold the same characters.
pub fn str_eq(a: &str, b: &str) -> (res: bool)
    ensures
        res == (a@ == b@),
{
    let x = chars_of(a);
    let y = chars_of(b);
    if x.len() != y.len() {
        return false;
    }
    let n = x.len();
    for i in 0..n
        invariant
            n == x@.len(),
            n == y@.len(),
            x@ == a@,
            y@ == b@,
            forall|k: int| 0 <= k < i ==> x@[k] == y@[k],
    {
        if x[i] != y[i] {
            assert(x@[i as int] != y@[i as int]);
            return false;
        }
    }
    assert(x@ =~= y@);
    true
}

/// The part of `s` after its last `c`; all of `s` when it holds no `c`.
pub open spec fn after_last(s: Seq<char>, c: char) -> Seq<char>
    decreases s.len(),
{
    if s.len() == 0 {
        s
    } else if s.last() == c {
        Seq::empty()
    } else {
        after_last(s.drop_last(), c).push(s.last())
    }
}

/// Where the part of `cs` after its last `c` starts.
pub fn after_last_index(cs: &[char], c: char) -> (res: usize)
    ensures
        res <= cs@.len(),
        cs@.skip(res as int) == after_last(cs@, c),
{
    let n = cs.len();
    let mut k = n;
    assert(cs@.skip(n as int) =~= Seq::<char>::empty());
    assert(cs@.take(n as int) =~= cs@);
    assert(after_last(cs@, c) + Seq::<char>::empty() =~= after_last(cs@, c));
    while k > 0 && cs[k - 1] != c
        invariant
            k <= n == cs@.len(),
            after_last(cs@, c) == after_last(cs@.take(k as int), c) + cs@.skip(k as int),
        decreases k,
    {
        assert(cs@.take(k as int).drop_last() =~= cs@.take(k - 1));
        assert(cs@.skip(k - 1) =~= seq![cs@[k - 1]] + cs@.skip(k as int));
        assert(after_last(cs@.take(k as int), c) == after_last(cs@.take(k - 1), c).push(cs@[k - 1]));
        assert(after_last(cs@.take(k - 1), c).push(cs@[k - 1]) + cs@.skip(k as int) =~= after_last(
            cs@.take(k - 1),
            c,
        ) + cs@.skip(k - 1));
        k = k - 1;
    }
    if k == 0 {
        assert(cs@.take(0) =~= Seq::<char>::empty());
        assert(after_last(cs@, c) =~= cs@.skip(0));
    } else {
        assert(after_last(cs@.take(k as int), c) =~= Seq::<char>::empty());
        assert(after_last(cs@, c) =~= cs@.skip(k as int));
    }
    k
}


// ---------------------------------------------------------------------------
// Lines
// ---------------------------------------------------------------------------

/// The index of the first line feed at or after `i`, or the length of `s`.
pub open spec fn next_newline(s: Seq<char>, i: int) -> int
    decreases s.len() - i,
{
    if i >= s.len() {
        s.len() as int
    } else if s[i] == '\n' {
        i
    } else {
        next_newline(s, i + 1)
    }
}

pub proof fn lemma_next_newline(s: Seq<char>, i: int)
    requires
        0 <= i,
    ensures
        i <= s.len() ==> i <= next_newline(s, i) <= s.len(),
        next_newline(s, i) < s.len() ==> s[next_newline(s, i)] == '\n',
        forall|j: int| i <= j < next_newline(s, i) ==> s[j] != '\n',
    decreases s.len() - i,
{
    if i < s.len() && s[i] != '\n' {
        lemma_next_newline(s, i + 1);
    }
}

/// `line` without one carriage return at its end.
pub open spec fn strip_cr(line: Seq<char>) -> Seq<char> {
    if line.len() > 0 && line.last() == '\r' {
        line.drop_last()
    } else {
        line
    }
}

/// The lines of `s` from index `i` on. A line ends at a line feed, and a
/// carriage return just before that line feed is dropped; a final line
/// feed does not start another, empty, line.
pub open spec fn lines_from(s: Seq<char>, i: int) -> Seq<Seq<char>>
    decreases s.len() - i,
    via lines_from_decreases
{
    if i < 0 || i >= s.len() {
        Seq::empty()
    } else {
        let e = next_newline(s, i);
        if e < s.len() {
            seq![strip_cr(s.subrange(i, e))] + lines_from(s, e + 1)
        } else {
            seq![s.subrange(i, e)]
        }
    }
}

#[via_fn]
proof fn lines_from_decreases(s: Seq<char>, i: int) {
    if 0 <= i < s.len() {
        lemma_next_newline(s, i);
    }
}

/// The lines of `s`, as `str::lines` gives them.
pub open spec fn spec_lines(s: Seq<char>) -> Seq<Seq<char>> {
    lines_from(s, 0)
}

/// The lines of `s`: split at line feeds, a carriage return before a line
/// feed dropped, and no empty line after a final line feed.
pub fn split_lines(s: &str) -> (res: Vec<String>)
    ensures
        texts(res@) == spec_lines(s@),
{
    let cs = chars_of(s);
    let n = cs.len();
    let mut res: Vec<String> = Vec::new();
    let mut i: usize = 0;
    while i < n
        invariant
            n == cs@.len(),
            cs@ == s@,
            i <= n,
            spec_lines(cs@) == texts(res@) + lines_from(cs@, i as int),
        decreases n - i,
    {
        let mut e = i;
        while e < n && cs[e] != '\n'
            invariant
                i <= e <= n == cs@.len(),
                next_newline(cs@, i as int) == next_newline(cs@, e as int),
            decreases n - e,
        {
            e = e + 1;
        }
        let line_end = if e < n && e > i && cs[e - 1] == '\r' {
            e - 1
        } else {
            e
        };
        let line = string_of(&cs.as_slice()[i..line_end]);
        proof {
            assert(e < n ==> strip_cr(cs@.subrange(i as int, e as int)) =~= cs@.subrange(
                i as int,
                line_end as int,
            ));
            let old_res = texts(res@);
            assert(texts(res@.push(line)) =~= old_res.push(line@));
        }
        res.push(line);
        proof {
            assert(lines_from(cs@, i as int) == seq![texts(res@).last()] + lines_from(cs@, e + 1));
            assert(texts(res@) + lines_from(cs@, e + 1) =~= texts(res@).drop_last() + (seq![
                texts(res@).last(),
            ] + lines_from(cs@, e + 1)));
            assert(texts(res@).drop_last() =~= texts(res@.drop_last()));
        }
        if e == n {
            assert(lines_from(cs@, e + 1) =~= Seq::<Seq<char>>::empty());
            assert(texts(res@) + lines_from(cs@, e + 1) =~= texts(res@));
            assert(lines_from(cs@, n as int) =~= Seq::<Seq<char>>::empty());
            i = n;
        } else {
            i = e + 1;
        }
    }
    assert(lines_from(cs@, i as int) =~= Seq::<Seq<char>>::empty());
    assert(texts(res@) + Seq::<Seq<char>>::empty() =~= texts(res@));
    res
}


// ---------------------------------------------------------------------------
// Whitespace-separated words
// ---------------------------------------------------------------------------

/// The first index, from `i` on, of a character that is not whitespace, or
/// the length of `s`.
pub open spec fn skip_whitespace(s: Seq<char>, i: int) -> int
    decreases s.len() - i,
{
    if i >= s.len() {
        s.len() as int
    } else if is_whitespace(s[i]) {
        skip_whitespace(s, i + 1)
    } else {
        i
    }
}

/// The first index, from `i` on, of a whitespace character, or the length of `s`.
pub open spec fn word_end(s: Seq<char>, i: int) -> int
    decreases s.len() - i,
{
    if i >= s.len() {
        s.len() as int
    } else if is_whitespace(s[i]) {
        i
    } else {
        word_end(s, i + 1)
    }
}

pub proof fn lemma_skip_whitespace(s: Seq<char>, i: int)
    requires
        0 <= i <= s.len(),
    ensures
        i <= skip_whitespace(s, i) <= s.len(),
        skip_whitespace(s, i) < s.len() ==> !is_whitespace(s[skip_whitespace(s, i)]),
        forall|j: int| i <= j < skip_whitespace(s, i) ==> is_whitespace(#[trigger] s[j]),
    decreases s.len() - i,
{
    if i < s.len() && is_whitespace(s[i]) {
        lemma_skip_whitespace(s, i + 1);
    }
}

pub proof fn lemma_word_end(s: Seq<char>, i: int)
    requires
        0 <= i <= s.len(),
    ensures
        i <= word_end(s, i) <= s.len(),
        word_end(s, i) < s.len() ==> is_whitespace(s[word_end(s, i)]),
        forall|j: int| i <= j < word_end(s, i) ==> !is_whitespace(#[trigger] s[j]),
    decreases s.len() - i,
{
    if i < s.len() && !is_whitespace(s[i]) {
        lemma_word_end(s, i + 1);
    }
}

/// The whitespace-separated words of `s` from index `i` on.
pub open spec fn words_from(s: Seq<char>, i: int) -> Seq<Seq<char>>
    decreases s.len() - i,
    via words_from_decreases
{
    if i < 0 || i >= s.len() {
        Seq::empty()
    } else {
        let a = skip_whitespace(s, i);
        if a >= s.len() {
            Seq::empty()
        } else {
            let b = word_end(s, a);
            seq![s.subrange(a, b)] + words_from(s, b)
        }
    }
}

#[via_fn]
proof fn words_from_decreases(s: Seq<char>, i: int) {
    if 0 <= i < s.len() {
        lemma_skip_whitespace(s, i);
        let a = skip_whitespace(s, i);
        if a < s.len() {
            lemma_word_end(s, a);
        }
    }
}

/// The whitespace-separated words of `s`, as `str::split_whitespace` gives them.
pub open spec fn spec_words(s: Seq<char>) -> Seq<Seq<char>> {
    words_from(s, 0)
}

/// The whitespace-separated words of `s`.
pub fn split_whitespace(s: &str) -> (res: Vec<String>)
    ensures
        texts(res@) == spec_words(s@),
{
    let cs = chars_of(s);
    let n = cs.len();
    let mut res: Vec<String> = Vec::new();
    let mut i: usize = 0;
    while i < n
        invariant
            n == cs@.len(),
            cs@ == s@,
            i <= n,
            spec_words(cs@) == texts(res@) + words_from(cs@, i as int),
        decreases n - i,
    {
        let mut a = i;
        while a < n && char_is_whitespace(cs[a])
            invariant
                i <= a <= n == cs@.len(),
                skip_whitespace(cs@, i as int) == skip_whitespace(cs@, a as int),
            decreases n - a,
        {
            a = a + 1;
        }
        if a == n {
            assert(words_from(cs@, i as int) =~= Seq::<Seq<char>>::empty());
            assert(texts(res@) + Seq::<Seq<char>>::empty() =~= texts(res@));
            return res;
        }
        let mut b = a;
        while b < n && !char_is_whitespace(cs[b])
            invariant
                a <= b <= n == cs@.len(),
                word_end(cs@, a as int) == word_end(cs@, b as int),
            decreases n - b,
        {
            b = b + 1;
        }
        let word = string_of(&cs.as_slice()[a..b]);
        proof {
            let old_res = texts(res@);
            assert(texts(res@.push(word)) =~= old_res.push(word@));
            assert(old_res + words_from(cs@, i as int) =~= old_res.push(word@) + words_from(
                cs@,
                b as int,
            ));
        }
        res.push(word);
        i = b;
    }
    assert(words_from(cs@, i as int) =~= Seq::<Seq<char>>::empty());
    assert(texts(res@) + Seq::<Seq<char>>::empty() =~= texts(res@));
    res
}


// ---------------------------------------------------------------------------
// Replacing and joining
// ---------------------------------------------------------------------------

/// `s` from index `i` on, with each occurrence of the non-empty `pat`,
/// taken from left to right without overlap, replaced by `rep`.
pub open spec fn replace_from(s: Seq<char>, pat: Seq<char>, rep: Seq<char>, i: int) -> Seq<char>
    decreases s.len() - i,
{
    if i < 0 || i >= s.len() || pat.len() == 0 {
        if 0 <= i <= s.len() {
            s.skip(i)
        } else {
            Seq::empty()
        }
    } else if i + pat.len() <= s.len() && s.subrange(i, i + pat.len()) == pat {
        rep + replace_from(s, pat, rep, i + pat.len())
    } else {
        seq![s[i]] + replace_from(s, pat, rep, i + 1)
    }
}

/// `s` with each occurrence of `pat` replaced by `rep`, as `str::replace`
/// does it for a non-empty pattern.
pub open spec fn replace_all(s: Seq<char>, pat: Seq<char>, rep: Seq<char>) -> Seq<char> {
    replace_from(s, pat, rep, 0)
}

/// `s` with each occurrence of the non-empty `pat` replaced by `rep`.
pub fn replace_str(s: &str, pat: &str, rep: &str) -> (res: String)
    requires
        pat@.len() > 0,
    ensures
        res@ == replace_all(s@, pat@, rep@),
{
    let cs = chars_of(s);
    let ps = chars_of(pat);
    let n = cs.len();
    let m = ps.len();
    let mut res = String::new();
    let mut i: usize = 0;
    while i < n
        invariant
            n == cs@.len(),
            m == ps@.len(),
            m > 0,
            cs@ == s@,
            ps@ == pat@,
            i <= n,
            replace_all(cs@, ps@, rep@) == res@ + replace_from(cs@, ps@, rep@, i as int),
        decreases n - i,
    {
        if m <= n - i && chars_start_with(&cs.as_slice()[i..n], ps.as_slice()) {
            assert(cs@.subrange(i as int, n as int).take(m as int) =~= cs@.subrange(i as int, i + m));
            let ghost before = res@;
            res.append(rep);
            assert(before + replace_from(cs@, ps@, rep@, i as int) =~= res@ + replace_from(
                cs@,
                ps@,
                rep@,
                i + m,
            ));
            i = i + m;
        } else {
            proof {
                if m <= n - i {
                    assert(cs@.subrange(i as int, n as int).take(m as int) =~= cs@.subrange(i as int, i + m));
                }
            }
            let ghost before = res@;
            res.push(cs[i]);
            assert(before + replace_from(cs@, ps@, rep@, i as int) =~= res@ + replace_from(
                cs@,
                ps@,
                rep@,
                i + 1,
            ));
            i = i + 1;
        }
    }
    assert(replace_from(cs@, ps@, rep@, n as int) =~= Seq::<char>::empty());
    assert(res@ + Seq::<char>::empty() =~= res@);
    res
}


/// `rel` joined to the path `base`, as `Path::join` does it on Unix: an
/// absolute `rel` replaces `base`; otherwise a `/` is put between them
/// unless `base` is empty or already ends with one.
pub open spec fn path_join(base: Seq<char>, rel: Seq<char>) -> Seq<char> {
    if rel.len() > 0 && rel[0] == '/' {
        rel
    } else if base.len() == 0 || base.last() == '/' {
        base + rel
    } else {
        base + seq!['/'] + rel
    }
}

/// `rel` joined to the path `base`.
pub fn join_path(base: &str, rel: &str) -> (res: String)
    ensures
        res@ == path_join(base@, rel@),
{
    let b = chars_of(base);
    let r = chars_of(rel);
    if r.len() > 0 && r[0] == '/' {
        return string_of(r.as_slice());
    }
    let mut res = string_of(b.as_slice());
    if b.len() > 0 && b[b.len() - 1] != '/' {
        res.push('/');
    }
    res.append(rel);
    res
}

/// The pieces of `s` from index `i` on, cut at each `c`; an empty piece
/// stands before a leading `c`, between two adjacent ones and after a
/// trailing one.
pub open spec fn split_from(s: Seq<char>, c: char, i: int) -> Seq<Seq<char>>
    decreases s.len() - i,
    via split_from_decreases
{
    if i < 0 || i > s.len() {
        Seq::empty()
    } else {
        match find_char_from(s, c, i) {
            Some(e) => seq![s.subrange(i, e)] + split_from(s, c, e + 1),
            None => seq![s.subrange(i, s.len() as int)],
        }
    }
}

#[via_fn]
proof fn split_from_decreases(s: Seq<char>, c: char, i: int) {
    if 0 <= i <= s.len() {
        lemma_find_char_from(s, c, i);
    }
}

/// The pieces of `s` cut at each `c`, as `str::split` gives them.
pub open spec fn spec_split(s: Seq<char>, c: char) -> Seq<Seq<char>> {
    split_from(s, c, 0)
}

/// The pieces of `s` cut at each `c`.
pub fn split_char(s: &str, c: char) -> (res: Vec<String>)
    ensures
        texts(res@) == spec_split(s@, c),
{
    let cs = chars_of(s);
    let n = cs.len();
    let mut res: Vec<String> = Vec::new();
    let mut i: usize = 0;
    loop
        invariant
            n == cs@.len(),
            cs@ == s@,
            i <= n,
            spec_split(cs@, c) == texts(res@) + split_from(cs@, c, i as int),
        decreases n - i,
    {
        let mut e = i;
        while e < n && cs[e] != c
            invariant
                i <= e <= n == cs@.len(),
                find_char_from(cs@, c, i as int) == find_char_from(cs@, c, e as int),
            decreases n - e,
        {
            e = e + 1;
        }
        let piece = string_of(&cs.as_slice()[i..e]);
        let ghost old_res = texts(res@);
        res.push(piece);
        assert(texts(res@) =~= old_res.push(piece@));
        if e == n {
            assert(old_res + split_from(cs@, c, i as int) =~= texts(res@));
            return res;
        }
        assert(old_res + split_from(cs@, c, i as int) =~= texts(res@) + split_from(cs@, c, e + 1));
        i = e + 1;
    }
}

} // verus!
