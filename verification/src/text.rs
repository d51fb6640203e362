//! Text: the operations on strings that the rest of the library is built from, each with a model
//! over sequences of characters.

use vstd::prelude::*;

verus! {

/// `String::push` appends one character.
pub assume_specification[ String::push ](s: &mut String, c: char)
    ensures
        final(s)@ == old(s)@.push(c),
;

/// The texts of a list of strings.
pub open spec fn texts(v: Seq<String>) -> Seq<Seq<char>> {
    v.map_values(|s: String| s@)
}

/// The text of an optional string.
pub open spec fn opt_text(o: Option<String>) -> Option<Seq<char>> {
    match o {
        Some(s) => Some(s@),
        None => None,
    }
}

/// The text of an optional borrowed string.
pub open spec fn opt_str(o: Option<&str>) -> Option<Seq<char>> {
    match o {
        Some(s) => Some(s@),
        None => None,
    }
}

/// Whether two strings hold the same text.
pub fn str_eq(a: &str, b: &str) -> (r: bool)
    ensures
        r == (a@ == b@),
{
    a.to_owned() == b.to_owned()
}

/// The characters of a string, by index.
pub fn chars_of(s: &str) -> (r: Vec<char>)
    ensures
        r@ == s@,
{
    let mut v: Vec<char> = Vec::new();
    for c in it: s.chars()
        invariant
            it.seq() == s@,
            v@ == s@.take(it.index() as int),
    {
        proof {
            assert(s@.take(it.index() + 1) =~= s@.take(it.index() as int).push(c));
        }
        v.push(c);
    }
    proof {
        assert(s@.take(s@.len() as int) =~= s@);
    }
    v
}

/// The string made of the characters from `from` up to `to`.
pub fn string_from(v: &Vec<char>, from: usize, to: usize) -> (r: String)
    requires
        from <= to <= v@.len(),
    ensures
        r@ == v@.subrange(from as int, to as int),
{
    let mut out: String = String::new();
    let mut i: usize = from;
    while i < to
        invariant
            from <= i <= to <= v@.len(),
            out@ == v@.subrange(from as int, i as int),
        decreases to - i,
    {
        proof {
            assert(v@.subrange(from as int, i + 1) =~= v@.subrange(from as int, i as int).push(v@[i as int]));
        }
        out.push(v[i]);
        i = i + 1;
    }
    out
}

/// A copy of an optional string.
pub fn opt_clone(o: &Option<String>) -> (r: Option<String>)
    ensures
        opt_text(r) == opt_text(*o),
        r is Some == o is Some,
{
    match o {
        Some(s) => Some(s.clone()),
        None => None,
    }
}

/// The lower-case form of an ASCII letter; every other character is left as it is.
pub open spec fn ascii_lower(c: char) -> char {
    if 'A' <= c && c <= 'Z' {
        ((c as u32) + 32) as char
    } else {
        c
    }
}

/// The upper-case form of an ASCII letter; every other character is left as it is.
pub open spec fn ascii_upper(c: char) -> char {
    if 'a' <= c && c <= 'z' {
        ((c as u32) - 32) as char
    } else {
        c
    }
}

/// A text with its ASCII letters in lower case.
pub open spec fn lowered(s: Seq<char>) -> Seq<char> {
    s.map_values(|c: char| ascii_lower(c))
}

/// A text with its ASCII letters in upper case.
pub open spec fn uppered(s: Seq<char>) -> Seq<char> {
    s.map_values(|c: char| ascii_upper(c))
}

/// The lower-case form of one character.
pub fn lower_char(c: char) -> (r: char)
    ensures
        r == ascii_lower(c),
{
    if 'A' <= c && c <= 'Z' {
        ((c as u8) + 32) as char
    } else {
        c
    }
}

/// The upper-case form of one character.
pub fn upper_char(c: char) -> (r: char)
    ensures
        r == ascii_upper(c),
{
    if 'a' <= c && c <= 'z' {
        ((c as u8) - 32) as char
    } else {
        c
    }
}

/// A string with its ASCII letters in lower case.
pub fn to_lower(s: &str) -> (r: String)
    ensures
        r@ == lowered(s@),
{
    let v = chars_of(s);
    let mut out: String = String::new();
    let mut i: usize = 0;
    while i < v.len()
        invariant
            i <= v@.len(),
            v@ == s@,
            out@ == lowered(s@.take(i as int)),
        decreases v@.len() - i,
    {
        out.push(lower_char(v[i]));
        i = i + 1;
        proof {
            assert(lowered(s@.take(i as int)) =~= lowered(s@.take(i - 1)).push(ascii_lower(s@[i - 1])));
        }
    }
    proof {
        assert(s@.take(i as int) =~= s@);
    }
    out
}

/// A string with its ASCII letters in upper case.
pub fn to_upper(s: &str) -> (r: String)
    ensures
        r@ == uppered(s@),
{
    let v = chars_of(s);
    let mut out: String = String::new();
    let mut i: usize = 0;
    while i < v.len()
        invariant
            i <= v@.len(),
            v@ == s@,
            out@ == uppered(s@.take(i as int)),
        decreases v@.len() - i,
    {
        out.push(upper_char(v[i]));
        i = i + 1;
        proof {
            assert(uppered(s@.take(i as int)) =~= uppered(s@.take(i - 1)).push(ascii_upper(s@[i - 1])));
        }
    }
    proof {
        assert(s@.take(i as int) =~= s@);
    }
    out
}

/// The characters with the Unicode property White_Space.
pub open spec fn is_white(c: char) -> bool {
    let u = c as u32;
    ||| 9 <= u <= 13
    ||| u == 0x20
    ||| u == 0x85
    ||| u == 0xA0
    ||| u == 0x1680
    ||| 0x2000 <= u <= 0x200A
    ||| u == 0x2028
    ||| u == 0x2029
    ||| u == 0x202F
    ||| u == 0x205F
    ||| u == 0x3000
}

/// Whether a character is white space.
pub fn white(c: char) -> (r: bool)
    ensures
        r == is_white(c),
{
    let u: u32 = c as u32;
    (9 <= u && u <= 13) || u == 0x20 || u == 0x85 || u == 0xA0 || u == 0x1680 || (0x2000 <= u && u
        <= 0x200A) || u == 0x2028 || u == 0x2029 || u == 0x202F || u == 0x205F || u == 0x3000
}

/// A text without the white space in front of it.
pub open spec fn trimmed_start(s: Seq<char>) -> Seq<char>
    decreases s.len(),
{
    if s.len() > 0 && is_white(s[0]) {
        trimmed_start(s.subrange(1, s.len() as int))
    } else {
        s
    }
}

/// A text without the white space behind it.
pub open spec fn trimmed_end(s: Seq<char>) -> Seq<char>
    decreases s.len(),
{
    if s.len() > 0 && is_white(s.last()) {
        trimmed_end(s.drop_last())
    } else {
        s
    }
}

/// A text without the white space around it.
pub open spec fn trimmed(s: Seq<char>) -> Seq<char> {
    trimmed_end(trimmed_start(s))
}

/// A string without the white space behind it.
pub fn trim_end(s: &str) -> (r: String)
    ensures
        r@ == trimmed_end(s@),
{
    let v = chars_of(s);
    let mut end: usize = v.len();
    proof {
        assert(s@.subrange(0, end as int) =~= s@);
    }
    while end > 0 && white(v[end - 1])
        invariant
            end <= v@.len(),
            v@ == s@,
            trimmed_end(s@) == trimmed_end(s@.subrange(0, end as int)),
        decreases end,
    {
        proof {
            let t = s@.subrange(0, end as int);
            assert(t.last() == s@[end - 1]);
            assert(t.drop_last() =~= s@.subrange(0, end - 1));
        }
        end = end - 1;
    }
    proof {
        let t = s@.subrange(0, end as int);
        assert(end > 0 ==> t.last() == s@[end - 1]);
    }
    string_from(&v, 0, end)
}

/// A string without the white space around it.
pub fn trim(s: &str) -> (r: String)
    ensures
        r@ == trimmed(s@),
{
    let v = chars_of(s);
    let mut start: usize = 0;
    proof {
        assert(s@.subrange(0, s@.len() as int) =~= s@);
    }
    while start < v.len() && white(v[start])
        invariant
            start <= v@.len(),
            v@ == s@,
            trimmed_start(s@) == trimmed_start(s@.subrange(start as int, s@.len() as int)),
        decreases v@.len() - start,
    {
        proof {
            let t = s@.subrange(start as int, s@.len() as int);
            assert(t[0] == s@[start as int]);
            assert(t.subrange(1, t.len() as int) =~= s@.subrange(start + 1, s@.len() as int));
        }
        start = start + 1;
    }
    proof {
        let t = s@.subrange(start as int, s@.len() as int);
        assert(start < s@.len() ==> t[0] == s@[start as int]);
    }
    let front = string_from(&v, start, v.len());
    trim_end(front.as_str())
}

/// Whether a text holds only white space.
pub fn blank(s: &str) -> (r: bool)
    ensures
        r == (trimmed(s@).len() == 0),
{
    let t = trim(s);
    t.as_str().is_empty()
}

/// Whether a string begins with another.
pub fn starts_with(s: &str, pat: &str) -> (r: bool)
    ensures
        r == pat@.is_prefix_of(s@),
{
    let v = chars_of(s);
    let p = chars_of(pat);
    has_chars_at(&v, &p, 0)
}

/// Whether the characters of `p` stand in `v` from `at` on.
pub open spec fn has_at(v: Seq<char>, p: Seq<char>, at: int) -> bool {
    0 <= at && at + p.len() <= v.len() && v.subrange(at, at + p.len()) == p
}

/// Whether a text holds another as a run of consecutive characters.
pub open spec fn has_text(v: Seq<char>, p: Seq<char>) -> bool {
    exists|at: int| has_at(v, p, at)
}

/// Whether the characters of `p` stand in `v` from `at` on.
pub fn has_chars_at(v: &Vec<char>, p: &Vec<char>, at: usize) -> (r: bool)
    requires
        at <= v@.len(),
    ensures
        r == has_at(v@, p@, at as int),
        at == 0 ==> r == p@.is_prefix_of(v@),
{
    let n: usize = v.len();
    if n - at < p.len() {
        return false;
    }
    let mut j: usize = 0;
    while j < p.len()
        invariant
            at + p@.len() <= v@.len(),
            v@.len() == n,
            j <= p@.len(),
            forall|k: int| 0 <= k < j ==> v@[at + k] == p@[k],
        decreases p@.len() - j,
    {
        if v[at + j] != p[j] {
            proof {
                assert(v@.subrange(at as int, at + p@.len())[j as int] != p@[j as int]);
            }
            return false;
        }
        j = j + 1;
    }
    proof {
        assert(v@.subrange(at as int, at + p@.len()) =~= p@);
    }
    true
}

/// Whether a string holds another.
pub fn contains(s: &str, pat: &str) -> (r: bool)
    ensures
        r == has_text(s@, pat@),
{
    let v = chars_of(s);
    let p = chars_of(pat);
    let mut at: usize = 0;
    while at < v.len()
        invariant
            v@ == s@,
            p@ == pat@,
            at <= v@.len(),
            forall|k: int| 0 <= k < at ==> !has_at(s@, pat@, k),
        decreases v@.len() - at,
    {
        if has_chars_at(&v, &p, at) {
            return true;
        }
        at = at + 1;
    }
    let r = has_chars_at(&v, &p, at);
    proof {
        if !r {
            assert forall|k: int| !has_at(s@, pat@, k) by {}
        }
    }
    r
}

/// The place of the first `c` at or after `i`, or the end of the text.
pub open spec fn next_char(s: Seq<char>, c: char, i: int) -> int
    decreases s.len() - i,
{
    if i >= s.len() {
        s.len() as int
    } else if s[i] == c {
        i
    } else {
        next_char(s, c, i + 1)
    }
}

/// The first `c` at or after `i` is not before `i`.
pub proof fn lemma_next_char(s: Seq<char>, c: char, i: int)
    ensures
        i <= s.len() ==> i <= next_char(s, c, i) <= s.len(),
        0 <= i && next_char(s, c, i) < s.len() ==> s[next_char(s, c, i)] == c,
        forall|k: int| i <= k < next_char(s, c, i) ==> #[trigger] s[k] != c,
    decreases s.len() - i,
{
    if i < s.len() && s[i] != c {
        lemma_next_char(s, c, i + 1);
    }
}

/// The place of the first `c` at or after `i`, or the end.
pub fn find_char(v: &Vec<char>, c: char, i: usize) -> (r: usize)
    requires
        i <= v@.len(),
    ensures
        r == next_char(v@, c, i as int),
        i <= r <= v@.len(),
        r < v@.len() ==> v@[r as int] == c,
        forall|k: int| i <= k < r ==> v@[k] != c,
{
    let mut j: usize = i;
    while j < v.len() && v[j] != c
        invariant
            i <= j <= v@.len(),
            next_char(v@, c, i as int) == next_char(v@, c, j as int),
            forall|k: int| i <= k < j ==> v@[k] != c,
        decreases v@.len() - j,
    {
        j = j + 1;
    }
    j
}

/// What is left of a text before a line feed once the carriage return in front of it is dropped.
pub open spec fn without_cr(s: Seq<char>) -> Seq<char> {
    if s.len() > 0 && s.last() == '\r' {
        s.drop_last()
    } else {
        s
    }
}

/// The lines of a text from place `i` on: each ends at a line feed, which may have a carriage
/// return in front of it; what follows the last line feed is a line if it is not empty.
pub open spec fn lines_from(s: Seq<char>, i: int) -> Seq<Seq<char>>
    decreases s.len() - i,
{
    if i < 0 || i >= s.len() {
        Seq::empty()
    } else {
        let j = next_char(s, '\n', i);
        proof {
            lemma_next_char(s, '\n', i);
        }
        if j < s.len() {
            seq![without_cr(s.subrange(i, j))] + lines_from(s, j + 1)
        } else {
            seq![s.subrange(i, j)]
        }
    }
}

/// The lines of a text.
pub open spec fn lines_of(s: Seq<char>) -> Seq<Seq<char>> {
    lines_from(s, 0)
}

/// The lines of a string.
pub fn lines(s: &str) -> (r: Vec<String>)
    ensures
        texts(r@) == lines_of(s@),
{
    let v = chars_of(s);
    let mut out: Vec<String> = Vec::new();
    let mut i: usize = 0;
    proof {
        assert(texts(out@) + lines_from(s@, 0) =~= lines_of(s@));
    }
    while i < v.len()
        invariant
            v@ == s@,
            i <= v@.len(),
            texts(out@) + lines_from(s@, i as int) == lines_of(s@),
        decreases v@.len() - i,
    {
        let j = find_char(&v, '\n', i);
        let ghost before = texts(out@);
        if j < v.len() {
            let mut e: usize = j;
            if j > i && v[j - 1] == '\r' {
                e = j - 1;
            }
            let line = string_from(&v, i, e);
            proof {
                let t = s@.subrange(i as int, j as int);
                assert(j > i ==> t.last() == s@[j - 1]);
                assert(line@ =~= without_cr(t));
            }
            out.push(line);
            proof {
                assert(texts(out@) =~= before.push(line@));
                assert(before.push(line@) + lines_from(s@, j + 1) =~= before + (seq![line@] + lines_from(s@, j + 1)));
            }
            i = j + 1;
        } else {
            let line = string_from(&v, i, j);
            out.push(line);
            proof {
                assert(texts(out@) =~= before.push(line@));
                assert(before.push(line@) + lines_from(s@, j as int) =~= before + seq![line@]);
            }
            i = j;
        }
    }
    proof {
        assert(texts(out@) + lines_from(s@, i as int) =~= texts(out@));
    }
    out
}

/// Texts put one behind the other with a separator between them.
pub open spec fn joined(parts: Seq<Seq<char>>, sep: Seq<char>) -> Seq<char>
    decreases parts.len(),
{
    if parts.len() == 0 {
        Seq::empty()
    } else if parts.len() == 1 {
        parts[0]
    } else {
        joined(parts.drop_last(), sep) + sep + parts.last()
    }
}

/// Strings put one behind the other with a separator between them.
pub fn join(parts: &Vec<String>, sep: &str) -> (r: String)
    ensures
        r@ == joined(texts(parts@), sep@),
{
    let mut out: String = String::new();
    let mut i: usize = 0;
    while i < parts.len()
        invariant
            i <= parts@.len(),
            out@ == joined(texts(parts@).take(i as int), sep@),
        decreases parts@.len() - i,
    {
        if i > 0 {
            out.append(sep);
        }
        out.append(parts[i].as_str());
        proof {
            let next = texts(parts@).take(i + 1);
            assert(next.drop_last() =~= texts(parts@).take(i as int));
            assert(next.last() == parts@[i as int]@);
            if i == 0 {
                assert(joined(next, sep@) =~= out@);
            }
        }
        i = i + 1;
    }
    proof {
        assert(texts(parts@).take(i as int) =~= texts(parts@));
    }
    out
}

/// Whether a text holds neither a line feed nor a carriage return.
pub open spec fn is_one_line(s: Seq<char>) -> bool {
    !s.contains('\n') && !s.contains('\r')
}

/// The text of some lines, each with a line feed behind it.
pub open spec fn with_feeds(ls: Seq<Seq<char>>) -> Seq<char>
    decreases ls.len(),
{
    if ls.len() == 0 {
        Seq::empty()
    } else {
        ls[0].push('\n') + with_feeds(ls.skip(1))
    }
}

/// Lines that are joined with line feeds, with one more behind them, each have one behind them.
pub proof fn lemma_joined_with_feeds(ls: Seq<Seq<char>>)
    requires
        ls.len() > 0,
    ensures
        joined(ls, "\n"@) + "\n"@ == with_feeds(ls),
    decreases ls.len(),
{
    reveal_strlit("\n");
    assert("\n"@ =~= seq!['\n']);
    if ls.len() == 1 {
        reveal_with_fuel(with_feeds, 2);
        assert(ls.skip(1) =~= Seq::empty());
        assert(joined(ls, "\n"@) + "\n"@ =~= with_feeds(ls));
    } else {
        let front = ls.drop_last();
        lemma_joined_with_feeds(front);
        lemma_feeds_of_more(front, ls.last());
        assert(front.push(ls.last()) =~= ls);
        assert(joined(ls, "\n"@) + "\n"@ =~= (joined(front, "\n"@) + "\n"@) + ls.last().push('\n'));
    }
}

/// One line more adds its text and its line feed.
proof fn lemma_feeds_of_more(ls: Seq<Seq<char>>, l: Seq<char>)
    ensures
        with_feeds(ls.push(l)) == with_feeds(ls) + l.push('\n'),
    decreases ls.len(),
{
    if ls.len() == 0 {
        reveal_with_fuel(with_feeds, 2);
        assert(ls.push(l).skip(1) =~= Seq::empty());
        assert(with_feeds(ls.push(l)) =~= with_feeds(ls) + l.push('\n'));
    } else {
        lemma_feeds_of_more(ls.skip(1), l);
        assert(ls.push(l).skip(1) =~= ls.skip(1).push(l));
        assert(ls.push(l)[0] == ls[0]);
        assert(with_feeds(ls.push(l)) =~= with_feeds(ls) + l.push('\n'));
    }
}

/// The lines of a text behind a line with its line feed are those of the text.
proof fn lemma_lines_behind(front: Seq<char>, s: Seq<char>, i: int)
    requires
        0 <= i <= s.len(),
    ensures
        lines_from(front + s, front.len() + i) == lines_from(s, i),
    decreases s.len() - i,
{
    let t = front + s;
    let o = front.len() as int;
    if i < s.len() {
        lemma_next_char(s, '\n', i);
        lemma_next_char(t, '\n', o + i);
        let j = next_char(s, '\n', i);
        let k = next_char(t, '\n', o + i);
        if k < o + j {
            assert(t[k] == s[k - o]);
            assert(s[k - o] != '\n');
        }
        if o + j < k {
            assert(t[o + j] == s[j]);
            assert(t[o + j] != '\n');
        }
        assert(k == o + j);
        assert(t.subrange(o + i, k) =~= s.subrange(i, j));
        if j < s.len() {
            lemma_lines_behind(front, s, j + 1);
        }
    }
}

/// Lines that were written each with a line feed behind it are read back.
pub proof fn law_lines_read_back(ls: Seq<Seq<char>>)
    requires
        forall|i: int| 0 <= i < ls.len() ==> is_one_line(#[trigger] ls[i]),
    ensures
        lines_of(with_feeds(ls)) == ls,
    decreases ls.len(),
{
    let s = with_feeds(ls);
    if ls.len() > 0 {
        let rest = ls.skip(1);
        assert forall|i: int| 0 <= i < rest.len() implies is_one_line(#[trigger] rest[i]) by {
            assert(rest[i] == ls[i + 1]);
        }
        law_lines_read_back(rest);
        let head = ls[0].push('\n');
        let n = ls[0].len() as int;
        assert(is_one_line(ls[0]));
        lemma_next_char(s, '\n', 0);
        let j = next_char(s, '\n', 0);
        assert(s[n] == '\n');
        if j < n {
            assert(s[j] == ls[0][j]);
            assert(ls[0].contains(ls[0][j]));
        }
        assert(j == n);
        assert(s.subrange(0, n) =~= ls[0]);
        if n > 0 {
            assert(ls[0].contains(ls[0].last()));
        }
        assert(without_cr(ls[0]) == ls[0]);
        lemma_lines_behind(head, with_feeds(rest), 0);
        assert(seq![ls[0]] + rest =~= ls);
    } else {
        assert(lines_of(s) =~= ls);
    }
}

/// No line of a text without carriage returns holds a line feed or a carriage return.
pub proof fn lemma_lines_are_single(s: Seq<char>, i: int, k: int)
    requires
        0 <= i,
        !s.contains('\r'),
        0 <= k < lines_from(s, i).len(),
    ensures
        is_one_line(lines_from(s, i)[k]),
    decreases s.len() - i,
{
    lemma_next_char(s, '\n', i);
    let j = next_char(s, '\n', i);
    let t = s.subrange(i, j);
    assert forall|c: char| t.contains(c) implies c != '\n' && c != '\r' by {
        let p = choose|p: int| 0 <= p < t.len() && t[p] == c;
        assert(t[p] == s[i + p]);
        assert(s.contains(s[i + p]));
    }
    if t.len() > 0 {
        assert(t.contains(t.last()));
    }
    if j < s.len() && k > 0 {
        lemma_lines_are_single(s, j + 1, k - 1);
    }
}

/// The pieces of a text from place `i` on, cut at each `c`; there is always at least one.
pub open spec fn pieces_from(s: Seq<char>, c: char, i: int) -> Seq<Seq<char>>
    decreases s.len() - i,
{
    let j = next_char(s, c, i);
    proof {
        lemma_next_char(s, c, i);
    }
    if i < 0 || j >= s.len() {
        seq![s.subrange(i, s.len() as int)]
    } else {
        seq![s.subrange(i, j)] + pieces_from(s, c, j + 1)
    }
}

/// The pieces of a text, cut at each `c`.
pub open spec fn pieces(s: Seq<char>, c: char) -> Seq<Seq<char>> {
    pieces_from(s, c, 0)
}

/// The pieces of a string, cut at each `c`.
pub fn split(s: &str, c: char) -> (r: Vec<String>)
    ensures
        texts(r@) == pieces(s@, c),
{
    let v = chars_of(s);
    let mut out: Vec<String> = Vec::new();
    let mut i: usize = 0;
    proof {
        assert(texts(out@) + pieces_from(s@, c, 0) =~= pieces(s@, c));
    }
    loop
        invariant
            v@ == s@,
            i <= v@.len(),
            texts(out@) + pieces_from(s@, c, i as int) == pieces(s@, c),
        decreases v@.len() - i,
    {
        let j = find_char(&v, c, i);
        let ghost before = texts(out@);
        let piece = string_from(&v, i, j);
        out.push(piece);
        proof {
            assert(texts(out@) =~= before.push(piece@));
        }
        if j >= v.len() {
            proof {
                assert(texts(out@) =~= before + seq![piece@]);
            }
            return out;
        }
        proof {
            assert(before.push(piece@) + pieces_from(s@, c, j + 1) =~= before + (seq![piece@] + pieces_from(s@, c, j + 1)));
        }
        i = j + 1;
    }
}

/// Whether a character is an ASCII decimal digit.
pub open spec fn is_digit(c: char) -> bool {
    '0' <= c && c <= '9'
}

/// The number that a run of decimal digits stands for.
pub open spec fn digits_value(s: Seq<char>) -> nat
    decreases s.len(),
{
    if s.len() == 0 {
        0
    } else {
        digits_value(s.drop_last()) * 10 + (s.last() as u32 - '0' as u32) as nat
    }
}

/// Whether a text is made of decimal digits alone.
pub open spec fn all_digits(s: Seq<char>) -> bool {
    forall|i: int| 0 <= i < s.len() ==> is_digit(#[trigger] s[i])
}

/// A text without the plus sign in front of it.
pub open spec fn without_plus(s: Seq<char>) -> Seq<char> {
    if s.len() > 0 && s[0] == '+' {
        s.subrange(1, s.len() as int)
    } else {
        s
    }
}

/// The natural number that a text writes in decimal, with or without a plus sign in front.
pub open spec fn parsed(s: Seq<char>) -> Option<nat> {
    let d = without_plus(s);
    if d.len() > 0 && all_digits(d) {
        Some(digits_value(d))
    } else {
        None
    }
}

/// The number that a text writes, where it is at most `max`.
pub open spec fn parsed_upto(s: Seq<char>, max: nat) -> Option<nat> {
    match parsed(s) {
        Some(n) if n <= max => Some(n),
        _ => None,
    }
}

/// The unsigned number that a string writes in decimal, where it is at most `max`.
pub fn parse_upto(s: &str, max: u64) -> (r: Option<u64>)
    ensures
        r is Some == parsed_upto(s@, max as nat) is Some,
        r matches Some(n) ==> parsed_upto(s@, max as nat) == Some(n as nat),
{
    let v = chars_of(s);
    let mut start: usize = 0;
    if v.len() > 0 && v[0] == '+' {
        start = 1;
    }
    let ghost d = s@.subrange(start as int, s@.len() as int);
    proof {
        assert(start == 0 ==> d =~= s@);
    }
    if start == v.len() {
        return None;
    }
    let mut i: usize = start;
    let mut n: u64 = 0;
    let mut over = false;
    while i < v.len()
        invariant
            v@ == s@,
            start <= i <= v@.len(),
            d == s@.subrange(start as int, s@.len() as int),
            d == without_plus(s@),
            forall|k: int| 0 <= k < i - start ==> is_digit(#[trigger] d[k]),
            !over ==> n == digits_value(d.take(i - start)) && n <= max,
            over ==> digits_value(d.take(i - start)) > max,
        decreases v@.len() - i,
    {
        let c = v[i];
        proof {
            assert(d[i - start] == c);
        }
        if !('0' <= c && c <= '9') {
            proof {
                assert(!is_digit(d[i - start]));
            }
            return None;
        }
        let g: u64 = (c as u32 - '0' as u32) as u64;
        proof {
            let t = d.take(i + 1 - start);
            assert(t.drop_last() =~= d.take(i - start));
            assert(t.last() == c);
        }
        if !over {
            let m: u128 = (n as u128) * 10 + (g as u128);
            if m > max as u128 {
                over = true;
            } else {
                n = m as u64;
            }
        }
        i = i + 1;
    }
    proof {
        assert(d.take(i - start) =~= d);
    }
    if over {
        None
    } else {
        Some(n)
    }
}

/// The `u32` that a string writes in decimal.
pub fn parse_u32(s: &str) -> (r: Option<u32>)
    ensures
        r is Some == parsed_upto(s@, u32::MAX as nat) is Some,
        r matches Some(n) ==> parsed_upto(s@, u32::MAX as nat) == Some(n as nat),
{
    match parse_upto(s, u32::MAX as u64) {
        Some(n) => Some(n as u32),
        None => None,
    }
}

/// The `u64` that a string writes in decimal.
pub fn parse_u64(s: &str) -> (r: Option<u64>)
    ensures
        r is Some == parsed_upto(s@, u64::MAX as nat) is Some,
        r matches Some(n) ==> parsed_upto(s@, u64::MAX as nat) == Some(n as nat),
{
    parse_upto(s, u64::MAX)
}

/// The digit that stands for a number below sixteen.
pub open spec fn digit_char(n: nat) -> char {
    if n < 10 {
        ('0' as u32 + n) as char
    } else {
        ('a' as u32 + (n - 10)) as char
    }
}

/// A natural number written in decimal.
pub open spec fn dec(n: nat) -> Seq<char>
    decreases n,
{
    if n < 10 {
        seq![digit_char(n)]
    } else {
        dec(n / 10).push(digit_char(n % 10))
    }
}

/// An integer written in decimal, with a minus sign in front where it is negative.
pub open spec fn dec_int(n: int) -> Seq<char> {
    if n < 0 {
        seq!['-'] + dec((-n) as nat)
    } else {
        dec(n as nat)
    }
}

/// The digit for a number below ten.
fn digit_of(n: u64) -> (r: char)
    requires
        n < 10,
    ensures
        r == digit_char(n as nat),
{
    (('0' as u8) + (n as u8)) as char
}

/// A number written in decimal.
pub fn dec_u64(n: u64) -> (r: String)
    ensures
        r@ == dec(n as nat),
    decreases n,
{
    if n < 10 {
        let mut out: String = String::new();
        out.push(digit_of(n));
        proof {
            assert(out@ =~= seq![digit_char(n as nat)]);
        }
        out
    } else {
        let mut out = dec_u64(n / 10);
        out.push(digit_of(n % 10));
        out
    }
}

/// A signed number written in decimal.
pub fn dec_i64(n: i64) -> (r: String)
    ensures
        r@ == dec_int(n as int),
{
    if n < 0 {
        let m: u64 = (-(n as i128)) as u64;
        let mut out: String = String::new();
        out.push('-');
        let d = dec_u64(m);
        out.append(d.as_str());
        proof {
            assert(out@ =~= seq!['-'] + dec(m as nat));
        }
        out
    } else {
        dec_u64(n as u64)
    }
}

/// The last `width` digits of a number written in hexadecimal, with leading zeros.
pub open spec fn hex(n: nat, width: nat) -> Seq<char>
    decreases width,
{
    if width == 0 {
        Seq::empty()
    } else {
        hex(n / 16, (width - 1) as nat).push(digit_char(n % 16))
    }
}

/// The last `width` hexadecimal digits of a number.
pub fn hex_u64(n: u64, width: u32) -> (r: String)
    ensures
        r@ == hex(n as nat, width as nat),
    decreases width,
{
    if width == 0 {
        String::new()
    } else {
        let mut out = hex_u64(n / 16, width - 1);
        let g: u64 = n % 16;
        if g < 10 {
            out.push(digit_of(g));
        } else {
            out.push((('a' as u8) + ((g - 10) as u8)) as char);
        }
        out
    }
}

/// A decimal numeral reads back as the number that it was written for.
pub proof fn law_decimal_reads_back(n: nat)
    ensures
        parsed(dec(n)) == Some(n),
{
    lemma_dec(n);
    assert(dec(n)[0] != '+');
}

/// A decimal numeral is a run of digits with the value that it was written for.
proof fn lemma_dec(n: nat)
    ensures
        dec(n).len() > 0,
        digits_value(dec(n)) == n,
        all_digits(dec(n)),
    decreases n,
{
    let d = dec(n);
    if n < 10 {
        assert(d.drop_last() =~= Seq::<char>::empty());
        assert(digits_value(d.drop_last()) == 0);
    } else {
        lemma_dec(n / 10);
        assert(d.drop_last() =~= dec(n / 10));
    }
}

/// Two numbers with the same decimal numeral are equal.
pub proof fn law_decimal_is_injective(a: nat, b: nat)
    requires
        dec(a) == dec(b),
    ensures
        a == b,
{
    law_decimal_reads_back(a);
    law_decimal_reads_back(b);
}

/// The place of the first white space at or after `i`, or the end of the text.
pub open spec fn word_end(s: Seq<char>, i: int) -> int
    decreases s.len() - i,
{
    if 0 <= i < s.len() && !is_white(s[i]) {
        word_end(s, i + 1)
    } else {
        i
    }
}

/// The first run of characters that are not white space, where there is one.
pub open spec fn first_word(s: Seq<char>) -> Option<Seq<char>> {
    let t = trimmed_start(s);
    if t.len() == 0 {
        None
    } else {
        Some(t.subrange(0, word_end(t, 0)))
    }
}

/// The first word of a string, where there is one.
pub fn word(s: &str) -> (r: Option<String>)
    ensures
        opt_text(r) == first_word(s@),
{
    let v = chars_of(s);
    let mut start: usize = 0;
    proof {
        assert(s@.subrange(0, s@.len() as int) =~= s@);
    }
    while start < v.len() && white(v[start])
        invariant
            start <= v@.len(),
            v@ == s@,
            trimmed_start(s@) == trimmed_start(s@.subrange(start as int, s@.len() as int)),
        decreases v@.len() - start,
    {
        proof {
            let t = s@.subrange(start as int, s@.len() as int);
            assert(t[0] == s@[start as int]);
            assert(t.subrange(1, t.len() as int) =~= s@.subrange(start + 1, s@.len() as int));
        }
        start = start + 1;
    }
    let ghost t = s@.subrange(start as int, s@.len() as int);
    proof {
        assert(start < s@.len() ==> t[0] == s@[start as int]);
        assert(trimmed_start(s@) == t);
    }
    if start == v.len() {
        return None;
    }
    let mut end: usize = start;
    while end < v.len() && !white(v[end])
        invariant
            start <= end <= v@.len(),
            v@ == s@,
            t == s@.subrange(start as int, s@.len() as int),
            word_end(t, 0) == word_end(t, end - start),
        decreases v@.len() - end,
    {
        proof {
            assert(t[end - start] == s@[end as int]);
        }
        end = end + 1;
    }
    proof {
        assert(end < s@.len() ==> t[end - start] == s@[end as int]);
        assert(t.subrange(0, end - start) =~= s@.subrange(start as int, end as int));
    }
    Some(string_from(&v, start, end))
}

/// The first place at or after `i` where a text holds another.
pub open spec fn first_at(s: Seq<char>, p: Seq<char>, i: int) -> Option<int>
    decreases s.len() + 1 - i,
{
    if i < 0 || i > s.len() {
        None
    } else if has_at(s, p, i) {
        Some(i)
    } else {
        first_at(s, p, i + 1)
    }
}

/// The last place at or before `i` where a text holds another.
pub open spec fn last_at(s: Seq<char>, p: Seq<char>, i: int) -> Option<int>
    decreases i + 1,
{
    if i < 0 {
        None
    } else if has_at(s, p, i) {
        Some(i)
    } else {
        last_at(s, p, i - 1)
    }
}

/// What stands before and behind the first place where a text holds another.
pub open spec fn cut_first(s: Seq<char>, p: Seq<char>) -> Option<(Seq<char>, Seq<char>)> {
    match first_at(s, p, 0) {
        Some(i) => Some((s.subrange(0, i), s.subrange(i + p.len(), s.len() as int))),
        None => None,
    }
}

/// What stands before and behind the last place where a text holds another.
pub open spec fn cut_last(s: Seq<char>, p: Seq<char>) -> Option<(Seq<char>, Seq<char>)> {
    match last_at(s, p, s.len() as int) {
        Some(i) => Some((s.subrange(0, i), s.subrange(i + p.len(), s.len() as int))),
        None => None,
    }
}

/// The texts of a pair of strings, where there is one.
pub open spec fn pair_said(p: Option<(String, String)>) -> Option<(Seq<char>, Seq<char>)> {
    match p {
        Some((a, b)) => Some((a@, b@)),
        None => None,
    }
}

/// What stands before and behind the first place where a string holds another.
pub fn split_once(s: &str, pat: &str) -> (r: Option<(String, String)>)
    ensures
        pair_said(r) == cut_first(s@, pat@),
{
    let v = chars_of(s);
    let p = chars_of(pat);
    let mut i: usize = 0;
    while i < v.len()
        invariant
            v@ == s@,
            p@ == pat@,
            i <= v@.len(),
            first_at(s@, pat@, 0) == first_at(s@, pat@, i as int),
        decreases v@.len() - i,
    {
        if has_chars_at(&v, &p, i) {
            return Some((string_from(&v, 0, i), string_from(&v, i + p.len(), v.len())));
        }
        i = i + 1;
    }
    if has_chars_at(&v, &p, i) {
        return Some((string_from(&v, 0, i), string_from(&v, i + p.len(), v.len())));
    }
    proof {
        assert(first_at(s@, pat@, i + 1) is None);
    }
    None
}

/// What stands before and behind the last place where a string holds another.
pub fn rsplit_once(s: &str, pat: &str) -> (r: Option<(String, String)>)
    ensures
        pair_said(r) == cut_last(s@, pat@),
{
    let v = chars_of(s);
    let p = chars_of(pat);
    let n: usize = v.len();
    let mut i: usize = n;
    loop
        invariant
            v@ == s@,
            p@ == pat@,
            i <= n,
            n == v@.len(),
            last_at(s@, pat@, s@.len() as int) == last_at(s@, pat@, i as int),
        decreases i,
    {
        if has_chars_at(&v, &p, i) {
            return Some((string_from(&v, 0, i), string_from(&v, i + p.len(), n)));
        }
        if i == 0 {
            proof {
                assert(last_at(s@, pat@, -1) is None);
            }
            return None;
        }
        i = i - 1;
    }
}

/// What is left of a text behind another that it begins with.
pub open spec fn after_prefix(s: Seq<char>, p: Seq<char>) -> Option<Seq<char>> {
    if p.is_prefix_of(s) {
        Some(s.subrange(p.len() as int, s.len() as int))
    } else {
        None
    }
}

/// What is left of a string behind another that it begins with.
pub fn strip_prefix(s: &str, pat: &str) -> (r: Option<String>)
    ensures
        opt_text(r) == after_prefix(s@, pat@),
{
    let v = chars_of(s);
    let p = chars_of(pat);
    if has_chars_at(&v, &p, 0) {
        Some(string_from(&v, p.len(), v.len()))
    } else {
        None
    }
}

/// A text behind another.
pub fn behind(front: &str, rest: &str) -> (r: String)
    ensures
        r@ == front@ + rest@,
{
    let mut out: String = front.to_owned();
    out.append(rest);
    out
}

/// Some texts, each once, in the order in which they come first.
pub open spec fn once(ts: Seq<Seq<char>>) -> Seq<Seq<char>>
    decreases ts.len(),
{
    if ts.len() == 0 {
        Seq::empty()
    } else if once(ts.drop_last()).contains(ts.last()) {
        once(ts.drop_last())
    } else {
        once(ts.drop_last()).push(ts.last())
    }
}

/// Whether a list of strings holds a text.
pub fn holds(v: &Vec<String>, s: &str) -> (r: bool)
    ensures
        r == texts(v@).contains(s@),
{
    let mut i: usize = 0;
    while i < v.len()
        invariant
            i <= v@.len(),
            forall|k: int| 0 <= k < i ==> #[trigger] v@[k]@ != s@,
        decreases v@.len() - i,
    {
        if str_eq(v[i].as_str(), s) {
            proof {
                assert(texts(v@)[i as int] == s@);
            }
            return true;
        }
        i = i + 1;
    }
    proof {
        assert forall|k: int| 0 <= k < texts(v@).len() implies texts(v@)[k] != s@ by {
            assert(texts(v@)[k] == v@[k]@);
        }
    }
    false
}

/// A copy of some texts.
pub fn copy_texts(v: &Vec<String>) -> (r: Vec<String>)
    ensures
        texts(r@) == texts(v@),
{
    let mut out: Vec<String> = Vec::new();
    let mut i: usize = 0;
    while i < v.len()
        invariant
            i <= v@.len(),
            out@.len() == i,
            forall|k: int| 0 <= k < i ==> (#[trigger] out@[k])@ == v@[k]@,
        decreases v@.len() - i,
    {
        out.push(v[i].clone());
        i = i + 1;
    }
    proof {
        assert(texts(out@) =~= texts(v@));
    }
    out
}

/// Some texts, each once.
pub fn each_once(v: &Vec<String>) -> (r: Vec<String>)
    ensures
        texts(r@) == once(texts(v@)),
{
    let mut out: Vec<String> = Vec::new();
    let mut i: usize = 0;
    proof {
        assert(texts(v@).take(0) =~= Seq::empty());
        assert(texts(out@) =~= Seq::empty());
    }
    while i < v.len()
        invariant
            i <= v@.len(),
            texts(out@) == once(texts(v@).take(i as int)),
        decreases v@.len() - i,
    {
        let ghost before = texts(out@);
        proof {
            assert(texts(v@).take(i + 1).drop_last() =~= texts(v@).take(i as int));
            assert(texts(v@).take(i + 1).last() == v@[i as int]@);
        }
        if !holds(&out, v[i].as_str()) {
            out.push(v[i].clone());
            proof {
                assert(texts(out@) =~= before.push(v@[i as int]@));
            }
        }
        i = i + 1;
    }
    proof {
        assert(texts(v@).take(i as int) =~= texts(v@));
    }
    out
}

/// What `str::to_lowercase` makes of a text.
pub uninterp spec fn lowercase_of(s: Seq<char>) -> Seq<char>;

/// `str::to_lowercase`: the lower case of a text depends on the text alone, and lowers the letters
/// of a text that is ASCII one by one.
#[verifier::external_body]
pub(crate) fn lowercase(s: &str) -> (r: String)
    ensures
        r@ == lowercase_of(s@),
        s.is_ascii() ==> r@ == lowered(s@),
{
    s.to_lowercase()
}

/// Leading white space goes, and nothing else: what is left starts at the place that is returned.
proof fn lemma_start_is_trimmed(s: Seq<char>) -> (i: int)
    ensures
        0 <= i <= s.len(),
        trimmed_start(s) == s.subrange(i, s.len() as int),
        forall|k: int| 0 <= k < i ==> is_white(#[trigger] s[k]),
        i < s.len() ==> !is_white(s[i]),
    decreases s.len(),
{
    if s.len() > 0 && is_white(s[0]) {
        let t = s.subrange(1, s.len() as int);
        let j = lemma_start_is_trimmed(t);
        assert(t.subrange(j, t.len() as int) =~= s.subrange(j + 1, s.len() as int));
        assert forall|k: int| 0 <= k < j + 1 implies is_white(#[trigger] s[k]) by {
            if k > 0 {
                assert(t[k - 1] == s[k]);
            }
        }
        if j + 1 < s.len() {
            assert(t[j] == s[j + 1]);
        }
        j + 1
    } else {
        assert(s.subrange(0, s.len() as int) =~= s);
        0
    }
}

/// White space at the end goes, and nothing else: what is left ends at the place that is returned.
proof fn lemma_end_is_trimmed(s: Seq<char>) -> (j: int)
    ensures
        0 <= j <= s.len(),
        trimmed_end(s) == s.subrange(0, j),
        forall|k: int| j <= k < s.len() ==> is_white(#[trigger] s[k]),
        0 < j ==> !is_white(s[j - 1]),
    decreases s.len(),
{
    if s.len() > 0 && is_white(s.last()) {
        let t = s.drop_last();
        let j = lemma_end_is_trimmed(t);
        assert(t.subrange(0, j) =~= s.subrange(0, j));
        assert forall|k: int| j <= k < s.len() implies is_white(#[trigger] s[k]) by {
            if k < t.len() {
                assert(t[k] == s[k]);
            }
        }
        j
    } else {
        assert(s.subrange(0, s.len() as int) =~= s);
        s.len() as int
    }
}

/// Whether a part of a text has white space around it only, and none at its own ends.
pub open spec fn is_core(s: Seq<char>, i: int, j: int) -> bool {
    &&& 0 <= i <= j <= s.len()
    &&& forall|k: int| 0 <= k < i ==> is_white(#[trigger] s[k])
    &&& forall|k: int| j <= k < s.len() ==> is_white(#[trigger] s[k])
    &&& i < j ==> !is_white(s[i]) && !is_white(s[j - 1])
}

/// A trimmed text is the part of the text that has the white space around it.
pub proof fn law_white_ends_are_trimmed(s: Seq<char>)
    ensures
        exists|i: int, j: int| #[trigger] is_core(s, i, j) && trimmed(s) == s.subrange(i, j),
        trimmed(s).len() == 0 <==> (forall|k: int| 0 <= k < s.len() ==> is_white(#[trigger] s[k])),
        trimmed(trimmed(s)) == trimmed(s),
{
    let i = lemma_start_is_trimmed(s);
    let t = trimmed_start(s);
    let j = lemma_end_is_trimmed(t);
    assert(trimmed(s) =~= s.subrange(i, i + j));
    assert forall|k: int| i + j <= k < s.len() implies is_white(#[trigger] s[k]) by {
        assert(t[k - i] == s[k]);
    }
    if 0 < j {
        assert(t[j - 1] == s[i + j - 1]);
        assert(t[0] == s[i]);
    }
    assert(is_core(s, i, i + j));
    let u = trimmed(s);
    assert(trimmed_start(u) == u);
    assert(trimmed_end(u) == u);
    if j > 0 {
        assert(!is_white(s[i]));
    }
}

/// Letters change their case, and nothing else changes.
pub proof fn law_letters_change_case(s: Seq<char>)
    ensures
        lowered(s).len() == s.len(),
        uppered(s).len() == s.len(),
        forall|i: int| 0 <= i < s.len() && 65 <= s[i] as u32 <= 90 ==> #[trigger] lowered(s)[i] as u32 == s[i] as u32 + 32,
        forall|i: int| 0 <= i < s.len() && !(65 <= s[i] as u32 <= 90) ==> #[trigger] lowered(s)[i] == s[i],
        forall|i: int| 0 <= i < s.len() && 97 <= s[i] as u32 <= 122 ==> #[trigger] uppered(s)[i] as u32 == s[i] as u32 - 32,
        forall|i: int| 0 <= i < s.len() && !(97 <= s[i] as u32 <= 122) ==> #[trigger] uppered(s)[i] == s[i],
        lowered(uppered(s)) == lowered(s),
        uppered(lowered(s)) == uppered(s),
{
    assert(lowered(uppered(s)) =~= lowered(s));
    assert(uppered(lowered(s)) =~= uppered(s));
}

/// A join of two or more texts starts with the first and goes on with the join of the others.
proof fn lemma_join_from_the_front(a: Seq<char>, rest: Seq<Seq<char>>, sep: Seq<char>)
    requires
        rest.len() > 0,
    ensures
        joined(seq![a] + rest, sep) == a + sep + joined(rest, sep),
    decreases rest.len(),
{
    let all = seq![a] + rest;
    if rest.len() == 1 {
        assert(all.drop_last() =~= seq![a]);
        assert(joined(seq![a], sep) == a);
    } else {
        lemma_join_from_the_front(a, rest.drop_last(), sep);
        assert(all.drop_last() =~= seq![a] + rest.drop_last());
        assert(joined(all, sep) =~= a + sep + (joined(rest.drop_last(), sep) + sep + rest.last()));
    }
}

/// Joining two lists one behind the other is joining each, with the separator between.
pub proof fn law_joins_are_joined(a: Seq<Seq<char>>, b: Seq<Seq<char>>, sep: Seq<char>)
    requires
        a.len() > 0,
        b.len() > 0,
    ensures
        joined(a + b, sep) == joined(a, sep) + sep + joined(b, sep),
        a.len() == 1 ==> joined(a, sep) == a[0],
    decreases b.len(),
{
    if b.len() == 1 {
        assert((a + b).drop_last() =~= a);
        assert((a + b).last() == b[0]);
    } else {
        law_joins_are_joined(a, b.drop_last(), sep);
        assert((a + b).drop_last() =~= a + b.drop_last());
        assert(joined(a + b, sep) =~= joined(a, sep) + sep + joined(b, sep));
    }
}

/// The pieces of a text from a place on make it up, with the character between them.
proof fn lemma_pieces_make_the_rest(s: Seq<char>, c: char, i: int)
    requires
        0 <= i <= s.len(),
    ensures
        pieces_from(s, c, i).len() > 0,
        joined(pieces_from(s, c, i), seq![c]) == s.subrange(i, s.len() as int),
        forall|k: int| 0 <= k < pieces_from(s, c, i).len() ==> !(#[trigger] pieces_from(s, c, i)[k]).contains(c),
    decreases s.len() - i,
{
    lemma_next_char(s, c, i);
    let j = next_char(s, c, i);
    if j >= s.len() {
        let p = s.subrange(i, s.len() as int);
        assert(!p.contains(c)) by {
            if p.contains(c) {
                let k = choose|k: int| 0 <= k < p.len() && p[k] == c;
                assert(p[k] == s[i + k]);
            }
        }
    } else {
        lemma_pieces_make_the_rest(s, c, j + 1);
        let p = s.subrange(i, j);
        assert(!p.contains(c)) by {
            if p.contains(c) {
                let k = choose|k: int| 0 <= k < p.len() && p[k] == c;
                assert(p[k] == s[i + k]);
            }
        }
        let rest = pieces_from(s, c, j + 1);
        lemma_join_from_the_front(p, rest, seq![c]);
        assert(p + seq![c] + s.subrange(j + 1, s.len() as int) =~= s.subrange(i, s.len() as int));
        assert forall|k: int| 0 <= k < pieces_from(s, c, i).len() implies !(#[trigger] pieces_from(s, c, i)[k]).contains(c) by {
            if k > 0 {
                assert(pieces_from(s, c, i)[k] == rest[k - 1]);
            }
        }
    }
}

/// The pieces of a text hold no separator, and joined by it they are the text.
pub proof fn law_pieces_make_the_text(s: Seq<char>, c: char)
    ensures
        joined(pieces(s, c), seq![c]) == s,
        forall|k: int| 0 <= k < pieces(s, c).len() ==> !(#[trigger] pieces(s, c)[k]).contains(c),
{
    lemma_pieces_make_the_rest(s, c, 0);
    assert(s.subrange(0, s.len() as int) =~= s);
}

/// A line ends at its line feed, and one carriage return before that is part of the end.
pub proof fn law_line_ends_at_its_feed(line: Seq<char>, rest: Seq<char>)
    requires
        !line.contains('\n'),
    ensures
        lines_of(line + seq!['\r', '\n'] + rest) == seq![line] + lines_of(rest),
        (line.len() == 0 || line.last() != '\r') ==> lines_of(line + seq!['\n'] + rest) == seq![line] + lines_of(rest),
        line.len() > 0 ==> lines_of(line) == seq![line],
        lines_of(Seq::<char>::empty()).len() == 0,
{
    let n = line.len() as int;
    assert forall|k: int| 0 <= k < n implies #[trigger] line[k] != '\n' by {
        assert(line.contains(line[k]));
    }
    let a = line + seq!['\r', '\n'];
    let s = a + rest;
    lemma_next_char(s, '\n', 0);
    assert(s[n] == '\r');
    assert(s[n + 1] == '\n');
    assert(next_char(s, '\n', 0) == n + 1) by {
        let j = next_char(s, '\n', 0);
        if j < n {
            assert(s[j] == line[j]);
        }
    }
    assert(s.subrange(0, n + 1) =~= line.push('\r'));
    assert(line.push('\r').drop_last() =~= line);
    lemma_lines_behind(a, rest, 0);
    let b = line + seq!['\n'];
    let t = b + rest;
    lemma_next_char(t, '\n', 0);
    assert(t[n] == '\n');
    assert(next_char(t, '\n', 0) == n) by {
        let j = next_char(t, '\n', 0);
        if j < n {
            assert(t[j] == line[j]);
        }
    }
    assert(t.subrange(0, n) =~= line);
    lemma_lines_behind(b, rest, 0);
    lemma_next_char(line, '\n', 0);
    assert(line.subrange(0, n) =~= line);
}

/// A decimal numeral has no zero in front of other digits.
proof fn lemma_no_leading_zero(n: nat)
    ensures
        n > 0 ==> dec(n)[0] != '0',
    decreases n,
{
    if n >= 10 {
        lemma_no_leading_zero(n / 10);
        lemma_dec(n / 10);
    }
}

/// A numeral is made of digits, with a sign in front of a negative number only, and of no more
/// digits than it needs; and two numbers have two numerals.
pub proof fn law_numerals_are_signed_digits(a: int, b: int)
    ensures
        a >= 0 ==> all_digits(dec_int(a)),
        a < 0 ==> dec_int(a).len() > 1 && dec_int(a)[0] == '-' && dec_int(a).skip(1) == dec_int(-a),
        a > 0 ==> dec_int(a)[0] != '0',
        dec_int(a) == dec_int(b) ==> a == b,
{
    let m: nat = if a < 0 {
        (-a) as nat
    } else {
        a as nat
    };
    let n: nat = if b < 0 {
        (-b) as nat
    } else {
        b as nat
    };
    lemma_dec(m);
    lemma_dec(n);
    lemma_no_leading_zero(m);
    assert((seq!['-'] + dec(m)).skip(1) =~= dec(m));
    assert((seq!['-'] + dec(n)).skip(1) =~= dec(n));
    if dec_int(a) == dec_int(b) {
        assert(dec(m)[0] != '-');
        assert(dec(n)[0] != '-');
        assert(a < 0 <==> b < 0);
        law_decimal_is_injective(m, n);
    }
}

/// A number is read from digits alone, with one plus before them or none, and only up to the bound.
pub proof fn law_digits_are_read(s: Seq<char>, n: nat, max: nat)
    ensures
        parsed(seq!['+'] + dec(n)) == Some(n),
        n <= max ==> parsed_upto(dec(n), max) == Some(n),
        n > max ==> parsed_upto(dec(n), max) is None,
        parsed(Seq::<char>::empty()) is None,
        parsed(seq!['+']) is None,
        (exists|i: int| 0 < i < s.len() && !('0' <= #[trigger] s[i] && s[i] <= '9')) ==> parsed(s) is None,
        s.len() > 0 && s[0] != '+' && !('0' <= s[0] && s[0] <= '9') ==> parsed(s) is None,
{
    lemma_dec(n);
    let p = seq!['+'] + dec(n);
    assert(p.subrange(1, p.len() as int) =~= dec(n));
    law_decimal_reads_back(n);
    if exists|i: int| 0 < i < s.len() && !('0' <= #[trigger] s[i] && s[i] <= '9') {
        let i = choose|i: int| 0 < i < s.len() && !('0' <= #[trigger] s[i] && s[i] <= '9');
        let d = without_plus(s);
        if s[0] == '+' {
            assert(d[i - 1] == s[i]);
        } else {
            assert(d[i] == s[i]);
        }
        assert(!all_digits(d));
    }
}

/// A hexadecimal numeral has as many digits as it was asked for, the lowest last.
pub proof fn law_hex_has_its_width(n: nat, width: nat)
    ensures
        hex(n, width).len() == width,
        forall|i: int| 0 <= i < width ==> ('0' <= #[trigger] hex(n, width)[i] <= '9' || 'a' <= hex(n, width)[i] <= 'f'),
        width > 0 && n % 16 < 10 ==> hex(n, width).last() as u32 == 48 + n % 16,
        width > 0 && n % 16 >= 10 ==> hex(n, width).last() as u32 == 87 + n % 16,
        width > 0 ==> hex(n, width).drop_last() == hex(n / 16, (width - 1) as nat),
    decreases width,
{
    if width > 0 {
        law_hex_has_its_width(n / 16, (width - 1) as nat);
        assert(hex(n, width).drop_last() =~= hex(n / 16, (width - 1) as nat));
    }
}

/// The end of a word is the next white space.
proof fn lemma_word_end(s: Seq<char>, i: int)
    requires
        0 <= i <= s.len(),
    ensures
        i <= word_end(s, i) <= s.len(),
        forall|k: int| i <= k < word_end(s, i) ==> !is_white(#[trigger] s[k]),
        word_end(s, i) < s.len() ==> is_white(s[word_end(s, i)]),
    decreases s.len() - i,
{
    if i < s.len() && !is_white(s[i]) {
        lemma_word_end(s, i + 1);
    }
}

/// Whether a part of a text is its first word: white space before it, none in it, and white space
/// or the end behind it.
pub open spec fn is_first_word(s: Seq<char>, i: int, j: int) -> bool {
    &&& 0 <= i < j <= s.len()
    &&& forall|k: int| 0 <= k < i ==> is_white(#[trigger] s[k])
    &&& forall|k: int| i <= k < j ==> !is_white(#[trigger] s[k])
    &&& j < s.len() ==> is_white(s[j])
}

/// The first word of a text goes from the first character that is not white to the next that is.
pub proof fn law_first_word_is_found(s: Seq<char>)
    ensures
        first_word(s) is None <==> (forall|k: int| 0 <= k < s.len() ==> is_white(#[trigger] s[k])),
        first_word(s) matches Some(w) ==> exists|i: int, j: int| #[trigger] is_first_word(s, i, j) && w == s.subrange(i, j),
{
    let i = lemma_start_is_trimmed(s);
    let t = trimmed_start(s);
    if t.len() > 0 {
        lemma_word_end(t, 0);
        let e = word_end(t, 0);
        assert(t[0] == s[i]);
        assert(t.subrange(0, e) =~= s.subrange(i, i + e));
        assert forall|k: int| i <= k < i + e implies !is_white(#[trigger] s[k]) by {
            assert(t[k - i] == s[k]);
        }
        if i + e < s.len() {
            assert(t[e] == s[i + e]);
        }
        assert(is_first_word(s, i, i + e));
    }
}

/// The first place of a text is where it stands and before which it does not.
proof fn lemma_first_at(s: Seq<char>, p: Seq<char>, i: int)
    requires
        0 <= i,
    ensures
        first_at(s, p, i) matches Some(a) ==> i <= a && has_at(s, p, a) && (forall|k: int| i <= k < a ==> !#[trigger] has_at(s, p, k)),
        first_at(s, p, i) is None ==> (forall|k: int| i <= k ==> !#[trigger] has_at(s, p, k)),
    decreases s.len() + 1 - i,
{
    if i <= s.len() && !has_at(s, p, i) {
        lemma_first_at(s, p, i + 1);
    }
}

/// The last place of a text is where it stands and behind which it does not.
proof fn lemma_last_at(s: Seq<char>, p: Seq<char>, i: int)
    ensures
        last_at(s, p, i) matches Some(a) ==> a <= i && has_at(s, p, a) && (forall|k: int| a < k <= i ==> !#[trigger] has_at(s, p, k)),
        last_at(s, p, i) is None ==> (forall|k: int| k <= i ==> !#[trigger] has_at(s, p, k)),
    decreases i + 1,
{
    if i >= 0 && !has_at(s, p, i) {
        lemma_last_at(s, p, i - 1);
    }
}

/// A text is cut where the separator first stands, or where it last stands: what is before it and
/// what is behind it make up the text with it, and only a text without it is not cut.
pub proof fn law_text_is_cut_at_the_separator(s: Seq<char>, p: Seq<char>)
    ensures
        cut_first(s, p) is None <==> !has_text(s, p),
        cut_last(s, p) is None <==> !has_text(s, p),
        cut_first(s, p) matches Some((a, b)) ==> s == a + p + b && (forall|k: int| k < a.len() ==> !#[trigger] has_at(s, p, k)),
        cut_last(s, p) matches Some((a, b)) ==> s == a + p + b && (forall|k: int| k > a.len() ==> !#[trigger] has_at(s, p, k)),
{
    lemma_first_at(s, p, 0);
    lemma_last_at(s, p, s.len() as int);
    if let Some(i) = first_at(s, p, 0) {
        assert(s =~= s.subrange(0, i) + s.subrange(i, i + p.len()) + s.subrange(i + p.len(), s.len() as int));
        assert(has_text(s, p));
    }
    if let Some(i) = last_at(s, p, s.len() as int) {
        assert(s =~= s.subrange(0, i) + s.subrange(i, i + p.len()) + s.subrange(i + p.len(), s.len() as int));
        assert(has_text(s, p));
    }
}

/// What stands behind a prefix is found, and with the prefix it is the text.
pub proof fn law_prefix_is_taken_off(s: Seq<char>, p: Seq<char>, rest: Seq<char>)
    ensures
        after_prefix(p + rest, p) == Some(rest),
        after_prefix(s, p) matches Some(r) ==> s == p + r,
        after_prefix(s, p) is None ==> s != p + rest,
{
    let t = p + rest;
    assert(p.is_prefix_of(t)) by {
        assert(t.subrange(0, p.len() as int) =~= p);
    }
    assert(t.subrange(p.len() as int, t.len() as int) =~= rest);
    if p.is_prefix_of(s) {
        assert(s.subrange(0, p.len() as int) =~= p);
        assert(s =~= p + s.subrange(p.len() as int, s.len() as int));
    }
}

/// Each text is kept once, where it first came: none is lost, none is new, none is there twice,
/// and texts that come later change nothing of what is kept of the earlier ones.
pub proof fn law_first_of_equal_texts_stays(ts: Seq<Seq<char>>, more: Seq<Seq<char>>)
    ensures
        once(ts).no_duplicates(),
        forall|t: Seq<char>| #[trigger] once(ts).contains(t) <==> ts.contains(t),
        once(ts).is_prefix_of(once(ts + more)),
    decreases ts.len() + more.len(),
{
    if ts.len() > 0 {
        law_first_of_equal_texts_stays(ts.drop_last(), Seq::empty());
        let o = once(ts.drop_last());
        let last = ts.last();
        assert forall|t: Seq<char>| #[trigger] once(ts).contains(t) <==> ts.contains(t) by {
            assert(ts =~= ts.drop_last().push(last));
            if ts.contains(t) && t != last {
                let k = choose|k: int| 0 <= k < ts.len() && ts[k] == t;
                assert(ts.drop_last()[k] == t);
                assert(ts.drop_last().contains(t));
                assert(o.contains(t));
                let m = choose|m: int| 0 <= m < o.len() && o[m] == t;
                assert(once(ts)[m] == t);
            }
            if t == last {
                assert(ts[ts.len() - 1] == t);
                if !o.contains(last) {
                    assert(once(ts)[o.len() as int] == t);
                }
            }
            if once(ts).contains(t) && t != last {
                let m = choose|m: int| 0 <= m < once(ts).len() && once(ts)[m] == t;
                assert(o[m] == t);
                assert(o.contains(t));
                assert(ts.drop_last().contains(t));
                let k = choose|k: int| 0 <= k < ts.drop_last().len() && ts.drop_last()[k] == t;
                assert(ts[k] == t);
            }
        }
        assert(once(ts).no_duplicates()) by {
            if !o.contains(last) {
                assert forall|a: int, b: int| 0 <= a < b < once(ts).len() implies once(ts)[a] != once(ts)[b] by {
                    assert(o.contains(o[a]));
                }
            }
        }
    }
    if more.len() > 0 {
        law_first_of_equal_texts_stays(ts, more.drop_last());
        assert((ts + more).drop_last() =~= ts + more.drop_last());
    } else {
        assert(ts + more =~= ts);
    }
}

} // verus!
