//! Diagnostics: from what a failed command wrote to the error, the place in the source and the
//! lines around it.

use vstd::prelude::*;
use crate::patterns::{all_matches, first_match, group, group_or_empty, group_said, group_text, groups_said, match_said, matches_said, regex_all, regex_first};
use crate::paths::{below, climbs, dir_of, dir_said, extension_of, has_parent_part, join_path, path_extension};
use crate::text::{chars_of, contains, dec, dec_u64, first_word, has_text, join, joined, law_decimal_reads_back, lines, lines_of, lowered, opt_clone, opt_str, opt_text, parse_u32, parsed, parsed_upto, starts_with, str_eq, texts, to_lower, to_upper, trim, trim_end, trimmed, trimmed_end, uppered, word};

verus! {

/// What is known of the error that a command ended with.
#[derive(Debug, Clone)]
pub struct Diagnostics {
    pub error_type: Option<String>,
    pub file_path: Option<String>,
    pub line_number: Option<u32>,
    pub code_snippet: Option<String>,
    pub raw_trace: Option<String>,
}

/// What a diagnosis says.
pub struct DiagV {
    pub error_type: Option<Seq<char>>,
    pub file_path: Option<Seq<char>>,
    pub line_number: Option<u32>,
    pub code_snippet: Option<Seq<char>>,
    pub raw_trace: Option<Seq<char>>,
}

impl View for Diagnostics {
    type V = DiagV;

    open spec fn view(&self) -> DiagV {
        DiagV {
            error_type: opt_text(self.error_type),
            file_path: opt_text(self.file_path),
            line_number: self.line_number,
            code_snippet: opt_text(self.code_snippet),
            raw_trace: opt_text(self.raw_trace),
        }
    }
}

/// The diagnosis of which nothing is known.
pub open spec fn no_diag() -> DiagV {
    DiagV { error_type: None, file_path: None, line_number: None, code_snippet: None, raw_trace: None }
}

impl Default for Diagnostics {
    fn default() -> (r: Self)
        ensures
            r@ == no_diag(),
    {
        Diagnostics {
            error_type: None,
            file_path: None,
            line_number: None,
            code_snippet: None,
            raw_trace: None,
        }
    }
}

impl Diagnostics {
    /// A copy of a diagnosis.
    pub fn copy(&self) -> (r: Diagnostics)
        ensures
            r@ == self@,
    {
        Diagnostics {
            error_type: opt_clone(&self.error_type),
            file_path: opt_clone(&self.file_path),
            line_number: self.line_number,
            code_snippet: opt_clone(&self.code_snippet),
            raw_trace: opt_clone(&self.raw_trace),
        }
    }
}

/// The escape character.
pub const ESC: char = '\u{1b}';

/// The bell character.
pub const BEL: char = '\u{7}';

/// The backspace character.
pub const BS: char = '\u{8}';

/// Whether a character is in the given range of code points.
pub open spec fn within(c: char, lo: int, hi: int) -> bool {
    lo <= c as u32 <= hi
}

/// The end of the run of characters from place `i` on that lie in a range of code points.
pub open spec fn run_end(s: Seq<char>, i: int, lo: int, hi: int) -> int
    decreases s.len() - i,
{
    if 0 <= i < s.len() && within(s[i], lo, hi) {
        run_end(s, i + 1, lo, hi)
    } else {
        i
    }
}

/// The first bell or escape character at or after place `i`, or the end.
pub open spec fn osc_text_end(s: Seq<char>, i: int) -> int
    decreases s.len() - i,
{
    if 0 <= i < s.len() && s[i] != BEL && s[i] != ESC {
        osc_text_end(s, i + 1)
    } else {
        i
    }
}

/// The place behind the control sequence whose parts start at place `i`: parameter characters,
/// intermediate characters and one final character, any of which may be missing.
pub open spec fn csi_end(s: Seq<char>, i: int) -> int {
    let k = run_end(s, run_end(s, i, 0x30, 0x3f), 0x20, 0x2f);
    if 0 <= k < s.len() && within(s[k], 0x40, 0x7e) {
        k + 1
    } else {
        k
    }
}

/// The place behind the operating system command whose text starts at place `i`: it ends with a
/// bell, which belongs to it, with an escape and a backslash, which do too, or before any other
/// escape.
pub open spec fn osc_end(s: Seq<char>, i: int) -> int {
    let k = osc_text_end(s, i);
    if k < s.len() && s[k] == BEL {
        k + 1
    } else if k + 1 < s.len() && s[k] == ESC && s[k + 1] == '\\' {
        k + 2
    } else {
        k
    }
}

/// The place behind the escape sequence that starts at place `i`.
pub open spec fn escape_end(s: Seq<char>, i: int) -> int {
    if i + 1 >= s.len() {
        s.len() as int
    } else if s[i + 1] == '[' {
        csi_end(s, i + 2)
    } else if s[i + 1] == ']' {
        osc_end(s, i + 2)
    } else {
        i + 2
    }
}

/// A run of characters ends at or behind its start, and not behind the end of the text.
proof fn lemma_run_end(s: Seq<char>, i: int, lo: int, hi: int)
    requires
        0 <= i <= s.len(),
    ensures
        i <= run_end(s, i, lo, hi) <= s.len(),
    decreases s.len() - i,
{
    if i < s.len() && within(s[i], lo, hi) {
        lemma_run_end(s, i + 1, lo, hi);
    }
}

/// The text of a command ends at or behind its start, and not behind the end of the text.
proof fn lemma_osc_text_end(s: Seq<char>, i: int)
    requires
        0 <= i <= s.len(),
    ensures
        i <= osc_text_end(s, i) <= s.len(),
    decreases s.len() - i,
{
    if i < s.len() && s[i] != BEL && s[i] != ESC {
        lemma_osc_text_end(s, i + 1);
    }
}

/// An escape sequence is not empty and ends inside the text.
pub proof fn lemma_escape_end(s: Seq<char>, i: int)
    requires
        0 <= i < s.len(),
    ensures
        i < escape_end(s, i) <= s.len(),
{
    if i + 1 < s.len() {
        lemma_run_end(s, i + 2, 0x30, 0x3f);
        lemma_run_end(s, run_end(s, i + 2, 0x30, 0x3f), 0x20, 0x2f);
        lemma_osc_text_end(s, i + 2);
    }
}

/// A text from place `i` on without its escape sequences, bells and backspaces.
pub open spec fn plain_from(s: Seq<char>, i: int) -> Seq<char>
    decreases s.len() - i,
{
    if i < 0 || i >= s.len() {
        Seq::empty()
    } else if s[i] == ESC {
        proof {
            lemma_escape_end(s, i);
        }
        plain_from(s, escape_end(s, i))
    } else if s[i] == BEL || s[i] == BS {
        plain_from(s, i + 1)
    } else {
        seq![s[i]] + plain_from(s, i + 1)
    }
}

/// A text without its terminal escape sequences, bells and backspaces.
pub open spec fn plain(s: Seq<char>) -> Seq<char> {
    plain_from(s, 0)
}

/// The end of a run of characters in a range of code points.
fn skip_run(v: &Vec<char>, from: usize, lo: u32, hi: u32) -> (r: usize)
    requires
        from <= v@.len(),
    ensures
        r == run_end(v@, from as int, lo as int, hi as int),
        from <= r <= v@.len(),
{
    let mut i: usize = from;
    while i < v.len() && lo <= v[i] as u32 && v[i] as u32 <= hi
        invariant
            from <= i <= v@.len(),
            run_end(v@, from as int, lo as int, hi as int) == run_end(v@, i as int, lo as int, hi as int),
        decreases v@.len() - i,
    {
        i = i + 1;
    }
    i
}

/// The place behind the escape sequence that starts at a place.
fn skip_escape(v: &Vec<char>, i: usize) -> (r: usize)
    requires
        i < v@.len(),
    ensures
        r == escape_end(v@, i as int),
        i < r <= v@.len(),
{
    proof {
        lemma_escape_end(v@, i as int);
    }
    let n: usize = v.len();
    if i + 1 >= n {
        return n;
    }
    if v[i + 1] == '[' {
        let a = skip_run(v, i + 2, 0x30, 0x3f);
        let b = skip_run(v, a, 0x20, 0x2f);
        if b < n && 0x40 <= v[b] as u32 && v[b] as u32 <= 0x7e {
            return b + 1;
        }
        return b;
    }
    if v[i + 1] == ']' {
        let mut k: usize = i + 2;
        while k < n && v[k] != BEL && v[k] != ESC
            invariant
                i + 2 <= k <= n,
                n == v@.len(),
                osc_text_end(v@, i + 2) == osc_text_end(v@, k as int),
            decreases n - k,
        {
            k = k + 1;
        }
        if k < n && v[k] == BEL {
            return k + 1;
        }
        if k < n - 1 && v[k] == ESC && v[k + 1] == '\\' {
            return k + 2;
        }
        return k;
    }
    i + 2
}

/// Takes the terminal escape sequences, bells and backspaces out of a text.
pub fn strip_ansi(s: &str) -> (r: String)
    ensures
        r@ == plain(s@),
{
    let v = chars_of(s);
    let mut out: String = String::new();
    let mut i: usize = 0;
    proof {
        assert(out@ + plain_from(s@, 0) =~= plain(s@));
    }
    while i < v.len()
        invariant
            v@ == s@,
            i <= v@.len(),
            out@ + plain_from(s@, i as int) == plain(s@),
        decreases v@.len() - i,
    {
        let c = v[i];
        if c == ESC {
            i = skip_escape(&v, i);
        } else if c == BEL || c == BS {
            i = i + 1;
        } else {
            let ghost before = out@;
            out.push(c);
            proof {
                assert(before.push(c) + plain_from(s@, i + 1) =~= before + (seq![c] + plain_from(s@, i + 1)));
            }
            i = i + 1;
        }
    }
    proof {
        assert(out@ + plain_from(s@, i as int) =~= out@);
    }
    out
}

/// A text without escapes, bells and backspaces is left as it is.
pub proof fn law_plain_text_is_kept(s: Seq<char>)
    requires
        !s.contains(ESC),
        !s.contains(BEL),
        !s.contains(BS),
    ensures
        plain(s) == s,
{
    lemma_plain_suffix(s, 0);
    assert(s.subrange(0, s.len() as int) =~= s);
}

/// What is left of a suffix without escapes, bells and backspaces is that suffix.
proof fn lemma_plain_suffix(s: Seq<char>, i: int)
    requires
        0 <= i <= s.len(),
        !s.contains(ESC),
        !s.contains(BEL),
        !s.contains(BS),
    ensures
        plain_from(s, i) == s.subrange(i, s.len() as int),
    decreases s.len() - i,
{
    if i < s.len() {
        assert(s.contains(s[i]));
        lemma_plain_suffix(s, i + 1);
        assert(seq![s[i]] + s.subrange(i + 1, s.len() as int) =~= s.subrange(i, s.len() as int));
    } else {
        assert(s.subrange(i, s.len() as int) =~= Seq::<char>::empty());
    }
}

/// What is left of a text holds no escape, no bell and no backspace.
pub proof fn law_stripped_text_is_plain(s: Seq<char>)
    ensures
        !plain(s).contains(ESC),
        !plain(s).contains(BEL),
        !plain(s).contains(BS),
{
    lemma_no_controls(s, 0);
}

/// Whether a text holds no escape, no bell and no backspace.
pub open spec fn no_controls(s: Seq<char>) -> bool {
    forall|k: int| 0 <= k < s.len() ==> #[trigger] s[k] != ESC && s[k] != BEL && s[k] != BS
}

/// What is left of a suffix holds no escape, no bell and no backspace.
proof fn lemma_no_controls(s: Seq<char>, i: int)
    requires
        0 <= i <= s.len(),
    ensures
        no_controls(plain_from(s, i)),
    decreases s.len() - i,
{
    if i < s.len() {
        if s[i] == ESC {
            lemma_escape_end(s, i);
            lemma_no_controls(s, escape_end(s, i));
        } else {
            lemma_no_controls(s, i + 1);
        }
    }
}

/// Whether a line in lower case is the head of a trace.
pub open spec fn is_header(low: Seq<char>) -> bool {
    ||| "traceback (most recent call last"@.is_prefix_of(low)
    ||| "panic:"@.is_prefix_of(low)
    ||| "goroutine "@.is_prefix_of(low)
}

/// Whether a line in lower case marks a cause.
pub open spec fn is_marker(low: Seq<char>) -> bool {
    ||| has_text(low, "error:"@)
    ||| has_text(low, "exception:"@)
    ||| has_text(low, "warning:"@)
    ||| has_text(low, "panic:"@)
}

/// Whether a line is kept wherever it stands: a head, a mark, or the line behind a mark.
pub open spec fn is_key_line(ls: Seq<Seq<char>>, i: int) -> bool {
    ||| is_header(lowered(ls[i]))
    ||| is_marker(lowered(ls[i]))
    ||| i > 0 && is_marker(lowered(ls[i - 1]))
}

/// Whether a line is kept: it is one of the last `n`, or it is kept wherever it stands.
pub open spec fn is_kept(ls: Seq<Seq<char>>, n: int, i: int) -> bool {
    i >= ls.len() - n || is_key_line(ls, i)
}

/// The lines that are kept among the first `upto`, in their order.
pub open spec fn kept_lines(ls: Seq<Seq<char>>, n: int, upto: int) -> Seq<Seq<char>>
    decreases upto,
{
    if upto <= 0 {
        Seq::empty()
    } else if is_kept(ls, n, upto - 1) {
        kept_lines(ls, n, upto - 1).push(ls[upto - 1])
    } else {
        kept_lines(ls, n, upto - 1)
    }
}

/// The last `n` lines of a text and the lines before them that show the cause.
pub open spec fn tail_said(s: Seq<char>, n: int) -> Seq<char> {
    let ls = lines_of(s);
    joined(kept_lines(ls, n, ls.len() as int), "\n"@)
}

/// Keeps the last `n` lines of a text and the lines before them that show the cause.
pub fn tail_lines(s: &str, n: usize) -> (r: String)
    ensures
        r@ == tail_said(s@, n as int),
{
    let ls = lines(s);
    let total: usize = ls.len();
    let mut keep: Vec<String> = Vec::new();
    let mut after_marker = false;
    let mut i: usize = 0;
    while i < total
        invariant
            i <= total,
            total == ls@.len(),
            texts(ls@) == lines_of(s@),
            after_marker == (i > 0 && is_marker(lowered(ls@[i - 1]@))),
            texts(keep@) == kept_lines(lines_of(s@), n as int, i as int),
        decreases total - i,
    {
        let low = to_lower(ls[i].as_str());
        let l = low.as_str();
        let header = starts_with(l, "traceback (most recent call last") || starts_with(l, "panic:")
            || starts_with(l, "goroutine ");
        let marker = contains(l, "error:") || contains(l, "exception:") || contains(l, "warning:")
            || contains(l, "panic:");
        proof {
            assert(lines_of(s@)[i as int] == ls@[i as int]@);
            assert(i > 0 ==> lines_of(s@)[i - 1] == ls@[i - 1]@);
        }
        if total - i <= n || header || marker || after_marker {
            let ghost before = texts(keep@);
            keep.push(ls[i].clone());
            proof {
                assert(texts(keep@) =~= before.push(ls@[i as int]@));
            }
        }
        after_marker = marker;
        i = i + 1;
    }
    join(&keep, "\n")
}

/// Every kept line is there, in the order of the text, and no other line is.
pub proof fn law_tail_keeps_lines_in_order(ls: Seq<Seq<char>>, n: int, upto: int, i: int, j: int)
    requires
        0 <= i < j < upto <= ls.len(),
        is_kept(ls, n, i),
        is_kept(ls, n, j),
    ensures
        ({
            let a = kept_lines(ls, n, i).len() as int;
            let b = kept_lines(ls, n, j).len() as int;
            let all = kept_lines(ls, n, upto);
            &&& 0 <= a < b < all.len()
            &&& all[a] == ls[i]
            &&& all[b] == ls[j]
        }),
{
    lemma_kept_prefix(ls, n, i + 1, j);
    lemma_kept_prefix(ls, n, i + 1, upto);
    lemma_kept_prefix(ls, n, j + 1, upto);
    let all = kept_lines(ls, n, upto);
    let p = kept_lines(ls, n, i + 1);
    let q = kept_lines(ls, n, j + 1);
    assert(p[p.len() - 1] == ls[i] && all.subrange(0, p.len() as int)[p.len() - 1] == all[p.len() - 1]);
    assert(q[q.len() - 1] == ls[j] && all.subrange(0, q.len() as int)[q.len() - 1] == all[q.len() - 1]);
}

/// What is kept of fewer lines stands in front of what is kept of more.
proof fn lemma_kept_prefix(ls: Seq<Seq<char>>, n: int, i: int, upto: int)
    requires
        0 <= i <= upto,
    ensures
        kept_lines(ls, n, i).is_prefix_of(kept_lines(ls, n, upto)),
    decreases upto - i,
{
    if i < upto {
        lemma_kept_prefix(ls, n, i, upto - 1);
    }
}

/// A text of no more than `n` lines keeps every line.
pub proof fn law_short_tail_is_whole(ls: Seq<Seq<char>>, n: int)
    requires
        ls.len() <= n,
    ensures
        kept_lines(ls, n, ls.len() as int) == ls,
{
    lemma_kept_all(ls, n, ls.len() as int);
    assert(ls.take(ls.len() as int) =~= ls);
}

/// Of the first lines of a short text every one is kept.
proof fn lemma_kept_all(ls: Seq<Seq<char>>, n: int, upto: int)
    requires
        ls.len() <= n,
        0 <= upto <= ls.len(),
    ensures
        kept_lines(ls, n, upto) == ls.take(upto),
    decreases upto,
{
    if upto > 0 {
        lemma_kept_all(ls, n, upto - 1);
        assert(ls.take(upto - 1).push(ls[upto - 1]) =~= ls.take(upto));
    } else {
        assert(ls.take(0) =~= Seq::<Seq<char>>::empty());
    }
}

/// A stack frame of a Python traceback: the file and the line.
pub const PYTHON_FILE: &'static str = "(?m)^\\s+File \"([^\"]+)\", line (\\d+)";

/// The last line of a Python traceback: the type of the error and its message.
pub const PYTHON_ERROR: &'static str = "(?m)^(\\w+(?:Error|Exception|Warning)):\\s*(.*)";

/// An error of the TypeScript compiler: file, line, code and message.
pub const TYPESCRIPT: &'static str = "(?m)^([^:\\s][^:\\n]*?)\\((\\d+),\\d+\\):\\s+error\\s+(TS\\d+):\\s*([^\\n]*)";

/// An error of the TypeScript compiler in watch mode: file, line, code and message.
pub const TYPESCRIPT_WATCH: &'static str = "(?m)^([^:\\s][^:\\n]*?):(\\d+):\\d+\\s+-\\s+error\\s+(TS\\d+):\\s*([^\\n]*)";

/// An error of Node with its first frame: message, file and line.
pub const NODE: &'static str = "(?m)^Error:\\s*(.*)\\n\\s+at\\s+.*\\(([^()]+):(\\d+):\\d+\\)";

/// An error of Bun with its first frame: message, file and line.
pub const BUN: &'static str = "(?m)^error:\\s*(.*)\\n\\s+at\\s+([^()]+):(\\d+):\\d+";

/// A panic of a Rust program: file and line.
pub const RUST: &'static str = "thread '.*?' panicked at ([^:\\n]+):(\\d+):\\d+";

/// A panic of a Go program: the message, and all that stands behind the head of its stack, where
/// a frame is among it.
pub const GO_PANIC: &'static str = "(?s)panic:\\s*([^\\n]*)\\n.*?goroutine \\d+ \\[running\\]:(.*?\\n\\t[^:\\n]+:\\d+.*)";

/// A frame of the stack of a Go program: file and line.
pub const GO_FRAME: &'static str = "\\n\\t([^:\\n]+):(\\d+)";

/// An error of the Swift compiler: file, line and message.
pub const SWIFT: &'static str = "(?m)^([^:\\s][^:\\n]*):(\\d+):\\d+:\\s*error:\\s*([^\\n]*)";

/// An error of the Go compiler: file, line and message.
pub const GO_COMPILE: &'static str = "(?m)^([^:\\s][^:\\n]*\\.go):(\\d+):\\d+:\\s*([^\\n]*)";

/// The line number that a group writes, where it writes one.
pub open spec fn line_said(g: Option<Seq<char>>) -> Option<u32> {
    match g {
        Some(s) => match parsed_upto(s, u32::MAX as nat) {
            Some(n) => Some(n as u32),
            None => None,
        },
        None => None,
    }
}

/// A label and a message.
pub open spec fn labelled(label: Seq<char>, msg: Seq<char>) -> Seq<char> {
    label + ": "@ + msg
}

/// The line number that a group writes.
fn line_of(m: &Vec<Option<String>>, i: usize) -> (r: Option<u32>)
    ensures
        r == line_said(group_said(groups_said(m@), i as int)),
{
    match group(m, i) {
        Some(s) => parse_u32(s.as_str()),
        None => None,
    }
}

/// A label and a message.
fn label(name: &str, msg: &str) -> (r: String)
    ensures
        r@ == labelled(name@, msg@),
{
    let mut out: String = name.to_owned();
    out.append(": ");
    out.append(msg);
    out
}

/// The file and line of the last frame that names both.
pub open spec fn last_frame(frames: Seq<Seq<Option<Seq<char>>>>) -> Option<(Seq<char>, u32)>
    decreases frames.len(),
{
    if frames.len() == 0 {
        None
    } else {
        match (group_said(frames.last(), 1), line_said(group_said(frames.last(), 2))) {
            (Some(f), Some(l)) => Some((f, l)),
            _ => last_frame(frames.drop_last()),
        }
    }
}

/// The file and line of the last frame that names both.
fn find_last_frame(frames: &Vec<Vec<Option<String>>>) -> (r: Option<(String, u32)>)
    ensures
        r is Some == last_frame(matches_said(frames@)) is Some,
        r matches Some(f) ==> last_frame(matches_said(frames@)) == Some((f.0@, f.1)),
{
    let mut n: usize = frames.len();
    proof {
        assert(matches_said(frames@).take(n as int) =~= matches_said(frames@));
    }
    while n > 0
        invariant
            n <= frames@.len(),
            last_frame(matches_said(frames@).take(n as int)) == last_frame(matches_said(frames@)),
        decreases n,
    {
        proof {
            let t = matches_said(frames@).take(n as int);
            assert(t.drop_last() =~= matches_said(frames@).take(n - 1));
            assert(t.last() == groups_said(frames@[n - 1]@));
        }
        let f = group(&frames[n - 1], 1);
        let l = line_of(&frames[n - 1], 2);
        if let Some(file) = f {
            if let Some(line) = l {
                return Some((file, line));
            }
        }
        n = n - 1;
    }
    None
}

/// The diagnosis of a Python traceback from its frames and its last line.
pub open spec fn python_said(frames: Seq<Seq<Option<Seq<char>>>>, error: Option<Seq<Option<Seq<char>>>>) -> Option<DiagV> {
    match error {
        Some(e) => {
            let kind = group_said(e, 1);
            let shown = match kind {
                Some(k) => k,
                None => "Error"@,
            };
            Some(
                DiagV {
                    error_type: kind,
                    file_path: match last_frame(frames) {
                        Some(f) => Some(f.0),
                        None => None,
                    },
                    line_number: match last_frame(frames) {
                        Some(f) => Some(f.1),
                        None => None,
                    },
                    code_snippet: None,
                    raw_trace: Some(labelled(shown, trimmed(group_text(e, 2)))),
                },
            )
        },
        None => None,
    }
}

/// The diagnosis of a Python traceback from its frames and its last line.
pub fn python_diag(frames: &Vec<Vec<Option<String>>>, error: &Option<Vec<Option<String>>>) -> (r: Option<Diagnostics>)
    ensures
        r is Some == python_said(matches_said(frames@), match_said(*error)) is Some,
        r matches Some(d) ==> python_said(matches_said(frames@), match_said(*error)) == Some(d@),
{
    let e = match error {
        Some(e) => e,
        None => {
            return None;
        },
    };
    let (file_path, line_number) = match find_last_frame(frames) {
        Some((f, l)) => (Some(f), Some(l)),
        None => (None, None),
    };
    let error_type = group(e, 1);
    let text = group_or_empty(e, 2);
    let msg = trim(text.as_str());
    let raw = match &error_type {
        Some(k) => label(k.as_str(), msg.as_str()),
        None => label("Error", msg.as_str()),
    };
    Some(
        Diagnostics {
            error_type,
            file_path,
            line_number,
            code_snippet: None,
            raw_trace: Some(raw),
        },
    )
}

/// The diagnosis of an error of the TypeScript compiler.
pub open spec fn typescript_said(m: Seq<Option<Seq<char>>>) -> DiagV {
    DiagV {
        error_type: Some(group_text(m, 3)),
        file_path: group_said(m, 1),
        line_number: line_said(group_said(m, 2)),
        code_snippet: None,
        raw_trace: Some(labelled(group_text(m, 3), trimmed(group_text(m, 4)))),
    }
}

/// The diagnosis of an error of the TypeScript compiler.
pub fn build_ts_diag(m: &Vec<Option<String>>) -> (r: Diagnostics)
    ensures
        r@ == typescript_said(groups_said(m@)),
{
    let code = group_or_empty(m, 3);
    let text = group_or_empty(m, 4);
    let msg = trim(text.as_str());
    let raw = label(code.as_str(), msg.as_str());
    Diagnostics {
        error_type: Some(code),
        file_path: group(m, 1),
        line_number: line_of(m, 2),
        code_snippet: None,
        raw_trace: Some(raw),
    }
}

/// The diagnosis whose type is a fixed word and whose place is in two groups of a match.
pub open spec fn placed(kind: Seq<char>, m: Seq<Option<Seq<char>>>, file: int, line: int, raw: Seq<char>) -> DiagV {
    DiagV {
        error_type: Some(kind),
        file_path: group_said(m, file),
        line_number: line_said(group_said(m, line)),
        code_snippet: None,
        raw_trace: Some(raw),
    }
}

/// The diagnosis whose type is a fixed word and whose place is in two groups of a match.
fn place(kind: &str, m: &Vec<Option<String>>, file: usize, line: usize, raw: String) -> (r: Diagnostics)
    ensures
        r@ == placed(kind@, groups_said(m@), file as int, line as int, raw@),
{
    Diagnostics {
        error_type: Some(kind.to_owned()),
        file_path: group(m, file),
        line_number: line_of(m, line),
        code_snippet: None,
        raw_trace: Some(raw),
    }
}

/// The diagnosis of an error of Node.
pub open spec fn node_said(m: Seq<Option<Seq<char>>>) -> DiagV {
    placed("Error"@, m, 2, 3, labelled("Error"@, group_text(m, 1)))
}

/// The diagnosis of an error of Node.
pub fn node_diag(m: &Vec<Option<String>>) -> (r: Diagnostics)
    ensures
        r@ == node_said(groups_said(m@)),
{
    let msg = group_or_empty(m, 1);
    let raw = label("Error", msg.as_str());
    place("Error", m, 2, 3, raw)
}

/// The diagnosis of an error of Bun.
pub open spec fn bun_said(m: Seq<Option<Seq<char>>>) -> DiagV {
    placed("error"@, m, 2, 3, labelled("error"@, group_text(m, 1)))
}

/// The diagnosis of an error of Bun.
pub fn bun_diag(m: &Vec<Option<String>>) -> (r: Diagnostics)
    ensures
        r@ == bun_said(groups_said(m@)),
{
    let msg = group_or_empty(m, 1);
    let raw = label("error", msg.as_str());
    place("error", m, 2, 3, raw)
}

/// The diagnosis of a panic of a Rust program.
pub open spec fn rust_said(m: Seq<Option<Seq<char>>>) -> DiagV {
    placed("panic"@, m, 1, 2, group_text(m, 0))
}

/// The diagnosis of a panic of a Rust program.
pub fn rust_diag(m: &Vec<Option<String>>) -> (r: Diagnostics)
    ensures
        r@ == rust_said(groups_said(m@)),
{
    let raw = group_or_empty(m, 0);
    place("panic", m, 1, 2, raw)
}

/// The diagnosis of a panic of a Go program from its head and the frames behind it. Its place is
/// that of the last frame that names a file and a line; where no frame's line can be read, it is
/// the file of the last frame alone.
pub open spec fn go_panic_said(head: Seq<Option<Seq<char>>>, frames: Seq<Seq<Option<Seq<char>>>>) -> DiagV {
    DiagV {
        error_type: Some("panic"@),
        file_path: match last_frame(frames) {
            Some(f) => Some(f.0),
            None => if frames.len() > 0 {
                group_said(frames.last(), 1)
            } else {
                None
            },
        },
        line_number: match last_frame(frames) {
            Some(f) => Some(f.1),
            None => None,
        },
        code_snippet: None,
        raw_trace: Some(labelled("panic"@, trimmed(group_text(head, 1)))),
    }
}

/// The diagnosis of a panic of a Go program from its head and the frames behind it.
pub fn go_panic_diag(head: &Vec<Option<String>>, frames: &Vec<Vec<Option<String>>>) -> (r: Diagnostics)
    ensures
        r@ == go_panic_said(groups_said(head@), matches_said(frames@)),
{
    let text = group_or_empty(head, 1);
    let msg = trim(text.as_str());
    let raw = label("panic", msg.as_str());
    let (file_path, line_number) = match find_last_frame(frames) {
        Some((f, l)) => (Some(f), Some(l)),
        None => if frames.len() > 0 {
            (group(&frames[frames.len() - 1], 1), None)
        } else {
            (None, None)
        },
    };
    Diagnostics {
        error_type: Some("panic".to_owned()),
        file_path,
        line_number,
        code_snippet: None,
        raw_trace: Some(raw),
    }
}

/// The diagnosis of an error of the Swift compiler, where the file has the extension `swift`.
pub open spec fn swift_said(m: Seq<Option<Seq<char>>>, extension: Option<Seq<char>>) -> Option<DiagV> {
    if group_said(m, 1) is Some && extension == Some("swift"@) {
        Some(placed("error"@, m, 1, 2, labelled("error"@, group_text(m, 3))))
    } else {
        None
    }
}

/// The diagnosis of an error of the Swift compiler, where the file has the extension `swift`.
pub fn swift_diag(m: &Vec<Option<String>>, extension: &Option<String>) -> (r: Option<Diagnostics>)
    ensures
        r is Some == swift_said(groups_said(m@), opt_text(*extension)) is Some,
        r matches Some(d) ==> swift_said(groups_said(m@), opt_text(*extension)) == Some(d@),
{
    if group(m, 1).is_none() {
        return None;
    }
    match extension {
        Some(e) => {
            if !str_eq(e.as_str(), "swift") {
                return None;
            }
        },
        None => {
            return None;
        },
    }
    let msg = group_or_empty(m, 3);
    let raw = label("error", msg.as_str());
    Some(place("error", m, 1, 2, raw))
}

/// Whether a message is the progress of a test run, and no error of the compiler.
pub open spec fn is_test_status(msg: Seq<char>) -> bool {
    match first_word(msg) {
        Some(w) => {
            let u = uppered(w);
            ||| u == "PASS"@
            ||| u == "FAIL"@
            ||| u == "SKIP"@
            ||| u == "OK"@
            ||| u == "RUN"@
            ||| u == "BENCHMARK"@
        },
        None => false,
    }
}

/// Whether a message is the progress of a test run.
pub fn test_status(msg: &str) -> (r: bool)
    ensures
        r == is_test_status(msg@),
{
    match word(msg) {
        Some(w) => {
            let u = to_upper(w.as_str());
            str_eq(u.as_str(), "PASS") || str_eq(u.as_str(), "FAIL") || str_eq(u.as_str(), "SKIP")
                || str_eq(u.as_str(), "OK") || str_eq(u.as_str(), "RUN") || str_eq(u.as_str(), "BENCHMARK")
        },
        None => false,
    }
}

/// The diagnosis of the first of the matches from place `i` on that is no progress of a test run.
pub open spec fn go_compile_said(ms: Seq<Seq<Option<Seq<char>>>>, i: int) -> Option<DiagV>
    decreases ms.len() - i,
{
    if i < 0 || i >= ms.len() {
        None
    } else {
        let msg = trimmed(group_text(ms[i], 3));
        if is_test_status(msg) {
            go_compile_said(ms, i + 1)
        } else {
            Some(placed("compile error"@, ms[i], 1, 2, labelled("compile error"@, msg)))
        }
    }
}

/// The diagnosis of the first match that is no progress of a test run.
pub fn go_compile_diag(ms: &Vec<Vec<Option<String>>>) -> (r: Option<Diagnostics>)
    ensures
        r is Some == go_compile_said(matches_said(ms@), 0) is Some,
        r matches Some(d) ==> go_compile_said(matches_said(ms@), 0) == Some(d@),
{
    let mut i: usize = 0;
    while i < ms.len()
        invariant
            i <= ms@.len(),
            go_compile_said(matches_said(ms@), 0) == go_compile_said(matches_said(ms@), i as int),
        decreases ms@.len() - i,
    {
        let text = group_or_empty(&ms[i], 3);
        let msg = trim(text.as_str());
        proof {
            assert(matches_said(ms@)[i as int] == groups_said(ms@[i as int]@));
        }
        if !test_status(msg.as_str()) {
            let raw = label("compile error", msg.as_str());
            return Some(place("compile error", &ms[i], 1, 2, raw));
        }
        i = i + 1;
    }
    None
}

/// The diagnosis of a Python traceback in a text.
pub open spec fn python_in(tail: Seq<char>) -> Option<DiagV> {
    python_said(regex_all(PYTHON_FILE@, tail), regex_first(PYTHON_ERROR@, tail))
}

/// The diagnosis of an error of the TypeScript compiler in a text.
pub open spec fn typescript_in(tail: Seq<char>) -> Option<DiagV> {
    match regex_first(TYPESCRIPT@, tail) {
        Some(m) => Some(typescript_said(m)),
        None => match regex_first(TYPESCRIPT_WATCH@, tail) {
            Some(m) => Some(typescript_said(m)),
            None => None,
        },
    }
}

/// The diagnosis of an error of Node in a text.
pub open spec fn node_in(tail: Seq<char>) -> Option<DiagV> {
    match regex_first(NODE@, tail) {
        Some(m) => Some(node_said(m)),
        None => None,
    }
}

/// The diagnosis of an error of Bun in a text.
pub open spec fn bun_in(tail: Seq<char>) -> Option<DiagV> {
    match regex_first(BUN@, tail) {
        Some(m) => Some(bun_said(m)),
        None => None,
    }
}

/// The diagnosis of a panic of a Rust program in a text.
pub open spec fn rust_in(tail: Seq<char>) -> Option<DiagV> {
    match regex_first(RUST@, tail) {
        Some(m) => Some(rust_said(m)),
        None => None,
    }
}

/// The diagnosis of a panic of a Go program in a text: the frames are those behind the head of the
/// first stack.
pub open spec fn go_panic_in(tail: Seq<char>) -> Option<DiagV> {
    match regex_first(GO_PANIC@, tail) {
        Some(m) => Some(go_panic_said(m, regex_all(GO_FRAME@, group_text(m, 2)))),
        None => None,
    }
}

/// The diagnosis of an error of the Swift compiler in a text.
pub open spec fn swift_in(tail: Seq<char>) -> Option<DiagV> {
    match regex_first(SWIFT@, tail) {
        Some(m) => swift_said(
            m,
            match group_said(m, 1) {
                Some(f) => path_extension(f),
                None => None,
            },
        ),
        None => None,
    }
}

/// The diagnosis of an error of the Go compiler in a text.
pub open spec fn go_compile_in(tail: Seq<char>) -> Option<DiagV> {
    go_compile_said(regex_all(GO_COMPILE@, tail), 0)
}

/// The first diagnosis that one of the languages gives, in their fixed order.
pub open spec fn extracted(tail: Seq<char>) -> Option<DiagV> {
    if typescript_in(tail) is Some {
        typescript_in(tail)
    } else if python_in(tail) is Some {
        python_in(tail)
    } else if node_in(tail) is Some {
        node_in(tail)
    } else if bun_in(tail) is Some {
        bun_in(tail)
    } else if rust_in(tail) is Some {
        rust_in(tail)
    } else if go_panic_in(tail) is Some {
        go_panic_in(tail)
    } else if swift_in(tail) is Some {
        swift_in(tail)
    } else {
        go_compile_in(tail)
    }
}

/// How many lines at the end of the output are always looked at.
pub const TAIL_LINES: usize = 30;

/// The part of a command's output that is looked at.
pub open spec fn looked_at(output: Seq<char>) -> Seq<char> {
    tail_said(plain(output), TAIL_LINES as int)
}

/// Finds the error in what a command wrote.
#[derive(Debug, Clone)]
pub struct Slicer {}

impl Slicer {
    /// A slicer for the languages it knows.
    pub fn new() -> (r: Slicer)
        ensures
            r == (Slicer {  }),
    {
        Slicer {  }
    }

    /// The diagnosis of a Python traceback: the last frame that names a file and a line, and the
    /// first line that names an error.
    pub fn extract_python(&self, tail: &str) -> (r: Option<Diagnostics>)
        ensures
            r is Some == python_in(tail@) is Some,
            r matches Some(d) ==> python_in(tail@) == Some(d@),
    {
        let frames = all_matches(PYTHON_FILE, tail);
        let error = first_match(PYTHON_ERROR, tail);
        python_diag(&frames, &error)
    }

    /// The diagnosis of an error of the TypeScript compiler.
    pub fn extract_ts(&self, tail: &str) -> (r: Option<Diagnostics>)
        ensures
            r is Some == typescript_in(tail@) is Some,
            r matches Some(d) ==> typescript_in(tail@) == Some(d@),
    {
        if let Some(m) = first_match(TYPESCRIPT, tail) {
            return Some(build_ts_diag(&m));
        }
        match first_match(TYPESCRIPT_WATCH, tail) {
            Some(m) => Some(build_ts_diag(&m)),
            None => None,
        }
    }

    /// The diagnosis of an error of Node.
    pub fn extract_node(&self, tail: &str) -> (r: Option<Diagnostics>)
        ensures
            r is Some == node_in(tail@) is Some,
            r matches Some(d) ==> node_in(tail@) == Some(d@),
    {
        match first_match(NODE, tail) {
            Some(m) => Some(node_diag(&m)),
            None => None,
        }
    }

    /// The diagnosis of an error of Bun.
    pub fn extract_bun(&self, tail: &str) -> (r: Option<Diagnostics>)
        ensures
            r is Some == bun_in(tail@) is Some,
            r matches Some(d) ==> bun_in(tail@) == Some(d@),
    {
        match first_match(BUN, tail) {
            Some(m) => Some(bun_diag(&m)),
            None => None,
        }
    }

    /// The diagnosis of a panic of a Rust program.
    pub fn extract_rust(&self, tail: &str) -> (r: Option<Diagnostics>)
        ensures
            r is Some == rust_in(tail@) is Some,
            r matches Some(d) ==> rust_in(tail@) == Some(d@),
    {
        match first_match(RUST, tail) {
            Some(m) => Some(rust_diag(&m)),
            None => None,
        }
    }

    /// The diagnosis of a panic of a Go program, placed at the last frame of its stack.
    pub fn extract_go_panic(&self, tail: &str) -> (r: Option<Diagnostics>)
        ensures
            r is Some == go_panic_in(tail@) is Some,
            r matches Some(d) ==> go_panic_in(tail@) == Some(d@),
    {
        match first_match(GO_PANIC, tail) {
            Some(m) => {
                let stack = group_or_empty(&m, 2);
                let frames = all_matches(GO_FRAME, stack.as_str());
                Some(go_panic_diag(&m, &frames))
            },
            None => None,
        }
    }

    /// The diagnosis of an error of the Swift compiler.
    pub fn extract_swift(&self, tail: &str) -> (r: Option<Diagnostics>)
        ensures
            r is Some == swift_in(tail@) is Some,
            r matches Some(d) ==> swift_in(tail@) == Some(d@),
    {
        match first_match(SWIFT, tail) {
            Some(m) => {
                let extension = match group(&m, 1) {
                    Some(f) => extension_of(f.as_str()),
                    None => None,
                };
                swift_diag(&m, &extension)
            },
            None => None,
        }
    }

    /// The diagnosis of an error of the Go compiler.
    pub fn extract_go_compile(&self, tail: &str) -> (r: Option<Diagnostics>)
        ensures
            r is Some == go_compile_in(tail@) is Some,
            r matches Some(d) ==> go_compile_in(tail@) == Some(d@),
    {
        let ms = all_matches(GO_COMPILE, tail);
        go_compile_diag(&ms)
    }

    /// The first diagnosis that one of the languages gives, in their fixed order.
    pub fn extract(&self, tail: &str) -> (r: Option<Diagnostics>)
        ensures
            r is Some == extracted(tail@) is Some,
            r matches Some(d) ==> extracted(tail@) == Some(d@),
    {
        if let Some(d) = self.extract_ts(tail) {
            return Some(d);
        }
        if let Some(d) = self.extract_python(tail) {
            return Some(d);
        }
        if let Some(d) = self.extract_node(tail) {
            return Some(d);
        }
        if let Some(d) = self.extract_bun(tail) {
            return Some(d);
        }
        if let Some(d) = self.extract_rust(tail) {
            return Some(d);
        }
        if let Some(d) = self.extract_go_panic(tail) {
            return Some(d);
        }
        if let Some(d) = self.extract_swift(tail) {
            return Some(d);
        }
        self.extract_go_compile(tail)
    }

    /// Starts the diagnosis of what a command wrote: the error is found at once, and the lines of
    /// source around it are read while the enrichment runs.
    pub fn slice(&self, output: &str, cwd: Option<&str>) -> (r: Enrichment)
        ensures
            match extracted(looked_at(output@)) {
                Some(d) => r@ == enrich_start(d, opt_str(cwd)),
                None => r@ == enrich_over(DiagV { raw_trace: Some(looked_at(output@)), ..no_diag() }),
            },
    {
        let cleaned = strip_ansi(output);
        let tail = tail_lines(cleaned.as_str(), TAIL_LINES);
        match self.extract(tail.as_str()) {
            Some(d) => Enrichment::start(d, cwd),
            None => Enrichment {
                diag: Diagnostics {
                    error_type: None,
                    file_path: None,
                    line_number: None,
                    code_snippet: None,
                    raw_trace: Some(tail),
                },
                stage: EnrichStage::Over,
            },
        }
    }
}

impl Default for Slicer {
    fn default() -> (r: Self)
        ensures
            r == (Slicer {  }),
    {
        Slicer::new()
    }
}

/// Where the reading of the source lines stands: each stage waits for one answer.
pub enum EnrichStage {
    /// May files in this directory be read, going by the path as it is written?
    LiteralDir { path: String, line: u32, dir: String },
    /// Which file does this path lead to?
    Canonical { path: String, line: u32 },
    /// Does this file have the name of a secret?
    SecretName { path: String, line: u32, target: String },
    /// May this file be read, going by the path that it leads to?
    RealPath { path: String, line: u32, target: String },
    /// May files in the directory that the path leads to be read?
    RealDir { path: String, line: u32, dir: String },
    /// What does this file hold?
    Source { path: String, line: u32 },
    /// Nothing more is needed.
    Over,
}

/// What a stage says.
pub enum EnrichStageV {
    LiteralDir { path: Seq<char>, line: u32, dir: Seq<char> },
    Canonical { path: Seq<char>, line: u32 },
    SecretName { path: Seq<char>, line: u32, target: Seq<char> },
    RealPath { path: Seq<char>, line: u32, target: Seq<char> },
    RealDir { path: Seq<char>, line: u32, dir: Seq<char> },
    Source { path: Seq<char>, line: u32 },
    Over,
}

impl View for EnrichStage {
    type V = EnrichStageV;

    open spec fn view(&self) -> EnrichStageV {
        match self {
            EnrichStage::LiteralDir { path, line, dir } => EnrichStageV::LiteralDir { path: path@, line: *line, dir: dir@ },
            EnrichStage::Canonical { path, line } => EnrichStageV::Canonical { path: path@, line: *line },
            EnrichStage::SecretName { path, line, target } => EnrichStageV::SecretName { path: path@, line: *line, target: target@ },
            EnrichStage::RealPath { path, line, target } => EnrichStageV::RealPath { path: path@, line: *line, target: target@ },
            EnrichStage::RealDir { path, line, dir } => EnrichStageV::RealDir { path: path@, line: *line, dir: dir@ },
            EnrichStage::Source { path, line } => EnrichStageV::Source { path: path@, line: *line },
            EnrichStage::Over => EnrichStageV::Over,
        }
    }
}

/// A diagnosis on its way to the source lines around the error.
pub struct Enrichment {
    pub diag: Diagnostics,
    pub stage: EnrichStage,
}

/// What an enrichment says.
pub struct EnrichV {
    pub diag: DiagV,
    pub stage: EnrichStageV,
}

impl View for Enrichment {
    type V = EnrichV;

    open spec fn view(&self) -> EnrichV {
        EnrichV { diag: self.diag@, stage: self.stage@ }
    }
}

/// What an enrichment asks for, and by that the kind of answer that it waits for.
pub enum Ask<T> {
    /// May what is at this path be read? Yes or no.
    MayRead { path: T },
    /// Which file does this path lead to?
    LeadsTo { path: T },
    /// Does this file have the name of a secret? Yes or no.
    IsSecret { path: T },
    /// What does this file hold?
    Reads { path: T },
}

/// What a stage asks for.
pub open spec fn ask_said(s: EnrichStageV) -> Option<Ask<Seq<char>>> {
    match s {
        EnrichStageV::LiteralDir { path, line, dir } => Some(Ask::MayRead { path: dir }),
        EnrichStageV::Canonical { path, line } => Some(Ask::LeadsTo { path }),
        EnrichStageV::SecretName { path, line, target } => Some(Ask::IsSecret { path: target }),
        EnrichStageV::RealPath { path, line, target } => Some(Ask::MayRead { path: target }),
        EnrichStageV::RealDir { path, line, dir } => Some(Ask::MayRead { path: dir }),
        EnrichStageV::Source { path, line } => Some(Ask::Reads { path }),
        EnrichStageV::Over => None,
    }
}

impl View for Ask<String> {
    type V = Ask<Seq<char>>;

    open spec fn view(&self) -> Ask<Seq<char>> {
        match self {
            Ask::MayRead { path } => Ask::MayRead { path: path@ },
            Ask::LeadsTo { path } => Ask::LeadsTo { path: path@ },
            Ask::IsSecret { path } => Ask::IsSecret { path: path@ },
            Ask::Reads { path } => Ask::Reads { path: path@ },
        }
    }
}

/// What the surroundings answer to a stage.
pub enum EnrichAnswer {
    /// Yes or no.
    Is(bool),
    /// The file that a path leads to, where there is one.
    Leads(Option<String>),
    /// What a file holds, where it could be read.
    Holds(Option<String>),
}

/// What an answer says.
pub enum EnrichAnswerV {
    Is(bool),
    Leads(Option<Seq<char>>),
    Holds(Option<Seq<char>>),
}

impl View for EnrichAnswer {
    type V = EnrichAnswerV;

    open spec fn view(&self) -> EnrichAnswerV {
        match self {
            EnrichAnswer::Is(b) => EnrichAnswerV::Is(*b),
            EnrichAnswer::Leads(p) => EnrichAnswerV::Leads(opt_text(*p)),
            EnrichAnswer::Holds(p) => EnrichAnswerV::Holds(opt_text(*p)),
        }
    }
}

/// A path as seen from a working directory.
pub open spec fn resolved(path: Seq<char>, cwd: Option<Seq<char>>) -> Seq<char> {
    match cwd {
        Some(c) => below(c, path),
        None => path,
    }
}

/// A path as seen from a working directory.
pub fn resolve_path(path: &str, cwd: Option<&str>) -> (r: String)
    ensures
        r@ == resolved(path@, opt_str(cwd)),
{
    match cwd {
        Some(c) => join_path(c, path),
        None => path.to_owned(),
    }
}

/// An enrichment that is over.
pub open spec fn enrich_over(d: DiagV) -> EnrichV {
    EnrichV { diag: d, stage: EnrichStageV::Over }
}

/// How an enrichment starts: a diagnosis without a file or a line, or with a file above the
/// working directory, is left as it is.
pub open spec fn enrich_start(d: DiagV, cwd: Option<Seq<char>>) -> EnrichV {
    match (d.file_path, d.line_number) {
        (Some(f), Some(l)) => if climbs(f) {
            enrich_over(d)
        } else {
            let path = resolved(f, cwd);
            EnrichV { diag: d, stage: EnrichStageV::LiteralDir { path, line: l, dir: dir_said(path) } }
        },
        _ => enrich_over(d),
    }
}

/// How an enrichment goes on: each refusal, and each answer that does not fit, ends it.
pub open spec fn enrich_next(e: EnrichV, a: EnrichAnswerV) -> EnrichV {
    match (e.stage, a) {
        (EnrichStageV::LiteralDir { path, line, dir }, EnrichAnswerV::Is(true)) => EnrichV {
            diag: e.diag,
            stage: EnrichStageV::Canonical { path, line },
        },
        (EnrichStageV::Canonical { path, line }, EnrichAnswerV::Leads(Some(target))) => EnrichV {
            diag: e.diag,
            stage: EnrichStageV::SecretName { path, line, target },
        },
        (EnrichStageV::SecretName { path, line, target }, EnrichAnswerV::Is(false)) => EnrichV {
            diag: e.diag,
            stage: EnrichStageV::RealPath { path, line, target },
        },
        (EnrichStageV::RealPath { path, line, target }, EnrichAnswerV::Is(true)) => EnrichV {
            diag: e.diag,
            stage: EnrichStageV::RealDir { path, line, dir: dir_said(target) },
        },
        (EnrichStageV::RealDir { path, line, dir }, EnrichAnswerV::Is(true)) => EnrichV {
            diag: e.diag,
            stage: EnrichStageV::Source { path, line },
        },
        (EnrichStageV::Source { path, line }, EnrichAnswerV::Holds(Some(content))) => enrich_over(
            if snippet_said(content, line).len() > 0 {
                DiagV { code_snippet: Some(snippet_said(content, line)), ..e.diag }
            } else {
                e.diag
            },
        ),
        _ => enrich_over(e.diag),
    }
}

impl Enrichment {
    /// What is asked for; nothing where nothing more is needed.
    pub fn asks(&self) -> (r: Option<Ask<String>>)
        ensures
            r is Some == ask_said(self@.stage) is Some,
            r matches Some(q) ==> ask_said(self@.stage) == Some(q@),
    {
        match &self.stage {
            EnrichStage::LiteralDir { dir, .. } => Some(Ask::MayRead { path: dir.clone() }),
            EnrichStage::Canonical { path, .. } => Some(Ask::LeadsTo { path: path.clone() }),
            EnrichStage::SecretName { target, .. } => Some(Ask::IsSecret { path: target.clone() }),
            EnrichStage::RealPath { target, .. } => Some(Ask::MayRead { path: target.clone() }),
            EnrichStage::RealDir { dir, .. } => Some(Ask::MayRead { path: dir.clone() }),
            EnrichStage::Source { path, .. } => Some(Ask::Reads { path: path.clone() }),
            EnrichStage::Over => None,
        }
    }

    /// Starts to look for the lines around the place of an error.
    pub fn start(d: Diagnostics, cwd: Option<&str>) -> (r: Enrichment)
        ensures
            r@ == enrich_start(d@, opt_str(cwd)),
    {
        let stage = match (&d.file_path, d.line_number) {
            (Some(f), Some(line)) => {
                if has_parent_part(f.as_str()) {
                    EnrichStage::Over
                } else {
                    let path = resolve_path(f.as_str(), cwd);
                    let dir = dir_of(path.as_str());
                    EnrichStage::LiteralDir { path, line, dir }
                }
            },
            _ => EnrichStage::Over,
        };
        Enrichment { diag: d, stage }
    }

    /// Goes on with the answer to the stage that was waited for.
    pub fn enrich(self, answer: EnrichAnswer) -> (r: Enrichment)
        ensures
            r@ == enrich_next(self@, answer@),
    {
        let diag = self.diag;
        match (self.stage, answer) {
            (EnrichStage::LiteralDir { path, line, dir }, EnrichAnswer::Is(true)) => Enrichment {
                diag,
                stage: EnrichStage::Canonical { path, line },
            },
            (EnrichStage::Canonical { path, line }, EnrichAnswer::Leads(Some(target))) => Enrichment {
                diag,
                stage: EnrichStage::SecretName { path, line, target },
            },
            (EnrichStage::SecretName { path, line, target }, EnrichAnswer::Is(false)) => Enrichment {
                diag,
                stage: EnrichStage::RealPath { path, line, target },
            },
            (EnrichStage::RealPath { path, line, target }, EnrichAnswer::Is(true)) => {
                let dir = dir_of(target.as_str());
                Enrichment { diag, stage: EnrichStage::RealDir { path, line, dir } }
            },
            (EnrichStage::RealDir { path, line, dir }, EnrichAnswer::Is(true)) => Enrichment {
                diag,
                stage: EnrichStage::Source { path, line },
            },
            (EnrichStage::Source { path, line }, EnrichAnswer::Holds(Some(content))) => {
                let text = snippet(content.as_str(), line);
                if text.as_str().is_empty() {
                    Enrichment { diag, stage: EnrichStage::Over }
                } else {
                    Enrichment {
                        diag: Diagnostics {
                            error_type: diag.error_type,
                            file_path: diag.file_path,
                            line_number: diag.line_number,
                            code_snippet: Some(text),
                            raw_trace: diag.raw_trace,
                        },
                        stage: EnrichStage::Over,
                    }
                }
            },
            (_, _) => Enrichment { diag, stage: EnrichStage::Over },
        }
    }

    /// The diagnosis as far as it has come.
    pub fn finish(self) -> (r: Diagnostics)
        ensures
            r@ == self@.diag,
    {
        self.diag
    }
}

/// The most bytes that a file may have for lines of it to be shown.
pub const SNIPPET_FILE_MAX_BYTES: u64 = 67_108_864;

/// Whether a file of this size is read for the lines around an error.
pub fn snippet_size_allowed(bytes: u64) -> (r: bool)
    ensures
        r == (bytes <= SNIPPET_FILE_MAX_BYTES),
{
    bytes <= SNIPPET_FILE_MAX_BYTES
}

/// How many lines are shown before and behind the line of an error.
pub const SNIPPET_REACH: u64 = 20;

/// One line of a snippet: a mark for the line of the error, its number and its text.
pub open spec fn snippet_row(ls: Seq<Seq<char>>, err: int, i: int) -> Seq<char> {
    (if i == err {
        ">"@
    } else {
        " "@
    }) + " "@ + dec(i as nat) + ": "@ + ls[i - 1] + "\n"@
}

/// The lines of a snippet from number `from` up to and with number `to`.
pub open spec fn snippet_rows(ls: Seq<Seq<char>>, err: int, from: int, to: int) -> Seq<char>
    decreases to - from + 1,
{
    if to < from {
        Seq::empty()
    } else {
        snippet_rows(ls, err, from, to - 1) + snippet_row(ls, err, to)
    }
}

/// The number of the first line that is shown around an error in line `err`.
pub open spec fn snippet_first(err: int) -> int {
    if err - SNIPPET_REACH > 1 {
        err - SNIPPET_REACH
    } else {
        1
    }
}

/// The number of the last line that is shown around an error in line `err` of `n`.
pub open spec fn snippet_last(err: int, n: int) -> int {
    if err + SNIPPET_REACH < n {
        err + SNIPPET_REACH
    } else {
        n
    }
}

/// The lines of a text around the line of an error, without white space at the end.
pub open spec fn snippet_said(content: Seq<char>, err: u32) -> Seq<char> {
    let ls = lines_of(content);
    trimmed_end(snippet_rows(ls, err as int, snippet_first(err as int), snippet_last(err as int, ls.len() as int)))
}

/// The lines of a text around the line of an error.
pub fn snippet(content: &str, err_line: u32) -> (r: String)
    ensures
        r@ == snippet_said(content@, err_line),
{
    let ls = lines(content);
    let err: u64 = err_line as u64;
    let n: u64 = ls.len() as u64;
    let first: u64 = if err > SNIPPET_REACH + 1 {
        err - SNIPPET_REACH
    } else {
        1
    };
    let last: u64 = if err + SNIPPET_REACH < n {
        err + SNIPPET_REACH
    } else {
        n
    };
    let mut out: String = String::new();
    let mut i: u64 = first;
    while i <= last
        invariant
            texts(ls@) == lines_of(content@),
            n == ls@.len(),
            1 <= first <= i,
            i <= last + 1 || i == first,
            last <= n <= usize::MAX,
            last <= err + SNIPPET_REACH,
            err <= u32::MAX,
            out@ == snippet_rows(lines_of(content@), err as int, first as int, i - 1),
        decreases last + 1 - i,
    {
        if i == err {
            out.append(">");
        } else {
            out.append(" ");
        }
        out.append(" ");
        let number = dec_u64(i);
        out.append(number.as_str());
        out.append(": ");
        out.append(ls[(i - 1) as usize].as_str());
        out.append("\n");
        proof {
            assert(lines_of(content@)[i - 1] == ls@[i - 1]@);
            assert(out@ =~= snippet_rows(lines_of(content@), err as int, first as int, i - 1) + snippet_row(lines_of(content@), err as int, i as int));
        }
        i = i + 1;
    }
    proof {
        if i == first {
            assert(snippet_rows(lines_of(content@), err as int, first as int, first - 1) =~= Seq::empty());
            assert(snippet_rows(lines_of(content@), err as int, first as int, last as int) =~= Seq::empty());
        }
    }
    trim_end(out.as_str())
}

/// The source is read only after the directory as written, the name and the path of the file that
/// it leads to, and the directory of that file have all been let pass.
pub proof fn law_source_is_read_only_when_cleared(
    d: DiagV,
    cwd: Option<Seq<char>>,
    a1: EnrichAnswerV,
    a2: EnrichAnswerV,
    a3: EnrichAnswerV,
    a4: EnrichAnswerV,
    a5: EnrichAnswerV,
)
    ensures
        ({
            let e0 = enrich_start(d, cwd);
            let e1 = enrich_next(e0, a1);
            let e2 = enrich_next(e1, a2);
            let e3 = enrich_next(e2, a3);
            let e4 = enrich_next(e3, a4);
            let e5 = enrich_next(e4, a5);
            &&& e0.stage !is Source && e1.stage !is Source && e2.stage !is Source
            &&& e3.stage !is Source && e4.stage !is Source
            &&& e5.stage is Source ==> {
                &&& d.file_path is Some && !climbs(d.file_path->0)
                &&& a1 == EnrichAnswerV::Is(true)
                &&& a2 is Leads && a2->Leads_0 is Some
                &&& a3 == EnrichAnswerV::Is(false)
                &&& a4 == EnrichAnswerV::Is(true)
                &&& a5 == EnrichAnswerV::Is(true)
                &&& e3.stage == EnrichStageV::RealPath {
                    path: resolved(d.file_path->0, cwd),
                    line: d.line_number->0,
                    target: a2->Leads_0->0,
                }
            }
        }),
{
}

/// An enrichment goes on with each answer that allows it, up to the file whose lines it shows.
pub proof fn law_allowed_reading_goes_on(e: EnrichV, target: Seq<char>, content: Seq<char>)
    ensures
        match ask_said(e.stage) {
            Some(Ask::MayRead { path }) => !(enrich_next(e, EnrichAnswerV::Is(true)).stage is Over),
            Some(Ask::LeadsTo { path }) => !(enrich_next(e, EnrichAnswerV::Leads(Some(target))).stage is Over),
            Some(Ask::IsSecret { path }) => !(enrich_next(e, EnrichAnswerV::Is(false)).stage is Over),
            Some(Ask::Reads { path }) => {
                let line = e.stage->Source_line;
                snippet_said(content, line).len() > 0 ==> enrich_next(e, EnrichAnswerV::Holds(Some(content))).diag.code_snippet == Some(snippet_said(content, line))
            },
            None => e.stage is Over,
        },
{
}

/// Whatever is answered, an enrichment changes nothing of the diagnosis but the source lines.
pub proof fn law_enrichment_keeps_the_error(e: EnrichV, a: EnrichAnswerV)
    ensures
        enrich_next(e, a).diag == (DiagV { code_snippet: enrich_next(e, a).diag.code_snippet, ..e.diag }),
{
}

/// The lines of a text with some numbers, one row for each: a mark for the line of an error, the
/// number and the line.
pub open spec fn numbered(content: Seq<char>, err: int, numbers: Seq<int>) -> Seq<char>
    decreases numbers.len(),
{
    if numbers.len() == 0 {
        Seq::empty()
    } else {
        let i = numbers.last();
        let mark = if i == err {
            "> "@
        } else {
            "  "@
        };
        numbered(content, err, numbers.drop_last()) + mark + dec(i as nat) + ": "@ + lines_of(content)[i - 1] + "\n"@
    }
}

/// Whether some numbers are those of the lines of a text no more than twenty lines from one, in their
/// order and without a gap.
pub open spec fn are_around(content: Seq<char>, err: int, numbers: Seq<int>) -> bool {
    &&& forall|i: int| numbers.contains(i) <==> 1 <= i <= lines_of(content).len() && err - 20 <= i <= err + 20
    &&& forall|k: int| 0 <= k < numbers.len() - 1 ==> numbers[k + 1] == #[trigger] numbers[k] + 1
}

proof fn lemma_rows_are_numbered(content: Seq<char>, err: int, from: int, to: int)
    requires
        from <= to + 1,
    ensures
        snippet_rows(lines_of(content), err, from, to) == numbered(content, err, Seq::new((to - from + 1) as nat, |k: int| from + k)),
    decreases to - from + 1,
{
    let numbers = Seq::new((to - from + 1) as nat, |k: int| from + k);
    if from <= to {
        lemma_rows_are_numbered(content, err, from, to - 1);
        assert(numbers.drop_last() =~= Seq::new((to - from) as nat, |k: int| from + k));
        assert(numbers.last() == to);
        reveal_strlit(">");
        reveal_strlit(" ");
        reveal_strlit("> ");
        reveal_strlit("  ");
        assert(">"@ + " "@ =~= "> "@);
        assert(" "@ + " "@ =~= "  "@);
        assert(snippet_rows(lines_of(content), err, from, to) =~= numbered(content, err, numbers));
    }
}

/// The snippet of a text around the line of an error has a row for each line that is no more than
/// twenty lines from it, before it and behind it, and for no other line; each row has its number,
/// and only that of the error is marked.
pub proof fn law_snippet_shows_the_lines_around(content: Seq<char>, err: u32)
    ensures
        exists|numbers: Seq<int>| #[trigger] are_around(content, err as int, numbers) && snippet_said(content, err) == trimmed_end(numbered(content, err as int, numbers)),
{
    let n = lines_of(content).len() as int;
    let e = err as int;
    let first = snippet_first(e);
    let last = snippet_last(e, n);
    if first <= last + 1 {
        let numbers = Seq::new((last - first + 1) as nat, |k: int| first + k);
        lemma_rows_are_numbered(content, e, first, last);
        assert forall|i: int| numbers.contains(i) <==> 1 <= i <= n && e - 20 <= i <= e + 20 by {
            if 1 <= i <= n && e - 20 <= i <= e + 20 {
                assert(numbers[i - first] == i);
            }
        }
        assert(are_around(content, e, numbers));
    } else {
        let numbers = Seq::<int>::empty();
        assert(are_around(content, e, numbers));
        assert(snippet_rows(lines_of(content), e, first, last) =~= Seq::empty());
    }
}

/// A run ends where its characters do, whatever stands before its start.
proof fn lemma_run_end_behind(front: Seq<char>, s: Seq<char>, i: int, lo: int, hi: int)
    requires
        0 <= i <= s.len(),
    ensures
        run_end(front + s, front.len() + i, lo, hi) == front.len() + run_end(s, i, lo, hi),
    decreases s.len() - i,
{
    if i < s.len() {
        assert((front + s)[front.len() + i] == s[i]);
        if within(s[i], lo, hi) {
            lemma_run_end_behind(front, s, i + 1, lo, hi);
        }
    }
}

/// The text of a command ends where it does, whatever stands before its start.
proof fn lemma_osc_text_end_behind(front: Seq<char>, s: Seq<char>, i: int)
    requires
        0 <= i <= s.len(),
    ensures
        osc_text_end(front + s, front.len() + i) == front.len() + osc_text_end(s, i),
    decreases s.len() - i,
{
    if i < s.len() {
        assert((front + s)[front.len() + i] == s[i]);
        if s[i] != BEL && s[i] != ESC {
            lemma_osc_text_end_behind(front, s, i + 1);
        }
    }
}

/// An escape sequence ends where it does, whatever stands before it.
proof fn lemma_escape_end_behind(front: Seq<char>, s: Seq<char>, i: int)
    requires
        0 <= i < s.len(),
    ensures
        escape_end(front + s, front.len() + i) == front.len() + escape_end(s, i),
{
    let t = front + s;
    let o = front.len() as int;
    if i + 1 < s.len() {
        assert(t[o + i + 1] == s[i + 1]);
        lemma_run_end(s, i + 2, 0x30, 0x3f);
        lemma_run_end_behind(front, s, i + 2, 0x30, 0x3f);
        let a = run_end(s, i + 2, 0x30, 0x3f);
        lemma_run_end(s, a, 0x20, 0x2f);
        lemma_run_end_behind(front, s, a, 0x20, 0x2f);
        let k = run_end(s, a, 0x20, 0x2f);
        if k < s.len() {
            assert(t[o + k] == s[k]);
        }
        lemma_osc_text_end(s, i + 2);
        lemma_osc_text_end_behind(front, s, i + 2);
        let c = osc_text_end(s, i + 2);
        if c < s.len() {
            assert(t[o + c] == s[c]);
        }
        if c + 1 < s.len() {
            assert(t[o + c + 1] == s[c + 1]);
        }
    }
}

/// What is left of a text is the same, whatever stands before it.
proof fn lemma_plain_behind(front: Seq<char>, s: Seq<char>, i: int)
    requires
        0 <= i <= s.len(),
    ensures
        plain_from(front + s, front.len() + i) == plain_from(s, i),
    decreases s.len() - i,
{
    if i < s.len() {
        assert((front + s)[front.len() + i] == s[i]);
        if s[i] == ESC {
            lemma_escape_end(s, i);
            lemma_escape_end_behind(front, s, i);
            lemma_plain_behind(front, s, escape_end(s, i));
        } else {
            lemma_plain_behind(front, s, i + 1);
        }
    }
}

/// A run goes on as long as its characters do.
proof fn lemma_run_goes_on(s: Seq<char>, i: int, j: int, lo: int, hi: int)
    requires
        0 <= i <= j <= s.len(),
        forall|k: int| i <= k < j ==> within(#[trigger] s[k], lo, hi),
        j < s.len() ==> !within(s[j], lo, hi),
    ensures
        run_end(s, i, lo, hi) == j,
    decreases j - i,
{
    if i < j {
        lemma_run_goes_on(s, i + 1, j, lo, hi);
    }
}

/// The text of a command goes on up to its terminator.
proof fn lemma_osc_text_goes_on(s: Seq<char>, i: int, j: int)
    requires
        0 <= i <= j < s.len(),
        forall|k: int| i <= k < j ==> #[trigger] s[k] != BEL && s[k] != ESC,
        s[j] == BEL || s[j] == ESC,
    ensures
        osc_text_end(s, i) == j,
    decreases j - i,
{
    if i < j {
        lemma_osc_text_goes_on(s, i + 1, j);
    }
}

/// A control sequence goes out whole: its opening, its parameters, what stands between and its last
/// character; and nothing of the text behind it goes with it.
pub proof fn law_control_sequences_go_out(params: Seq<char>, between: Seq<char>, fin: char, rest: Seq<char>)
    requires
        forall|k: int| 0 <= k < params.len() ==> 0x30 <= #[trigger] params[k] as u32 <= 0x3f,
        forall|k: int| 0 <= k < between.len() ==> 0x20 <= #[trigger] between[k] as u32 <= 0x2f,
        0x40 <= fin as u32 <= 0x7e,
    ensures
        plain(seq!['\u{1b}', '['] + params + between + seq![fin] + rest) == plain(rest),
{
    let a = seq!['\u{1b}', '['] + params + between + seq![fin];
    let s = a + rest;
    let p = params.len() as int;
    let b = between.len() as int;
    assert(s[0] == ESC && s[1] == '[');
    assert forall|k: int| 2 <= k < 2 + p implies within(#[trigger] s[k], 0x30, 0x3f) by {
        assert(s[k] == params[k - 2]);
    }
    assert forall|k: int| 2 + p <= k < 2 + p + b implies within(#[trigger] s[k], 0x20, 0x2f) by {
        assert(s[k] == between[k - 2 - p]);
    }
    assert(s[2 + p + b] == fin);
    lemma_run_goes_on(s, 2, 2 + p, 0x30, 0x3f);
    lemma_run_goes_on(s, 2 + p, 2 + p + b, 0x20, 0x2f);
    assert(escape_end(s, 0) == a.len());
    lemma_plain_behind(a, rest, 0);
}

/// A command to the terminal goes out whole, with the bell or the escape that ends it; and nothing of
/// the text behind it goes with it.
pub proof fn law_terminal_commands_go_out(text: Seq<char>, rest: Seq<char>)
    requires
        forall|k: int| 0 <= k < text.len() ==> #[trigger] text[k] != '\u{7}' && text[k] != '\u{1b}',
    ensures
        plain(seq!['\u{1b}', ']'] + text + seq!['\u{7}'] + rest) == plain(rest),
        plain(seq!['\u{1b}', ']'] + text + seq!['\u{1b}', '\\'] + rest) == plain(rest),
{
    let n = text.len() as int;
    let a = seq!['\u{1b}', ']'] + text + seq!['\u{7}'];
    let s = a + rest;
    assert(s[0] == ESC && s[1] == ']');
    assert forall|k: int| 2 <= k < 2 + n implies #[trigger] s[k] != BEL && s[k] != ESC by {
        assert(s[k] == text[k - 2]);
    }
    assert(s[2 + n] == BEL);
    lemma_osc_text_goes_on(s, 2, 2 + n);
    assert(escape_end(s, 0) == a.len());
    lemma_plain_behind(a, rest, 0);
    let b = seq!['\u{1b}', ']'] + text + seq!['\u{1b}', '\\'];
    let t = b + rest;
    assert(t[0] == ESC && t[1] == ']');
    assert forall|k: int| 2 <= k < 2 + n implies #[trigger] t[k] != BEL && t[k] != ESC by {
        assert(t[k] == text[k - 2]);
    }
    assert(t[2 + n] == ESC && t[3 + n] == '\\');
    lemma_osc_text_goes_on(t, 2, 2 + n);
    assert(escape_end(t, 0) == b.len());
    lemma_plain_behind(b, rest, 0);
}

/// An escape takes the one character behind it with it where that opens nothing, a bell and a
/// backspace go alone, and every other character stays.
pub proof fn law_other_characters_stay(c: char, rest: Seq<char>)
    ensures
        c != '[' && c != ']' ==> plain(seq!['\u{1b}', c] + rest) == plain(rest),
        plain(seq!['\u{7}'] + rest) == plain(rest),
        plain(seq!['\u{8}'] + rest) == plain(rest),
        c != '\u{1b}' && c != '\u{7}' && c != '\u{8}' ==> plain(seq![c] + rest) == seq![c] + plain(rest),
        plain(seq!['\u{1b}']).len() == 0,
{
    lemma_plain_behind(seq!['\u{1b}', c], rest, 0);
    lemma_plain_behind(seq!['\u{7}'], rest, 0);
    lemma_plain_behind(seq!['\u{8}'], rest, 0);
    lemma_plain_behind(seq![c], rest, 0);
    assert((seq!['\u{1b}', c] + rest)[0] == ESC);
    assert((seq!['\u{1b}', c] + rest)[1] == c);
    assert((seq!['\u{7}'] + rest)[0] == BEL);
    assert((seq!['\u{8}'] + rest)[0] == BS);
    assert((seq![c] + rest)[0] == c);
    let e = seq!['\u{1b}'];
    assert(e[0] == ESC);
    assert(plain_from(e, 1) == Seq::<char>::empty());
}

/// Whether a line tells of an error by a mark in it.
pub open spec fn bears_a_mark(line: Seq<char>) -> bool {
    let low = lowered(line);
    has_text(low, "error:"@) || has_text(low, "exception:"@) || has_text(low, "warning:"@) || has_text(low, "panic:"@)
}

/// Whether a line opens the account of an error.
pub open spec fn opens_an_account(line: Seq<char>) -> bool {
    let low = lowered(line);
    "traceback (most recent call last"@.is_prefix_of(low) || "panic:"@.is_prefix_of(low) || "goroutine "@.is_prefix_of(low)
}

/// Of some lines those are looked at that are among the last `n`, that tell of an error or that come
/// next behind such a mark; they stay in their order.
pub proof fn law_telling_lines_are_looked_at(ls: Seq<Seq<char>>, n: int, upto: nat)
    requires
        upto <= ls.len(),
    ensures
        kept_lines(ls, n, upto as int) == Seq::new(upto, |i: int| i).filter(
            |i: int| i >= ls.len() - n || opens_an_account(ls[i]) || bears_a_mark(ls[i]) || (i > 0 && bears_a_mark(ls[i - 1])),
        ).map_values(|i: int| ls[i]),
    decreases upto,
{
    reveal(Seq::filter);
    let keeps = |i: int| i >= ls.len() - n || opens_an_account(ls[i]) || bears_a_mark(ls[i]) || (i > 0 && bears_a_mark(ls[i - 1]));
    let all = Seq::new(upto, |i: int| i);
    if upto > 0 {
        let less = (upto - 1) as nat;
        law_telling_lines_are_looked_at(ls, n, less);
        let fewer = Seq::new(less, |i: int| i);
        assert(all.drop_last() =~= fewer);
        assert(all.last() == less);
        assert(keeps(less as int) == is_kept(ls, n, less as int));
        if keeps(less as int) {
            assert(all.filter(keeps) == fewer.filter(keeps).push(less as int));
            assert(all.filter(keeps).map_values(|i: int| ls[i]) =~= fewer.filter(keeps).map_values(|i: int| ls[i]).push(ls[less as int]));
        } else {
            assert(all.filter(keeps) == fewer.filter(keeps));
        }
    } else {
        assert(all.filter(keeps).map_values(|i: int| ls[i]) =~= Seq::empty());
    }
}

/// What is looked at of an output is its last thirty lines and the telling ones before them, without
/// what only a terminal reads.
pub proof fn law_last_lines_are_looked_at(output: Seq<char>)
    ensures
        ({
            let ls = lines_of(plain(output));
            looked_at(output) == joined(
                Seq::new(ls.len(), |i: int| i).filter(
                    |i: int| i >= ls.len() - 30 || opens_an_account(ls[i]) || bears_a_mark(ls[i]) || (i > 0 && bears_a_mark(ls[i - 1])),
                ).map_values(|i: int| ls[i]),
                "\n"@,
            )
        }),
{
    let ls = lines_of(plain(output));
    law_telling_lines_are_looked_at(ls, 30, ls.len());
}

/// A line number is read from its digits as far as it can be held.
pub proof fn law_line_number_is_read(n: nat, s: Seq<char>)
    ensures
        n <= u32::MAX ==> line_said(Some(dec(n))) == Some(n as u32),
        n > u32::MAX ==> line_said(Some(dec(n))) is None,
        parsed(s) is None ==> line_said(Some(s)) is None,
        line_said(None) is None,
{
    law_decimal_reads_back(n);
}

/// Whether a frame of a trace has a file and a line number.
pub open spec fn is_whole_frame(m: Seq<Option<Seq<char>>>) -> bool {
    group_said(m, 1) is Some && line_said(group_said(m, 2)) is Some
}

/// The place of an error is that of the last frame that has a file and a line number.
pub proof fn law_last_whole_frame_is_taken(frames: Seq<Seq<Option<Seq<char>>>>)
    ensures
        last_frame(frames) is None <==> (forall|k: int| 0 <= k < frames.len() ==> !is_whole_frame(#[trigger] frames[k])),
        last_frame(frames) matches Some((f, l)) ==> exists|k: int|
            0 <= k < frames.len() && is_whole_frame(#[trigger] frames[k]) && group_said(frames[k], 1) == Some(f) && line_said(group_said(frames[k], 2)) == Some(l) && (forall|j: int| k < j < frames.len() ==> !is_whole_frame(#[trigger] frames[j])),
    decreases frames.len(),
{
    if frames.len() > 0 {
        let less = frames.drop_last();
        law_last_whole_frame_is_taken(less);
        let top = frames.len() - 1;
        if is_whole_frame(frames[top]) {
            assert(last_frame(frames) is Some);
        } else {
            assert forall|k: int| 0 <= k < frames.len() && k != top implies #[trigger] frames[k] == less[k] by {}
            if let Some((f, l)) = last_frame(less) {
                let k = choose|k: int|
                    0 <= k < less.len() && is_whole_frame(#[trigger] less[k]) && group_said(less[k], 1) == Some(f) && line_said(group_said(less[k], 2)) == Some(l) && (forall|j: int| k < j < less.len() ==> !is_whole_frame(#[trigger] less[j]));
                assert(frames[k] == less[k]);
                assert forall|j: int| k < j < frames.len() implies !is_whole_frame(#[trigger] frames[j]) by {
                    if j < top {
                        assert(less[j] == frames[j]);
                    }
                }
            }
        }
    }
}

/// Whether a diagnosis names this error at the place that two groups of a match give.
pub open spec fn is_placed(d: DiagV, kind: Seq<char>, m: Seq<Option<Seq<char>>>, file: int, line: int) -> bool {
    &&& d.error_type == Some(kind)
    &&& d.file_path == group_said(m, file)
    &&& d.line_number == line_said(group_said(m, line))
    &&& d.code_snippet is None
}

/// An error has the place that its own message gives, and is told by its name and its message.
pub proof fn law_error_is_where_its_message_says(m: Seq<Option<Seq<char>>>)
    ensures
        is_placed(typescript_said(m), group_text(m, 3), m, 1, 2),
        typescript_said(m).raw_trace == Some(group_text(m, 3) + ": "@ + trimmed(group_text(m, 4))),
        is_placed(node_said(m), "Error"@, m, 2, 3),
        node_said(m).raw_trace == Some("Error"@ + ": "@ + group_text(m, 1)),
        is_placed(bun_said(m), "error"@, m, 2, 3),
        bun_said(m).raw_trace == Some("error"@ + ": "@ + group_text(m, 1)),
        is_placed(rust_said(m), "panic"@, m, 1, 2),
        rust_said(m).raw_trace == Some(group_text(m, 0)),
        swift_said(m, Some("swift"@)) is Some <==> group_said(m, 1) is Some,
        swift_said(m, Some("swift"@)) matches Some(d) ==> is_placed(d, "error"@, m, 1, 2) && d.raw_trace == Some("error"@ + ": "@ + group_text(m, 3)),
        forall|x: Option<Seq<char>>| x != Some("swift"@) ==> #[trigger] swift_said(m, x) is None,
{
}

/// An error of Python has the name and the message of its line and the place of the last whole frame;
/// without such a line there is none.
pub proof fn law_python_error_is_in_its_last_frame(frames: Seq<Seq<Option<Seq<char>>>>, e: Seq<Option<Seq<char>>>)
    ensures
        python_said(frames, None) is None,
        python_said(frames, Some(e)) matches Some(d) && {
            &&& d.error_type == group_said(e, 1)
            &&& d.code_snippet is None
            &&& last_frame(frames) matches Some((f, l)) ==> d.file_path == Some(f) && d.line_number == Some(l)
            &&& last_frame(frames) is None ==> d.file_path is None && d.line_number is None
            &&& group_said(e, 1) matches Some(k) ==> d.raw_trace == Some(k + ": "@ + trimmed(group_text(e, 2)))
            &&& group_said(e, 1) is None ==> d.raw_trace == Some("Error"@ + ": "@ + trimmed(group_text(e, 2)))
        },
{
}

/// A panic of Go has the message of its head and the place of the last whole frame.
pub proof fn law_go_panic_is_in_its_last_frame(head: Seq<Option<Seq<char>>>, frames: Seq<Seq<Option<Seq<char>>>>)
    ensures
        ({
            let d = go_panic_said(head, frames);
            &&& d.error_type == Some("panic"@)
            &&& d.code_snippet is None
            &&& d.raw_trace == Some("panic"@ + ": "@ + trimmed(group_text(head, 1)))
            &&& last_frame(frames) matches Some((f, l)) ==> d.file_path == Some(f) && d.line_number == Some(l)
            &&& last_frame(frames) is None ==> d.line_number is None
            &&& last_frame(frames) is None && frames.len() > 0 ==> d.file_path == group_said(frames.last(), 1)
            &&& frames.len() == 0 ==> d.file_path is None
        }),
{
}

/// Whether a message is one of a test run.
pub open spec fn tells_of_a_test(m: Seq<Option<Seq<char>>>) -> bool {
    first_word(trimmed(group_text(m, 3))) matches Some(w) && {
        let u = uppered(w);
        u == "PASS"@ || u == "FAIL"@ || u == "SKIP"@ || u == "OK"@ || u == "RUN"@ || u == "BENCHMARK"@
    }
}

/// The error of a Go compiler is the first of its messages that is not one of a test run.
pub proof fn law_first_go_error_is_taken(ms: Seq<Seq<Option<Seq<char>>>>, i: int)
    requires
        0 <= i,
    ensures
        go_compile_said(ms, i) is None <==> (forall|k: int| i <= k < ms.len() ==> tells_of_a_test(#[trigger] ms[k])),
        go_compile_said(ms, i) matches Some(d) ==> exists|k: int|
            i <= k < ms.len() && !tells_of_a_test(#[trigger] ms[k]) && (forall|j: int| i <= j < k ==> tells_of_a_test(#[trigger] ms[j])) && is_placed(d, "compile error"@, ms[k], 1, 2) && d.raw_trace == Some("compile error"@ + ": "@ + trimmed(group_text(ms[k], 3))),
    decreases ms.len() - i,
{
    if i < ms.len() {
        assert(is_test_status(trimmed(group_text(ms[i], 3))) == tells_of_a_test(ms[i]));
        if tells_of_a_test(ms[i]) {
            law_first_go_error_is_taken(ms, i + 1);
        }
    }
}

/// The error is the first that any reader finds, and a reader is heard only where those before it
/// found none.
pub proof fn law_readers_are_heard_in_turn(tail: Seq<char>)
    ensures
        ({
            let found = seq![typescript_in(tail), python_in(tail), node_in(tail), bun_in(tail), rust_in(tail), go_panic_in(tail), swift_in(tail), go_compile_in(tail)];
            &&& extracted(tail) is None <==> (forall|k: int| 0 <= k < 8 ==> #[trigger] found[k] is None)
            &&& forall|k: int| 0 <= k < 8 && #[trigger] found[k] is Some && (forall|j: int| 0 <= j < k ==> #[trigger] found[j] is None) ==> extracted(tail) == found[k]
        }),
{
    let found = seq![typescript_in(tail), python_in(tail), node_in(tail), bun_in(tail), rust_in(tail), go_panic_in(tail), swift_in(tail), go_compile_in(tail)];
    assert(found[0] == typescript_in(tail) && found[1] == python_in(tail) && found[2] == node_in(tail) && found[3] == bun_in(tail));
    assert(found[4] == rust_in(tail) && found[5] == go_panic_in(tail) && found[6] == swift_in(tail) && found[7] == go_compile_in(tail));
    if forall|k: int| 0 <= k < 8 ==> #[trigger] found[k] is None {
        assert(extracted(tail) is None);
    }
}

/// Every reader seeks its own pattern in what is looked at.
pub proof fn law_readers_seek_their_patterns(tail: Seq<char>)
    ensures
        python_in(tail) is Some <==> regex_first(PYTHON_ERROR@, tail) is Some,
        python_in(tail) == python_said(regex_all(PYTHON_FILE@, tail), regex_first(PYTHON_ERROR@, tail)),
        typescript_in(tail) is Some <==> regex_first(TYPESCRIPT@, tail) is Some || regex_first(TYPESCRIPT_WATCH@, tail) is Some,
        regex_first(TYPESCRIPT@, tail) matches Some(m) ==> typescript_in(tail) == Some(typescript_said(m)),
        regex_first(TYPESCRIPT@, tail) is None ==> (regex_first(TYPESCRIPT_WATCH@, tail) matches Some(m) ==> typescript_in(tail) == Some(typescript_said(m))),
        node_in(tail) is Some <==> regex_first(NODE@, tail) is Some,
        regex_first(NODE@, tail) matches Some(m) ==> node_in(tail) == Some(node_said(m)),
        bun_in(tail) is Some <==> regex_first(BUN@, tail) is Some,
        regex_first(BUN@, tail) matches Some(m) ==> bun_in(tail) == Some(bun_said(m)),
        rust_in(tail) is Some <==> regex_first(RUST@, tail) is Some,
        regex_first(RUST@, tail) matches Some(m) ==> rust_in(tail) == Some(rust_said(m)),
        go_panic_in(tail) is Some <==> regex_first(GO_PANIC@, tail) is Some,
        regex_first(GO_PANIC@, tail) matches Some(m) ==> go_panic_in(tail) == Some(go_panic_said(m, regex_all(GO_FRAME@, group_text(m, 2)))),
        go_compile_in(tail) == go_compile_said(regex_all(GO_COMPILE@, tail), 0),
        swift_in(tail) is Some ==> regex_first(SWIFT@, tail) is Some,
        regex_first(SWIFT@, tail) matches Some(m) ==> (group_said(m, 1) matches Some(f) ==> (swift_in(tail) is Some <==> path_extension(f) == Some("swift"@))),
{
}

/// The lines of a file are sought where its error has a file and a line and the file does not climb;
/// its name is taken below the working directory.
pub proof fn law_source_is_sought_below_the_directory(d: DiagV, cwd: Option<Seq<char>>)
    ensures
        ({
            let e = enrich_start(d, cwd);
            &&& e.diag == d
            &&& e.stage is Over <==> d.file_path is None || d.line_number is None || climbs(d.file_path->0)
            &&& e.stage matches EnrichStageV::LiteralDir { path, line, dir } ==> {
                &&& line == d.line_number->0
                &&& dir == dir_said(path)
                &&& cwd matches Some(c) ==> path == below(c, d.file_path->0)
                &&& cwd is None ==> path == d.file_path->0
            }
            &&& e.stage is Over || e.stage is LiteralDir
        }),
{
}

/// Of each file its directory is judged, then where it leads, then that name and place and its
/// directory; and what is read is the file itself.
pub proof fn law_file_is_judged_by_what_it_is(path: Seq<char>, line: u32, d: DiagV, target: Seq<char>)
    ensures
        ({
            let dir = dir_said(path);
            let e1 = EnrichV { diag: d, stage: EnrichStageV::LiteralDir { path, line, dir } };
            let e2 = enrich_next(e1, EnrichAnswerV::Is(true));
            let e3 = enrich_next(e2, EnrichAnswerV::Leads(Some(target)));
            let e4 = enrich_next(e3, EnrichAnswerV::Is(false));
            let e5 = enrich_next(e4, EnrichAnswerV::Is(true));
            let e6 = enrich_next(e5, EnrichAnswerV::Is(true));
            &&& ask_said(e1.stage) == Some(Ask::MayRead { path: dir })
            &&& ask_said(e2.stage) == Some(Ask::LeadsTo { path })
            &&& ask_said(e3.stage) == Some(Ask::IsSecret { path: target })
            &&& ask_said(e4.stage) == Some(Ask::MayRead { path: target })
            &&& ask_said(e5.stage) == Some(Ask::MayRead { path: dir_said(target) })
            &&& ask_said(e6.stage) == Some(Ask::Reads { path })
            &&& e6.stage->Source_line == line
        }),
{
}

/// A refusal, a name that leads nowhere and a secret end the search without any lines.
pub proof fn law_refused_file_is_not_shown(e: EnrichV)
    ensures
        match e.stage {
            EnrichStageV::SecretName { path, line, target } => enrich_next(e, EnrichAnswerV::Is(true)) == enrich_over(e.diag),
            EnrichStageV::Canonical { path, line } => enrich_next(e, EnrichAnswerV::Leads(None)) == enrich_over(e.diag),
            EnrichStageV::Source { path, line } => enrich_next(e, EnrichAnswerV::Holds(None)) == enrich_over(e.diag),
            _ => enrich_next(e, EnrichAnswerV::Is(false)) == enrich_over(e.diag),
        },
        enrich_over(e.diag).diag == e.diag,
        enrich_over(e.diag).stage is Over,
{
}

/// A diagnosis is seen as it is.
pub proof fn law_diagnoses_are_seen_as_they_are(d: Diagnostics)
    ensures
        d@.error_type == opt_text(d.error_type),
        d@.file_path == opt_text(d.file_path),
        d@.line_number == d.line_number,
        d@.code_snippet == opt_text(d.code_snippet),
        d@.raw_trace == opt_text(d.raw_trace),
{
}

} // verus!
