//! The members of a JSON object by the texts of their names and values, all of them in their order.

use vstd::prelude::*;
use crate::json::{all_escaped, escaped, json_read, members_text, object_text, parse, quoted, value_text, Json, JsonV, Members, Reading};
use crate::text::{chars_of, dec, str_eq, string_from};

verus! {

/// The texts of the names and values of some members.
pub type Parts = Seq<(Seq<char>, Seq<char>)>;

/// How far the text of a JSON value was gone through: how many brackets are open, whether a string
/// is, whether its next character is escaped, the text of the name of the member that is gone
/// through, the text since that name or since the last member, and the members before it.
pub struct Scan {
    pub depth: nat,
    pub in_string: bool,
    pub after_slash: bool,
    pub name: Option<Seq<char>>,
    pub text: Seq<char>,
    pub out: Parts,
}

/// Before the first character.
pub open spec fn scan_start() -> Scan {
    Scan { depth: 0, in_string: false, after_slash: false, name: None, text: Seq::empty(), out: Seq::empty() }
}

/// Behind a member.
pub open spec fn member_over(s: Scan) -> Scan {
    Scan {
        name: None,
        text: Seq::empty(),
        out: match s.name {
            Some(n) => s.out.push((n, s.text)),
            None => s.out,
        },
        ..s
    }
}

/// Behind one more character. Colons and commas part the members of the outermost object, unless
/// they stand in a string.
pub open spec fn scan_next(s: Scan, c: char) -> Scan {
    let kept = Scan { text: s.text.push(c), ..s };
    if s.in_string {
        Scan { in_string: s.after_slash || c != '"', after_slash: !s.after_slash && c == '\\', ..kept }
    } else if c == '"' {
        Scan { in_string: true, ..kept }
    } else if c == '{' || c == '[' {
        if s.depth == 0 {
            Scan { depth: 1, text: Seq::empty(), ..s }
        } else {
            Scan { depth: s.depth + 1, ..kept }
        }
    } else if c == '}' || c == ']' {
        if s.depth > 1 {
            Scan { depth: (s.depth - 1) as nat, ..kept }
        } else {
            Scan { depth: 0, ..member_over(s) }
        }
    } else if s.depth == 1 && c == ':' {
        Scan { name: Some(s.text), text: Seq::empty(), ..s }
    } else if s.depth == 1 && c == ',' {
        member_over(s)
    } else {
        kept
    }
}

/// Behind some characters.
pub open spec fn scanned(s: Scan, text: Seq<char>) -> Scan
    decreases text.len(),
{
    if text.len() == 0 {
        s
    } else {
        scan_next(scanned(s, text.drop_last()), text.last())
    }
}

/// The members of the object whose JSON text this is; none where it is the text of another value.
pub open spec fn parts_of(text: Seq<char>) -> Parts {
    scanned(scan_start(), text).out
}

/// What the texts of some members say.
pub open spec fn parts_said(v: Seq<(String, String)>) -> Parts {
    v.map_values(|m: (String, String)| (m.0@, m.1@))
}

/// The members of the object whose JSON text this is; none where it is the text of another value.
pub fn split_members(text: &str) -> (r: Vec<(String, String)>)
    ensures
        parts_said(r@) == parts_of(text@),
{
    let cs = chars_of(text);
    let mut depth: usize = 0;
    let mut in_string: bool = false;
    let mut after_slash: bool = false;
    let mut name: Option<String> = None;
    let mut from: usize = 0;
    let mut out: Vec<(String, String)> = Vec::new();
    let mut i: usize = 0;
    proof {
        assert(parts_said(out@) =~= Seq::empty());
        assert(cs@.subrange(0, 0) =~= Seq::empty());
    }
    while i < cs.len()
        invariant
            i <= cs@.len(),
            from <= i,
            depth <= i,
            scanned(scan_start(), cs@.take(i as int)) == (Scan {
                depth: depth as nat,
                in_string,
                after_slash,
                name: crate::text::opt_text(name),
                text: cs@.subrange(from as int, i as int),
                out: parts_said(out@),
            }),
        decreases cs@.len() - i,
    {
        let c = cs[i];
        let ghost said = parts_said(out@);
        proof {
            let t = cs@.take(i + 1);
            assert(t.drop_last() =~= cs@.take(i as int));
            assert(t.last() == c);
            assert(cs@.subrange(from as int, i + 1) =~= cs@.subrange(from as int, i as int).push(c));
            assert(cs@.subrange(i + 1, i + 1) =~= Seq::empty());
        }
        if in_string {
            in_string = after_slash || c != '"';
            after_slash = !after_slash && c == '\\';
        } else if c == '"' {
            in_string = true;
        } else if c == '{' || c == '[' {
            if depth == 0 {
                from = i + 1;
            }
            depth = depth + 1;
        } else if (c == '}' || c == ']') && depth > 1 {
            depth = depth - 1;
        } else if c == '}' || c == ']' || (depth == 1 && c == ',') {
            if let Some(n) = name {
                let v = string_from(&cs, from, i);
                out.push((n, v));
                proof {
                    assert(parts_said(out@) =~= said.push((n@, v@)));
                }
            }
            name = None;
            from = i + 1;
            if c != ',' {
                depth = 0;
            }
        } else if depth == 1 && c == ':' {
            name = Some(string_from(&cs, from, i));
            from = i + 1;
        }
        i = i + 1;
    }
    proof {
        assert(cs@.take(i as int) =~= text@);
    }
    out
}

/// The text that another is the JSON of, where it is the JSON of one.
pub open spec fn text_read(t: Seq<char>) -> Option<Seq<char>> {
    match json_read(t) {
        Reading::Value(JsonV::Str(s)) => Some(s),
        _ => None,
    }
}

/// Whether the name of each member can be read.
pub open spec fn names_are_read(parts: Parts) -> bool {
    forall|i: int| 0 <= i < parts.len() ==> text_read((#[trigger] parts[i]).0) is Some
}

/// The texts of the values of the members with one name.
pub open spec fn values_named(parts: Parts, name: Seq<char>) -> Seq<Seq<char>>
    decreases parts.len(),
{
    if parts.len() == 0 {
        Seq::empty()
    } else if text_read(parts.last().0) == Some(name) {
        values_named(parts.drop_last(), name).push(parts.last().1)
    } else {
        values_named(parts.drop_last(), name)
    }
}

/// The value of the member with one name, where there is just one and it can be read.
pub open spec fn told_once(parts: Parts, name: Seq<char>) -> Option<JsonV> {
    if values_named(parts, name).len() == 1 {
        match json_read(values_named(parts, name)[0]) {
            Reading::Value(j) => Some(j),
            Reading::Fault(_) => None,
        }
    } else {
        None
    }
}

/// The text that another is the JSON of.
fn read_text(t: &str) -> (r: Option<String>)
    ensures
        crate::text::opt_text(r) == text_read(t@),
{
    match parse(t) {
        Ok(Json::Str(s)) => Some(s),
        _ => None,
    }
}

/// Whether the name of each member can be read.
pub fn can_read_names(parts: &Vec<(String, String)>) -> (r: bool)
    ensures
        r == names_are_read(parts_said(parts@)),
{
    let mut i: usize = 0;
    while i < parts.len()
        invariant
            i <= parts@.len(),
            forall|k: int| 0 <= k < i ==> text_read((#[trigger] parts_said(parts@)[k]).0) is Some,
        decreases parts@.len() - i,
    {
        proof {
            assert(parts_said(parts@)[i as int].0 == parts@[i as int].0@);
        }
        if read_text(parts[i].0.as_str()).is_none() {
            return false;
        }
        i = i + 1;
    }
    true
}

/// The value of the member with one name, where there is just one and it can be read.
pub fn only_value(parts: &Vec<(String, String)>, name: &str) -> (r: Option<Json>)
    ensures
        r is Some == told_once(parts_said(parts@), name@) is Some,
        r matches Some(j) ==> told_once(parts_said(parts@), name@) == Some(j@),
{
    let mut count: usize = 0;
    let mut last: usize = 0;
    let mut i: usize = 0;
    while i < parts.len()
        invariant
            i <= parts@.len(),
            count <= i,
            count == values_named(parts_said(parts@).take(i as int), name@).len(),
            count > 0 ==> last < i && values_named(parts_said(parts@).take(i as int), name@).last() == parts@[last as int].1@,
        decreases parts@.len() - i,
    {
        proof {
            let t = parts_said(parts@).take(i + 1);
            assert(t.drop_last() =~= parts_said(parts@).take(i as int));
            assert(t.last() == (parts@[i as int].0@, parts@[i as int].1@));
        }
        if let Some(n) = read_text(parts[i].0.as_str()) {
            if str_eq(n.as_str(), name) {
                count = count + 1;
                last = i;
            }
        }
        i = i + 1;
    }
    proof {
        assert(parts_said(parts@).take(i as int) =~= parts_said(parts@));
    }
    if count != 1 {
        return None;
    }
    match parse(parts[last].1.as_str()) {
        Ok(j) => Some(j),
        Err(_) => None,
    }
}

/// Going through two texts one behind the other.
proof fn lemma_scan_on(s: Scan, a: Seq<char>, b: Seq<char>)
    ensures
        scanned(s, a + b) == scanned(scanned(s, a), b),
    decreases b.len(),
{
    if b.len() == 0 {
        assert(a + b =~= a);
    } else {
        assert((a + b).drop_last() =~= a + b.drop_last());
        lemma_scan_on(s, a, b.drop_last());
    }
}

/// Going through one character.
proof fn lemma_scan_one(s: Scan, c: char)
    ensures
        scanned(s, seq![c]) == scan_next(s, c),
{
    assert(seq![c].drop_last() =~= Seq::empty());
    reveal_with_fuel(scanned, 2);
}

/// Going through a character as it stands in a string leaves the string open.
proof fn lemma_scan_escaped(s: Scan, c: char)
    requires
        s.in_string,
        !s.after_slash,
    ensures
        scanned(s, escaped(c)) == (Scan { text: s.text + escaped(c), ..s }),
{
    let e = escaped(c);
    assert(e.len() == 1 || e.len() == 2 || e.len() == 6);
    reveal_with_fuel(scanned, 7);
    if e.len() == 1 {
        assert(e.drop_last() =~= Seq::empty());
        assert(s.text.push(e[0]) =~= s.text + e);
    } else if e.len() == 2 {
        assert(e.drop_last().drop_last() =~= Seq::empty());
        assert(s.text.push(e[0]).push(e[1]) =~= s.text + e);
    } else {
        assert(e.drop_last().drop_last().drop_last().drop_last().drop_last().drop_last() =~= Seq::empty());
        assert(s.text.push(e[0]).push(e[1]).push(e[2]).push(e[3]).push(e[4]).push(e[5]) =~= s.text + e);
        assert(e[4] != '"' && e[4] != '\\');
        assert(e[5] != '"' && e[5] != '\\');
    }
}

/// Going through the characters of a string leaves it open.
proof fn lemma_scan_all_escaped(s: Scan, t: Seq<char>)
    requires
        s.in_string,
        !s.after_slash,
    ensures
        scanned(s, all_escaped(t)) == (Scan { text: s.text + all_escaped(t), ..s }),
    decreases t.len(),
{
    if t.len() == 0 {
        assert(s.text + all_escaped(t) =~= s.text);
    } else {
        lemma_scan_all_escaped(s, t.drop_last());
        let mid = scanned(s, all_escaped(t.drop_last()));
        lemma_scan_on(s, all_escaped(t.drop_last()), escaped(t.last()));
        lemma_scan_escaped(mid, t.last());
        assert(s.text + all_escaped(t.drop_last()) + escaped(t.last()) =~= s.text + all_escaped(t));
    }
}

/// Going through a string adds it to the text.
proof fn lemma_scan_quoted(s: Scan, t: Seq<char>)
    requires
        !s.in_string,
        !s.after_slash,
    ensures
        scanned(s, quoted(t)) == (Scan { text: s.text + quoted(t), ..s }),
{
    let open = scan_next(s, '"');
    lemma_scan_one(s, '"');
    lemma_scan_on(s, seq!['"'], all_escaped(t));
    lemma_scan_all_escaped(open, t);
    let body = scanned(open, all_escaped(t));
    lemma_scan_on(s, seq!['"'] + all_escaped(t), seq!['"']);
    lemma_scan_one(body, '"');
    assert(s.text.push('"') + all_escaped(t) =~= s.text + seq!['"'] + all_escaped(t));
    assert((s.text + seq!['"'] + all_escaped(t)).push('"') =~= s.text + quoted(t));
}

/// Going through a decimal number adds it to the text.
proof fn lemma_scan_dec(s: Scan, n: nat)
    requires
        !s.in_string,
        !s.after_slash,
    ensures
        scanned(s, dec(n)) == (Scan { text: s.text + dec(n), ..s }),
    decreases n,
{
    if n < 10 {
        assert(dec(n).len() == 1);
        lemma_scan_one(s, dec(n)[0]);
        assert(dec(n) =~= seq![dec(n)[0]]);
        assert(s.text.push(dec(n)[0]) =~= s.text + dec(n));
    } else {
        lemma_scan_dec(s, n / 10);
        let mid = scanned(s, dec(n / 10));
        let c = dec(n).last();
        assert(dec(n) =~= dec(n / 10) + seq![c]);
        lemma_scan_on(s, dec(n / 10), seq![c]);
        lemma_scan_one(mid, c);
        assert((s.text + dec(n / 10)).push(c) =~= s.text + dec(n));
    }
}

/// Whether each member is a text or a natural number.
pub open spec fn are_plain(m: Members) -> bool {
    forall|i: int| 0 <= i < m.len() ==> ((#[trigger] m[i]).1 is Str || m[i].1 is UInt)
}

/// The texts of the names and values of some members.
pub open spec fn parts_written(m: Members) -> Parts {
    m.map_values(|x: (Seq<char>, JsonV)| (quoted(x.0), value_text(x.1)->0))
}

/// Where an object that is gone through stands behind some of its members.
spec fn scan_behind(m: Members) -> Scan {
    if m.len() == 0 {
        Scan { depth: 1, ..scan_start() }
    } else {
        Scan {
            depth: 1,
            name: Some(quoted(m.last().0)),
            text: value_text(m.last().1)->0,
            out: parts_written(m.drop_last()),
            ..scan_start()
        }
    }
}

proof fn lemma_scan_members(m: Members)
    requires
        are_plain(m),
    ensures
        members_text(m) is Some,
        scanned(Scan { depth: 1, ..scan_start() }, members_text(m)->0) == scan_behind(m),
    decreases m.len(),
{
    let s0 = Scan { depth: 1, ..scan_start() };
    if m.len() > 0 {
        assert forall|i: int| 0 <= i < m.drop_last().len() implies ((#[trigger] m.drop_last()[i]).1 is Str || m.drop_last()[i].1 is UInt) by {
            assert(m[i].1 is Str || m[i].1 is UInt);
        }
        lemma_scan_members(m.drop_last());
        let before = members_text(m.drop_last())->0;
        let comma = if m.len() > 1 {
            seq![',']
        } else {
            Seq::empty()
        };
        let name = quoted(m.last().0);
        assert(m[m.len() - 1].1 is Str || m[m.len() - 1].1 is UInt);
        let value = value_text(m.last().1)->0;
        assert(members_text(m) == Some(before + comma + name + seq![':'] + value));
        lemma_scan_on(s0, before, comma);
        let s1 = scanned(s0, before + comma);
        if m.len() > 1 {
            lemma_scan_one(scan_behind(m.drop_last()), ',');
            assert(parts_written(m.drop_last()) =~= parts_written(m.drop_last().drop_last()).push(
                (quoted(m.drop_last().last().0), value_text(m.drop_last().last().1)->0),
            ));
        } else {
            assert(parts_written(m.drop_last()) =~= Seq::empty());
        }
        assert(s1 == (Scan { out: parts_written(m.drop_last()), ..s0 }));
        lemma_scan_on(s0, before + comma, name);
        lemma_scan_quoted(s1, m.last().0);
        let s2 = scanned(s1, name);
        assert(Seq::<char>::empty() + name =~= name);
        lemma_scan_on(s0, before + comma + name, seq![':']);
        lemma_scan_one(s2, ':');
        let s3 = scan_next(s2, ':');
        lemma_scan_on(s0, before + comma + name + seq![':'], value);
        match m.last().1 {
            JsonV::Str(t) => lemma_scan_quoted(s3, t),
            JsonV::UInt(n) => lemma_scan_dec(s3, n as nat),
            _ => {},
        }
        assert(Seq::<char>::empty() + value =~= value);
    }
}

/// An object of texts and natural numbers that is written comes apart into the texts of its names
/// and values.
pub proof fn law_written_members_come_apart(m: Members)
    requires
        are_plain(m),
    ensures
        object_text(m) is Some,
        parts_of(object_text(m)->0) == parts_written(m),
{
    lemma_scan_members(m);
    let inner = members_text(m)->0;
    lemma_scan_one(scan_start(), '{');
    lemma_scan_on(scan_start(), seq!['{'], inner);
    lemma_scan_on(scan_start(), seq!['{'] + inner, seq!['}']);
    lemma_scan_one(scan_behind(m), '}');
    if m.len() > 0 {
        assert(parts_written(m) =~= parts_written(m.drop_last()).push((quoted(m.last().0), value_text(m.last().1)->0)));
    } else {
        assert(parts_written(m) =~= Seq::empty());
    }
}

/// The values under a name are those of the parts with that name, in their order.
pub proof fn law_values_are_those_of_the_name(parts: Parts, name: Seq<char>)
    ensures
        values_named(parts, name) == parts.filter(|p: (Seq<char>, Seq<char>)| text_read(p.0) == Some(name)).map_values(|p: (Seq<char>, Seq<char>)| p.1),
    decreases parts.len(),
{
    reveal(Seq::filter);
    let f = |p: (Seq<char>, Seq<char>)| text_read(p.0) == Some(name);
    let g = |p: (Seq<char>, Seq<char>)| p.1;
    if parts.len() > 0 {
        law_values_are_those_of_the_name(parts.drop_last(), name);
        let less = parts.drop_last().filter(f);
        if f(parts.last()) {
            assert(less.push(parts.last()).map_values(g) =~= less.map_values(g).push(parts.last().1));
        }
    } else {
        assert(parts.filter(f).map_values(g) =~= Seq::empty());
    }
}

/// A name tells a value only where it stands once, and then the one that stands there.
pub proof fn law_name_is_told_once(parts: Parts, name: Seq<char>)
    ensures
        told_once(parts, name) is Some ==> values_named(parts, name).len() == 1,
        values_named(parts, name).len() == 1 ==> match json_read(values_named(parts, name)[0]) {
            Reading::Value(j) => told_once(parts, name) == Some(j),
            Reading::Fault(_) => told_once(parts, name) is None,
        },
{
}

/// Inside a string, and inside a value that is itself an object or an array, every character belongs
/// to the part that is read, and nothing is parted there; a string ends at the first quotation mark
/// that no backslash takes away.
pub proof fn law_nothing_is_parted_inside_a_value(s: Scan, c: char)
    ensures
        ({
            let n = scan_next(s, c);
            &&& s.in_string ==> {
                &&& n.out == s.out && n.name == s.name && n.depth == s.depth && n.text == s.text.push(c)
                &&& !n.in_string <==> c == '"' && !s.after_slash
                &&& n.after_slash <==> c == '\\' && !s.after_slash
            }
            &&& !s.in_string && s.depth > 1 ==> n.out == s.out && n.name == s.name && n.text == s.text.push(c)
            &&& !s.in_string ==> {
                &&& n.in_string <==> c == '"'
                &&& n.after_slash == s.after_slash
                &&& c == '{' || c == '[' ==> n.depth == s.depth + 1
                &&& (c == '}' || c == ']') && s.depth > 0 ==> n.depth == s.depth - 1
                &&& c != '{' && c != '[' && c != '}' && c != ']' ==> n.depth == s.depth
            }
        }),
{
}

/// In the outermost value a colon ends the name of a member, and a comma or the end of the value ends
/// the member with what stands behind its name; all else belongs to the part that is read.
pub proof fn law_members_end_at_the_outer_marks(s: Scan, c: char)
    requires
        s.depth == 1,
        !s.in_string,
    ensures
        ({
            let n = scan_next(s, c);
            &&& c == ':' ==> n.name == Some(s.text) && n.text.len() == 0 && n.out == s.out
            &&& c == ',' || c == '}' || c == ']' ==> {
                &&& n.name is None && n.text.len() == 0
                &&& s.name is Some ==> n.out == s.out.push((s.name->0, s.text))
                &&& s.name is None ==> n.out == s.out
            }
            &&& c != ':' && c != ',' && c != '}' && c != ']' ==> n.name == s.name && n.text == s.text.push(c) && n.out == s.out
        }),
{
}

/// A text is read character by character, from the first to the last.
pub proof fn law_text_is_read_in_turn(s: Scan, a: Seq<char>, b: Seq<char>)
    ensures
        scanned(s, a + b) == scanned(scanned(s, a), b),
        scanned(s, Seq::empty()) == s,
        parts_of(a) == scanned(scan_start(), a).out,
        scan_start().depth == 0 && !scan_start().in_string && scan_start().name is None && scan_start().out.len() == 0,
    decreases b.len(),
{
    if b.len() == 0 {
        assert(a + b =~= a);
    } else {
        law_text_is_read_in_turn(s, a, b.drop_last());
        assert((a + b).drop_last() =~= a + b.drop_last());
    }
}

} // verus!
