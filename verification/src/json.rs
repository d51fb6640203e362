//! JSON values: what a request line or a reply frame holds.

use vstd::prelude::*;
use crate::text::{dec, str_eq};

verus! {

/// A JSON value.
pub enum Json {
    Null,
    Bool(bool),
    /// A number that is a natural number below two to the power of 64.
    UInt(u64),
    /// A number that is an integer; a natural number says the same as the form above.
    NInt(i64),
    /// Any other number.
    Real(Real),
    Str(String),
    Arr(Vec<Json>),
    /// The members of an object; of two with one name the later counts.
    Obj(Vec<(String, Json)>),
}

/// What a JSON value says.
#[verifier::ext_equal]
pub enum JsonV {
    Null,
    Bool(bool),
    UInt(u64),
    NInt(i64),
    Real(Real),
    Str(Seq<char>),
    Arr(Seq<JsonV>),
    Obj(Map<Seq<char>, JsonV>),
}

/// What a JSON value says.
pub open spec fn said(j: Json) -> JsonV
    decreases j,
{
    match j {
        Json::Null => JsonV::Null,
        Json::Bool(b) => JsonV::Bool(b),
        Json::UInt(n) => JsonV::UInt(n),
        Json::NInt(n) => if n >= 0 {
            JsonV::UInt(n as u64)
        } else {
            JsonV::NInt(n)
        },
        Json::Real(x) => JsonV::Real(x),
        Json::Str(s) => JsonV::Str(s@),
        Json::Arr(v) => JsonV::Arr(items_said(v@)),
        Json::Obj(v) => JsonV::Obj(members_said(v@)),
    }
}

/// What the items of an array say.
pub open spec fn items_said(v: Seq<Json>) -> Seq<JsonV>
    decreases v,
{
    if v.len() == 0 {
        Seq::empty()
    } else {
        items_said(v.drop_last()).push(said(v.last()))
    }
}

/// What the members of an object say.
pub open spec fn members_said(v: Seq<(String, Json)>) -> Map<Seq<char>, JsonV>
    decreases v,
{
    if v.len() == 0 {
        Map::empty()
    } else {
        members_said(v.drop_last()).insert(v.last().0@, said(v.last().1))
    }
}

impl View for Json {
    type V = JsonV;

    open spec fn view(&self) -> JsonV {
        said(*self)
    }
}

/// The member of an object with the given name.
pub open spec fn member(j: JsonV, key: Seq<char>) -> Option<JsonV> {
    match j {
        JsonV::Obj(m) => if m.contains_key(key) {
            Some(m[key])
        } else {
            None
        },
        _ => None,
    }
}

/// The text that a value is.
pub open spec fn as_text(j: Option<JsonV>) -> Option<Seq<char>> {
    match j {
        Some(JsonV::Str(s)) => Some(s),
        _ => None,
    }
}

/// The natural number that a value is.
pub open spec fn as_nat(j: Option<JsonV>) -> Option<u64> {
    match j {
        Some(JsonV::UInt(n)) => Some(n),
        _ => None,
    }
}

/// The signed integer that a value is.
pub open spec fn as_int(j: Option<JsonV>) -> Option<i64> {
    match j {
        Some(JsonV::UInt(n)) => if n <= i64::MAX {
            Some(n as i64)
        } else {
            None
        },
        Some(JsonV::NInt(n)) => Some(n),
        _ => None,
    }
}

/// The truth value that a value is.
pub open spec fn as_truth(j: Option<JsonV>) -> Option<bool> {
    match j {
        Some(JsonV::Bool(b)) => Some(b),
        _ => None,
    }
}

/// The items of the array that a value is.
pub open spec fn as_items(j: Option<JsonV>) -> Option<Seq<JsonV>> {
    match j {
        Some(JsonV::Arr(v)) => Some(v),
        _ => None,
    }
}

/// The texts among some values, in their order.
pub open spec fn texts_in(v: Seq<JsonV>) -> Seq<Seq<char>>
    decreases v.len(),
{
    if v.len() == 0 {
        Seq::empty()
    } else {
        match v.last() {
            JsonV::Str(s) => texts_in(v.drop_last()).push(s),
            _ => texts_in(v.drop_last()),
        }
    }
}

/// What the items of an array say, by place.
pub proof fn lemma_items_said(v: Seq<Json>)
    ensures
        items_said(v).len() == v.len(),
        forall|i: int| 0 <= i < v.len() ==> #[trigger] items_said(v)[i] == said(v[i]),
    decreases v.len(),
{
    if v.len() > 0 {
        lemma_items_said(v.drop_last());
        assert forall|i: int| 0 <= i < v.len() implies #[trigger] items_said(v)[i] == said(v[i]) by {
            if i < v.len() - 1 {
                assert(items_said(v)[i] == items_said(v.drop_last())[i]);
            }
        }
    }
}

impl Json {
    /// The member of an object with the given name.
    pub fn get(&self, key: &str) -> (r: Option<&Json>)
        ensures
            r is Some == member(self@, key@) is Some,
            r matches Some(j) ==> member(self@, key@) == Some(j@),
    {
        match self {
            Json::Obj(v) => {
                let mut i: usize = v.len();
                proof {
                    assert(v@.take(v@.len() as int) =~= v@);
                }
                while i > 0
                    invariant
                        i <= v@.len(),
                        *self == Json::Obj(*v),
                        member(self@, key@) == member(JsonV::Obj(members_said(v@.take(i as int))), key@),
                    decreases i,
                {
                    proof {
                        let t = v@.take(i as int);
                        assert(t.drop_last() =~= v@.take(i - 1));
                        assert(t.last() == v@[i - 1]);
                    }
                    if str_eq(v[i - 1].0.as_str(), key) {
                        return Some(&v[i - 1].1);
                    }
                    i = i - 1;
                }
                None
            },
            _ => None,
        }
    }

    /// The text under the given name.
    pub fn get_str(&self, key: &str) -> (r: Option<String>)
        ensures
            crate::text::opt_text(r) == as_text(member(self@, key@)),
    {
        match self.get(key) {
            Some(j) => j.to_text(),
            None => None,
        }
    }

    /// The natural number under the given name.
    pub fn get_u64(&self, key: &str) -> (r: Option<u64>)
        ensures
            r == as_nat(member(self@, key@)),
    {
        match self.get(key) {
            Some(j) => j.to_u64(),
            None => None,
        }
    }

    /// The natural number that the value is.
    pub fn to_u64(&self) -> (r: Option<u64>)
        ensures
            r == as_nat(Some(self@)),
    {
        match self {
            Json::UInt(n) => Some(*n),
            Json::NInt(n) => if *n >= 0 {
                Some(*n as u64)
            } else {
                None
            },
            _ => None,
        }
    }

    /// The text that the value is.
    pub fn to_text(&self) -> (r: Option<String>)
        ensures
            crate::text::opt_text(r) == as_text(Some(self@)),
    {
        match self {
            Json::Str(s) => Some(s.clone()),
            _ => None,
        }
    }

    /// The signed integer under the given name.
    pub fn get_i64(&self, key: &str) -> (r: Option<i64>)
        ensures
            r == as_int(member(self@, key@)),
    {
        match self.get(key) {
            Some(Json::UInt(n)) => if *n <= i64::MAX as u64 {
                Some(*n as i64)
            } else {
                None
            },
            Some(Json::NInt(n)) => Some(*n),
            _ => None,
        }
    }

    /// The truth value under the given name.
    pub fn get_bool(&self, key: &str) -> (r: Option<bool>)
        ensures
            r == as_truth(member(self@, key@)),
    {
        match self.get(key) {
            Some(Json::Bool(b)) => Some(*b),
            _ => None,
        }
    }

    /// The texts in the array under the given name; what is no text in it is passed over.
    pub fn get_texts(&self, key: &str) -> (r: Option<Vec<String>>)
        ensures
            r is Some == as_items(member(self@, key@)) is Some,
            r matches Some(v) ==> crate::text::texts(v@) == texts_in(as_items(member(self@, key@))->0),
    {
        match self.get(key) {
            Some(Json::Arr(v)) => {
                let mut out: Vec<String> = Vec::new();
                let mut i: usize = 0;
                while i < v.len()
                    invariant
                        i <= v@.len(),
                        crate::text::texts(out@) == texts_in(items_said(v@.take(i as int))),
                    decreases v@.len() - i,
                {
                    let ghost before = crate::text::texts(out@);
                    proof {
                        let t = v@.take(i + 1);
                        assert(t.drop_last() =~= v@.take(i as int));
                        assert(t.last() == v@[i as int]);
                        let m = items_said(t);
                        assert(m.drop_last() =~= items_said(t.drop_last()));
                        assert(m.last() == said(v@[i as int]));
                    }
                    if let Json::Str(s) = &v[i] {
                        out.push(s.clone());
                        proof {
                            assert(crate::text::texts(out@) =~= before.push(s@));
                        }
                    }
                    i = i + 1;
                }
                proof {
                    assert(v@.take(i as int) =~= v@);
                }
                Some(out)
            },
            _ => None,
        }
    }

    /// A copy of a value.
    pub fn copy(&self) -> (r: Json)
        ensures
            r@ == self@,
        decreases self,
    {
        match self {
            Json::Null => Json::Null,
            Json::Bool(b) => Json::Bool(*b),
            Json::UInt(n) => Json::UInt(*n),
            Json::NInt(n) => Json::NInt(*n),
            Json::Real(x) => Json::Real(copy_real(x)),
            Json::Str(s) => Json::Str(s.clone()),
            Json::Arr(v) => {
                let mut out: Vec<Json> = Vec::new();
                let mut i: usize = 0;
                while i < v.len()
                    invariant
                        i <= v@.len(),
                        *self == Json::Arr(*v),
                        items_said(out@) == items_said(v@.take(i as int)),
                    decreases v@.len() - i,
                {
                    proof {
                        assert(v@.take(i + 1).drop_last() =~= v@.take(i as int));
                    }
                    let ghost before = out@;
                    proof {
                        assert(decreases_to!(*self => self->Arr_0));
                        assert(decreases_to!(self->Arr_0 => self->Arr_0@));
                        assert(decreases_to!(v@ => v@[i as int]));
                    }
                    let c = v[i].copy();
                    out.push(c);
                    proof {
                        assert(out@.drop_last() =~= before);
                    }
                    i = i + 1;
                }
                proof {
                    assert(v@.take(i as int) =~= v@);
                }
                Json::Arr(out)
            },
            Json::Obj(v) => {
                let mut out: Vec<(String, Json)> = Vec::new();
                let mut i: usize = 0;
                while i < v.len()
                    invariant
                        i <= v@.len(),
                        *self == Json::Obj(*v),
                        members_said(out@) == members_said(v@.take(i as int)),
                    decreases v@.len() - i,
                {
                    proof {
                        assert(v@.take(i + 1).drop_last() =~= v@.take(i as int));
                    }
                    let ghost before = out@;
                    proof {
                        assert(decreases_to!(*self => self->Obj_0));
                        assert(decreases_to!(self->Obj_0 => self->Obj_0@));
                        assert(decreases_to!(v@ => v@[i as int]));
                        assert(decreases_to!(v@[i as int] => v@[i as int].1));
                    }
                    let c = v[i].1.copy();
                    out.push((v[i].0.clone(), c));
                    proof {
                        assert(out@.drop_last() =~= before);
                    }
                    i = i + 1;
                }
                proof {
                    assert(v@.take(i as int) =~= v@);
                }
                Json::Obj(out)
            },
        }
    }
}

/// `serde_json::Value`, the JSON tree of that crate.
#[verifier::external_type_specification]
#[verifier::external_body]
pub struct ExValue(serde_json::Value);

/// What a `serde_json::Value` holds.
pub uninterp spec fn value_says(v: serde_json::Value) -> JsonV;

/// `serde_json::Number`, a number of that tree.
#[verifier::external_type_specification]
#[verifier::external_body]
pub struct ExNumber(serde_json::Number);

/// A JSON number that is no 64-bit integer. One is made only by reading a text.
pub struct Real {
    number: serde_json::Number,
}

/// `serde_json::Number::clone` gives the same number again.
#[verifier::external_body]
fn copy_real(x: &Real) -> (r: Real)
    ensures
        r == *x,
{
    Real { number: x.number.clone() }
}

/// What comes of reading a text as JSON: a value, or the text of an error.
pub enum Reading {
    Value(JsonV),
    Fault(Seq<char>),
}

/// What `serde_json::from_str` reads from a text as a value, or the text of its error.
pub uninterp spec fn json_read(text: Seq<char>) -> Reading;

/// What `serde_json::to_string` writes for a value, where it writes anything.
pub uninterp spec fn json_text(j: JsonV) -> Option<Seq<char>>;

/// `serde_json::from_str` at the type `serde_json::Value`: whether a text is JSON, and what it
/// says or why it is not, depends on the text alone.
#[verifier::external_body]
fn read_value(text: &str) -> (r: Result<serde_json::Value, String>)
    ensures
        match r {
            Ok(v) => json_read(text@) == Reading::Value(value_says(v)),
            Err(e) => json_read(text@) == Reading::Fault(e@),
        },
{
    serde_json::from_str::<serde_json::Value>(text).map_err(|e| e.to_string())
}

/// The parts of a `serde_json::Value` taken over one for one: `Number::as_u64` and `as_i64` tell a
/// number that is held as an integer from one that is not.
#[verifier::external_body]
fn json_of(v: serde_json::Value) -> (r: Json)
    ensures
        r@ == value_says(v),
{
    match v {
        serde_json::Value::Null => Json::Null,
        serde_json::Value::Bool(b) => Json::Bool(b),
        serde_json::Value::Number(n) => match (n.as_u64(), n.as_i64()) {
            (Some(u), _) => Json::UInt(u),
            (_, Some(i)) => Json::NInt(i),
            _ => Json::Real(Real { number: n }),
        },
        serde_json::Value::String(s) => Json::Str(s),
        serde_json::Value::Array(a) => Json::Arr(a.into_iter().map(json_of).collect()),
        serde_json::Value::Object(o) => Json::Obj(o.into_iter().map(|(k, x)| (k, json_of(x))).collect()),
    }
}

/// `serde_json::Map`, the members of an object of that tree.
#[verifier::external_type_specification]
#[verifier::external_body]
#[verifier::reject_recursive_types(K)]
#[verifier::reject_recursive_types(V)]
pub struct ExMembers<K, V>(serde_json::Map<K, V>);

/// What the members in a `serde_json::Map` say.
pub uninterp spec fn map_says(m: serde_json::Map<String, serde_json::Value>) -> Map<Seq<char>, JsonV>;

/// `serde_json::Map::new`: no members.
#[verifier::external_body]
fn new_members() -> (r: serde_json::Map<String, serde_json::Value>)
    ensures
        JsonV::Obj(map_says(r)) == no_members(),
{
    serde_json::Map::new()
}

/// `serde_json::Map::insert`: one member more, in place of one with the same name.
#[verifier::external_body]
fn put_member(m: &mut serde_json::Map<String, serde_json::Value>, name: String, v: serde_json::Value)
    ensures
        map_says(*final(m)) == map_says(*old(m)).insert(name@, value_says(v)),
{
    m.insert(name, v);
}

/// The variant of `serde_json::Value` that holds the members of an object.
#[verifier::external_body]
fn object_value(m: serde_json::Map<String, serde_json::Value>) -> (r: serde_json::Value)
    ensures
        value_says(r) == JsonV::Obj(map_says(m)),
{
    serde_json::Value::Object(m)
}

/// What the items of an array of that tree say.
pub open spec fn values_say(v: Seq<serde_json::Value>) -> Seq<JsonV> {
    v.map_values(|x: serde_json::Value| value_says(x))
}

/// The variant of `serde_json::Value` that holds the items of an array.
#[verifier::external_body]
fn array_value(v: Vec<serde_json::Value>) -> (r: serde_json::Value)
    ensures
        value_says(r) == JsonV::Arr(values_say(v@)),
{
    serde_json::Value::Array(v)
}

/// A `serde_json::Value` made from a value that has no parts, by the variants and `From` impls of
/// that type.
#[verifier::external_body]
fn leaf_value(j: &Json) -> (r: serde_json::Value)
    requires
        !(j is Arr),
        !(j is Obj),
    ensures
        value_says(r) == j@,
{
    match j {
        Json::Bool(b) => serde_json::Value::from(*b),
        Json::UInt(n) => serde_json::Value::from(*n),
        Json::NInt(n) => serde_json::Value::from(*n),
        Json::Real(x) => serde_json::Value::Number(x.number.clone()),
        Json::Str(s) => serde_json::Value::from(s.as_str()),
        _ => serde_json::Value::Null,
    }
}

/// A `serde_json::Value` made from the parts of a value: of two members with one name the later
/// stays.
fn value_of(j: &Json) -> (r: serde_json::Value)
    ensures
        value_says(r) == j@,
    decreases j,
{
    match j {
        Json::Arr(v) => {
            let mut out: Vec<serde_json::Value> = Vec::new();
            let mut i: usize = 0;
            proof {
                assert(values_say(out@) =~= items_said(v@.take(0)));
            }
            while i < v.len()
                invariant
                    i <= v@.len(),
                    *j == Json::Arr(*v),
                    values_say(out@) == items_said(v@.take(i as int)),
                decreases v@.len() - i,
            {
                let ghost before = out@;
                proof {
                    assert(v@.take(i + 1).drop_last() =~= v@.take(i as int));
                    assert(decreases_to!(*j => j->Arr_0));
                    assert(decreases_to!(j->Arr_0 => j->Arr_0@));
                    assert(decreases_to!(v@ => v@[i as int]));
                }
                let x = value_of(&v[i]);
                out.push(x);
                proof {
                    assert(values_say(out@) =~= values_say(before).push(value_says(x)));
                }
                i = i + 1;
            }
            proof {
                assert(v@.take(i as int) =~= v@);
            }
            array_value(out)
        },
        Json::Obj(v) => {
            let mut out = new_members();
            let mut i: usize = 0;
            while i < v.len()
                invariant
                    i <= v@.len(),
                    *j == Json::Obj(*v),
                    map_says(out) == members_said(v@.take(i as int)),
                decreases v@.len() - i,
            {
                proof {
                    assert(v@.take(i + 1).drop_last() =~= v@.take(i as int));
                    assert(decreases_to!(*j => j->Obj_0));
                    assert(decreases_to!(j->Obj_0 => j->Obj_0@));
                    assert(decreases_to!(v@ => v@[i as int]));
                    assert(decreases_to!(v@[i as int] => v@[i as int].1));
                }
                let x = value_of(&v[i].1);
                put_member(&mut out, v[i].0.clone(), x);
                i = i + 1;
            }
            proof {
                assert(v@.take(i as int) =~= v@);
            }
            object_value(out)
        },
        _ => leaf_value(j),
    }
}

/// Whether a value is an array, an object or a number that is no integer.
pub open spec fn is_deep(j: JsonV) -> bool {
    j is Arr || j is Obj || j is Real
}

/// `serde_json::to_string`: the text of a value depends on what the value says alone, and holds no
/// line feed and no carriage return, since the compact form has none between its parts and writes
/// those inside a string as escapes.
#[verifier::external_body]
fn write_value(v: &serde_json::Value) -> (r: Option<String>)
    ensures
        crate::text::opt_text(r) == json_text(value_says(*v)),
        r matches Some(s) ==> !s@.contains('\n') && !s@.contains('\r'),
{
    serde_json::to_string(v).ok()
}

/// Reads a JSON text.
pub fn parse(text: &str) -> (r: Result<Json, String>)
    ensures
        match r {
            Ok(j) => json_read(text@) == Reading::Value(j@),
            Err(e) => json_read(text@) == Reading::Fault(e@),
        },
{
    match read_value(text) {
        Ok(v) => Ok(json_of(v)),
        Err(e) => Err(e),
    }
}

/// Writes a JSON value as one line without its line feed.
pub fn render(j: &Json) -> (r: Option<String>)
    ensures
        crate::text::opt_text(r) == json_text(j@),
        r matches Some(s) ==> !s@.contains('\n') && !s@.contains('\r'),
{
    let v = value_of(j);
    write_value(&v)
}

/// A hexadecimal digit.
pub open spec fn hex_digit(n: int) -> char {
    if n < 10 {
        (48 + n) as char
    } else {
        (87 + n) as char
    }
}

/// A character as it stands in a JSON string.
pub open spec fn escaped(c: char) -> Seq<char> {
    if c == '"' || c == '\\' {
        seq!['\\', c]
    } else if c == '\n' {
        seq!['\\', 'n']
    } else if c == '\r' {
        seq!['\\', 'r']
    } else if c == '\t' {
        seq!['\\', 't']
    } else if c as u32 == 8 {
        seq!['\\', 'b']
    } else if c as u32 == 12 {
        seq!['\\', 'f']
    } else if 32 > c as u32 {
        seq!['\\', 'u', '0', '0', hex_digit(c as int / 16), hex_digit(c as int % 16)]
    } else {
        seq![c]
    }
}

/// The characters of a text as they stand in a JSON string.
pub open spec fn all_escaped(s: Seq<char>) -> Seq<char>
    decreases s.len(),
{
    if s.len() == 0 {
        Seq::empty()
    } else {
        all_escaped(s.drop_last()) + escaped(s.last())
    }
}

/// The JSON string of a text.
pub open spec fn quoted(s: Seq<char>) -> Seq<char> {
    seq!['"'] + all_escaped(s) + seq!['"']
}

/// The text of a value inside an object.
pub open spec fn value_text(j: JsonV) -> Option<Seq<char>> {
    match j {
        JsonV::Str(s) => Some(quoted(s)),
        JsonV::UInt(n) => Some(dec(n as nat)),
        _ => json_text(j),
    }
}

/// Some members of an object in their order.
pub type Members = Seq<(Seq<char>, JsonV)>;

/// The text of some members in their order, where each value can be written.
pub open spec fn members_text(m: Members) -> Option<Seq<char>>
    decreases m.len(),
{
    if m.len() == 0 {
        Some(Seq::empty())
    } else {
        match (members_text(m.drop_last()), value_text(m.last().1)) {
            (Some(before), Some(t)) => Some(
                before + (if m.len() > 1 {
                    seq![',']
                } else {
                    Seq::empty()
                }) + quoted(m.last().0) + seq![':'] + t,
            ),
            _ => None,
        }
    }
}

/// The text of an object with its members in their order, where each value can be written.
pub open spec fn object_text(m: Members) -> Option<Seq<char>> {
    match members_text(m) {
        Some(t) => Some(seq!['{'] + t + seq!['}']),
        None => None,
    }
}

/// Whether the text of a member's name is read as that name, and the text of its value, where that
/// is a text, an integer, a truth value or null, as that value.
pub open spec fn reads_alone(name: Seq<char>, j: JsonV) -> bool {
    &&& json_read(quoted(name)) == Reading::Value(JsonV::Str(name))
    &&& !is_deep(j) ==> (value_text(j) matches Some(t) && json_read(t) == Reading::Value(j))
}

/// Whether `serde_json::from_str` finds a JSON value of any kind in a text, without reading what
/// it is.
pub uninterp spec fn json_skims(text: Seq<char>) -> bool;

/// `serde_json::from_str` at the type `serde::de::IgnoredAny`: whether a text is JSON depends on the
/// text alone.
#[verifier::external_body]
pub(crate) fn is_json(text: &str) -> (r: bool)
    ensures
        r == json_skims(text@),
{
    serde_json::from_str::<serde::de::IgnoredAny>(text).is_ok()
}

/// What members of that tree say, in their order.
pub open spec fn pairs_say(v: Seq<(String, serde_json::Value)>) -> Members {
    v.map_values(|m: (String, serde_json::Value)| (m.0@, value_says(m.1)))
}

/// `serde::Serializer::collect_map` with a `serde_json::Serializer`: an object with its members in
/// the given order, names and texts as JSON strings and natural numbers in decimal. It holds no
/// line feed and no carriage return, `serde_json::from_str` finds JSON in it, and reads each name
/// and each text, integer, truth value and null in it as what it is.
#[verifier::external_body]
fn write_members(v: &Vec<(String, serde_json::Value)>) -> (r: Option<String>)
    ensures
        crate::text::opt_text(r) == object_text(pairs_say(v@)),
        r matches Some(s) ==> !s@.contains('\n') && !s@.contains('\r') && json_skims(s@),
        r is Some ==> forall|i: int| 0 <= i < v@.len() ==> reads_alone((#[trigger] pairs_say(v@)[i]).0, pairs_say(v@)[i].1),
{
    let mut out: Vec<u8> = Vec::new();
    let members = v.iter().map(|m| (&m.0, &m.1));
    serde::Serializer::collect_map(&mut serde_json::Serializer::new(&mut out), members).ok()?;
    String::from_utf8(out).ok()
}

/// What some members say, in their order.
pub open spec fn pairs_said(v: Seq<(String, Json)>) -> Members {
    v.map_values(|m: (String, Json)| (m.0@, said(m.1)))
}

/// Writes an object as one line without its line feed, with its members in their order.
pub fn render_members(members: &Vec<(String, Json)>) -> (r: Option<String>)
    ensures
        crate::text::opt_text(r) == object_text(pairs_said(members@)),
        r matches Some(s) ==> !s@.contains('\n') && !s@.contains('\r') && json_skims(s@),
        r is Some ==> forall|i: int| 0 <= i < members@.len() ==> reads_alone((#[trigger] pairs_said(members@)[i]).0, pairs_said(members@)[i].1),
{
    let mut out: Vec<(String, serde_json::Value)> = Vec::new();
    let mut i: usize = 0;
    while i < members.len()
        invariant
            i <= members@.len(),
            pairs_say(out@) == pairs_said(members@).take(i as int),
        decreases members@.len() - i,
    {
        let ghost before = out@;
        let x = value_of(&members[i].1);
        let name = members[i].0.clone();
        out.push((name, x));
        proof {
            assert(pairs_say(out@) =~= pairs_say(before).push((name@, value_says(x))));
            assert(pairs_say(out@) =~= pairs_said(members@).take(i + 1));
        }
        i = i + 1;
    }
    proof {
        assert(pairs_said(members@).take(i as int) =~= pairs_said(members@));
    }
    let r = write_members(&out);
    proof {
        assert(pairs_say(out@) == pairs_said(members@));
    }
    r
}

/// One member of an object.
pub fn field(name: &str, value: Json) -> (r: (String, Json))
    ensures
        r.0@ == name@,
        r.1 == value,
{
    (name.to_owned(), value)
}

/// A JSON string.
pub fn text(s: &str) -> (r: Json)
    ensures
        r@ == JsonV::Str(s@),
{
    Json::Str(s.to_owned())
}

/// A JSON string, or null where there is none.
pub fn text_or_null(s: &Option<String>) -> (r: Json)
    ensures
        r@ == opt_said(crate::text::opt_text(*s)),
{
    match s {
        Some(s) => Json::Str(s.clone()),
        None => Json::Null,
    }
}

/// A text, or null where there is none.
pub open spec fn opt_said(s: Option<Seq<char>>) -> JsonV {
    match s {
        Some(s) => JsonV::Str(s),
        None => JsonV::Null,
    }
}

/// The object with the given members.
pub fn object(members: Vec<(String, Json)>) -> (r: Json)
    ensures
        r@ == JsonV::Obj(members_said(members@)),
{
    Json::Obj(members)
}

/// The object without members.
pub open spec fn no_members() -> JsonV {
    JsonV::Obj(Map::empty())
}

/// An object with one member more; of a value that is no object, the value itself.
pub open spec fn with_member(j: JsonV, name: Seq<char>, value: JsonV) -> JsonV {
    match j {
        JsonV::Obj(m) => JsonV::Obj(m.insert(name, value)),
        _ => j,
    }
}

/// An object with one member less; of a value that is no object, the value itself.
pub open spec fn without_member(j: JsonV, name: Seq<char>) -> JsonV {
    match j {
        JsonV::Obj(m) => JsonV::Obj(m.remove(name)),
        _ => j,
    }
}

/// The object without members.
pub fn empty_object() -> (r: Json)
    ensures
        r@ == no_members(),
{
    Json::Obj(Vec::new())
}

impl Json {
    /// The object with one member more.
    pub fn with(self, name: &str, value: Json) -> (r: Json)
        ensures
            r@ == with_member(self@, name@, value@),
    {
        match self {
            Json::Obj(v) => {
                let mut v = v;
                let ghost before = v@;
                v.push((name.to_owned(), value));
                proof {
                    assert(v@.drop_last() =~= before);
                }
                Json::Obj(v)
            },
            other => other,
        }
    }

    /// The object with one member less.
    pub fn without(self, name: &str) -> (r: Json)
        ensures
            r@ == without_member(self@, name@),
    {
        match self {
            Json::Obj(v) => {
                let mut out: Vec<(String, Json)> = Vec::new();
                let mut i: usize = 0;
                while i < v.len()
                    invariant
                        i <= v@.len(),
                        members_said(out@) == members_said(v@.take(i as int)).remove(name@),
                    decreases v@.len() - i,
                {
                    proof {
                        assert(v@.take(i + 1).drop_last() =~= v@.take(i as int));
                    }
                    if !str_eq(v[i].0.as_str(), name) {
                        let ghost before = out@;
                        out.push((v[i].0.clone(), v[i].1.copy()));
                        proof {
                            assert(out@.drop_last() =~= before);
                        }
                    }
                    proof {
                        assert(members_said(out@) =~= members_said(v@.take(i + 1)).remove(name@));
                    }
                    i = i + 1;
                }
                proof {
                    assert(v@.take(i as int) =~= v@);
                }
                Json::Obj(out)
            },
            other => other,
        }
    }

    /// The member of an object with the given name, or null.
    pub fn get_or_null(&self, key: &str) -> (r: Json)
        ensures
            r@ == member_or_null(self@, key@),
    {
        match self.get(key) {
            Some(j) => j.copy(),
            None => Json::Null,
        }
    }
}

/// The member of an object with the given name, or null.
pub open spec fn member_or_null(j: JsonV, key: Seq<char>) -> JsonV {
    match member(j, key) {
        Some(v) => v,
        None => JsonV::Null,
    }
}

/// Values are seen as they are, item by item; a number that is not negative is seen the same however
/// it is held.
pub proof fn law_values_are_seen_as_they_are(j: Json, v: Seq<Json>)
    ensures
        j is Null ==> said(j) is Null,
        j matches Json::Bool(b) ==> said(j) == JsonV::Bool(b),
        j matches Json::UInt(n) ==> said(j) == JsonV::UInt(n),
        j matches Json::NInt(n) ==> (n >= 0 ==> said(j) == JsonV::UInt(n as u64)) && (n < 0 ==> said(j) == JsonV::NInt(n)),
        j matches Json::Str(s) ==> said(j) == JsonV::Str(s@),
        j matches Json::Arr(a) ==> said(j) == JsonV::Arr(items_said(a@)),
        j matches Json::Obj(m) ==> said(j) == JsonV::Obj(members_said(m@)),
        items_said(v).len() == v.len(),
        forall|i: int| 0 <= i < v.len() ==> #[trigger] items_said(v)[i] == said(v[i]),
    decreases v.len(),
{
    if v.len() > 0 {
        law_values_are_seen_as_they_are(j, v.drop_last());
    }
}

/// Of the members of an object with one name the last counts.
pub proof fn law_last_of_equal_names_counts(v: Seq<(String, Json)>, key: Seq<char>, i: int)
    requires
        0 <= i < v.len(),
        v[i].0@ == key,
        forall|k: int| i < k < v.len() ==> (#[trigger] v[k]).0@ != key,
    ensures
        members_said(v).contains_key(key),
        members_said(v)[key] == said(v[i].1),
    decreases v.len(),
{
    let less = v.drop_last();
    if i < v.len() - 1 {
        assert(v.last().0@ != key);
        assert forall|k: int| i < k < less.len() implies (#[trigger] less[k]).0@ != key by {
            assert(less[k] == v[k]);
        }
        law_last_of_equal_names_counts(less, key, i);
    }
}

/// An object has no member that does not stand in it.
pub proof fn law_object_has_no_other_members(v: Seq<(String, Json)>, key: Seq<char>)
    requires
        forall|k: int| 0 <= k < v.len() ==> (#[trigger] v[k]).0@ != key,
    ensures
        !members_said(v).contains_key(key),
    decreases v.len(),
{
    if v.len() > 0 {
        let less = v.drop_last();
        assert(v.last().0@ != key);
        assert forall|k: int| 0 <= k < less.len() implies (#[trigger] less[k]).0@ != key by {
            assert(less[k] == v[k]);
        }
        law_object_has_no_other_members(less, key);
    }
}

/// The texts in a list are its items that are texts, in their order.
pub proof fn law_texts_are_picked_from_the_items(v: Seq<JsonV>)
    ensures
        texts_in(v) == v.filter(|j: JsonV| j is Str).map_values(|j: JsonV| j->Str_0),
    decreases v.len(),
{
    reveal(Seq::filter);
    let f = |j: JsonV| j is Str;
    let g = |j: JsonV| j->Str_0;
    if v.len() > 0 {
        law_texts_are_picked_from_the_items(v.drop_last());
        let less = v.drop_last().filter(f);
        if f(v.last()) {
            assert(less.push(v.last()).map_values(g) =~= less.map_values(g).push(v.last()->Str_0));
        }
    } else {
        assert(v.filter(f).map_values(g) =~= Seq::empty());
    }
}

/// A member that is set is found, one that is taken out is not, and the others stay.
pub proof fn law_members_are_set_and_taken_out(j: JsonV, name: Seq<char>, value: JsonV, other: Seq<char>)
    requires
        j is Obj,
    ensures
        member(with_member(j, name, value), name) == Some(value),
        member(without_member(j, name), name) is None,
        other != name ==> member(with_member(j, name, value), other) == member(j, other),
        other != name ==> member(without_member(j, name), other) == member(j, other),
        member(no_members(), name) is None,
        no_members() is Obj,
        with_member(j, name, value) is Obj,
{
}

/// A number is taken as a signed one as far as it can be held, and nothing else is a number.
pub proof fn law_numbers_are_taken_as_far_as_they_fit(n: u64, i: i64, s: Seq<char>, b: bool)
    ensures
        as_nat(Some(JsonV::UInt(n))) == Some(n),
        as_nat(Some(JsonV::NInt(i))) is None,
        n <= i64::MAX ==> as_int(Some(JsonV::UInt(n))) == Some(n as i64),
        n > i64::MAX ==> as_int(Some(JsonV::UInt(n))) is None,
        as_int(Some(JsonV::NInt(i))) == Some(i),
        as_nat(Some(JsonV::Str(s))) is None,
        as_int(Some(JsonV::Str(s))) is None,
        as_text(Some(JsonV::Str(s))) == Some(s),
        as_text(Some(JsonV::UInt(n))) is None,
        as_truth(Some(JsonV::Bool(b))) == Some(b),
        as_truth(Some(JsonV::UInt(n))) is None,
        as_nat(None) is None && as_int(None) is None && as_text(None) is None && as_truth(None) is None && as_items(None) is None,
{
}

/// What stands between quotation marks is escaped character by character: no control character and
/// no bare quotation mark is left in it.
pub proof fn law_quoted_text_is_escaped(s: Seq<char>, c: char)
    ensures
        forall|k: int| 0 <= k < escaped(c).len() ==> 32 <= #[trigger] escaped(c)[k] as u32,
        escaped(c)[0] != '"',
        escaped(c)[0] == '\\' <==> c == '"' || c == '\\' || (c as u32) < 32,
        escaped(c)[0] != '\\' ==> escaped(c) == seq![c],
        all_escaped(s.push(c)) == all_escaped(s) + escaped(c),
        quoted(s).first() == '"',
        quoted(s).last() == '"',
        quoted(s).subrange(1, quoted(s).len() - 1) == all_escaped(s),
{
    assert(s.push(c).drop_last() =~= s);
    let q = quoted(s);
    assert(q.subrange(1, q.len() - 1) =~= all_escaped(s));
}

} // verus!
