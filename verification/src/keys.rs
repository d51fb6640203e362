//! Keys and buttons: the codes of keys, and the events that stand for what is pressed.

use vstd::prelude::*;
use crate::text::{lowered, str_eq, to_lower, trim, trimmed};

verus! {

/// No key is held with another.
pub const FLAG_NONE: u64 = 0;

/// The shift key is held.
pub const FLAG_SHIFT: u64 = 0x0002_0000;

/// The control key is held.
pub const FLAG_CONTROL: u64 = 0x0004_0000;

/// The option key is held.
pub const FLAG_ALTERNATE: u64 = 0x0008_0000;

/// The command key is held.
pub const FLAG_COMMAND: u64 = 0x0010_0000;

/// The code of the command key.
pub const KEY_COMMAND: u16 = 0x37;

/// The code of the shift key.
pub const KEY_SHIFT: u16 = 0x38;

/// The code of the option key.
pub const KEY_OPTION: u16 = 0x3a;

/// The code of the control key.
pub const KEY_CONTROL: u16 = 0x3b;

/// The code of a key that moves or edits, by its name in lower case.
pub open spec fn edit_code(k: Seq<char>) -> Option<u16> {
    if k == "return"@ || k == "enter"@ {
        Some(0x24)
    } else if k == "tab"@ {
        Some(0x30)
    } else if k == "space"@ {
        Some(0x31)
    } else if k == "delete"@ || k == "backspace"@ {
        Some(0x33)
    } else if k == "forward_delete"@ || k == "fn_delete"@ {
        Some(0x75)
    } else if k == "escape"@ || k == "esc"@ {
        Some(0x35)
    } else if k == "up_arrow"@ || k == "up"@ {
        Some(0x7e)
    } else if k == "down_arrow"@ || k == "down"@ {
        Some(0x7d)
    } else if k == "left_arrow"@ || k == "left"@ {
        Some(0x7b)
    } else if k == "right_arrow"@ || k == "right"@ {
        Some(0x7c)
    } else if k == "home"@ {
        Some(0x73)
    } else if k == "end"@ {
        Some(0x77)
    } else if k == "page_up"@ || k == "pageup"@ {
        Some(0x74)
    } else if k == "page_down"@ || k == "pagedown"@ {
        Some(0x79)
    } else if k == "help"@ {
        Some(0x72)
    } else {
        held_code(k)
    }
}

/// The code of a key; those that edit or move are looked for first.
fn edit_keycode(k: &str) -> (r: Option<u16>)
    ensures
        r == edit_code(k@),
{
    if str_eq(k, "return") || str_eq(k, "enter") {
        Some(0x24)
    } else if str_eq(k, "tab") {
        Some(0x30)
    } else if str_eq(k, "space") {
        Some(0x31)
    } else if str_eq(k, "delete") || str_eq(k, "backspace") {
        Some(0x33)
    } else if str_eq(k, "forward_delete") || str_eq(k, "fn_delete") {
        Some(0x75)
    } else if str_eq(k, "escape") || str_eq(k, "esc") {
        Some(0x35)
    } else if str_eq(k, "up_arrow") || str_eq(k, "up") {
        Some(0x7e)
    } else if str_eq(k, "down_arrow") || str_eq(k, "down") {
        Some(0x7d)
    } else if str_eq(k, "left_arrow") || str_eq(k, "left") {
        Some(0x7b)
    } else if str_eq(k, "right_arrow") || str_eq(k, "right") {
        Some(0x7c)
    } else if str_eq(k, "home") {
        Some(0x73)
    } else if str_eq(k, "end") {
        Some(0x77)
    } else if str_eq(k, "page_up") || str_eq(k, "pageup") {
        Some(0x74)
    } else if str_eq(k, "page_down") || str_eq(k, "pagedown") {
        Some(0x79)
    } else if str_eq(k, "help") {
        Some(0x72)
    } else {
        held_keycode(k)
    }
}

/// The code of a key that is held with others, or of the sound, by its name in lower case.
pub open spec fn held_code(k: Seq<char>) -> Option<u16> {
    if k == "command"@ || k == "cmd"@ || k == "super"@ {
        Some(0x37)
    } else if k == "right_command"@ {
        Some(0x36)
    } else if k == "shift"@ {
        Some(0x38)
    } else if k == "right_shift"@ {
        Some(0x3c)
    } else if k == "option"@ || k == "alt"@ {
        Some(0x3a)
    } else if k == "right_option"@ || k == "right_alt"@ {
        Some(0x3d)
    } else if k == "control"@ || k == "ctrl"@ {
        Some(0x3b)
    } else if k == "right_control"@ || k == "right_ctrl"@ {
        Some(0x3e)
    } else if k == "function"@ || k == "fn"@ {
        Some(0x3f)
    } else if k == "caps_lock"@ {
        Some(0x39)
    } else if k == "mute"@ {
        Some(0x4a)
    } else if k == "volume_up"@ {
        Some(0x48)
    } else if k == "volume_down"@ {
        Some(0x49)
    } else {
        function_code(k)
    }
}

/// The code of a key that neither edits nor moves.
fn held_keycode(k: &str) -> (r: Option<u16>)
    ensures
        r == held_code(k@),
{
    if str_eq(k, "command") || str_eq(k, "cmd") || str_eq(k, "super") {
        Some(0x37)
    } else if str_eq(k, "right_command") {
        Some(0x36)
    } else if str_eq(k, "shift") {
        Some(0x38)
    } else if str_eq(k, "right_shift") {
        Some(0x3c)
    } else if str_eq(k, "option") || str_eq(k, "alt") {
        Some(0x3a)
    } else if str_eq(k, "right_option") || str_eq(k, "right_alt") {
        Some(0x3d)
    } else if str_eq(k, "control") || str_eq(k, "ctrl") {
        Some(0x3b)
    } else if str_eq(k, "right_control") || str_eq(k, "right_ctrl") {
        Some(0x3e)
    } else if str_eq(k, "function") || str_eq(k, "fn") {
        Some(0x3f)
    } else if str_eq(k, "caps_lock") {
        Some(0x39)
    } else if str_eq(k, "mute") {
        Some(0x4a)
    } else if str_eq(k, "volume_up") {
        Some(0x48)
    } else if str_eq(k, "volume_down") {
        Some(0x49)
    } else {
        function_keycode(k)
    }
}

/// The code of a key of the row of numbered keys, by its name in lower case.
pub open spec fn function_code(k: Seq<char>) -> Option<u16> {
    if k == "f1"@ {
        Some(0x7a)
    } else if k == "f2"@ {
        Some(0x78)
    } else if k == "f3"@ {
        Some(0x63)
    } else if k == "f4"@ {
        Some(0x76)
    } else if k == "f5"@ {
        Some(0x60)
    } else if k == "f6"@ {
        Some(0x61)
    } else if k == "f7"@ {
        Some(0x62)
    } else if k == "f8"@ {
        Some(0x64)
    } else if k == "f9"@ {
        Some(0x65)
    } else if k == "f10"@ {
        Some(0x6d)
    } else if k == "f11"@ {
        Some(0x67)
    } else if k == "f12"@ {
        Some(0x6f)
    } else if k == "f13"@ {
        Some(0x69)
    } else if k == "f14"@ {
        Some(0x6b)
    } else if k == "f15"@ {
        Some(0x71)
    } else if k == "f16"@ {
        Some(0x6a)
    } else if k == "f17"@ {
        Some(0x40)
    } else if k == "f18"@ {
        Some(0x4f)
    } else if k == "f19"@ {
        Some(0x50)
    } else if k == "f20"@ {
        Some(0x5a)
    } else {
        None
    }
}

/// The code of a function key.
fn function_keycode(k: &str) -> (r: Option<u16>)
    ensures
        r == function_code(k@),
{
    if str_eq(k, "f1") {
        Some(0x7a)
    } else if str_eq(k, "f2") {
        Some(0x78)
    } else if str_eq(k, "f3") {
        Some(0x63)
    } else if str_eq(k, "f4") {
        Some(0x76)
    } else if str_eq(k, "f5") {
        Some(0x60)
    } else if str_eq(k, "f6") {
        Some(0x61)
    } else if str_eq(k, "f7") {
        Some(0x62)
    } else if str_eq(k, "f8") {
        Some(0x64)
    } else if str_eq(k, "f9") {
        Some(0x65)
    } else if str_eq(k, "f10") {
        Some(0x6d)
    } else if str_eq(k, "f11") {
        Some(0x67)
    } else if str_eq(k, "f12") {
        Some(0x6f)
    } else if str_eq(k, "f13") {
        Some(0x69)
    } else if str_eq(k, "f14") {
        Some(0x6b)
    } else if str_eq(k, "f15") {
        Some(0x71)
    } else if str_eq(k, "f16") {
        Some(0x6a)
    } else if str_eq(k, "f17") {
        Some(0x40)
    } else if str_eq(k, "f18") {
        Some(0x4f)
    } else if str_eq(k, "f19") {
        Some(0x50)
    } else if str_eq(k, "f20") {
        Some(0x5a)
    } else {
        None
    }
}

/// The code of a key, by its name.
pub open spec fn keycode_said(name: Seq<char>) -> Option<u16> {
    edit_code(lowered(trimmed(name)))
}

/// The code of a key, by its name in any case.
pub fn resolve_keycode(name: &str) -> (r: Option<u16>)
    ensures
        r == keycode_said(name@),
{
    edit_keycode(to_lower(trim(name).as_str()).as_str())
}

/// A key that is held with others: its mark and its code.
#[derive(Debug, Clone, Copy, PartialEq, Eq, Structural)]
pub struct Modifier {
    pub flag: u64,
    pub code: u16,
}

/// A key that is held with others, by its name in lower case.
pub open spec fn modifier_named(k: Seq<char>) -> Option<Modifier> {
    if k == "command"@ || k == "cmd"@ || k == "super"@ {
        Some(Modifier { flag: FLAG_COMMAND, code: KEY_COMMAND })
    } else if k == "shift"@ {
        Some(Modifier { flag: FLAG_SHIFT, code: KEY_SHIFT })
    } else if k == "option"@ || k == "alt"@ {
        Some(Modifier { flag: FLAG_ALTERNATE, code: KEY_OPTION })
    } else if k == "control"@ || k == "ctrl"@ {
        Some(Modifier { flag: FLAG_CONTROL, code: KEY_CONTROL })
    } else {
        None
    }
}

/// A key that is held with others, by its name.
pub open spec fn modifier_said(name: Seq<char>) -> Option<Modifier> {
    modifier_named(lowered(trimmed(name)))
}

/// A key that is held with others, by its name in any case.
pub fn modifier(name: &str) -> (r: Option<Modifier>)
    ensures
        r == modifier_said(name@),
{
    let low = to_lower(trim(name).as_str());
    let k = low.as_str();
    if str_eq(k, "command") || str_eq(k, "cmd") || str_eq(k, "super") {
        Some(Modifier { flag: FLAG_COMMAND, code: KEY_COMMAND })
    } else if str_eq(k, "shift") {
        Some(Modifier { flag: FLAG_SHIFT, code: KEY_SHIFT })
    } else if str_eq(k, "option") || str_eq(k, "alt") {
        Some(Modifier { flag: FLAG_ALTERNATE, code: KEY_OPTION })
    } else if str_eq(k, "control") || str_eq(k, "ctrl") {
        Some(Modifier { flag: FLAG_CONTROL, code: KEY_CONTROL })
    } else {
        None
    }
}

/// The mark of a key that is held with others, by its name in any case.
pub fn resolve_modifier(name: &str) -> (r: Option<u64>)
    ensures
        r == (match modifier_said(name@) {
            Some(m) => Some(m.flag),
            None => None,
        }),
{
    match modifier(name) {
        Some(m) => Some(m.flag),
        None => None,
    }
}

/// A key that goes down or up while others are held.
#[derive(Debug, Clone, Copy, PartialEq, Eq, Structural)]
pub struct KeyEvent {
    pub code: u16,
    pub down: bool,
    pub flags: u64,
}

/// The marks of some keys together.
pub open spec fn flags_of(mods: Seq<Modifier>) -> u64
    decreases mods.len(),
{
    if mods.len() == 0 {
        FLAG_NONE
    } else {
        flags_of(mods.drop_last()) | mods.last().flag
    }
}

/// The events of some keys going down one by one, each with the same marks.
pub open spec fn downs(mods: Seq<Modifier>, flags: u64) -> Seq<KeyEvent> {
    mods.map_values(|m: Modifier| KeyEvent { code: m.code, down: true, flags })
}

/// The events of some keys going up again, the last one first.
pub open spec fn ups(mods: Seq<Modifier>) -> Seq<KeyEvent> {
    mods.reverse().map_values(|m: Modifier| KeyEvent { code: m.code, down: false, flags: FLAG_NONE })
}

/// The events of a key that is pressed while others are held: they go down, the key goes down and
/// up, and they go up again in the other order. All that goes down bears the marks of all that are
/// held.
pub open spec fn pressed(code: u16, mods: Seq<Modifier>) -> Seq<KeyEvent> {
    downs(mods, flags_of(mods)) + seq![
        KeyEvent { code, down: true, flags: flags_of(mods) },
        KeyEvent { code, down: false, flags: FLAG_NONE },
    ] + ups(mods)
}

/// The marks of some keys together.
fn all_flags(mods: &Vec<Modifier>) -> (r: u64)
    ensures
        r == flags_of(mods@),
{
    let mut flags: u64 = FLAG_NONE;
    let mut i: usize = 0;
    while i < mods.len()
        invariant
            i <= mods@.len(),
            flags == flags_of(mods@.take(i as int)),
        decreases mods@.len() - i,
    {
        proof {
            assert(mods@.take(i + 1).drop_last() =~= mods@.take(i as int));
        }
        flags = flags | mods[i].flag;
        i = i + 1;
    }
    proof {
        assert(mods@.take(i as int) =~= mods@);
    }
    flags
}

/// The events of a key that is pressed while others are held.
pub fn press(code: u16, mods: &Vec<Modifier>) -> (r: Vec<KeyEvent>)
    ensures
        r@ == pressed(code, mods@),
{
    let flags: u64 = all_flags(mods);
    let mut out: Vec<KeyEvent> = Vec::new();
    let mut i: usize = 0;
    while i < mods.len()
        invariant
            i <= mods@.len(),
            out@ == downs(mods@.take(i as int), flags),
        decreases mods@.len() - i,
    {
        proof {
            assert(downs(mods@.take(i + 1), flags) =~= downs(mods@.take(i as int), flags).push(KeyEvent { code: mods@[i as int].code, down: true, flags }));
        }
        out.push(KeyEvent { code: mods[i].code, down: true, flags });
        i = i + 1;
    }
    proof {
        assert(mods@.take(i as int) =~= mods@);
    }
    out.push(KeyEvent { code, down: true, flags });
    out.push(KeyEvent { code, down: false, flags: FLAG_NONE });
    let ghost front = out@;
    proof {
        assert(front + ups(mods@).take(0) =~= front);
    }
    let mut left: usize = mods.len();
    while left > 0
        invariant
            left <= mods@.len(),
            out@ == front + ups(mods@).take(mods@.len() - left),
        decreases left,
    {
        left = left - 1;
        out.push(KeyEvent { code: mods[left].code, down: false, flags: FLAG_NONE });
        proof {
            let n = mods@.len() - left;
            assert(mods@.reverse()[n - 1] == mods@[left as int]);
            assert(ups(mods@).take(n) =~= ups(mods@).take(n - 1).push(ups(mods@)[n - 1]));
            assert(out@ =~= front + ups(mods@).take(n));
        }
    }
    proof {
        assert(ups(mods@).take(mods@.len() as int) =~= ups(mods@));
        assert(out@ =~= pressed(code, mods@));
    }
    out
}

/// How often a key goes down among some events, less how often it goes up.
pub open spec fn held_by(events: Seq<KeyEvent>, code: u16) -> int
    decreases events.len(),
{
    if events.len() == 0 {
        0
    } else {
        held_by(events.drop_last(), code) + (if events.last().code != code {
            0int
        } else if events.last().down {
            1int
        } else {
            -1int
        })
    }
}

/// What is held by some events and then others is what is held by both.
proof fn lemma_held_by(a: Seq<KeyEvent>, b: Seq<KeyEvent>, code: u16)
    ensures
        held_by(a + b, code) == held_by(a, code) + held_by(b, code),
    decreases b.len(),
{
    if b.len() == 0 {
        assert(a + b =~= a);
    } else {
        assert((a + b).drop_last() =~= a + b.drop_last());
        lemma_held_by(a, b.drop_last(), code);
    }
}

/// As often as keys go down one by one, they go up again.
proof fn lemma_all_are_released(mods: Seq<Modifier>, flags: u64, code: u16)
    ensures
        held_by(downs(mods, flags), code) + held_by(ups(mods), code) == 0,
    decreases mods.len(),
{
    if mods.len() == 0 {
        assert(downs(mods, flags) =~= Seq::empty());
        assert(ups(mods) =~= Seq::empty());
    } else {
        let front = mods.drop_last();
        lemma_all_are_released(front, flags, code);
        let last = mods.last();
        assert(downs(mods, flags) =~= downs(front, flags).push(KeyEvent { code: last.code, down: true, flags }));
        assert(downs(mods, flags).drop_last() =~= downs(front, flags));
        let up = seq![KeyEvent { code: last.code, down: false, flags: FLAG_NONE }];
        assert(mods.reverse() =~= seq![last] + front.reverse());
        assert(ups(mods) =~= up + ups(front));
        lemma_held_by(up, ups(front), code);
        assert(up.drop_last() =~= Seq::empty());
        reveal_with_fuel(held_by, 2);
    }
}

/// No key stays down: each key goes up as often as it goes down.
pub proof fn law_no_key_stays_down(code: u16, mods: Seq<Modifier>, key: u16)
    ensures
        held_by(pressed(code, mods), key) == 0,
{
    let mid = seq![
        KeyEvent { code, down: true, flags: flags_of(mods) },
        KeyEvent { code, down: false, flags: FLAG_NONE },
    ];
    let before = downs(mods, flags_of(mods));
    lemma_held_by(before + mid, ups(mods), key);
    lemma_held_by(before, mid, key);
    lemma_all_are_released(mods, flags_of(mods), key);
    reveal_with_fuel(held_by, 3);
    assert(mid.drop_last().drop_last() =~= Seq::empty());
}

/// What the mouse does.
#[derive(Debug, Clone, Copy, PartialEq, Eq, Structural)]
pub enum MouseKind {
    LeftDown,
    LeftDragged,
    LeftUp,
    RightDown,
    RightUp,
    Moved,
}

/// What the mouse does, so many steps on the way from one place to another, as which click in a row.
#[derive(Debug, Clone, Copy, PartialEq, Eq, Structural)]
pub struct MouseEvent {
    pub kind: MouseKind,
    pub step: u32,
    pub click_state: i64,
}

/// How many steps there are on the way from one place to another.
pub const DRAG_STEPS: u32 = 16;

/// An event on the way from one place to another.
pub open spec fn drag_event(i: int) -> MouseEvent {
    if i == 0 {
        MouseEvent { kind: MouseKind::LeftDown, step: 0, click_state: 0 }
    } else if i < DRAG_STEPS {
        MouseEvent { kind: MouseKind::LeftDragged, step: i as u32, click_state: 0 }
    } else {
        MouseEvent { kind: MouseKind::LeftUp, step: DRAG_STEPS, click_state: 0 }
    }
}

/// The events that drag from one place to another: the button goes down at the first, moves step by
/// step, and goes up at the last.
pub fn drag() -> (r: Vec<MouseEvent>)
    ensures
        r@ == Seq::new(DRAG_STEPS as nat + 1, |i: int| drag_event(i)),
{
    let mut out: Vec<MouseEvent> = Vec::new();
    out.push(MouseEvent { kind: MouseKind::LeftDown, step: 0, click_state: 0 });
    let mut i: u32 = 1;
    while i < DRAG_STEPS
        invariant
            1 <= i <= DRAG_STEPS,
            out@ =~= Seq::new(i as nat, |k: int| drag_event(k)),
        decreases DRAG_STEPS - i,
    {
        out.push(MouseEvent { kind: MouseKind::LeftDragged, step: i, click_state: 0 });
        i = i + 1;
    }
    out.push(MouseEvent { kind: MouseKind::LeftUp, step: DRAG_STEPS, click_state: 0 });
    proof {
        assert(out@ =~= Seq::new(DRAG_STEPS as nat + 1, |k: int| drag_event(k)));
    }
    out
}

/// The events of some clicks in a row: for each the button goes down and up, and each knows which in
/// the row it is.
pub open spec fn clicks_said(n: nat) -> Seq<MouseEvent>
    decreases n,
{
    if n == 0 {
        Seq::empty()
    } else {
        clicks_said((n - 1) as nat).push(MouseEvent { kind: MouseKind::LeftDown, step: 0, click_state: n as i64 }).push(
            MouseEvent { kind: MouseKind::LeftUp, step: 0, click_state: n as i64 },
        )
    }
}

/// The events of some clicks in a row.
pub fn clicks(n: u32) -> (r: Vec<MouseEvent>)
    ensures
        r@ == clicks_said(n as nat),
{
    let mut out: Vec<MouseEvent> = Vec::new();
    let mut i: u32 = 0;
    while i < n
        invariant
            i <= n,
            out@ == clicks_said(i as nat),
        decreases n - i,
    {
        let no: i64 = i as i64 + 1;
        out.push(MouseEvent { kind: MouseKind::LeftDown, step: 0, click_state: no });
        out.push(MouseEvent { kind: MouseKind::LeftUp, step: 0, click_state: no });
        i = i + 1;
    }
    out
}

/// The events of a click with the right button.
pub fn right_click() -> (r: Vec<MouseEvent>)
    ensures
        r@ == seq![
            MouseEvent { kind: MouseKind::RightDown, step: 0, click_state: 0 },
            MouseEvent { kind: MouseKind::RightUp, step: 0, click_state: 0 },
        ],
{
    let mut out: Vec<MouseEvent> = Vec::new();
    out.push(MouseEvent { kind: MouseKind::RightDown, step: 0, click_state: 0 });
    out.push(MouseEvent { kind: MouseKind::RightUp, step: 0, click_state: 0 });
    proof {
        assert(out@ =~= seq![
            MouseEvent { kind: MouseKind::RightDown, step: 0, click_state: 0 },
            MouseEvent { kind: MouseKind::RightUp, step: 0, click_state: 0 },
        ]);
    }
    out
}

/// Each key has its own code, and only the names of a key lead to its code; every name of a key leads
/// to one. Capitals and white space round a name do not matter.
pub proof fn law_names_lead_to_their_keys(name: Seq<char>)
    ensures
        ({
            let k = lowered(trimmed(name));
            &&& keycode_said(name) is None <==> !(k == "return"@ || k == "enter"@ || k == "tab"@ || k == "space"@ || k == "delete"@ || k == "backspace"@ || k == "forward_delete"@ || k == "fn_delete"@ || k == "escape"@ || k == "esc"@ || k == "up_arrow"@ || k == "up"@ || k == "down_arrow"@ || k == "down"@ || k == "left_arrow"@ || k == "left"@ || k == "right_arrow"@ || k == "right"@ || k == "home"@ || k == "end"@ || k == "page_up"@ || k == "pageup"@ || k == "page_down"@ || k == "pagedown"@ || k == "help"@ || k == "command"@ || k == "cmd"@ || k == "super"@ || k == "right_command"@ || k == "shift"@ || k == "right_shift"@ || k == "option"@ || k == "alt"@ || k == "right_option"@ || k == "right_alt"@ || k == "control"@ || k == "ctrl"@ || k == "right_control"@ || k == "right_ctrl"@ || k == "function"@ || k == "fn"@ || k == "caps_lock"@ || k == "mute"@ || k == "volume_up"@ || k == "volume_down"@ || k == "f1"@ || k == "f2"@ || k == "f3"@ || k == "f4"@ || k == "f5"@ || k == "f6"@ || k == "f7"@ || k == "f8"@ || k == "f9"@ || k == "f10"@ || k == "f11"@ || k == "f12"@ || k == "f13"@ || k == "f14"@ || k == "f15"@ || k == "f16"@ || k == "f17"@ || k == "f18"@ || k == "f19"@ || k == "f20"@)
            &&& keycode_said(name) == Some(0x24u16) ==> k == "return"@ || k == "enter"@
            &&& keycode_said(name) == Some(0x30u16) ==> k == "tab"@
            &&& keycode_said(name) == Some(0x31u16) ==> k == "space"@
            &&& keycode_said(name) == Some(0x33u16) ==> k == "delete"@ || k == "backspace"@
            &&& keycode_said(name) == Some(0x75u16) ==> k == "forward_delete"@ || k == "fn_delete"@
            &&& keycode_said(name) == Some(0x35u16) ==> k == "escape"@ || k == "esc"@
            &&& keycode_said(name) == Some(0x7eu16) ==> k == "up_arrow"@ || k == "up"@
            &&& keycode_said(name) == Some(0x7du16) ==> k == "down_arrow"@ || k == "down"@
            &&& keycode_said(name) == Some(0x7bu16) ==> k == "left_arrow"@ || k == "left"@
            &&& keycode_said(name) == Some(0x7cu16) ==> k == "right_arrow"@ || k == "right"@
            &&& keycode_said(name) == Some(0x73u16) ==> k == "home"@
            &&& keycode_said(name) == Some(0x77u16) ==> k == "end"@
            &&& keycode_said(name) == Some(0x74u16) ==> k == "page_up"@ || k == "pageup"@
            &&& keycode_said(name) == Some(0x79u16) ==> k == "page_down"@ || k == "pagedown"@
            &&& keycode_said(name) == Some(0x72u16) ==> k == "help"@
            &&& keycode_said(name) == Some(0x37u16) ==> k == "command"@ || k == "cmd"@ || k == "super"@
            &&& keycode_said(name) == Some(0x36u16) ==> k == "right_command"@
            &&& keycode_said(name) == Some(0x38u16) ==> k == "shift"@
            &&& keycode_said(name) == Some(0x3cu16) ==> k == "right_shift"@
            &&& keycode_said(name) == Some(0x3au16) ==> k == "option"@ || k == "alt"@
            &&& keycode_said(name) == Some(0x3du16) ==> k == "right_option"@ || k == "right_alt"@
            &&& keycode_said(name) == Some(0x3bu16) ==> k == "control"@ || k == "ctrl"@
            &&& keycode_said(name) == Some(0x3eu16) ==> k == "right_control"@ || k == "right_ctrl"@
            &&& keycode_said(name) == Some(0x3fu16) ==> k == "function"@ || k == "fn"@
            &&& keycode_said(name) == Some(0x39u16) ==> k == "caps_lock"@
            &&& keycode_said(name) == Some(0x4au16) ==> k == "mute"@
            &&& keycode_said(name) == Some(0x48u16) ==> k == "volume_up"@
            &&& keycode_said(name) == Some(0x49u16) ==> k == "volume_down"@
            &&& keycode_said(name) == Some(0x7au16) ==> k == "f1"@
            &&& keycode_said(name) == Some(0x78u16) ==> k == "f2"@
            &&& keycode_said(name) == Some(0x63u16) ==> k == "f3"@
            &&& keycode_said(name) == Some(0x76u16) ==> k == "f4"@
            &&& keycode_said(name) == Some(0x60u16) ==> k == "f5"@
            &&& keycode_said(name) == Some(0x61u16) ==> k == "f6"@
            &&& keycode_said(name) == Some(0x62u16) ==> k == "f7"@
            &&& keycode_said(name) == Some(0x64u16) ==> k == "f8"@
            &&& keycode_said(name) == Some(0x65u16) ==> k == "f9"@
            &&& keycode_said(name) == Some(0x6du16) ==> k == "f10"@
            &&& keycode_said(name) == Some(0x67u16) ==> k == "f11"@
            &&& keycode_said(name) == Some(0x6fu16) ==> k == "f12"@
            &&& keycode_said(name) == Some(0x69u16) ==> k == "f13"@
            &&& keycode_said(name) == Some(0x6bu16) ==> k == "f14"@
            &&& keycode_said(name) == Some(0x71u16) ==> k == "f15"@
            &&& keycode_said(name) == Some(0x6au16) ==> k == "f16"@
            &&& keycode_said(name) == Some(0x40u16) ==> k == "f17"@
            &&& keycode_said(name) == Some(0x4fu16) ==> k == "f18"@
            &&& keycode_said(name) == Some(0x50u16) ==> k == "f19"@
            &&& keycode_said(name) == Some(0x5au16) ==> k == "f20"@
            &&& keycode_said(name) matches Some(c) ==> c == 0x24 || c == 0x30 || c == 0x31 || c == 0x33 || c == 0x75 || c == 0x35 || c == 0x7e || c == 0x7d || c == 0x7b || c == 0x7c || c == 0x73 || c == 0x77 || c == 0x74 || c == 0x79 || c == 0x72 || c == 0x37 || c == 0x36 || c == 0x38 || c == 0x3c || c == 0x3a || c == 0x3d || c == 0x3b || c == 0x3e || c == 0x3f || c == 0x39 || c == 0x4a || c == 0x48 || c == 0x49 || c == 0x7a || c == 0x78 || c == 0x63 || c == 0x76 || c == 0x60 || c == 0x61 || c == 0x62 || c == 0x64 || c == 0x65 || c == 0x6d || c == 0x67 || c == 0x6f || c == 0x69 || c == 0x6b || c == 0x71 || c == 0x6a || c == 0x40 || c == 0x4f || c == 0x50 || c == 0x5a
        }),
{
}

/// The names of the keys that are held with others lead to their flags and their codes: command,
/// shift, option and control, and no others.
pub proof fn law_names_lead_to_their_modifiers(name: Seq<char>)
    ensures
        ({
            let k = lowered(trimmed(name));
            let m = modifier_said(name);
            &&& m is None <==> !(k == "command"@ || k == "cmd"@ || k == "super"@ || k == "shift"@ || k == "option"@ || k == "alt"@ || k == "control"@ || k == "ctrl"@)
            &&& m matches Some(m) ==> {
                ||| (k == "command"@ || k == "cmd"@ || k == "super"@) && m.flag == 0x10_0000 && m.code == 0x37
                ||| k == "shift"@ && m.flag == 0x2_0000 && m.code == 0x38
                ||| (k == "option"@ || k == "alt"@) && m.flag == 0x8_0000 && m.code == 0x3a
                ||| (k == "control"@ || k == "ctrl"@) && m.flag == 0x4_0000 && m.code == 0x3b
            }
        }),
{
}

/// All flags of the keys that are held are set while a key is pressed, and no others.
pub proof fn law_all_flags_are_set(mods: Seq<Modifier>, bit: u64)
    ensures
        flags_of(mods) & bit == 0 <==> forall|i: int| 0 <= i < mods.len() ==> (#[trigger] mods[i]).flag & bit == 0,
    decreases mods.len(),
{
    if mods.len() > 0 {
        let front = mods.drop_last();
        law_all_flags_are_set(front, bit);
        let a = flags_of(front);
        let b = mods.last().flag;
        assert((a | b) & bit == 0 <==> (a & bit == 0 && b & bit == 0)) by (bit_vector);
        assert(mods[mods.len() - 1] == mods.last());
        if flags_of(mods) & bit == 0 {
            assert forall|i: int| 0 <= i < mods.len() implies (#[trigger] mods[i]).flag & bit == 0 by {
                if i < front.len() {
                    assert(front[i] == mods[i]);
                }
            }
        } else if forall|i: int| 0 <= i < mods.len() ==> (#[trigger] mods[i]).flag & bit == 0 {
            assert forall|i: int| 0 <= i < front.len() implies (#[trigger] front[i]).flag & bit == 0 by {
                assert(front[i] == mods[i]);
            }
        }
    } else {
        assert(0u64 & bit == 0) by (bit_vector);
    }
}

/// A key is pressed while the others are held: those go down first, in their order and with all their
/// flags, then the key goes down with these flags and up again, and then those go up, the last one
/// first.
pub proof fn law_key_is_pressed_under_the_others(code: u16, mods: Seq<Modifier>, i: int)
    requires
        0 <= i < mods.len(),
    ensures
        ({
            let e = pressed(code, mods);
            let n = mods.len() as int;
            &&& e.len() == 2 * n + 2
            &&& e[i].code == mods[i].code && e[i].down && e[i].flags == flags_of(mods)
            &&& e[n].code == code && e[n].down && e[n].flags == flags_of(mods)
            &&& e[n + 1].code == code && !e[n + 1].down && e[n + 1].flags == 0
            &&& e[2 * n + 1 - i].code == mods[i].code && !e[2 * n + 1 - i].down && e[2 * n + 1 - i].flags == 0
        }),
{
    let n = mods.len() as int;
    assert(ups(mods)[n - 1 - i] == (KeyEvent { code: mods.reverse()[n - 1 - i].code, down: false, flags: FLAG_NONE }));
    assert(mods.reverse()[n - 1 - i] == mods[i]);
}

/// A key that is pressed alone goes down and up without flags.
pub proof fn law_lone_key_goes_down_and_up(code: u16)
    ensures
        pressed(code, Seq::empty()) == seq![KeyEvent { code, down: true, flags: 0 }, KeyEvent { code, down: false, flags: 0 }],
{
    assert(pressed(code, Seq::empty()) =~= seq![KeyEvent { code, down: true, flags: 0 }, KeyEvent { code, down: false, flags: 0 }]);
}

/// A drag presses the left button at its start and lets it go at its end; in between the mouse goes
/// on step by step with the button down.
pub proof fn law_drag_goes_from_start_to_end(i: int)
    requires
        0 <= i <= 16,
    ensures
        drag_event(i).step == i,
        drag_event(i).click_state == 0,
        i == 0 <==> drag_event(i).kind is LeftDown,
        i == 16 <==> drag_event(i).kind is LeftUp,
        0 < i < 16 <==> drag_event(i).kind is LeftDragged,
        DRAG_STEPS == 16,
{
}

/// Of some clicks in a row each presses the left button and lets it go, and knows which in the row it
/// is.
pub proof fn law_clicks_are_counted(n: nat, i: int)
    requires
        0 <= i < n,
    ensures
        clicks_said(n).len() == 2 * n,
        clicks_said(n)[2 * i].kind is LeftDown,
        clicks_said(n)[2 * i + 1].kind is LeftUp,
        n <= i64::MAX ==> clicks_said(n)[2 * i].click_state == i + 1 && clicks_said(n)[2 * i + 1].click_state == i + 1,
        clicks_said(n)[2 * i].step == 0 && clicks_said(n)[2 * i + 1].step == 0,
    decreases n,
{
    if n > 1 {
        law_clicks_are_counted((n - 1) as nat, if i < n - 1 {
            i
        } else {
            0
        });
    } else {
        assert(clicks_said(0) =~= Seq::empty());
        reveal_with_fuel(clicks_said, 2);
    }
}

} // verus!
