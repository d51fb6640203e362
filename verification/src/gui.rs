//! The desktop: which applications may be driven, what is found on the screen, and what an action
//! comes to.

use vstd::prelude::*;
use crate::keys::{keycode_said, modifier, modifier_said, press, pressed, resolve_keycode, KeyEvent, Modifier};
use crate::picture::{is_masked, mask_rgba_inplace, picture_said, png_said, rgba_to_png_b64, PixelRect};
use crate::text::{behind, holds, opt_clone, opt_str, opt_text, str_eq, texts};

verus! {

/// How deep the elements on the screen are looked at.
pub const MAX_TREE_DEPTH: usize = 8;

/// How many elements on the screen are looked at.
pub const MAX_TREE_NODES: usize = 500;

/// How many milliseconds a key is held at most.
pub const MAX_HOLD_MS: u64 = 5000;

/// The bits of the single that stands for one.
pub const SCALE_ONE: u32 = 0x3f80_0000;

/// The role of a field for a line of text.
pub const TEXT_FIELD_ROLE: &'static str = "AXTextField";

/// The role of a field for several lines of text.
pub const TEXT_AREA_ROLE: &'static str = "AXTextArea";

/// The role within its role of a field for a password.
pub const SECURE_SUBROLE: &'static str = "AXSecureTextField";

/// The action that presses an element.
pub const PRESS_ACTION: &'static str = "AXPress";

/// The action that confirms what was entered.
pub const CONFIRM_ACTION: &'static str = "AXConfirm";

/// Two doubles, each by its bits: a place, or a size.
#[derive(Debug, Clone, Copy, PartialEq, Eq, Structural)]
pub struct Point {
    pub x: u64,
    pub y: u64,
}

/// What is to be done on the screen.
#[derive(Debug, Clone)]
pub enum GuiAction {
    FocusApp { bundle_id: String },
    Click { ax_label: Option<String>, ax_position: Option<Point> },
    TypeText { text: String },
    KeyPress { key: String, modifiers: Vec<String> },
    HoldKey { key: String, duration_ms: u64 },
    Screenshot { mask_sensitive: bool },
    InspectTree,
    Scroll { dx: i32, dy: i32, at: Option<Point> },
    Drag { from: Point, to: Point },
    DoubleClick { ax_label: Option<String>, ax_position: Option<Point> },
    TripleClick { ax_label: Option<String>, ax_position: Option<Point> },
    RightClick { ax_label: Option<String>, ax_position: Option<Point> },
    Hover { ax_position: Point },
    WindowClose { bundle_id: Option<String> },
    WindowMinimize { bundle_id: Option<String> },
    WindowZoom { bundle_id: Option<String> },
    WindowResize { bundle_id: Option<String>, size: Point },
    /// The time in seconds, as the bits of a double.
    Wait { seconds: u64 },
}

/// What came of an action.
#[derive(Debug, Clone)]
pub struct GuiResult {
    pub ok: bool,
    pub node_tree: Option<String>,
    pub screenshot_png_b64: Option<String>,
    pub screenshot_width: Option<u32>,
    pub screenshot_height: Option<u32>,
    /// How many pixels there are to a point, as the bits of a single.
    pub scale_factor: u32,
    pub error: Option<String>,
}

/// What a result says.
pub struct GuiResultV {
    pub ok: bool,
    pub node_tree: Option<Seq<char>>,
    pub screenshot_png_b64: Option<Seq<char>>,
    pub screenshot_width: Option<u32>,
    pub screenshot_height: Option<u32>,
    pub scale_factor: u32,
    pub error: Option<Seq<char>>,
}

impl View for GuiResult {
    type V = GuiResultV;

    open spec fn view(&self) -> GuiResultV {
        GuiResultV {
            ok: self.ok,
            node_tree: opt_text(self.node_tree),
            screenshot_png_b64: opt_text(self.screenshot_png_b64),
            screenshot_width: self.screenshot_width,
            screenshot_height: self.screenshot_height,
            scale_factor: self.scale_factor,
            error: opt_text(self.error),
        }
    }
}

/// The result that says nothing.
pub open spec fn no_gui_result() -> GuiResultV {
    GuiResultV {
        ok: false,
        node_tree: None,
        screenshot_png_b64: None,
        screenshot_width: None,
        screenshot_height: None,
        scale_factor: SCALE_ONE,
        error: None,
    }
}

/// The result of an action that was done.
pub open spec fn done_said() -> GuiResultV {
    GuiResultV { ok: true, ..no_gui_result() }
}

/// The result of an action that was refused.
pub open spec fn refused_said(why: Seq<char>) -> GuiResultV {
    GuiResultV { error: Some(why), ..no_gui_result() }
}

impl Default for GuiResult {
    fn default() -> (r: Self)
        ensures
            r@ == no_gui_result(),
    {
        GuiResult {
            ok: false,
            node_tree: None,
            screenshot_png_b64: None,
            screenshot_width: None,
            screenshot_height: None,
            scale_factor: SCALE_ONE,
            error: None,
        }
    }
}

impl GuiResult {
    /// The result of an action that was done.
    pub fn done() -> (r: Self)
        ensures
            r@ == done_said(),
    {
        let mut r = GuiResult::default();
        r.ok = true;
        r
    }

    /// The result of an action that was refused.
    pub fn refused(why: String) -> (r: Self)
        ensures
            r@ == refused_said(why@),
    {
        let mut r = GuiResult::default();
        r.error = Some(why);
        r
    }

    /// The result of a look at the elements on the screen.
    pub fn tree(tree: String) -> (r: Self)
        ensures
            r@ == (GuiResultV { node_tree: Some(tree@), ..done_said() }),
    {
        let mut r = GuiResult::done();
        r.node_tree = Some(tree);
        r
    }
}

/// Which applications may be driven, and whether text may be entered into a field for a password.
#[derive(Debug, Clone)]
pub struct GuiConfig {
    /// The applications that may be driven; all where there is no list.
    pub allowed_bundle_ids: Option<Vec<String>>,
    pub allow_type_into_secure: bool,
}

/// What a configuration says.
pub struct ConfigV {
    pub allowed_bundle_ids: Option<Seq<Seq<char>>>,
    pub allow_type_into_secure: bool,
}

impl View for GuiConfig {
    type V = ConfigV;

    open spec fn view(&self) -> ConfigV {
        ConfigV {
            allowed_bundle_ids: match self.allowed_bundle_ids {
                Some(v) => Some(texts(v@)),
                None => None,
            },
            allow_type_into_secure: self.allow_type_into_secure,
        }
    }
}

/// The configuration where nothing is said: three applications may be driven, and no text is entered
/// into a field for a password.
pub open spec fn default_config() -> ConfigV {
    ConfigV {
        allowed_bundle_ids: Some(seq!["com.apple.Terminal"@, "com.apple.TextEdit"@, "com.apple.finder"@]),
        allow_type_into_secure: false,
    }
}

impl Default for GuiConfig {
    fn default() -> (r: Self)
        ensures
            r@ == default_config(),
    {
        let mut ids: Vec<String> = Vec::new();
        ids.push("com.apple.Terminal".to_owned());
        ids.push("com.apple.TextEdit".to_owned());
        ids.push("com.apple.finder".to_owned());
        proof {
            assert(texts(ids@) =~= seq!["com.apple.Terminal"@, "com.apple.TextEdit"@, "com.apple.finder"@]);
        }
        GuiConfig { allowed_bundle_ids: Some(ids), allow_type_into_secure: false }
    }
}

/// Whether an application may be driven.
pub open spec fn may_drive(c: ConfigV, bundle_id: Seq<char>) -> bool {
    match c.allowed_bundle_ids {
        Some(ids) => ids.contains(bundle_id),
        None => true,
    }
}

/// Why an application may not be driven.
pub open spec fn not_allowed(bundle_id: Seq<char>) -> Seq<char> {
    "bundle-not-allowed: "@ + bundle_id
}

/// Why the application in front may not be driven, where it may not: one that is not known has no
/// name.
pub open spec fn focus_refused(c: ConfigV, focused: Option<Seq<char>>) -> Option<GuiResultV> {
    let bundle = match focused {
        Some(b) => b,
        None => Seq::empty(),
    };
    if may_drive(c, bundle) {
        None
    } else {
        Some(refused_said("focused-app-not-allowed: "@ + not_allowed(bundle)))
    }
}

/// What an optional result says.
pub open spec fn opt_result(r: Option<GuiResult>) -> Option<GuiResultV> {
    match r {
        Some(r) => Some(r@),
        None => None,
    }
}

/// The buttons of a window.
#[derive(Debug, Clone, Copy, PartialEq, Eq, Structural)]
pub enum WindowButton {
    Close,
    Minimize,
    Zoom,
}

/// The name under which a window knows a button.
pub open spec fn button_attribute(b: WindowButton) -> Seq<char> {
    match b {
        WindowButton::Close => "AXCloseButton"@,
        WindowButton::Minimize => "AXMinimizeButton"@,
        WindowButton::Zoom => "AXZoomButton"@,
    }
}

impl WindowButton {
    /// The name under which a window knows the button.
    pub fn attribute(&self) -> (r: &'static str)
        ensures
            r@ == button_attribute(*self),
    {
        match self {
            WindowButton::Close => "AXCloseButton",
            WindowButton::Minimize => "AXMinimizeButton",
            WindowButton::Zoom => "AXZoomButton",
        }
    }
}

/// What an action comes to. What goes to the application in front is done only where that may be
/// driven.
pub enum Plan<T, E, R> {
    /// It is refused.
    Refused(R),
    /// Some time passes.
    Wait { seconds: u64 },
    /// A screenshot is taken.
    Screenshot { mask_sensitive: bool },
    /// An application comes to the front.
    FocusApp { bundle_id: T },
    /// The elements on the screen are listed.
    InspectTree,
    /// A button of a window is pressed.
    Button { bundle_id: Option<T>, button: WindowButton },
    /// Something is done to the application in front.
    InFront(Input<T, E>),
}

/// What is done to the application in front.
pub enum Input<T, E> {
    Click { ax_label: Option<T>, ax_position: Option<Point> },
    TypeText { text: T },
    Keys { events: E },
    Hold { code: u16, ms: u64 },
    Scroll { dx: i32, dy: i32, at: Option<Point> },
    Drag { from: Point, to: Point },
    Clicks { ax_label: Option<T>, ax_position: Option<Point>, count: u32 },
    RightClick { ax_label: Option<T>, ax_position: Option<Point> },
    Hover { at: Point },
    /// A window is made larger or smaller: the mouse drags its lower right corner.
    Resize { bundle_id: Option<T>, size: Point },
}

/// What an action comes to, as it is said.
pub type PlanV = Plan<Seq<char>, Seq<KeyEvent>, GuiResultV>;

impl View for Input<String, Vec<KeyEvent>> {
    type V = Input<Seq<char>, Seq<KeyEvent>>;

    open spec fn view(&self) -> Input<Seq<char>, Seq<KeyEvent>> {
        match self {
            Input::Click { ax_label, ax_position } => Input::Click { ax_label: opt_text(*ax_label), ax_position: *ax_position },
            Input::TypeText { text } => Input::TypeText { text: text@ },
            Input::Keys { events } => Input::Keys { events: events@ },
            Input::Hold { code, ms } => Input::Hold { code: *code, ms: *ms },
            Input::Scroll { dx, dy, at } => Input::Scroll { dx: *dx, dy: *dy, at: *at },
            Input::Drag { from, to } => Input::Drag { from: *from, to: *to },
            Input::Clicks { ax_label, ax_position, count } => Input::Clicks { ax_label: opt_text(*ax_label), ax_position: *ax_position, count: *count },
            Input::RightClick { ax_label, ax_position } => Input::RightClick { ax_label: opt_text(*ax_label), ax_position: *ax_position },
            Input::Hover { at } => Input::Hover { at: *at },
            Input::Resize { bundle_id, size } => Input::Resize { bundle_id: opt_text(*bundle_id), size: *size },
        }
    }
}

impl View for Plan<String, Vec<KeyEvent>, GuiResult> {
    type V = Plan<Seq<char>, Seq<KeyEvent>, GuiResultV>;

    open spec fn view(&self) -> Plan<Seq<char>, Seq<KeyEvent>, GuiResultV> {
        match self {
            Plan::Refused(r) => Plan::Refused(r@),
            Plan::Wait { seconds } => Plan::Wait { seconds: *seconds },
            Plan::Screenshot { mask_sensitive } => Plan::Screenshot { mask_sensitive: *mask_sensitive },
            Plan::FocusApp { bundle_id } => Plan::FocusApp { bundle_id: bundle_id@ },
            Plan::InspectTree => Plan::InspectTree,
            Plan::Button { bundle_id, button } => Plan::Button { bundle_id: opt_text(*bundle_id), button: *button },
            Plan::InFront(i) => Plan::InFront(i@),
        }
    }
}

/// What is said of a key that there is not.
pub open spec fn unknown_key(key: Seq<char>) -> Seq<char> {
    "unknown-key: '"@ + key + "'; 支持的键名见 resolve_keycode (Return/Tab/Space/Delete/Forward_delete/Escape/Up_arrow/Down_arrow/Left_arrow/Right_arrow/Home/End/Page_up/Page_down/Help/F1-F20/Command/Shift/Option/Control/Function/Caps_lock/Mute/Volume_up/Volume_down)"@
}

/// What is said of a key that cannot be held with others.
pub open spec fn unknown_modifier(name: Seq<char>) -> Seq<char> {
    "unknown-modifier: '"@ + name + "'; 支持: command/cmd, shift, option/alt, control/ctrl"@
}

/// The keys that are held with others, by their names; or the first name that is none.
pub open spec fn modifiers_said(names: Seq<Seq<char>>) -> Result<Seq<Modifier>, Seq<char>>
    decreases names.len(),
{
    if names.len() == 0 {
        Ok(Seq::empty())
    } else {
        match modifiers_said(names.drop_last()) {
            Ok(mods) => match modifier_said(names.last()) {
                Some(m) => Ok(mods.push(m)),
                None => Err(names.last()),
            },
            Err(e) => Err(e),
        }
    }
}

/// What pressing a key while others are held comes to.
pub open spec fn key_press_said(key: Seq<char>, modifiers: Seq<Seq<char>>) -> PlanV {
    match keycode_said(key) {
        None => Plan::Refused(refused_said(unknown_key(key))),
        Some(code) => match modifiers_said(modifiers) {
            Err(name) => Plan::Refused(refused_said(unknown_modifier(name))),
            Ok(mods) => Plan::InFront(Input::Keys { events: pressed(code, mods) }),
        },
    }
}

/// What holding a key comes to: not at all is refused, and too long is cut.
pub open spec fn hold_key_said(key: Seq<char>, duration_ms: u64) -> PlanV {
    if duration_ms == 0 {
        Plan::Refused(refused_said("hold-key-duration-zero: duration_ms 必须 >0 (按住需非零时长; 单击用 key_press)"@))
    } else {
        match keycode_said(key) {
            None => Plan::Refused(refused_said(unknown_key(key))),
            Some(code) => Plan::InFront(
                Input::Hold {
                    code,
                    ms: if duration_ms > MAX_HOLD_MS {
                        MAX_HOLD_MS
                    } else {
                        duration_ms
                    },
                },
            ),
        }
    }
}

/// Why the windows of an application may not be touched, where they may not: those of the
/// application in front may be.
pub open spec fn window_refused(c: ConfigV, bundle_id: Option<Seq<char>>) -> Option<Seq<char>> {
    match bundle_id {
        Some(b) => if may_drive(c, b) {
            None
        } else {
            Some(not_allowed(b))
        },
        None => None,
    }
}

/// What pressing a button of a window comes to.
pub open spec fn button_said(c: ConfigV, bundle_id: Option<Seq<char>>, button: WindowButton) -> PlanV {
    match window_refused(c, bundle_id) {
        Some(why) => Plan::Refused(refused_said(why)),
        None => Plan::Button { bundle_id, button },
    }
}

/// What making a window larger or smaller comes to. As the mouse drags its corner, that goes to the
/// application in front.
pub open spec fn resize_said(c: ConfigV, bundle_id: Option<Seq<char>>, size: Point) -> PlanV {
    match window_refused(c, bundle_id) {
        Some(why) => Plan::Refused(refused_said(why)),
        None => Plan::InFront(Input::Resize { bundle_id, size }),
    }
}

/// What an action comes to where the screen may be driven.
pub open spec fn trusted_plan(c: ConfigV, action: GuiAction) -> PlanV {
    match action {
        GuiAction::FocusApp { bundle_id } => if may_drive(c, bundle_id@) {
            Plan::FocusApp { bundle_id: bundle_id@ }
        } else {
            Plan::Refused(refused_said(not_allowed(bundle_id@)))
        },
        GuiAction::Click { ax_label, ax_position } => Plan::InFront(Input::Click { ax_label: opt_text(ax_label), ax_position }),
        GuiAction::TypeText { text } => Plan::InFront(Input::TypeText { text: text@ }),
        GuiAction::KeyPress { key, modifiers } => key_press_said(key@, texts(modifiers@)),
        GuiAction::HoldKey { key, duration_ms } => hold_key_said(key@, duration_ms),
        GuiAction::Screenshot { mask_sensitive } => Plan::Screenshot { mask_sensitive },
        GuiAction::InspectTree => Plan::InspectTree,
        GuiAction::Scroll { dx, dy, at } => Plan::InFront(Input::Scroll { dx, dy, at }),
        GuiAction::Drag { from, to } => Plan::InFront(Input::Drag { from, to }),
        GuiAction::DoubleClick { ax_label, ax_position } => Plan::InFront(Input::Clicks { ax_label: opt_text(ax_label), ax_position, count: 2 }),
        GuiAction::TripleClick { ax_label, ax_position } => Plan::InFront(Input::Clicks { ax_label: opt_text(ax_label), ax_position, count: 3 }),
        GuiAction::RightClick { ax_label, ax_position } => Plan::InFront(Input::RightClick { ax_label: opt_text(ax_label), ax_position }),
        GuiAction::Hover { ax_position } => Plan::InFront(Input::Hover { at: ax_position }),
        GuiAction::WindowClose { bundle_id } => button_said(c, opt_text(bundle_id), WindowButton::Close),
        GuiAction::WindowMinimize { bundle_id } => button_said(c, opt_text(bundle_id), WindowButton::Minimize),
        GuiAction::WindowZoom { bundle_id } => button_said(c, opt_text(bundle_id), WindowButton::Zoom),
        GuiAction::WindowResize { bundle_id, size } => resize_said(c, opt_text(bundle_id), size),
        GuiAction::Wait { seconds } => Plan::Wait { seconds },
    }
}

/// What an action comes to: time passes and screenshots are taken whether the screen may be driven
/// or not.
pub open spec fn plan_of(c: ConfigV, action: GuiAction, ax_trusted: bool) -> PlanV {
    if ax_trusted || action is Wait || action is Screenshot {
        trusted_plan(c, action)
    } else {
        Plan::Refused(refused_said("accessibility-permission-required"@))
    }
}

/// Drives the screen.
pub struct GuiController {
    pub config: GuiConfig,
}

/// What is said of a key that has no code.
fn unknown_key_text(key: &str) -> (r: String)
    ensures
        r@ == unknown_key(key@),
{
    let mut m = behind("unknown-key: '", key);
    m.append("'; 支持的键名见 resolve_keycode (Return/Tab/Space/Delete/Forward_delete/Escape/Up_arrow/Down_arrow/Left_arrow/Right_arrow/Home/End/Page_up/Page_down/Help/F1-F20/Command/Shift/Option/Control/Function/Caps_lock/Mute/Volume_up/Volume_down)");
    m
}

/// The keys that are held with others, by their names; or the first name that is none.
fn modifiers_of(names: &Vec<String>) -> (r: Result<Vec<Modifier>, String>)
    ensures
        match r {
            Ok(v) => modifiers_said(texts(names@)) == Ok::<Seq<Modifier>, Seq<char>>(v@),
            Err(e) => modifiers_said(texts(names@)) == Err::<Seq<Modifier>, Seq<char>>(e@),
        },
{
    let mut out: Vec<Modifier> = Vec::new();
    let mut i: usize = 0;
    proof {
        assert(texts(names@).take(0) =~= Seq::empty());
    }
    while i < names.len()
        invariant
            i <= names@.len(),
            modifiers_said(texts(names@).take(i as int)) == Ok::<Seq<Modifier>, Seq<char>>(out@),
        decreases names@.len() - i,
    {
        proof {
            assert(texts(names@).take(i + 1).drop_last() =~= texts(names@).take(i as int));
            assert(texts(names@).take(i + 1).last() == names@[i as int]@);
        }
        match modifier(names[i].as_str()) {
            Some(m) => {
                out.push(m);
            },
            None => {
                proof {
                    lemma_first_unknown(texts(names@), i as int);
                }
                return Err(names[i].clone());
            },
        }
        i = i + 1;
    }
    proof {
        assert(texts(names@).take(i as int) =~= texts(names@));
    }
    Ok(out)
}

/// The first name that is none stays the first, whatever comes behind it.
proof fn lemma_first_unknown(names: Seq<Seq<char>>, i: int)
    requires
        0 <= i < names.len(),
        modifiers_said(names.take(i + 1)) is Err,
    ensures
        modifiers_said(names) == modifiers_said(names.take(i + 1)),
    decreases names.len(),
{
    if i + 1 == names.len() {
        assert(names.take(i + 1) =~= names);
    } else {
        assert(names.drop_last().take(i + 1) =~= names.take(i + 1));
        lemma_first_unknown(names.drop_last(), i);
    }
}

impl GuiController {
    /// One with the configuration where nothing is said.
    pub fn new() -> (r: Self)
        ensures
            r.config@ == default_config(),
    {
        GuiController { config: GuiConfig::default() }
    }

    /// One with this configuration.
    pub fn new_with_config(config: GuiConfig) -> (r: Self)
        ensures
            r.config == config,
    {
        GuiController { config }
    }

    /// Whether an application may be driven, or why not.
    pub fn check_bundle_allowed(&self, bundle_id: &str) -> (r: Result<(), String>)
        ensures
            match r {
                Ok(_) => may_drive(self.config@, bundle_id@),
                Err(e) => !may_drive(self.config@, bundle_id@) && e@ == not_allowed(bundle_id@),
            },
    {
        match &self.config.allowed_bundle_ids {
            None => Ok(()),
            Some(ids) => if holds(ids, bundle_id) {
                Ok(())
            } else {
                Err(behind("bundle-not-allowed: ", bundle_id))
            },
        }
    }

    /// Whether it matters which application is in front.
    pub fn asks_for_focus(&self) -> (r: bool)
        ensures
            r == (self.config@.allowed_bundle_ids is Some),
    {
        match &self.config.allowed_bundle_ids {
            None => false,
            Some(_) => true,
        }
    }

    /// Why the application in front may not be driven, where it may not.
    pub fn focused_not_allowed(&self, focused: Option<&str>) -> (r: Option<GuiResult>)
        ensures
            opt_result(r) == focus_refused(self.config@, opt_str(focused)),
    {
        proof {
            reveal_strlit("");
            assert(""@ =~= Seq::<char>::empty());
        }
        let bundle = match focused {
            Some(b) => b,
            None => "",
        };
        match self.check_bundle_allowed(bundle) {
            Ok(_) => None,
            Err(e) => Some(GuiResult::refused(behind("focused-app-not-allowed: ", e.as_str()))),
        }
    }

    /// What pressing a key while others are held comes to.
    pub fn key_press(&self, key: &str, modifiers: &Vec<String>) -> (r: Plan<String, Vec<KeyEvent>, GuiResult>)
        ensures
            r@ == key_press_said(key@, texts(modifiers@)),
    {
        let code = match resolve_keycode(key) {
            Some(c) => c,
            None => return Plan::Refused(GuiResult::refused(unknown_key_text(key))),
        };
        match modifiers_of(modifiers) {
            Ok(mods) => Plan::InFront(Input::Keys { events: press(code, &mods) }),
            Err(name) => {
                let mut m = behind("unknown-modifier: '", name.as_str());
                m.append("'; 支持: command/cmd, shift, option/alt, control/ctrl");
                Plan::Refused(GuiResult::refused(m))
            },
        }
    }

    /// What holding a key comes to.
    pub fn hold_key(&self, key: &str, duration_ms: u64) -> (r: Plan<String, Vec<KeyEvent>, GuiResult>)
        ensures
            r@ == hold_key_said(key@, duration_ms),
    {
        if duration_ms == 0 {
            return Plan::Refused(GuiResult::refused("hold-key-duration-zero: duration_ms 必须 >0 (按住需非零时长; 单击用 key_press)".to_owned()));
        }
        match resolve_keycode(key) {
            None => Plan::Refused(GuiResult::refused(unknown_key_text(key))),
            Some(code) => {
                let ms: u64 = if duration_ms > MAX_HOLD_MS {
                    MAX_HOLD_MS
                } else {
                    duration_ms
                };
                Plan::InFront(Input::Hold { code, ms })
            },
        }
    }

    /// Why the windows of an application may not be touched, where they may not.
    fn window_denied(&self, bundle_id: &Option<String>) -> (r: Option<String>)
        ensures
            opt_text(r) == window_refused(self.config@, opt_text(*bundle_id)),
    {
        match bundle_id {
            Some(b) => match self.check_bundle_allowed(b.as_str()) {
                Ok(_) => None,
                Err(e) => Some(e),
            },
            None => None,
        }
    }

    /// What pressing a button of a window comes to.
    pub fn window_button(&self, bundle_id: &Option<String>, button: WindowButton) -> (r: Plan<String, Vec<KeyEvent>, GuiResult>)
        ensures
            r@ == button_said(self.config@, opt_text(*bundle_id), button),
    {
        match self.window_denied(bundle_id) {
            Some(why) => Plan::Refused(GuiResult::refused(why)),
            None => Plan::Button { bundle_id: opt_clone(bundle_id), button },
        }
    }

    /// What making a window larger or smaller comes to.
    pub fn window_resize(&self, bundle_id: &Option<String>, size: Point) -> (r: Plan<String, Vec<KeyEvent>, GuiResult>)
        ensures
            r@ == resize_said(self.config@, opt_text(*bundle_id), size),
    {
        match self.window_denied(bundle_id) {
            Some(why) => Plan::Refused(GuiResult::refused(why)),
            None => Plan::InFront(Input::Resize { bundle_id: opt_clone(bundle_id), size }),
        }
    }

    /// What an action comes to where the screen may be driven.
    fn plan_trusted(&self, action: &GuiAction) -> (r: Plan<String, Vec<KeyEvent>, GuiResult>)
        ensures
            r@ == trusted_plan(self.config@, *action),
    {
        match action {
            GuiAction::FocusApp { bundle_id } => match self.check_bundle_allowed(bundle_id.as_str()) {
                Ok(_) => Plan::FocusApp { bundle_id: bundle_id.clone() },
                Err(e) => Plan::Refused(GuiResult::refused(e)),
            },
            GuiAction::Click { ax_label, ax_position } => Plan::InFront(Input::Click { ax_label: opt_clone(ax_label), ax_position: *ax_position }),
            GuiAction::TypeText { text } => Plan::InFront(Input::TypeText { text: text.clone() }),
            GuiAction::KeyPress { key, modifiers } => self.key_press(key.as_str(), modifiers),
            GuiAction::HoldKey { key, duration_ms } => self.hold_key(key.as_str(), *duration_ms),
            GuiAction::Screenshot { mask_sensitive } => Plan::Screenshot { mask_sensitive: *mask_sensitive },
            GuiAction::InspectTree => Plan::InspectTree,
            GuiAction::Scroll { dx, dy, at } => Plan::InFront(Input::Scroll { dx: *dx, dy: *dy, at: *at }),
            GuiAction::Drag { from, to } => Plan::InFront(Input::Drag { from: *from, to: *to }),
            GuiAction::DoubleClick { ax_label, ax_position } => Plan::InFront(Input::Clicks { ax_label: opt_clone(ax_label), ax_position: *ax_position, count: 2 }),
            GuiAction::TripleClick { ax_label, ax_position } => Plan::InFront(Input::Clicks { ax_label: opt_clone(ax_label), ax_position: *ax_position, count: 3 }),
            GuiAction::RightClick { ax_label, ax_position } => Plan::InFront(Input::RightClick { ax_label: opt_clone(ax_label), ax_position: *ax_position }),
            GuiAction::Hover { ax_position } => Plan::InFront(Input::Hover { at: *ax_position }),
            GuiAction::WindowClose { bundle_id } => self.window_button(bundle_id, WindowButton::Close),
            GuiAction::WindowMinimize { bundle_id } => self.window_button(bundle_id, WindowButton::Minimize),
            GuiAction::WindowZoom { bundle_id } => self.window_button(bundle_id, WindowButton::Zoom),
            GuiAction::WindowResize { bundle_id, size } => self.window_resize(bundle_id, *size),
            GuiAction::Wait { seconds } => Plan::Wait { seconds: *seconds },
        }
    }

    /// What an action comes to.
    pub fn execute(&self, action: &GuiAction, ax_trusted: bool) -> (r: Plan<String, Vec<KeyEvent>, GuiResult>)
        ensures
            r@ == plan_of(self.config@, *action, ax_trusted),
    {
        let needs_trust = match action {
            GuiAction::Wait { .. } => false,
            GuiAction::Screenshot { .. } => false,
            _ => true,
        };
        if needs_trust && !ax_trusted {
            return Plan::Refused(GuiResult::refused("accessibility-permission-required".to_owned()));
        }
        self.plan_trusted(action)
    }
}

impl Default for GuiController {
    fn default() -> (r: Self)
        ensures
            r.config@ == default_config(),
    {
        Self::new()
    }
}

/// An element on the screen as it is found: what it is and holds, where it is, how large, what can
/// be done with it, the elements in it, and a number to find it again by.
#[derive(Debug)]
pub struct UiElement {
    pub handle: u64,
    pub role: Option<String>,
    pub subrole: Option<String>,
    pub title: Option<String>,
    pub label: Option<String>,
    pub position: Option<Point>,
    pub size: Option<Point>,
    pub focused: Option<bool>,
    pub enabled: Option<bool>,
    pub actions: Vec<String>,
    pub children: Vec<UiElement>,
}

/// An element on the screen as it is listed.
#[derive(Debug)]
pub struct UiNode {
    pub role: String,
    pub title: Option<String>,
    pub label: Option<String>,
    pub position: Option<Point>,
    pub size: Option<Point>,
    pub enabled: Option<bool>,
    pub actions: Vec<String>,
    pub children: Vec<UiNode>,
}

/// What a listed element says.
pub struct NodeV {
    pub role: Seq<char>,
    pub title: Option<Seq<char>>,
    pub label: Option<Seq<char>>,
    pub position: Option<Point>,
    pub size: Option<Point>,
    pub enabled: Option<bool>,
    pub actions: Seq<Seq<char>>,
    pub children: Seq<NodeV>,
}

/// What a listed element says.
pub open spec fn node_said(n: UiNode) -> NodeV
    decreases n,
{
    NodeV {
        role: n.role@,
        title: opt_text(n.title),
        label: opt_text(n.label),
        position: n.position,
        size: n.size,
        enabled: n.enabled,
        actions: texts(n.actions@),
        children: nodes_said(n.children@),
    }
}

/// What some listed elements say.
pub open spec fn nodes_said(v: Seq<UiNode>) -> Seq<NodeV>
    decreases v,
{
    if v.len() == 0 {
        Seq::empty()
    } else {
        nodes_said(v.drop_last()).push(node_said(v.last()))
    }
}

/// What stands for an element that is not listed, since too many are.
pub open spec fn truncated() -> NodeV {
    NodeV {
        role: "_truncated"@,
        title: None,
        label: None,
        position: None,
        size: None,
        enabled: None,
        actions: Seq::empty(),
        children: Seq::empty(),
    }
}

/// How an element is listed this deep and behind so many others, and how many are listed then.
pub open spec fn listed(e: UiElement, depth: int, count: int) -> (NodeV, int)
    decreases MAX_TREE_DEPTH - depth, 0nat,
{
    if count >= MAX_TREE_NODES {
        (truncated(), count)
    } else {
        let (children, after) = if 0 <= depth < MAX_TREE_DEPTH {
            listed_children(e.children@, depth + 1, count + 1)
        } else {
            (Seq::empty(), count + 1)
        };
        (
            NodeV {
                role: match e.role {
                    Some(r) => r@,
                    None => "unknown"@,
                },
                title: opt_text(e.title),
                label: opt_text(e.label),
                position: e.position,
                size: e.size,
                enabled: e.enabled,
                actions: texts(e.actions@),
                children,
            },
            after,
        )
    }
}

/// How some elements are listed this deep and behind so many others, and how many are listed then:
/// no more of them once too many are.
pub open spec fn listed_children(es: Seq<UiElement>, depth: int, count: int) -> (Seq<NodeV>, int)
    decreases MAX_TREE_DEPTH - depth, es.len() + 1,
{
    if es.len() == 0 {
        (Seq::empty(), count)
    } else {
        let (front, n) = listed_children(es.drop_last(), depth, count);
        if n >= MAX_TREE_NODES {
            (front, n)
        } else {
            let (last, m) = listed(es.last(), depth, n);
            (front.push(last), m)
        }
    }
}

/// Never more elements are listed than may be.
pub proof fn law_list_is_bounded(e: UiElement, depth: int, count: int)
    requires
        0 <= depth <= MAX_TREE_DEPTH,
        0 <= count <= MAX_TREE_NODES,
    ensures
        count <= listed(e, depth, count).1 <= MAX_TREE_NODES,
    decreases MAX_TREE_DEPTH - depth, 0nat,
{
    if count < MAX_TREE_NODES && depth < MAX_TREE_DEPTH {
        lemma_children_are_bounded(e.children@, depth + 1, count + 1);
    }
}

/// Never more elements are listed than may be.
proof fn lemma_children_are_bounded(es: Seq<UiElement>, depth: int, count: int)
    requires
        0 <= depth <= MAX_TREE_DEPTH,
        0 <= count <= MAX_TREE_NODES,
    ensures
        count <= listed_children(es, depth, count).1 <= MAX_TREE_NODES,
    decreases MAX_TREE_DEPTH - depth, es.len() + 1,
{
    if es.len() > 0 {
        lemma_children_are_bounded(es.drop_last(), depth, count);
        let n = listed_children(es.drop_last(), depth, count).1;
        if n < MAX_TREE_NODES {
            law_list_is_bounded(es.last(), depth, n);
        }
    }
}

/// Lists an element and those in it, this deep and behind so many others.
pub fn build_node(e: &UiElement, depth: usize, count: &mut usize) -> (r: UiNode)
    requires
        depth <= MAX_TREE_DEPTH,
        *old(count) <= MAX_TREE_NODES,
    ensures
        (node_said(r), *final(count) as int) == listed(*e, depth as int, *old(count) as int),
        *final(count) <= MAX_TREE_NODES,
    decreases MAX_TREE_DEPTH - depth,
{
    let ghost start = *count as int;
    if *count >= MAX_TREE_NODES {
        let r = UiNode {
            role: "_truncated".to_owned(),
            title: None,
            label: None,
            position: None,
            size: None,
            enabled: None,
            actions: Vec::new(),
            children: Vec::new(),
        };
        proof {
            assert(texts(r.actions@) =~= Seq::empty());
            assert(nodes_said(r.children@) =~= Seq::empty());
        }
        return r;
    }
    *count = *count + 1;
    let role = match &e.role {
        Some(r) => r.clone(),
        None => "unknown".to_owned(),
    };
    let mut children: Vec<UiNode> = Vec::new();
    proof {
        assert(nodes_said(children@) =~= Seq::empty());
        assert(e.children@.take(0) =~= Seq::empty());
    }
    if depth < MAX_TREE_DEPTH {
        let mut i: usize = 0;
        while i < e.children.len()
            invariant
                i <= e.children@.len(),
                depth < MAX_TREE_DEPTH,
                *count <= MAX_TREE_NODES,
                (nodes_said(children@), *count as int) == listed_children(e.children@.take(i as int), depth + 1, start + 1),
            decreases e.children@.len() - i,
        {
            proof {
                assert(e.children@.take(i + 1).drop_last() =~= e.children@.take(i as int));
                assert(e.children@.take(i + 1).last() == e.children@[i as int]);
            }
            if *count < MAX_TREE_NODES {
                let ghost before = children@;
                let child = build_node(&e.children[i], depth + 1, count);
                children.push(child);
                proof {
                    assert(children@.drop_last() =~= before);
                }
            }
            i = i + 1;
        }
        proof {
            assert(e.children@.take(i as int) =~= e.children@);
        }
    }
    UiNode {
        role,
        title: opt_clone(&e.title),
        label: opt_clone(&e.label),
        position: e.position,
        size: e.size,
        enabled: e.enabled,
        actions: crate::text::copy_texts(&e.actions),
        children,
    }
}

/// An element that can be clicked on: its number, its label or else its title, and where it is.
#[derive(Debug, Clone)]
pub struct ClickCandidate {
    pub handle: u64,
    pub label: Option<String>,
    pub position: Option<Point>,
}

/// What an element that can be clicked on says.
pub struct CandidateV {
    pub handle: u64,
    pub label: Option<Seq<char>>,
    pub position: Option<Point>,
}

impl View for ClickCandidate {
    type V = CandidateV;

    open spec fn view(&self) -> CandidateV {
        CandidateV { handle: self.handle, label: opt_text(self.label), position: self.position }
    }
}

/// What some elements that can be clicked on say.
pub open spec fn candidates(v: Seq<ClickCandidate>) -> Seq<CandidateV> {
    v.map_values(|c: ClickCandidate| c@)
}

/// The label of an element, or else its title.
pub open spec fn label_of(e: UiElement) -> Option<Seq<char>> {
    match e.label {
        Some(l) => Some(l@),
        None => opt_text(e.title),
    }
}

/// Some elements that can be clicked on, and those in an element this deep: those with a label or a
/// place, the outer ones first.
pub open spec fn clickable(e: UiElement, depth: int, found: Seq<CandidateV>) -> Seq<CandidateV>
    decreases MAX_TREE_DEPTH + 1 - depth, 0nat,
{
    if depth > MAX_TREE_DEPTH || found.len() >= MAX_TREE_NODES {
        found
    } else {
        let own = if label_of(e) is Some || e.position is Some {
            found.push(CandidateV { handle: e.handle, label: label_of(e), position: e.position })
        } else {
            found
        };
        clickable_children(e.children@, depth + 1, own)
    }
}

/// Some elements that can be clicked on, and those in some elements this deep.
pub open spec fn clickable_children(es: Seq<UiElement>, depth: int, found: Seq<CandidateV>) -> Seq<CandidateV>
    decreases MAX_TREE_DEPTH + 1 - depth, es.len() + 1,
{
    if es.len() == 0 || depth > MAX_TREE_DEPTH {
        found
    } else {
        clickable(es.last(), depth, clickable_children(es.drop_last(), depth, found))
    }
}

/// Adds the elements that can be clicked on in an element this deep.
pub fn collect_clickable(e: &UiElement, depth: usize, found: &mut Vec<ClickCandidate>)
    requires
        depth <= MAX_TREE_DEPTH + 1,
    ensures
        candidates(final(found)@) == clickable(*e, depth as int, candidates(old(found)@)),
    decreases MAX_TREE_DEPTH + 1 - depth,
{
    if depth > MAX_TREE_DEPTH || found.len() >= MAX_TREE_NODES {
        return;
    }
    let label = match &e.label {
        Some(l) => Some(l.clone()),
        None => opt_clone(&e.title),
    };
    let named = match &label {
        Some(_) => true,
        None => false,
    };
    let placed = match e.position {
        Some(_) => true,
        None => false,
    };
    let ghost before = candidates(found@);
    if named || placed {
        found.push(ClickCandidate { handle: e.handle, label, position: e.position });
        proof {
            assert(candidates(found@) =~= before.push(CandidateV { handle: e.handle, label: label_of(*e), position: e.position }));
        }
    }
    let ghost own = candidates(found@);
    let mut i: usize = 0;
    proof {
        assert(e.children@.take(0) =~= Seq::empty());
    }
    while i < e.children.len()
        invariant
            i <= e.children@.len(),
            depth <= MAX_TREE_DEPTH,
            candidates(found@) == clickable_children(e.children@.take(i as int), depth + 1, own),
        decreases e.children@.len() - i,
    {
        proof {
            assert(e.children@.take(i + 1).drop_last() =~= e.children@.take(i as int));
            assert(e.children@.take(i + 1).last() == e.children@[i as int]);
            if depth == MAX_TREE_DEPTH {
                assert(clickable_children(e.children@.take(i as int), depth + 1, own) == own);
            }
        }
        collect_clickable(&e.children[i], depth + 1, found);
        i = i + 1;
    }
    proof {
        assert(e.children@.take(i as int) =~= e.children@);
    }
}

/// The place of the first candidate with a label, from a place on.
pub open spec fn labelled_at(cs: Seq<CandidateV>, label: Seq<char>, i: int) -> Option<int>
    decreases cs.len() - i,
{
    if i < 0 || i >= cs.len() {
        None
    } else if cs[i].label == Some(label) {
        Some(i)
    } else {
        labelled_at(cs, label, i + 1)
    }
}

/// The place of the first of the smallest among some keys.
pub open spec fn smallest_at(keys: Seq<i64>) -> int
    decreases keys.len(),
{
    if keys.len() <= 1 {
        0
    } else {
        let at = smallest_at(keys.drop_last());
        if keys.last() < keys[at] {
            keys.len() - 1
        } else {
            at
        }
    }
}

/// The first of the smallest keys is no larger than any, and smaller than all before it.
pub proof fn law_nearest_is_chosen(keys: Seq<i64>, k: int)
    requires
        0 <= k < keys.len(),
    ensures
        0 <= smallest_at(keys) < keys.len(),
        keys[smallest_at(keys)] <= keys[k],
        k < smallest_at(keys) ==> keys[smallest_at(keys)] < keys[k],
    decreases keys.len(),
{
    if keys.len() > 1 {
        let front = keys.drop_last();
        law_nearest_is_chosen(front, 0);
        let at = smallest_at(front);
        assert(front[at] == keys[at]);
        if k < front.len() {
            law_nearest_is_chosen(front, k);
            assert(front[k] == keys[k]);
        }
    }
}

/// The element that a click goes to: the first with the label, or else the first of those nearest to
/// a place, by how far each is from it; or why there is none.
pub open spec fn target_said(cs: Seq<CandidateV>, label: Option<Seq<char>>, far: Option<Seq<i64>>) -> Result<CandidateV, Seq<char>> {
    if cs.len() == 0 {
        Err("无可点击节点 (子树为空)"@)
    } else {
        match label {
            Some(l) if labelled_at(cs, l, 0) is Some => Ok(cs[labelled_at(cs, l, 0)->Some_0]),
            _ => match far {
                Some(keys) => Ok(cs[smallest_at(keys)]),
                None => Err("click 需 ax_label 或 ax_position"@),
            },
        }
    }
}

/// What a target says, or why there is none.
pub open spec fn target_view(r: Result<ClickCandidate, String>) -> Result<CandidateV, Seq<char>> {
    match r {
        Ok(c) => Ok(c@),
        Err(e) => Err(e@),
    }
}

/// How far some candidates are from a place.
pub open spec fn keys_of(far: Option<&Vec<i64>>) -> Option<Seq<i64>> {
    match far {
        Some(v) => Some(v@),
        None => None,
    }
}

impl ClickCandidate {
    /// The same candidate again.
    fn copy(&self) -> (r: ClickCandidate)
        ensures
            r@ == self@,
    {
        ClickCandidate { handle: self.handle, label: opt_clone(&self.label), position: self.position }
    }
}

/// Whether a label is this text.
fn is_label(label: &Option<String>, text: &str) -> (r: bool)
    ensures
        r == (opt_text(*label) == Some(text@)),
{
    match label {
        Some(l) => str_eq(l.as_str(), text),
        None => false,
    }
}

/// The element that a click goes to, or why there is none.
pub fn find_click_target(cs: &Vec<ClickCandidate>, label: Option<&str>, far: Option<&Vec<i64>>) -> (r: Result<ClickCandidate, String>)
    requires
        far matches Some(v) ==> v@.len() == cs@.len(),
    ensures
        target_view(r) == target_said(candidates(cs@), opt_str(label), keys_of(far)),
{
    proof {
        assert(candidates(cs@).len() == cs@.len());
    }
    if cs.len() == 0 {
        return Err("无可点击节点 (子树为空)".to_owned());
    }
    if let Some(l) = label {
        let mut i: usize = 0;
        while i < cs.len()
            invariant
                i <= cs@.len(),
                cs@.len() > 0,
                opt_str(label) == Some(l@),
                labelled_at(candidates(cs@), l@, 0) == labelled_at(candidates(cs@), l@, i as int),
            decreases cs@.len() - i,
        {
            proof {
                assert(candidates(cs@)[i as int] == cs@[i as int]@);
            }
            if is_label(&cs[i].label, l) {
                return Ok(cs[i].copy());
            }
            i = i + 1;
        }
    }
    match far {
        Some(keys) => {
            let mut at: usize = 0;
            let mut i: usize = 1;
            proof {
                assert(keys@.take(1).len() == 1);
            }
            while i < keys.len()
                invariant
                    1 <= i <= keys@.len(),
                    at < i,
                    at == smallest_at(keys@.take(i as int)),
                decreases keys@.len() - i,
            {
                proof {
                    let t = keys@.take(i + 1);
                    assert(t.drop_last() =~= keys@.take(i as int));
                    assert(t[at as int] == keys@[at as int]);
                }
                if keys[i] < keys[at] {
                    at = i;
                }
                i = i + 1;
            }
            proof {
                assert(keys@.take(i as int) =~= keys@);
                assert(candidates(cs@)[at as int] == cs@[at as int]@);
            }
            Ok(cs[at].copy())
        },
        None => Err("click 需 ax_label 或 ax_position".to_owned()),
    }
}

/// The place that a click goes to: the one that is given, or else that of the first element with the
/// label; or why there is none.
pub open spec fn place_said(cs: Seq<CandidateV>, label: Option<Seq<char>>, position: Option<Point>) -> Result<Point, Seq<char>> {
    match (position, label) {
        (Some(p), _) => Ok(p),
        (None, None) => Err("需 ax_label 或 ax_position 定位点击坐标"@),
        (None, Some(l)) => match target_said(cs, Some(l), None) {
            Ok(c) => match c.position {
                Some(p) => Ok(p),
                None => Err("目标节点无 AXPosition, 无法取坐标"@),
            },
            Err(e) => Err(e),
        },
    }
}

/// What a place says, or why there is none.
pub open spec fn place_view(r: Result<Point, String>) -> Result<Point, Seq<char>> {
    match r {
        Ok(p) => Ok(p),
        Err(e) => Err(e@),
    }
}

/// The place that a click goes to, or why there is none.
pub fn resolve_click_position(cs: &Vec<ClickCandidate>, label: Option<&str>, position: Option<Point>) -> (r: Result<Point, String>)
    ensures
        place_view(r) == place_said(candidates(cs@), opt_str(label), position),
{
    if let Some(p) = position {
        return Ok(p);
    }
    let l = match label {
        Some(l) => l,
        None => return Err("需 ax_label 或 ax_position 定位点击坐标".to_owned()),
    };
    match find_click_target(cs, Some(l), None) {
        Ok(c) => match c.position {
            Some(p) => Ok(p),
            None => Err("目标节点无 AXPosition, 无法取坐标".to_owned()),
        },
        Err(e) => Err(e),
    }
}

/// The result of a click on an element with these actions: one that cannot be pressed is refused.
pub open spec fn click_refused(actions: Seq<Seq<char>>) -> Option<GuiResultV> {
    if actions.contains(PRESS_ACTION@) {
        None
    } else {
        Some(refused_said("click-target-no-press-action"@))
    }
}

/// Why an element with these actions cannot be clicked on, where it cannot.
pub fn click_denied(actions: &Vec<String>) -> (r: Option<GuiResult>)
    ensures
        opt_result(r) == click_refused(texts(actions@)),
{
    if holds(actions, PRESS_ACTION) {
        None
    } else {
        Some(GuiResult::refused("click-target-no-press-action".to_owned()))
    }
}

/// Whether what was entered into an element with these actions is to be confirmed.
pub fn confirms(actions: &Vec<String>) -> (r: bool)
    ensures
        r == texts(actions@).contains(CONFIRM_ACTION@),
{
    holds(actions, CONFIRM_ACTION)
}

/// A field for text: its number, and whether it is for a password.
#[derive(Debug, Clone, Copy, PartialEq, Eq, Structural)]
pub struct TextField {
    pub handle: u64,
    pub secure: bool,
}

/// Whether an element is a field for a password.
pub open spec fn is_secure(e: UiElement) -> bool {
    opt_text(e.subrole) == Some(SECURE_SUBROLE@)
}

/// Whether an element is a field for text.
pub open spec fn is_text(e: UiElement) -> bool {
    opt_text(e.role) == Some(TEXT_FIELD_ROLE@) || opt_text(e.role) == Some(TEXT_AREA_ROLE@)
}

/// Whether an element is a field for text, and is the one in focus where that is asked for.
pub open spec fn is_sought(e: UiElement, in_focus: bool) -> bool {
    is_text(e) && (in_focus ==> e.focused == Some(true))
}

/// The first field for text in an element this deep, the outer ones first; only the one in focus
/// counts where that is asked for.
pub open spec fn first_text(e: UiElement, depth: int, in_focus: bool) -> Option<TextField>
    decreases MAX_TREE_DEPTH + 1 - depth, 0nat,
{
    if depth > MAX_TREE_DEPTH {
        None
    } else if is_sought(e, in_focus) {
        Some(TextField { handle: e.handle, secure: is_secure(e) })
    } else {
        first_text_in(e.children@, depth + 1, in_focus)
    }
}

/// The first field for text in some elements this deep.
pub open spec fn first_text_in(es: Seq<UiElement>, depth: int, in_focus: bool) -> Option<TextField>
    decreases MAX_TREE_DEPTH + 1 - depth, es.len() + 1,
{
    if es.len() == 0 || depth > MAX_TREE_DEPTH {
        None
    } else {
        match first_text_in(es.drop_last(), depth, in_focus) {
            Some(f) => Some(f),
            None => first_text(es.last(), depth, in_focus),
        }
    }
}

/// Once a field is found among the first of some elements, it is the one.
proof fn lemma_first_text_stays(es: Seq<UiElement>, depth: int, in_focus: bool, i: int)
    requires
        0 <= i <= es.len(),
        first_text_in(es.take(i), depth, in_focus) is Some,
    ensures
        first_text_in(es, depth, in_focus) == first_text_in(es.take(i), depth, in_focus),
    decreases es.len(),
{
    if i == es.len() {
        assert(es.take(i) =~= es);
    } else {
        assert(es.drop_last().take(i) =~= es.take(i));
        lemma_first_text_stays(es.drop_last(), depth, in_focus, i);
    }
}

/// Whether an element is a field for text, and is the one in focus where that is asked for.
fn is_sought_now(e: &UiElement, in_focus: bool) -> (r: bool)
    ensures
        r == is_sought(*e, in_focus),
{
    let focused = match e.focused {
        Some(f) => f,
        None => false,
    };
    (is_label(&e.role, TEXT_FIELD_ROLE) || is_label(&e.role, TEXT_AREA_ROLE)) && (!in_focus || focused)
}

/// The first field for text in an element this deep; only the one in focus counts where that is
/// asked for.
pub fn walk_first_text(e: &UiElement, depth: usize, in_focus: bool) -> (r: Option<TextField>)
    requires
        depth <= MAX_TREE_DEPTH + 1,
    ensures
        r == first_text(*e, depth as int, in_focus),
    decreases MAX_TREE_DEPTH + 1 - depth,
{
    if depth > MAX_TREE_DEPTH {
        return None;
    }
    if is_sought_now(e, in_focus) {
        return Some(TextField { handle: e.handle, secure: is_label(&e.subrole, SECURE_SUBROLE) });
    }
    let mut i: usize = 0;
    proof {
        assert(e.children@.take(0) =~= Seq::empty());
    }
    while i < e.children.len()
        invariant
            i <= e.children@.len(),
            depth <= MAX_TREE_DEPTH,
            !is_sought(*e, in_focus),
            first_text_in(e.children@.take(i as int), depth + 1, in_focus) is None,
        decreases e.children@.len() - i,
    {
        proof {
            assert(e.children@.take(i + 1).drop_last() =~= e.children@.take(i as int));
            assert(e.children@.take(i + 1).last() == e.children@[i as int]);
        }
        let f = walk_first_text(&e.children[i], depth + 1, in_focus);
        if let Some(found) = f {
            proof {
                lemma_first_text_stays(e.children@, depth + 1, in_focus, i + 1);
            }
            return Some(found);
        }
        i = i + 1;
    }
    proof {
        assert(e.children@.take(i as int) =~= e.children@);
    }
    None
}

/// The field that text is entered into: the one in focus, or else the first there is.
pub open spec fn text_target(root: UiElement) -> Option<TextField> {
    match first_text(root, 0, true) {
        Some(f) => Some(f),
        None => first_text(root, 0, false),
    }
}

/// The field that text is entered into, or why there is none.
pub fn find_text_field(root: &UiElement) -> (r: Result<TextField, String>)
    ensures
        match text_target(*root) {
            Some(f) => r matches Ok(g) && g == f,
            None => r matches Err(e) && e@ == "未找到文本输入框 (AXTextField/AXTextArea)"@,
        },
{
    if let Some(f) = walk_first_text(root, 0, true) {
        return Ok(f);
    }
    match walk_first_text(root, 0, false) {
        Some(f) => Ok(f),
        None => Err("未找到文本输入框 (AXTextField/AXTextArea)".to_owned()),
    }
}

/// Why text may not be entered into a field, where it may not.
pub open spec fn typing_refused(c: ConfigV, field: TextField) -> Option<GuiResultV> {
    if field.secure && !c.allow_type_into_secure {
        Some(refused_said("secure-text-field-rejected: 目标为密码框, type_text 被拒 (M-SEC-04)"@))
    } else {
        None
    }
}

impl GuiController {
    /// Why text may not be entered into a field, where it may not: one for a password needs a
    /// configuration that says so.
    pub fn type_text(&self, field: &TextField) -> (r: Option<GuiResult>)
        ensures
            opt_result(r) == typing_refused(self.config@, *field),
    {
        if field.secure && !self.config.allow_type_into_secure {
            Some(GuiResult::refused("secure-text-field-rejected: 目标为密码框, type_text 被拒 (M-SEC-04)".to_owned()))
        } else {
            None
        }
    }
}

/// Where some fields for passwords are and how large, with those in an element this deep and behind
/// so many others; and how many elements were looked at.
pub open spec fn secure_rects(e: UiElement, depth: int, count: int, found: Seq<(Point, Point)>) -> (Seq<(Point, Point)>, int)
    decreases MAX_TREE_DEPTH - depth, 0nat,
{
    if count >= MAX_TREE_NODES || depth >= MAX_TREE_DEPTH {
        (found, count)
    } else {
        let own = match (is_secure(e), e.position, e.size) {
            (true, Some(p), Some(s)) => found.push((p, s)),
            _ => found,
        };
        secure_rects_in(e.children@, depth + 1, count + 1, own)
    }
}

/// Where some fields for passwords are and how large, with those in some elements this deep.
pub open spec fn secure_rects_in(es: Seq<UiElement>, depth: int, count: int, found: Seq<(Point, Point)>) -> (Seq<(Point, Point)>, int)
    decreases MAX_TREE_DEPTH - depth, es.len() + 1,
{
    if es.len() == 0 || depth > MAX_TREE_DEPTH {
        (found, count)
    } else {
        let (front, n) = secure_rects_in(es.drop_last(), depth, count, found);
        secure_rects(es.last(), depth, n, front)
    }
}

/// Adds where the fields for passwords in an element this deep are, and how large.
pub fn collect_secure_rects_rec(e: &UiElement, depth: usize, count: &mut usize, found: &mut Vec<(Point, Point)>)
    requires
        depth <= MAX_TREE_DEPTH,
        *old(count) <= MAX_TREE_NODES,
    ensures
        (final(found)@, *final(count) as int) == secure_rects(*e, depth as int, *old(count) as int, old(found)@),
        *final(count) <= MAX_TREE_NODES,
    decreases MAX_TREE_DEPTH - depth,
{
    if *count >= MAX_TREE_NODES || depth >= MAX_TREE_DEPTH {
        return;
    }
    let ghost start = *count as int;
    *count = *count + 1;
    if is_label(&e.subrole, SECURE_SUBROLE) {
        if let (Some(p), Some(s)) = (e.position, e.size) {
            found.push((p, s));
        }
    }
    let ghost own = found@;
    let mut i: usize = 0;
    proof {
        assert(e.children@.take(0) =~= Seq::empty());
    }
    while i < e.children.len()
        invariant
            i <= e.children@.len(),
            depth < MAX_TREE_DEPTH,
            *count <= MAX_TREE_NODES,
            (found@, *count as int) == secure_rects_in(e.children@.take(i as int), depth + 1, start + 1, own),
        decreases e.children@.len() - i,
    {
        proof {
            assert(e.children@.take(i + 1).drop_last() =~= e.children@.take(i as int));
            assert(e.children@.take(i + 1).last() == e.children@[i as int]);
        }
        collect_secure_rects_rec(&e.children[i], depth + 1, count, found);
        i = i + 1;
    }
    proof {
        assert(e.children@.take(i as int) =~= e.children@);
    }
}

/// Where the fields for passwords in a window are, and how large.
pub fn collect_secure_rects(root: &UiElement) -> (r: Vec<(Point, Point)>)
    ensures
        r@ == secure_rects(*root, 0, 0, Seq::empty()).0,
{
    let mut found: Vec<(Point, Point)> = Vec::new();
    let mut count: usize = 0;
    collect_secure_rects_rec(root, 0, &mut count, &mut found);
    found
}

/// What was captured of the screen.
pub enum Captured {
    /// Nothing, since it may not be.
    Nothing,
    /// Something that could not be read, for this reason.
    Broken(String),
    /// Pixels, so many columns wide and rows high.
    Pixels { rgba: Vec<u8>, w: usize, h: usize },
}

/// Whether there are as many bytes as the columns and rows call for, and these are numbers that a
/// picture can have.
pub open spec fn is_whole(c: Captured) -> bool {
    c matches Captured::Pixels { rgba, w, h } ==> rgba@.len() == w * h * 4 && w <= u32::MAX && h <= u32::MAX
}

/// Whether the fields for passwords are to be blacked out of a screenshot: it must be wanted, and the
/// elements on the screen must be open to be looked at.
pub fn wants_mask(mask_sensitive: bool, ax_trusted: bool) -> (r: bool)
    ensures
        r == (mask_sensitive && ax_trusted),
{
    mask_sensitive && ax_trusted
}

/// The result of a screenshot whose picture could not be written.
pub open spec fn shot_broken(why: Seq<char>) -> GuiResultV {
    refused_said("screenshot-encode-failed: "@ + why)
}

/// The result of a screenshot with these pixels, of which some parts may have been blacked out.
pub open spec fn shot_taken(pixels: Seq<u8>, w: usize, h: usize, scale: u32) -> GuiResultV {
    match picture_said(png_said(pixels, w as u32, h as u32)) {
        Ok(text) => GuiResultV {
            ok: true,
            screenshot_png_b64: Some(text),
            screenshot_width: Some(w as u32),
            screenshot_height: Some(h as u32),
            scale_factor: scale,
            ..no_gui_result()
        },
        Err(e) => shot_broken(e),
    }
}

/// Whether a result is that of what was captured, with these parts blacked out.
pub open spec fn is_shot(r: GuiResultV, c: Captured, rects: Seq<PixelRect>, scale: u32) -> bool {
    match c {
        Captured::Nothing => r == refused_said("screen-recording-permission-required (CGWindowListCreateImage 返回 null)"@),
        Captured::Broken(e) => r == shot_broken(e@),
        Captured::Pixels { rgba, w, h } => if w == 0 || h == 0 {
            r == shot_broken("截图尺寸为 0"@)
        } else {
            exists|masked: Seq<u8>| #[trigger] is_masked(rgba@, masked, w as int, h as int, rects) && r == shot_taken(masked, w, h, scale)
        },
    }
}

/// The result of a screenshot: these parts of what was captured are blacked out before anything of it
/// is written.
pub fn screenshot(c: Captured, rects: &Vec<PixelRect>, scale: u32) -> (r: GuiResult)
    requires
        is_whole(c),
    ensures
        is_shot(r@, c, rects@, scale),
{
    match c {
        Captured::Nothing => GuiResult::refused("screen-recording-permission-required (CGWindowListCreateImage 返回 null)".to_owned()),
        Captured::Broken(e) => GuiResult::refused(behind("screenshot-encode-failed: ", e.as_str())),
        Captured::Pixels { rgba, w, h } => {
            if w == 0 || h == 0 {
                return GuiResult::refused(behind("screenshot-encode-failed: ", "截图尺寸为 0"));
            }
            let mut pixels = rgba;
            let ghost before = pixels@;
            let size: usize = pixels.len();
            mask_rgba_inplace(&mut pixels, w, h, rects);
            proof {
                assert(is_masked(before, pixels@, w as int, h as int, rects@));
                assert(size == w * h * 4);
            }
            match rgba_to_png_b64(&pixels, w as u32, h as u32) {
                Ok(text) => {
                    let mut r = GuiResult::done();
                    r.screenshot_png_b64 = Some(text);
                    r.screenshot_width = Some(w as u32);
                    r.screenshot_height = Some(h as u32);
                    r.scale_factor = scale;
                    r
                },
                Err(e) => GuiResult::refused(behind("screenshot-encode-failed: ", e.as_str())),
            }
        },
    }
}

/// A screen that may not be driven is not: an action on it is refused, but for the passing of time
/// and screenshots.
pub proof fn law_untrusted_screen_is_not_driven(c: ConfigV, action: GuiAction)
    ensures
        plan_of(c, action, false) is Refused || plan_of(c, action, false) is Wait || plan_of(c, action, false) is Screenshot,
        action is Wait ==> plan_of(c, action, false) == plan_of(c, action, true),
        action is Screenshot ==> plan_of(c, action, false) == plan_of(c, action, true),
{
}

/// An application that may not be driven is not named in what is done: it neither comes to the front
/// nor has its windows touched.
pub proof fn law_denied_application_is_left_alone(c: ConfigV, action: GuiAction, ax_trusted: bool)
    ensures
        plan_of(c, action, ax_trusted) matches Plan::FocusApp { bundle_id } ==> may_drive(c, bundle_id),
        plan_of(c, action, ax_trusted) matches Plan::Button { bundle_id: Some(b), button } ==> may_drive(c, b),
        plan_of(c, action, ax_trusted) matches Plan::InFront(Input::Resize { bundle_id: Some(b), size }) ==> may_drive(c, b),
{
}

/// Whether an action sends keys or clicks, or drags with the mouse.
pub open spec fn is_input(action: GuiAction) -> bool {
    match action {
        GuiAction::Click { .. } => true,
        GuiAction::TypeText { .. } => true,
        GuiAction::KeyPress { .. } => true,
        GuiAction::HoldKey { .. } => true,
        GuiAction::Scroll { .. } => true,
        GuiAction::Drag { .. } => true,
        GuiAction::DoubleClick { .. } => true,
        GuiAction::TripleClick { .. } => true,
        GuiAction::RightClick { .. } => true,
        GuiAction::Hover { .. } => true,
        GuiAction::WindowResize { .. } => true,
        _ => false,
    }
}

/// Keys and clicks are sent, and the mouse drags, only once the application in front may be driven;
/// where there is a list of applications, one that is not on it, or is not known, may not.
pub proof fn law_input_goes_to_allowed_applications(c: ConfigV, action: GuiAction, ax_trusted: bool, focused: Option<Seq<char>>)
    ensures
        is_input(action) ==> plan_of(c, action, ax_trusted) is InFront || plan_of(c, action, ax_trusted) is Refused,
        focus_refused(c, focused) is None ==> may_drive(c, (match focused {
            Some(b) => b,
            None => Seq::empty(),
        })),
        c.allowed_bundle_ids matches Some(ids) ==> (focused matches Some(b) ==> (focus_refused(c, focused) is None <==> ids.contains(b))),
        c.allowed_bundle_ids is None ==> focus_refused(c, focused) is None,
{
}

/// No text is entered into a field for a password unless the configuration says so.
pub proof fn law_password_fields_are_spared(c: ConfigV, field: TextField)
    ensures
        typing_refused(c, field) is None <==> !field.secure || c.allow_type_into_secure,
{
}

/// Actions that are done one behind another, with the results of those that are done. One that fails
/// does not keep the others from being done.
pub struct Batch {
    pub actions: Vec<GuiAction>,
    pub results: Vec<GuiResult>,
}

/// What a batch says.
pub struct BatchV {
    pub actions: Seq<GuiAction>,
    pub results: Seq<GuiResultV>,
}

/// What some results say.
pub open spec fn results_said(v: Seq<GuiResult>) -> Seq<GuiResultV> {
    v.map_values(|r: GuiResult| r@)
}

impl View for Batch {
    type V = BatchV;

    open spec fn view(&self) -> BatchV {
        BatchV { actions: self.actions@, results: results_said(self.results@) }
    }
}

/// The action that is due in a batch, where one is.
pub open spec fn batch_due(b: BatchV) -> Option<GuiAction> {
    if b.results.len() < b.actions.len() {
        Some(b.actions[b.results.len() as int])
    } else {
        None
    }
}

/// The result of an action from what came of it: an action that could not be carried out has the
/// reason for a result.
pub open spec fn result_of(came: Result<GuiResultV, Seq<char>>) -> GuiResultV {
    match came {
        Ok(r) => r,
        Err(e) => refused_said(e),
    }
}

/// A batch behind what came of the action that was due. A result is kept whether the action went well
/// or not.
pub open spec fn batch_next(b: BatchV, came: Result<GuiResultV, Seq<char>>) -> BatchV {
    if batch_due(b) is None {
        b
    } else {
        BatchV { results: b.results.push(result_of(came)), ..b }
    }
}

/// A batch behind what came of several actions.
pub open spec fn batch_run(b: BatchV, came: Seq<Result<GuiResultV, Seq<char>>>) -> BatchV
    decreases came.len(),
{
    if came.len() == 0 {
        b
    } else {
        batch_next(batch_run(b, came.drop_last()), came.last())
    }
}

/// A batch of which nothing is done.
pub open spec fn batch_start(actions: Seq<GuiAction>) -> BatchV {
    BatchV { actions, results: Seq::empty() }
}

/// What came of an action.
pub open spec fn came_said(c: Result<GuiResult, String>) -> Result<GuiResultV, Seq<char>> {
    match c {
        Ok(r) => Ok(r@),
        Err(e) => Err(e@),
    }
}

impl GuiController {
    /// Starts to do some actions one behind another.
    pub fn gui_action_batch(&self, actions: Vec<GuiAction>) -> (r: Batch)
        ensures
            r@ == batch_start(actions@),
    {
        let results: Vec<GuiResult> = Vec::new();
        proof {
            assert(results_said(results@) =~= Seq::empty());
        }
        Batch { actions, results }
    }
}

impl Batch {
    /// The action that is due.
    pub fn due(&self) -> (r: Option<&GuiAction>)
        ensures
            match r {
                Some(a) => batch_due(self@) == Some(*a),
                None => batch_due(self@) is None,
            },
    {
        if self.results.len() < self.actions.len() {
            Some(&self.actions[self.results.len()])
        } else {
            None
        }
    }

    /// Goes on with what came of the action that was due.
    pub fn next(self, came: Result<GuiResult, String>) -> (r: Batch)
        ensures
            r@ == batch_next(self@, came_said(came)),
    {
        let due = self.due().is_some();
        let mut b = self;
        if due {
            let res = match came {
                Ok(res) => res,
                Err(e) => GuiResult::refused(e),
            };
            let ghost before = b.results@;
            b.results.push(res);
            proof {
                assert(results_said(b.results@) =~= results_said(before).push(res@));
            }
        }
        b
    }
}

/// A batch keeps the result of each action in the order of the actions, and goes on behind one that
/// did not go well or could not be carried out.
pub proof fn law_batch_keeps_each_result(actions: Seq<GuiAction>, came: Seq<Result<GuiResultV, Seq<char>>>)
    requires
        came.len() <= actions.len(),
    ensures
        ({
            let b = batch_run(batch_start(actions), came);
            &&& b.actions == actions
            &&& b.results == came.map_values(|c: Result<GuiResultV, Seq<char>>| result_of(c))
            &&& batch_due(b) == (if came.len() < actions.len() {
                Some(actions[came.len() as int])
            } else {
                None
            })
        }),
    decreases came.len(),
{
    let f = |c: Result<GuiResultV, Seq<char>>| result_of(c);
    if came.len() > 0 {
        law_batch_keeps_each_result(actions, came.drop_last());
        assert(came.map_values(f) =~= came.drop_last().map_values(f).push(result_of(came.last())));
    } else {
        assert(came.map_values(f) =~= Seq::empty());
    }
}

/// A batch whose actions are all done stays as it is, whatever else comes.
pub proof fn law_finished_batch_is_over(b: BatchV, came: Result<GuiResultV, Seq<char>>)
    requires
        batch_due(b) is None,
    ensures
        batch_next(b, came) == b,
{
}

/// Where a label is sought among some candidates, the first that has it is found, and none where no
/// candidate has it.
pub proof fn law_first_label_is_found(cs: Seq<CandidateV>, label: Seq<char>, i: int)
    requires
        0 <= i <= cs.len(),
    ensures
        labelled_at(cs, label, i) matches Some(k) ==> i <= k < cs.len() && cs[k].label == Some(label) && forall|j: int| i <= j < k ==> (#[trigger] cs[j]).label != Some(label),
        labelled_at(cs, label, i) is None ==> forall|j: int| i <= j < cs.len() ==> (#[trigger] cs[j]).label != Some(label),
    decreases cs.len() - i,
{
    if i < cs.len() && cs[i].label != Some(label) {
        law_first_label_is_found(cs, label, i + 1);
    }
}

/// Whether a candidate has a label that was asked for.
pub open spec fn has_asked_label(c: CandidateV, label: Option<Seq<char>>) -> bool {
    label is Some && c.label == label
}

/// A click goes to the first candidate that has the label asked for, and where none has it to the one
/// nearest to the place asked for. There is no target only where there is no candidate, or where
/// none has the label and there is no place.
pub proof fn law_click_goes_to_the_label_or_the_nearest(cs: Seq<CandidateV>, label: Option<Seq<char>>, far: Option<Seq<i64>>)
    requires
        far matches Some(keys) ==> keys.len() == cs.len(),
    ensures
        ({
            let any = exists|i: int| 0 <= i < cs.len() && has_asked_label(#[trigger] cs[i], label);
            &&& target_said(cs, label, far) is Err <==> cs.len() == 0 || (!any && far is None)
            &&& target_said(cs, label, far) matches Ok(t) ==> exists|i: int|
                0 <= i < cs.len() && #[trigger] cs[i] == t && if any {
                    has_asked_label(t, label) && forall|j: int| 0 <= j < i ==> !has_asked_label(#[trigger] cs[j], label)
                } else {
                    forall|j: int| 0 <= j < cs.len() ==> far->0[i] <= #[trigger] far->0[j]
                }
        }),
{
    let any = exists|i: int| 0 <= i < cs.len() && has_asked_label(#[trigger] cs[i], label);
    if let Some(l) = label {
        law_first_label_is_found(cs, l, 0);
    }
    if cs.len() > 0 {
        if any {
            let k = labelled_at(cs, label->0, 0)->0;
            assert(has_asked_label(cs[k], label));
        } else if let Some(keys) = far {
            let at = smallest_at(keys);
            law_nearest_is_chosen(keys, 0);
            assert forall|j: int| 0 <= j < cs.len() implies keys[at] <= #[trigger] keys[j] by {
                law_nearest_is_chosen(keys, j);
            }
            assert(cs[at] == target_said(cs, label, far)->Ok_0);
        }
    }
}

/// A click at a place that is given goes there; one at a label goes to the place of the first
/// candidate that has it; and without both there is none.
pub proof fn law_place_of_a_click(cs: Seq<CandidateV>, label: Option<Seq<char>>, position: Option<Point>)
    ensures
        position is Some ==> place_said(cs, label, position) == Ok::<Point, Seq<char>>(position->0),
        position is None && label is None ==> place_said(cs, label, position) is Err,
        position is None && label is Some ==> (place_said(cs, label, position) matches Ok(at) ==> exists|i: int|
            0 <= i < cs.len() && (#[trigger] cs[i]).label == label && cs[i].position == Some(at) && forall|j: int| 0 <= j < i ==> (#[trigger] cs[j]).label != label),
        position is None && label is Some && (place_said(cs, label, position) is Err) ==> forall|i: int|
            0 <= i < cs.len() && (forall|j: int| 0 <= j < i ==> (#[trigger] cs[j]).label != label) && (#[trigger] cs[i]).label == label ==> cs[i].position is None,
{
    if let Some(l) = label {
        law_first_label_is_found(cs, l, 0);
        if position is None {
            if let Some(k) = labelled_at(cs, l, 0) {
                assert(cs[k].label == label);
                assert forall|i: int| 0 <= i < cs.len() && (forall|j: int| 0 <= j < i ==> (#[trigger] cs[j]).label != label) && (#[trigger] cs[i]).label == label implies i == k by {
                    if k < i {
                        assert(cs[k].label != label);
                    }
                }
            }
        }
    }
}

/// An application may be driven where there is no list of those that may, or it is on the list; and
/// the list that there is without another has the terminal, the text editor and the finder.
pub proof fn law_list_decides_what_may_be_driven(c: ConfigV, bundle_id: Seq<char>)
    ensures
        may_drive(c, bundle_id) <==> (c.allowed_bundle_ids matches Some(ids) ==> exists|i: int| 0 <= i < ids.len() && ids[i] == bundle_id),
        default_config().allowed_bundle_ids matches Some(ids) && ids.len() == 3 && ids[0] == "com.apple.Terminal"@ && ids[1] == "com.apple.TextEdit"@ && ids[2] == "com.apple.finder"@,
        !default_config().allow_type_into_secure,
{
}

/// Whether a plan is refused for this reason.
pub open spec fn is_refused_for(p: PlanV, why: Seq<char>) -> bool {
    p matches Plan::Refused(r) && !r.ok && r.error == Some(why) && r.node_tree is None && r.screenshot_png_b64 is None
}

/// On a screen that may be driven each action comes to what it names, with the values that it gives:
/// nothing is done in its place.
pub proof fn law_plan_is_the_action(c: ConfigV, action: GuiAction)
    ensures
        ({
            let p = plan_of(c, action, true);
            match action {
                GuiAction::FocusApp { bundle_id } => if may_drive(c, bundle_id@) {
                    p matches Plan::FocusApp { bundle_id: b } && b == bundle_id@
                } else {
                    is_refused_for(p, "bundle-not-allowed: "@ + bundle_id@)
                },
                GuiAction::Click { ax_label, ax_position } => p matches Plan::InFront(Input::Click { ax_label: l, ax_position: a }) && l == opt_text(ax_label) && a == ax_position,
                GuiAction::TypeText { text } => p matches Plan::InFront(Input::TypeText { text: t }) && t == text@,
                GuiAction::KeyPress { key, modifiers } => p == key_press_said(key@, texts(modifiers@)),
                GuiAction::HoldKey { key, duration_ms } => p == hold_key_said(key@, duration_ms),
                GuiAction::Screenshot { mask_sensitive } => p matches Plan::Screenshot { mask_sensitive: m } && m == mask_sensitive,
                GuiAction::InspectTree => p is InspectTree,
                GuiAction::Scroll { dx, dy, at } => p matches Plan::InFront(Input::Scroll { dx: x, dy: y, at: a }) && x == dx && y == dy && a == at,
                GuiAction::Drag { from, to } => p matches Plan::InFront(Input::Drag { from: f, to: t }) && f == from && t == to,
                GuiAction::DoubleClick { ax_label, ax_position } => p matches Plan::InFront(Input::Clicks { ax_label: l, ax_position: a, count }) && l == opt_text(ax_label) && a == ax_position && count == 2,
                GuiAction::TripleClick { ax_label, ax_position } => p matches Plan::InFront(Input::Clicks { ax_label: l, ax_position: a, count }) && l == opt_text(ax_label) && a == ax_position && count == 3,
                GuiAction::RightClick { ax_label, ax_position } => p matches Plan::InFront(Input::RightClick { ax_label: l, ax_position: a }) && l == opt_text(ax_label) && a == ax_position,
                GuiAction::Hover { ax_position } => p matches Plan::InFront(Input::Hover { at }) && at == ax_position,
                GuiAction::WindowClose { bundle_id } => p is Button ==> p->button is Close && p->Button_bundle_id == opt_text(bundle_id),
                GuiAction::WindowMinimize { bundle_id } => p is Button ==> p->button is Minimize && p->Button_bundle_id == opt_text(bundle_id),
                GuiAction::WindowZoom { bundle_id } => p is Button ==> p->button is Zoom && p->Button_bundle_id == opt_text(bundle_id),
                GuiAction::WindowResize { bundle_id, size } => p is InFront ==> (p matches Plan::InFront(Input::Resize { bundle_id: b, size: z }) && b == opt_text(bundle_id) && z == size),
                GuiAction::Wait { seconds } => p matches Plan::Wait { seconds: n } && n == seconds,
            }
        }),
{
}

/// A screen that may not be driven refuses for want of the permission.
pub proof fn law_missing_permission_is_named(c: ConfigV, action: GuiAction)
    requires
        !(action is Wait),
        !(action is Screenshot),
    ensures
        is_refused_for(plan_of(c, action, false), "accessibility-permission-required"@),
{
}

/// A window is touched where its application is not named, or may be driven; another is refused by
/// its name. Each button of a window has its own name.
pub proof fn law_windows_of_allowed_applications_are_touched(c: ConfigV, bundle_id: Option<Seq<char>>, button: WindowButton, size: Point)
    ensures
        bundle_id is None || may_drive(c, bundle_id->0) ==> button_said(c, bundle_id, button) == (Plan::<Seq<char>, Seq<KeyEvent>, GuiResultV>::Button { bundle_id, button }) && resize_said(c, bundle_id, size) == Plan::<Seq<char>, Seq<KeyEvent>, GuiResultV>::InFront(Input::Resize { bundle_id, size }),
        bundle_id is Some && !may_drive(c, bundle_id->0) ==> is_refused_for(button_said(c, bundle_id, button), "bundle-not-allowed: "@ + bundle_id->0) && is_refused_for(resize_said(c, bundle_id, size), "bundle-not-allowed: "@ + bundle_id->0),
        button_attribute(WindowButton::Close) == "AXCloseButton"@,
        button_attribute(WindowButton::Minimize) == "AXMinimizeButton"@,
        button_attribute(WindowButton::Zoom) == "AXZoomButton"@,
{
}

/// The keys that are held are those named, one for each name in its order, where all names are those
/// of such keys; and otherwise the first name that is none is told.
pub proof fn law_modifiers_are_those_named(names: Seq<Seq<char>>)
    ensures
        modifiers_said(names) matches Ok(mods) ==> mods.len() == names.len() && forall|i: int| 0 <= i < names.len() ==> modifier_said(#[trigger] names[i]) == Some(mods[i]),
        modifiers_said(names) matches Err(name) ==> exists|i: int|
            0 <= i < names.len() && #[trigger] names[i] == name && modifier_said(name) is None && forall|j: int| 0 <= j < i ==> modifier_said(#[trigger] names[j]) is Some,
    decreases names.len(),
{
    if names.len() > 0 {
        let front = names.drop_last();
        law_modifiers_are_those_named(front);
        match modifiers_said(front) {
            Ok(mods) => {
                assert forall|i: int| 0 <= i < front.len() implies modifier_said(#[trigger] names[i]) == Some(mods[i]) by {
                    assert(front[i] == names[i]);
                }
                assert(names[names.len() - 1] == names.last());
            },
            Err(name) => {
                let i = choose|i: int| 0 <= i < front.len() && #[trigger] front[i] == name && modifier_said(name) is None && forall|j: int| 0 <= j < i ==> modifier_said(#[trigger] front[j]) is Some;
                assert(names[i] == name);
                assert forall|j: int| 0 <= j < i implies modifier_said(#[trigger] names[j]) is Some by {
                    assert(front[j] == names[j]);
                }
            },
        }
    }
}

/// A key that there is, under keys that can be held, is pressed under them; a key that there is not
/// and a key that cannot be held are refused, the key first. A key is held as long as asked for, five
/// seconds at most, and not at all is refused.
pub proof fn law_known_keys_are_pressed(key: Seq<char>, modifiers: Seq<Seq<char>>, duration_ms: u64)
    ensures
        keycode_said(key) is None ==> key_press_said(key, modifiers) is Refused && hold_key_said(key, duration_ms) is Refused,
        keycode_said(key) is Some && modifiers_said(modifiers) is Err ==> is_refused_for(key_press_said(key, modifiers), unknown_modifier(modifiers_said(modifiers)->Err_0)),
        keycode_said(key) is None ==> is_refused_for(key_press_said(key, modifiers), unknown_key(key)),
        keycode_said(key) is Some && modifiers_said(modifiers) is Ok ==> (key_press_said(key, modifiers) matches Plan::InFront(Input::Keys { events }) && events == pressed(keycode_said(key)->0, modifiers_said(modifiers)->Ok_0)),
        duration_ms == 0 ==> hold_key_said(key, duration_ms) is Refused,
        duration_ms > 0 && keycode_said(key) is Some ==> (hold_key_said(key, duration_ms) matches Plan::InFront(Input::Hold { code, ms }) && Some(code) == keycode_said(key) && ms <= duration_ms && ms <= 5000 && (ms == duration_ms || ms == 5000)),
{
}

/// The elements below an element and itself, so many levels deep, each before those in it.
pub open spec fn walk(e: UiElement, deep: int) -> Seq<UiElement>
    decreases deep + 1, 0nat,
{
    if deep < 0 {
        Seq::empty()
    } else {
        seq![e] + walk_all(e.children@, deep - 1)
    }
}

/// Some elements and those below them, so many levels deep, each before those in it.
pub open spec fn walk_all(es: Seq<UiElement>, deep: int) -> Seq<UiElement>
    decreases deep + 1, es.len() + 1,
{
    if es.len() == 0 || deep < 0 {
        Seq::empty()
    } else {
        walk_all(es.drop_last(), deep) + walk(es.last(), deep)
    }
}

/// Whether an element is a field to enter text into, and the one in focus where that is asked for.
pub open spec fn takes_text(e: UiElement, in_focus: bool) -> bool {
    &&& e.role is Some
    &&& e.role->0@ == "AXTextField"@ || e.role->0@ == "AXTextArea"@
    &&& in_focus ==> e.focused == Some(true)
}

/// Whether an element is a field for a password.
pub open spec fn hides_text(e: UiElement) -> bool {
    e.subrole is Some && e.subrole->0@ == "AXSecureTextField"@
}

/// Whether a field is the first of some elements that takes text, or none of them does.
pub open spec fn is_first_to_take(w: Seq<UiElement>, in_focus: bool, r: Option<TextField>) -> bool {
    match r {
        None => forall|k: int| 0 <= k < w.len() ==> !takes_text(#[trigger] w[k], in_focus),
        Some(f) => exists|k: int|
            0 <= k < w.len() && takes_text(#[trigger] w[k], in_focus) && f.handle == w[k].handle && f.secure == hides_text(w[k]) && (forall|j: int| 0 <= j < k ==> !takes_text(#[trigger] w[j], in_focus)),
    }
}

/// The first of two lists one behind the other is that of the first list, or else that of the second.
proof fn lemma_first_of_two(a: Seq<UiElement>, b: Seq<UiElement>, in_focus: bool, ra: Option<TextField>, rb: Option<TextField>)
    requires
        is_first_to_take(a, in_focus, ra),
        is_first_to_take(b, in_focus, rb),
    ensures
        ra is Some ==> is_first_to_take(a + b, in_focus, ra),
        ra is None ==> is_first_to_take(a + b, in_focus, rb),
{
    let w = a + b;
    assert forall|j: int| 0 <= j < a.len() implies #[trigger] w[j] == a[j] by {}
    assert forall|j: int| a.len() <= j < w.len() implies #[trigger] w[j] == b[j - a.len()] by {}
    match ra {
        Some(f) => {
            let k = choose|k: int|
                0 <= k < a.len() && takes_text(#[trigger] a[k], in_focus) && f.handle == a[k].handle && f.secure == hides_text(a[k]) && (forall|j: int| 0 <= j < k ==> !takes_text(#[trigger] a[j], in_focus));
            assert(w[k] == a[k]);
        },
        None => match rb {
            Some(f) => {
                let k = choose|k: int|
                    0 <= k < b.len() && takes_text(#[trigger] b[k], in_focus) && f.handle == b[k].handle && f.secure == hides_text(b[k]) && (forall|j: int| 0 <= j < k ==> !takes_text(#[trigger] b[j], in_focus));
                let at = a.len() + k;
                assert(w[at] == b[k]);
                assert forall|j: int| 0 <= j < at implies !takes_text(#[trigger] w[j], in_focus) by {
                    if j >= a.len() {
                        assert(w[j] == b[j - a.len()]);
                    }
                }
            },
            None => {},
        },
    }
}

/// The first field of an element and those below it is the first on the walk.
proof fn lemma_first_text_is_first(e: UiElement, depth: int, in_focus: bool)
    requires
        0 <= depth,
    ensures
        is_first_to_take(walk(e, 8 - depth), in_focus, first_text(e, depth, in_focus)),
    decreases 9 - depth, 0nat,
{
    if depth <= 8 {
        let own = seq![e];
        lemma_first_text_in_is_first(e.children@, depth + 1, in_focus);
        if is_sought(e, in_focus) {
            assert(own[0] == e);
            assert(takes_text(own[0], in_focus));
            assert(is_first_to_take(own, in_focus, first_text(e, depth, in_focus)));
            lemma_first_of_two(own, walk_all(e.children@, 8 - depth - 1), in_focus, first_text(e, depth, in_focus), first_text_in(e.children@, depth + 1, in_focus));
        } else {
            assert(!takes_text(own[0], in_focus));
            assert(is_first_to_take(own, in_focus, None));
            lemma_first_of_two(own, walk_all(e.children@, 8 - depth - 1), in_focus, None, first_text_in(e.children@, depth + 1, in_focus));
        }
    }
}

/// The first field of some elements and those below them is the first on the walk.
proof fn lemma_first_text_in_is_first(es: Seq<UiElement>, depth: int, in_focus: bool)
    requires
        0 <= depth,
    ensures
        is_first_to_take(walk_all(es, 8 - depth), in_focus, first_text_in(es, depth, in_focus)),
    decreases 9 - depth, es.len() + 1,
{
    if es.len() > 0 && depth <= 8 {
        lemma_first_text_in_is_first(es.drop_last(), depth, in_focus);
        lemma_first_text_is_first(es.last(), depth, in_focus);
        lemma_first_of_two(walk_all(es.drop_last(), 8 - depth), walk(es.last(), 8 - depth), in_focus, first_text_in(es.drop_last(), depth, in_focus), first_text(es.last(), depth, in_focus));
    }
}

/// Text goes to the first field in focus, eight levels deep, and where none is in focus to the first
/// field.
pub proof fn law_text_goes_to_the_field_in_focus(root: UiElement)
    ensures
        (exists|k: int| 0 <= k < walk(root, 8).len() && takes_text(#[trigger] walk(root, 8)[k], true)) ==> is_first_to_take(walk(root, 8), true, text_target(root)),
        (forall|k: int| 0 <= k < walk(root, 8).len() ==> !takes_text(#[trigger] walk(root, 8)[k], true)) ==> is_first_to_take(walk(root, 8), false, text_target(root)),
{
    lemma_first_text_is_first(root, 0, true);
    lemma_first_text_is_first(root, 0, false);
}

/// The elements of a walk that can be clicked on: those with a label, a title or a place.
pub open spec fn clickable_on(w: Seq<UiElement>) -> Seq<CandidateV> {
    w.filter(|e: UiElement| e.label is Some || e.title is Some || e.position is Some).map_values(
        |e: UiElement| CandidateV {
            handle: e.handle,
            label: if e.label is Some {
                Some(e.label->0@)
            } else if e.title is Some {
                Some(e.title->0@)
            } else {
                None
            },
            position: e.position,
        },
    )
}

/// The first so many of a list.
pub open spec fn at_most<A>(s: Seq<A>, most: int) -> Seq<A> {
    if s.len() > most {
        s.take(most)
    } else {
        s
    }
}

/// What can be clicked on in two lists is what can be in each.
proof fn lemma_clickable_on_both(a: Seq<UiElement>, b: Seq<UiElement>)
    ensures
        clickable_on(a + b) == clickable_on(a) + clickable_on(b),
{
    let f = |e: UiElement| e.label is Some || e.title is Some || e.position is Some;
    Seq::filter_distributes_over_add(a, b, f);
    assert(clickable_on(a + b) =~= clickable_on(a) + clickable_on(b));
}

/// An element alone can be clicked on where it has a label, a title or a place.
proof fn lemma_clickable_on_one(e: UiElement)
    ensures
        clickable_on(Seq::empty()) == Seq::<CandidateV>::empty(),
        (label_of(e) is Some || e.position is Some) ==> clickable_on(seq![e]) == seq![CandidateV { handle: e.handle, label: label_of(e), position: e.position }],
        !(label_of(e) is Some || e.position is Some) ==> clickable_on(seq![e]) == Seq::<CandidateV>::empty(),
{
    reveal(Seq::filter);
    let f = |e: UiElement| e.label is Some || e.title is Some || e.position is Some;
    let none = Seq::<UiElement>::empty();
    let own = seq![e];
    assert(none.filter(f) =~= none);
    assert(clickable_on(none) =~= Seq::<CandidateV>::empty());
    assert(own.drop_last() =~= none);
    assert(own.last() == e);
    assert(f(e) == (label_of(e) is Some || e.position is Some));
    if f(e) {
        assert(own.filter(f) =~= own);
        assert(clickable_on(own) =~= seq![CandidateV { handle: e.handle, label: label_of(e), position: e.position }]);
    } else {
        assert(own.filter(f) =~= none);
        assert(clickable_on(own) =~= Seq::<CandidateV>::empty());
    }
}

/// What can be clicked on is what can be on the walk, up to the bound.
proof fn lemma_clickable_is_walked(e: UiElement, depth: int, found: Seq<CandidateV>)
    requires
        0 <= depth,
        found.len() <= 500,
    ensures
        clickable(e, depth, found) == at_most(found + clickable_on(walk(e, 8 - depth)), 500),
    decreases 9 - depth, 0nat,
{
    lemma_clickable_on_one(e);
    if depth > 8 {
        assert(found + clickable_on(Seq::empty()) =~= found);
    } else if found.len() >= 500 {
        assert(at_most(found + clickable_on(walk(e, 8 - depth)), 500) =~= found);
    } else {
        let own = seq![e];
        let next = if label_of(e) is Some || e.position is Some {
            found.push(CandidateV { handle: e.handle, label: label_of(e), position: e.position })
        } else {
            found
        };
        assert(found + clickable_on(own) =~= next);
        lemma_clickable_children_are_walked(e.children@, depth + 1, next);
        lemma_clickable_on_both(own, walk_all(e.children@, 8 - depth - 1));
        assert(next + clickable_on(walk_all(e.children@, 8 - depth - 1)) =~= found + clickable_on(walk(e, 8 - depth)));
    }
}

/// What can be clicked on in some elements is what can be on the walk, up to the bound.
proof fn lemma_clickable_children_are_walked(es: Seq<UiElement>, depth: int, found: Seq<CandidateV>)
    requires
        0 <= depth,
        found.len() <= 500,
    ensures
        clickable_children(es, depth, found) == at_most(found + clickable_on(walk_all(es, 8 - depth)), 500),
    decreases 9 - depth, es.len() + 1,
{
    if es.len() == 0 || depth > 8 {
        reveal(Seq::filter);
        assert(clickable_on(Seq::empty()) =~= Seq::<CandidateV>::empty());
        assert(found + clickable_on(Seq::empty()) =~= found);
    } else {
        let a = walk_all(es.drop_last(), 8 - depth);
        let b = walk(es.last(), 8 - depth);
        lemma_clickable_children_are_walked(es.drop_last(), depth, found);
        let front = clickable_children(es.drop_last(), depth, found);
        lemma_clickable_is_walked(es.last(), depth, front);
        lemma_clickable_on_both(a, b);
        assert(at_most(front + clickable_on(b), 500) =~= at_most(found + (clickable_on(a) + clickable_on(b)), 500));
    }
}

/// The elements that can be clicked on are those on the walk that have a label, a title or a place,
/// eight levels deep and five hundred of them at most.
pub proof fn law_labelled_and_placed_are_clickable(root: UiElement)
    ensures
        clickable(root, 0, Seq::empty()) == at_most(clickable_on(walk(root, 8)), 500),
{
    lemma_clickable_is_walked(root, 0, Seq::empty());
    assert(Seq::<CandidateV>::empty() + clickable_on(walk(root, 8)) =~= clickable_on(walk(root, 8)));
}

/// The places of the password fields of a walk.
pub open spec fn hidden_on(w: Seq<UiElement>) -> Seq<(Point, Point)> {
    w.filter(|e: UiElement| hides_text(e) && e.position is Some && e.size is Some).map_values(|e: UiElement| (e.position->0, e.size->0))
}

/// The password fields of two lists are those of each.
proof fn lemma_hidden_on_both(a: Seq<UiElement>, b: Seq<UiElement>)
    ensures
        hidden_on(a + b) == hidden_on(a) + hidden_on(b),
{
    let f = |e: UiElement| hides_text(e) && e.position is Some && e.size is Some;
    Seq::filter_distributes_over_add(a, b, f);
    assert(hidden_on(a + b) =~= hidden_on(a) + hidden_on(b));
}

/// An element alone is masked where it is a password field with a place and a size.
proof fn lemma_hidden_on_one(e: UiElement)
    ensures
        hidden_on(Seq::empty()) == Seq::<(Point, Point)>::empty(),
        is_secure(e) && e.position is Some && e.size is Some ==> hidden_on(seq![e]) == seq![(e.position->0, e.size->0)],
        !(is_secure(e) && e.position is Some && e.size is Some) ==> hidden_on(seq![e]) == Seq::<(Point, Point)>::empty(),
{
    reveal(Seq::filter);
    let f = |e: UiElement| hides_text(e) && e.position is Some && e.size is Some;
    let none = Seq::<UiElement>::empty();
    let own = seq![e];
    assert(none.filter(f) =~= none);
    assert(hidden_on(none) =~= Seq::<(Point, Point)>::empty());
    assert(own.drop_last() =~= none);
    assert(own.last() == e);
    assert(is_secure(e) == hides_text(e));
    if f(e) {
        assert(own.filter(f) =~= own);
        assert(hidden_on(own) =~= seq![(e.position->0, e.size->0)]);
    } else {
        assert(own.filter(f) =~= none);
        assert(hidden_on(own) =~= Seq::<(Point, Point)>::empty());
    }
}

/// The first so many of two lists one behind the other are those of the first and then of the second.
proof fn lemma_at_most_of_two<A>(a: Seq<A>, b: Seq<A>, most: int)
    requires
        0 <= most,
    ensures
        at_most(a + b, most) == at_most(a, most) + at_most(b, most - at_most(a, most).len()),
{
    assert(at_most(a + b, most) =~= at_most(a, most) + at_most(b, most - at_most(a, most).len()));
}

/// The password fields that are found are those on the walk, of as many elements as may be looked at.
proof fn lemma_hidden_is_walked(e: UiElement, depth: int, count: int, found: Seq<(Point, Point)>)
    requires
        0 <= depth,
        0 <= count <= 500,
    ensures
        secure_rects(e, depth, count, found).0 == found + hidden_on(at_most(walk(e, 7 - depth), 500 - count)),
        secure_rects(e, depth, count, found).1 == count + at_most(walk(e, 7 - depth), 500 - count).len(),
    decreases 9 - depth, 0nat,
{
    lemma_hidden_on_one(e);
    let w = walk(e, 7 - depth);
    if depth >= 8 {
        assert(found + hidden_on(Seq::empty()) =~= found);
    } else if count >= 500 {
        assert(at_most(w, 0) =~= Seq::empty());
        assert(found + hidden_on(Seq::empty()) =~= found);
    } else {
        let own = seq![e];
        let rest = walk_all(e.children@, 7 - depth - 1);
        let next = if is_secure(e) && e.position is Some && e.size is Some {
            found.push((e.position->0, e.size->0))
        } else {
            found
        };
        assert(found + hidden_on(own) =~= next);
        lemma_hidden_children_are_walked(e.children@, depth + 1, count + 1, next);
        let seen = at_most(rest, 500 - count - 1);
        lemma_at_most_of_two(own, rest, 500 - count);
        assert(at_most(own, 500 - count) == own);
        lemma_hidden_on_both(own, seen);
        assert(next + hidden_on(seen) =~= found + hidden_on(own + seen));
    }
}

/// The password fields that are found in some elements are those on the walk, of as many elements as
/// may be looked at.
proof fn lemma_hidden_children_are_walked(es: Seq<UiElement>, depth: int, count: int, found: Seq<(Point, Point)>)
    requires
        0 <= depth,
        0 <= count <= 500,
    ensures
        secure_rects_in(es, depth, count, found).0 == found + hidden_on(at_most(walk_all(es, 7 - depth), 500 - count)),
        secure_rects_in(es, depth, count, found).1 == count + at_most(walk_all(es, 7 - depth), 500 - count).len(),
    decreases 9 - depth, es.len() + 1,
{
    let none = Seq::<UiElement>::empty();
    if es.len() == 0 || depth > 8 {
        reveal(Seq::filter);
        assert(at_most(none, 500 - count) == none);
        assert(hidden_on(none) =~= Seq::<(Point, Point)>::empty());
        assert(found + hidden_on(none) =~= found);
    } else {
        lemma_hidden_children_are_walked(es.drop_last(), depth, count, found);
        let a = walk_all(es.drop_last(), 7 - depth);
        let b = walk(es.last(), 7 - depth);
        let sa = at_most(a, 500 - count);
        let front = secure_rects_in(es.drop_last(), depth, count, found).0;
        let n = secure_rects_in(es.drop_last(), depth, count, found).1;
        assert(n == count + sa.len());
        lemma_hidden_is_walked(es.last(), depth, n, front);
        let sb = at_most(b, 500 - n);
        lemma_at_most_of_two(a, b, 500 - count);
        if depth <= 7 {
            assert(walk_all(es, 7 - depth) == a + b);
        } else {
            assert(walk_all(es, 7 - depth) =~= none);
            assert(a + b =~= none);
        }
        lemma_hidden_on_both(sa, sb);
        assert(front + hidden_on(sb) =~= found + hidden_on(sa + sb));
    }
}

/// The places to be masked are those of all password fields on the walk that have a place and a size,
/// of the first five hundred elements above the eighth level.
pub proof fn law_password_fields_are_found(root: UiElement)
    ensures
        secure_rects(root, 0, 0, Seq::empty()).0 == hidden_on(at_most(walk(root, 7), 500)),
{
    lemma_hidden_is_walked(root, 0, 0, Seq::empty());
    let h = hidden_on(at_most(walk(root, 7), 500));
    assert(Seq::<(Point, Point)>::empty() + h =~= h);
}

/// A listed element shows what the element on the screen has, field by field.
pub proof fn law_listed_element_shows_what_it_is(e: UiElement, depth: int, count: int)
    requires
        0 <= depth,
    ensures
        count < 500 ==> {
            let n = listed(e, depth, count).0;
            &&& e.role is Some ==> n.role == e.role->0@
            &&& e.role is None ==> n.role == "unknown"@
            &&& e.title is Some ==> n.title == Some(e.title->0@)
            &&& e.title is None ==> n.title is None
            &&& e.label is Some ==> n.label == Some(e.label->0@)
            &&& e.label is None ==> n.label is None
            &&& n.position == e.position
            &&& n.size == e.size
            &&& n.enabled == e.enabled
            &&& n.actions.len() == e.actions@.len()
            &&& forall|i: int| 0 <= i < n.actions.len() ==> #[trigger] n.actions[i] == e.actions@[i]@
            &&& depth < 8 ==> n.children == listed_children(e.children@, depth + 1, count + 1).0
            &&& depth >= 8 ==> n.children.len() == 0
        },
        count >= 500 ==> listed(e, depth, count).0.role == "_truncated"@ && listed(e, depth, count).1 == count,
{
}

/// Whether a node lists an element at some point of the count.
pub open spec fn lists(n: NodeV, e: UiElement, depth: int) -> bool {
    exists|c: int| n == (#[trigger] listed(e, depth, c)).0
}

/// The elements in an element are listed in their order, all of them where the bound is not reached.
pub proof fn law_children_are_listed_in_order(es: Seq<UiElement>, depth: int, count: int)
    requires
        0 <= depth <= 8,
        0 <= count <= 500,
    ensures
        ({
            let (nodes, after) = listed_children(es, depth, count);
            &&& nodes.len() <= es.len()
            &&& after < 500 ==> nodes.len() == es.len()
            &&& forall|i: int| 0 <= i < nodes.len() ==> lists(#[trigger] nodes[i], es[i], depth)
        }),
    decreases es.len(),
{
    if es.len() > 0 {
        let less = es.drop_last();
        law_children_are_listed_in_order(less, depth, count);
        lemma_children_are_bounded(less, depth, count);
        let (front, n) = listed_children(less, depth, count);
        let (nodes, after) = listed_children(es, depth, count);
        assert forall|i: int| 0 <= i < nodes.len() implies lists(#[trigger] nodes[i], es[i], depth) by {
            if i < front.len() {
                assert(front[i] == nodes[i]);
                assert(less[i] == es[i]);
                assert(lists(front[i], less[i], depth));
            } else {
                assert(nodes[i] == listed(es[i], depth, n).0);
            }
        }
        if n < 500 {
            law_list_is_bounded(es.last(), depth, n);
        }
    }
}

/// Listed elements are seen as they are, each with those in it.
pub proof fn law_nodes_are_seen_as_they_are(n: UiNode, v: Seq<UiNode>)
    ensures
        node_said(n).role == n.role@,
        node_said(n).title == opt_text(n.title),
        node_said(n).label == opt_text(n.label),
        node_said(n).position == n.position,
        node_said(n).size == n.size,
        node_said(n).enabled == n.enabled,
        node_said(n).actions == texts(n.actions@),
        node_said(n).children == nodes_said(n.children@),
        nodes_said(v).len() == v.len(),
        forall|i: int| 0 <= i < v.len() ==> #[trigger] nodes_said(v)[i] == node_said(v[i]),
    decreases v.len(),
{
    if v.len() > 0 {
        law_nodes_are_seen_as_they_are(n, v.drop_last());
    }
}

/// A result is seen as it is.
pub proof fn law_results_are_seen_as_they_are(r: GuiResult, c: ClickCandidate)
    ensures
        r@.ok == r.ok,
        r@.node_tree is Some <==> r.node_tree is Some,
        r.node_tree is Some ==> r@.node_tree == Some(r.node_tree->0@),
        r@.screenshot_png_b64 is Some <==> r.screenshot_png_b64 is Some,
        r.screenshot_png_b64 is Some ==> r@.screenshot_png_b64 == Some(r.screenshot_png_b64->0@),
        r@.screenshot_width == r.screenshot_width,
        r@.screenshot_height == r.screenshot_height,
        r@.scale_factor == r.scale_factor,
        r@.error is Some <==> r.error is Some,
        r.error is Some ==> r@.error == Some(r.error->0@),
        c@.handle == c.handle,
        c@.position == c.position,
        c@.label is Some <==> c.label is Some,
        c.label is Some ==> c@.label == Some(c.label->0@),
{
}

/// What is done is told without an error, what is refused with its reason, and neither shows the
/// screen.
pub proof fn law_results_tell_what_came_of_it(why: Seq<char>, came: Result<GuiResultV, Seq<char>>)
    ensures
        done_said().ok && done_said().error is None,
        !refused_said(why).ok && refused_said(why).error == Some(why),
        done_said().node_tree is None && refused_said(why).node_tree is None,
        done_said().screenshot_png_b64 is None && refused_said(why).screenshot_png_b64 is None,
        done_said().screenshot_width is None && done_said().screenshot_height is None,
        refused_said(why).screenshot_width is None && refused_said(why).screenshot_height is None,
        done_said().scale_factor == 0x3f80_0000 && refused_said(why).scale_factor == 0x3f80_0000,
        came matches Ok(r) ==> result_of(came) == r,
        came matches Err(e) ==> result_of(came) == refused_said(e),
{
}

/// Without a configuration three applications may be driven and no password field is typed into.
pub proof fn law_few_applications_are_allowed_at_first(bundle_id: Seq<char>, field: TextField)
    ensures
        may_drive(default_config(), bundle_id) <==> bundle_id == "com.apple.Terminal"@ || bundle_id == "com.apple.TextEdit"@ || bundle_id == "com.apple.finder"@,
        field.secure ==> typing_refused(default_config(), field) is Some,
{
    let ids = seq!["com.apple.Terminal"@, "com.apple.TextEdit"@, "com.apple.finder"@];
    assert(ids[0] == "com.apple.Terminal"@ && ids[1] == "com.apple.TextEdit"@ && ids[2] == "com.apple.finder"@);
}

/// The application in focus is driven only where it may be; one that is not known is one without a
/// name.
pub proof fn law_application_in_focus_is_judged(c: ConfigV, focused: Option<Seq<char>>)
    ensures
        ({
            let name = if focused is Some {
                focused->0
            } else {
                Seq::empty()
            };
            &&& focus_refused(c, focused) is None <==> may_drive(c, name)
            &&& focus_refused(c, focused) matches Some(r) ==> !r.ok && r.error == Some("focused-app-not-allowed: "@ + ("bundle-not-allowed: "@ + name))
        }),
{
}

/// Every button of a window is found by its own attribute.
pub proof fn law_buttons_have_their_attributes(b: WindowButton)
    ensures
        b is Close ==> button_attribute(b) == "AXCloseButton"@,
        b is Minimize ==> button_attribute(b) == "AXMinimizeButton"@,
        b is Zoom ==> button_attribute(b) == "AXZoomButton"@,
{
}

/// Only an element that can be pressed is clicked on.
pub proof fn law_only_what_can_be_pressed_is_clicked(actions: Seq<Seq<char>>)
    ensures
        click_refused(actions) is None <==> actions.contains("AXPress"@),
        click_refused(actions) matches Some(r) ==> !r.ok && r.error == Some("click-target-no-press-action"@),
{
}

/// A picture of the screen has the size and the scale that it was taken with, and is of the pixels
/// with the password fields masked; without pixels it is refused with the reason.
pub proof fn law_picture_is_of_the_masked_screen(r: GuiResultV, c: Captured, rects: Seq<PixelRect>, scale: u32)
    requires
        is_shot(r, c, rects, scale),
    ensures
        r.ok ==> {
            &&& c is Pixels
            &&& r.screenshot_width == Some(c->w as u32)
            &&& r.screenshot_height == Some(c->h as u32)
            &&& r.scale_factor == scale
            &&& r.error is None
            &&& r.node_tree is None
            &&& exists|masked: Seq<u8>| #[trigger] is_masked(c->rgba@, masked, c->w as int, c->h as int, rects) && picture_said(png_said(masked, c->w as u32, c->h as u32)) == Ok::<Seq<char>, Seq<char>>(r.screenshot_png_b64->0)
        },
        !r.ok ==> r.error is Some && r.screenshot_png_b64 is None,
        c is Nothing ==> !r.ok,
        c is Broken ==> r.error == Some("screenshot-encode-failed: "@ + c->Broken_0@),
        c matches Captured::Pixels { rgba, w, h } && (w == 0 || h == 0) ==> !r.ok,
{
}

} // verus!
