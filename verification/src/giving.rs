//! How an input is given to the application in front: what is asked for before anything is done to
//! the screen, and in which order.

use vstd::prelude::*;
use crate::gui::{candidates, click_denied, click_refused, clickable, collect_clickable, confirms, done_said, find_click_target, find_text_field, focus_refused, law_click_goes_to_the_label_or_the_nearest, law_place_of_a_click, place_said, resolve_click_position, target_said, text_target, typing_refused, CandidateV, ClickCandidate, ConfigV, GuiController, GuiResult, GuiResultV, Input, Point, UiElement, CONFIRM_ACTION};
use crate::keys::KeyEvent;
use crate::text::{opt_str, opt_text, texts};

verus! {

/// What is done to the screen.
pub enum Act<T, E> {
    /// An element is pressed.
    Press { handle: u64 },
    /// Text is entered into a field.
    SetValue { handle: u64, text: T },
    /// What was entered into a field is confirmed.
    Confirm { handle: u64 },
    Keys { events: E },
    Hold { code: u16, ms: u64 },
    Scroll { dx: i32, dy: i32, at: Option<Point> },
    Drag { from: Point, to: Point },
    Clicks { at: Point, count: u32 },
    RightClick { at: Point },
    Hover { at: Point },
}

/// Where an input stands: each stage but the last two waits for one answer.
pub enum GiveStage<T, E, C, R> {
    /// From where to where does the corner of a window go for the window to have this size?
    Corner { bundle_id: Option<T>, size: Point },
    /// Which application is in front?
    Focus { input: Input<T, E> },
    /// What is in the window in front?
    Window { input: Input<T, E> },
    /// How far is each of these elements from a place?
    Far { found: C, label: Option<T>, at: Point },
    /// What actions does the element to be clicked on know?
    Actions { handle: u64 },
    /// How did this go?
    Give { act: Act<T, E> },
    /// What actions does the field know that text was entered into?
    Entered { handle: u64 },
    /// The input has this result.
    Over(R),
    /// The input has failed for this reason.
    Failed(T),
}

/// A stage as it is said.
pub type GiveV = GiveStage<Seq<char>, Seq<KeyEvent>, Seq<CandidateV>, GuiResultV>;

/// A stage with its values.
pub type Giving = GiveStage<String, Vec<KeyEvent>, Vec<ClickCandidate>, GuiResult>;

impl View for Act<String, Vec<KeyEvent>> {
    type V = Act<Seq<char>, Seq<KeyEvent>>;

    open spec fn view(&self) -> Act<Seq<char>, Seq<KeyEvent>> {
        match self {
            Act::Press { handle } => Act::Press { handle: *handle },
            Act::SetValue { handle, text } => Act::SetValue { handle: *handle, text: text@ },
            Act::Confirm { handle } => Act::Confirm { handle: *handle },
            Act::Keys { events } => Act::Keys { events: events@ },
            Act::Hold { code, ms } => Act::Hold { code: *code, ms: *ms },
            Act::Scroll { dx, dy, at } => Act::Scroll { dx: *dx, dy: *dy, at: *at },
            Act::Drag { from, to } => Act::Drag { from: *from, to: *to },
            Act::Clicks { at, count } => Act::Clicks { at: *at, count: *count },
            Act::RightClick { at } => Act::RightClick { at: *at },
            Act::Hover { at } => Act::Hover { at: *at },
        }
    }
}

impl View for GiveStage<String, Vec<KeyEvent>, Vec<ClickCandidate>, GuiResult> {
    type V = GiveStage<Seq<char>, Seq<KeyEvent>, Seq<CandidateV>, GuiResultV>;

    open spec fn view(&self) -> GiveStage<Seq<char>, Seq<KeyEvent>, Seq<CandidateV>, GuiResultV> {
        match self {
            GiveStage::Corner { bundle_id, size } => GiveStage::Corner { bundle_id: opt_text(*bundle_id), size: *size },
            GiveStage::Focus { input } => GiveStage::Focus { input: input@ },
            GiveStage::Window { input } => GiveStage::Window { input: input@ },
            GiveStage::Far { found, label, at } => GiveStage::Far { found: candidates(found@), label: opt_text(*label), at: *at },
            GiveStage::Actions { handle } => GiveStage::Actions { handle: *handle },
            GiveStage::Give { act } => GiveStage::Give { act: act@ },
            GiveStage::Entered { handle } => GiveStage::Entered { handle: *handle },
            GiveStage::Over(r) => GiveStage::Over(r@),
            GiveStage::Failed(e) => GiveStage::Failed(e@),
        }
    }
}

/// What the screen answers to a stage.
pub enum GiveAnswer {
    /// The way that the corner of a window goes.
    Way { from: Point, to: Point },
    /// The application in front, where it is known.
    Focused(Option<String>),
    /// The window in front.
    Seen(UiElement),
    /// How far each element is.
    Distances(Vec<i64>),
    /// The actions that an element knows.
    Knows(Vec<String>),
    /// It was done.
    Done,
    /// It could not be answered or done, for this reason.
    Fault(String),
}

/// What an answer says.
pub enum GiveAnswerV {
    Way { from: Point, to: Point },
    Focused(Option<Seq<char>>),
    Seen(UiElement),
    Distances(Seq<i64>),
    Knows(Seq<Seq<char>>),
    Done,
    Fault(Seq<char>),
}

impl View for GiveAnswer {
    type V = GiveAnswerV;

    open spec fn view(&self) -> GiveAnswerV {
        match self {
            GiveAnswer::Way { from, to } => GiveAnswerV::Way { from: *from, to: *to },
            GiveAnswer::Focused(b) => GiveAnswerV::Focused(opt_text(*b)),
            GiveAnswer::Seen(e) => GiveAnswerV::Seen(*e),
            GiveAnswer::Distances(v) => GiveAnswerV::Distances(v@),
            GiveAnswer::Knows(v) => GiveAnswerV::Knows(texts(v@)),
            GiveAnswer::Done => GiveAnswerV::Done,
            GiveAnswer::Fault(e) => GiveAnswerV::Fault(e@),
        }
    }
}

/// How an input starts: a window that is to be resized is looked up first.
pub open spec fn give_start(input: Input<Seq<char>, Seq<KeyEvent>>) -> GiveV {
    match input {
        Input::Resize { bundle_id, size } => GiveStage::Corner { bundle_id, size },
        _ => GiveStage::Focus { input },
    }
}

/// The stage of a click whose place is known, or why it is not.
pub open spec fn placed_next(count: Option<u32>, place: Result<Point, Seq<char>>) -> GiveV {
    match place {
        Ok(at) => match count {
            Some(count) => GiveStage::Give { act: Act::Clicks { at, count } },
            None => GiveStage::Give { act: Act::RightClick { at } },
        },
        Err(e) => GiveStage::Failed(e),
    }
}

/// The stage of an input once the application in front may be driven.
pub open spec fn focused_next(input: Input<Seq<char>, Seq<KeyEvent>>) -> GiveV {
    match input {
        Input::Click { ax_label, ax_position } => GiveStage::Window { input },
        Input::TypeText { text } => GiveStage::Window { input },
        Input::Keys { events } => GiveStage::Give { act: Act::Keys { events } },
        Input::Hold { code, ms } => GiveStage::Give { act: Act::Hold { code, ms } },
        Input::Scroll { dx, dy, at } => GiveStage::Give { act: Act::Scroll { dx, dy, at } },
        Input::Drag { from, to } => GiveStage::Give { act: Act::Drag { from, to } },
        Input::Clicks { ax_label, ax_position, count } => if ax_position is None && ax_label is Some {
            GiveStage::Window { input }
        } else {
            placed_next(Some(count), place_said(Seq::empty(), ax_label, ax_position))
        },
        Input::RightClick { ax_label, ax_position } => if ax_position is None && ax_label is Some {
            GiveStage::Window { input }
        } else {
            placed_next(None, place_said(Seq::empty(), ax_label, ax_position))
        },
        Input::Hover { at } => GiveStage::Give { act: Act::Hover { at } },
        Input::Resize { bundle_id, size } => GiveStage::Corner { bundle_id, size },
    }
}

/// The stage of a click whose target is known, or why it is not.
pub open spec fn target_next(target: Result<CandidateV, Seq<char>>) -> GiveV {
    match target {
        Ok(t) => GiveStage::Actions { handle: t.handle },
        Err(e) => GiveStage::Failed(e),
    }
}

/// The stage of an input once the window in front is seen.
pub open spec fn seen_next(c: ConfigV, input: Input<Seq<char>, Seq<KeyEvent>>, e: UiElement) -> GiveV {
    let found = clickable(e, 0, Seq::empty());
    match input {
        Input::Click { ax_label, ax_position } => match ax_position {
            Some(at) => GiveStage::Far { found, label: ax_label, at },
            None => target_next(target_said(found, ax_label, None)),
        },
        Input::TypeText { text } => match text_target(e) {
            Some(field) => match typing_refused(c, field) {
                Some(r) => GiveStage::Over(r),
                None => GiveStage::Give { act: Act::SetValue { handle: field.handle, text } },
            },
            None => GiveStage::Failed("未找到文本输入框 (AXTextField/AXTextArea)"@),
        },
        Input::Clicks { ax_label, ax_position, count } => placed_next(Some(count), place_said(found, ax_label, ax_position)),
        Input::RightClick { ax_label, ax_position } => placed_next(None, place_said(found, ax_label, ax_position)),
        _ => GiveStage::Window { input },
    }
}

/// How an input goes on with an answer. An answer that does not fit the stage changes nothing. What
/// was entered stays so where it cannot be confirmed.
pub open spec fn give_next(c: ConfigV, s: GiveV, a: GiveAnswerV) -> GiveV {
    match (s, a) {
        (GiveStage::Corner { bundle_id, size }, GiveAnswerV::Way { from, to }) => GiveStage::Focus { input: Input::Drag { from, to } },
        (GiveStage::Corner { bundle_id, size }, GiveAnswerV::Fault(e)) => GiveStage::Failed(e),
        (GiveStage::Focus { input }, GiveAnswerV::Focused(b)) => match focus_refused(c, b) {
            Some(r) => GiveStage::Over(r),
            None => focused_next(input),
        },
        (GiveStage::Window { input }, GiveAnswerV::Seen(e)) => seen_next(c, input, e),
        (GiveStage::Window { input }, GiveAnswerV::Fault(e)) => GiveStage::Failed(e),
        (GiveStage::Far { found, label, at }, GiveAnswerV::Distances(far)) => if far.len() == found.len() {
            target_next(target_said(found, label, Some(far)))
        } else {
            s
        },
        (GiveStage::Actions { handle }, GiveAnswerV::Knows(actions)) => match click_refused(actions) {
            Some(r) => GiveStage::Over(r),
            None => GiveStage::Give { act: Act::Press { handle } },
        },
        (GiveStage::Give { act }, GiveAnswerV::Done) => match act {
            Act::SetValue { handle, text } => GiveStage::Entered { handle },
            _ => GiveStage::Over(done_said()),
        },
        (GiveStage::Give { act }, GiveAnswerV::Fault(e)) => if act is Confirm {
            GiveStage::Over(done_said())
        } else {
            GiveStage::Failed(e)
        },
        (GiveStage::Entered { handle }, GiveAnswerV::Knows(actions)) => if actions.contains(CONFIRM_ACTION@) {
            GiveStage::Give { act: Act::Confirm { handle } }
        } else {
            GiveStage::Over(done_said())
        },
        _ => s,
    }
}

/// An input behind several answers.
pub open spec fn give_run(c: ConfigV, s: GiveV, answers: Seq<GiveAnswerV>) -> GiveV
    decreases answers.len(),
{
    if answers.len() == 0 {
        s
    } else {
        give_next(c, give_run(c, s, answers.drop_last()), answers.last())
    }
}

/// The text inside an optional one.
fn as_str(o: &Option<String>) -> (r: Option<&str>)
    ensures
        opt_str(r) == opt_text(*o),
{
    match o {
        Some(s) => Some(s.as_str()),
        None => None,
    }
}

/// The stage of a click whose place is known, or why it is not.
fn on_place(count: Option<u32>, found: &Vec<ClickCandidate>, label: &Option<String>, position: Option<Point>) -> (r: Giving)
    ensures
        r@ == placed_next(count, place_said(candidates(found@), opt_text(*label), position)),
{
    match resolve_click_position(found, as_str(label), position) {
        Ok(at) => match count {
            Some(count) => GiveStage::Give { act: Act::Clicks { at, count } },
            None => GiveStage::Give { act: Act::RightClick { at } },
        },
        Err(e) => GiveStage::Failed(e),
    }
}

/// The stage of an input once the application in front may be driven.
fn on_focus(input: Input<String, Vec<KeyEvent>>) -> (r: Giving)
    ensures
        r@ == focused_next(input@),
{
    let none: Vec<ClickCandidate> = Vec::new();
    proof {
        assert(candidates(none@) =~= Seq::empty());
    }
    match input {
        Input::Click { ax_label, ax_position } => GiveStage::Window { input: Input::Click { ax_label, ax_position } },
        Input::TypeText { text } => GiveStage::Window { input: Input::TypeText { text } },
        Input::Keys { events } => GiveStage::Give { act: Act::Keys { events } },
        Input::Hold { code, ms } => GiveStage::Give { act: Act::Hold { code, ms } },
        Input::Scroll { dx, dy, at } => GiveStage::Give { act: Act::Scroll { dx, dy, at } },
        Input::Drag { from, to } => GiveStage::Give { act: Act::Drag { from, to } },
        Input::Clicks { ax_label, ax_position, count } => if ax_position.is_none() && ax_label.is_some() {
            GiveStage::Window { input: Input::Clicks { ax_label, ax_position, count } }
        } else {
            on_place(Some(count), &none, &ax_label, ax_position)
        },
        Input::RightClick { ax_label, ax_position } => if ax_position.is_none() && ax_label.is_some() {
            GiveStage::Window { input: Input::RightClick { ax_label, ax_position } }
        } else {
            on_place(None, &none, &ax_label, ax_position)
        },
        Input::Hover { at } => GiveStage::Give { act: Act::Hover { at } },
        Input::Resize { bundle_id, size } => GiveStage::Corner { bundle_id, size },
    }
}

/// The stage of a click whose target is sought.
fn on_target(found: &Vec<ClickCandidate>, label: &Option<String>, far: Option<&Vec<i64>>) -> (r: Giving)
    requires
        far matches Some(v) ==> v@.len() == found@.len(),
    ensures
        r@ == target_next(target_said(candidates(found@), opt_text(*label), crate::gui::keys_of(far))),
{
    match find_click_target(found, as_str(label), far) {
        Ok(t) => GiveStage::Actions { handle: t.handle },
        Err(e) => GiveStage::Failed(e),
    }
}

/// The stage of an input once the window in front is seen.
fn on_window(c: &GuiController, input: Input<String, Vec<KeyEvent>>, e: &UiElement) -> (r: Giving)
    ensures
        r@ == seen_next(c.config@, input@, *e),
{
    let mut found: Vec<ClickCandidate> = Vec::new();
    proof {
        assert(candidates(found@) =~= Seq::empty());
    }
    collect_clickable(e, 0, &mut found);
    match input {
        Input::Click { ax_label, ax_position } => match ax_position {
            Some(at) => GiveStage::Far { found, label: ax_label, at },
            None => on_target(&found, &ax_label, None),
        },
        Input::TypeText { text } => match find_text_field(e) {
            Ok(field) => match c.type_text(&field) {
                Some(r) => GiveStage::Over(r),
                None => GiveStage::Give { act: Act::SetValue { handle: field.handle, text } },
            },
            Err(why) => GiveStage::Failed(why),
        },
        Input::Clicks { ax_label, ax_position, count } => on_place(Some(count), &found, &ax_label, ax_position),
        Input::RightClick { ax_label, ax_position } => on_place(None, &found, &ax_label, ax_position),
        other => GiveStage::Window { input: other },
    }
}

impl GiveStage<String, Vec<KeyEvent>, Vec<ClickCandidate>, GuiResult> {
    /// Starts to give an input.
    pub fn start(input: Input<String, Vec<KeyEvent>>) -> (r: Self)
        ensures
            r@ == give_start(input@),
    {
        match input {
            Input::Resize { bundle_id, size } => GiveStage::Corner { bundle_id, size },
            other => GiveStage::Focus { input: other },
        }
    }

    /// Goes on with the answer to the stage that was waited for.
    pub fn step(self, c: &GuiController, answer: GiveAnswer) -> (r: Self)
        ensures
            r@ == give_next(c.config@, self@, answer@),
    {
        match (self, answer) {
            (GiveStage::Corner { .. }, GiveAnswer::Way { from, to }) => GiveStage::Focus { input: Input::Drag { from, to } },
            (GiveStage::Corner { .. }, GiveAnswer::Fault(e)) => GiveStage::Failed(e),
            (GiveStage::Focus { input }, GiveAnswer::Focused(b)) => match c.focused_not_allowed(as_str(&b)) {
                Some(r) => GiveStage::Over(r),
                None => on_focus(input),
            },
            (GiveStage::Window { input }, GiveAnswer::Seen(e)) => on_window(c, input, &e),
            (GiveStage::Window { .. }, GiveAnswer::Fault(e)) => GiveStage::Failed(e),
            (GiveStage::Far { found, label, at }, GiveAnswer::Distances(far)) => {
                proof {
                    assert(candidates(found@).len() == found@.len());
                }
                if far.len() == found.len() {
                    on_target(&found, &label, Some(&far))
                } else {
                    GiveStage::Far { found, label, at }
                }
            },
            (GiveStage::Actions { handle }, GiveAnswer::Knows(actions)) => match click_denied(&actions) {
                Some(r) => GiveStage::Over(r),
                None => GiveStage::Give { act: Act::Press { handle } },
            },
            (GiveStage::Give { act }, GiveAnswer::Done) => match act {
                Act::SetValue { handle, .. } => GiveStage::Entered { handle },
                _ => GiveStage::Over(GuiResult::done()),
            },
            (GiveStage::Give { act }, GiveAnswer::Fault(e)) => match act {
                Act::Confirm { .. } => GiveStage::Over(GuiResult::done()),
                _ => GiveStage::Failed(e),
            },
            (GiveStage::Entered { handle }, GiveAnswer::Knows(actions)) => if confirms(&actions) {
                GiveStage::Give { act: Act::Confirm { handle } }
            } else {
                GiveStage::Over(GuiResult::done())
            },
            (s, _) => s,
        }
    }
}

/// Whether an input has come past the question which application is in front: the screen is looked
/// at for it, something is done to the screen, or it was done.
pub open spec fn is_past_focus(s: GiveV) -> bool {
    match s {
        GiveStage::Window { input } => true,
        GiveStage::Far { found, label, at } => true,
        GiveStage::Actions { handle } => true,
        GiveStage::Give { act } => true,
        GiveStage::Entered { handle } => true,
        GiveStage::Over(r) => r.ok,
        _ => false,
    }
}

/// Whether an answer names an application that may be driven.
pub open spec fn lets_in(c: ConfigV, a: GiveAnswerV) -> bool {
    a matches GiveAnswerV::Focused(b) && focus_refused(c, b) is None
}

/// Whether an answer shows a window whose field for text is this one, and that may be entered into.
pub open spec fn lets_type(c: ConfigV, a: GiveAnswerV, handle: u64) -> bool {
    a matches GiveAnswerV::Seen(e) && text_target(e) matches Some(field) && field.handle == handle && typing_refused(c, field) is None
}

/// Whatever is answered, nothing is done to the screen before it was answered that the application
/// in front may be driven.
pub proof fn law_focus_is_asked_before_anything_is_given(c: ConfigV, input: Input<Seq<char>, Seq<KeyEvent>>, answers: Seq<GiveAnswerV>)
    ensures
        is_past_focus(give_run(c, give_start(input), answers)) ==> exists|i: int| 0 <= i < answers.len() && lets_in(c, #[trigger] answers[i]),
    decreases answers.len(),
{
    if answers.len() > 0 {
        let front = answers.drop_last();
        law_focus_is_asked_before_anything_is_given(c, input, front);
        let before = give_run(c, give_start(input), front);
        let after = give_next(c, before, answers.last());
        if is_past_focus(after) {
            if is_past_focus(before) {
                let i = choose|i: int| 0 <= i < front.len() && lets_in(c, #[trigger] front[i]);
                assert(answers[i] == front[i]);
            } else {
                assert(lets_in(c, answers[answers.len() - 1]));
            }
        }
    }
}

/// Whatever is answered, text is entered only into a field that was seen, behind the answer that the
/// application in front may be driven, and that is none for a password unless the configuration
/// says so.
pub proof fn law_text_goes_into_allowed_fields(c: ConfigV, input: Input<Seq<char>, Seq<KeyEvent>>, answers: Seq<GiveAnswerV>)
    ensures
        give_run(c, give_start(input), answers) matches GiveStage::Give { act: Act::SetValue { handle, text } } ==> exists|i: int, j: int|
            0 <= i < j < answers.len() && lets_in(c, #[trigger] answers[i]) && lets_type(c, #[trigger] answers[j], handle),
    decreases answers.len(),
{
    if answers.len() > 0 {
        let front = answers.drop_last();
        law_text_goes_into_allowed_fields(c, input, front);
        law_focus_is_asked_before_anything_is_given(c, input, front);
        let before = give_run(c, give_start(input), front);
        let after = give_next(c, before, answers.last());
        if let GiveStage::Give { act: Act::SetValue { handle, text } } = after {
            if before == after {
                let (i, j) = choose|i: int, j: int| 0 <= i < j < front.len() && lets_in(c, #[trigger] front[i]) && lets_type(c, #[trigger] front[j], handle);
                assert(answers[i] == front[i]);
                assert(answers[j] == front[j]);
            } else {
                assert(before is Window);
                let i = choose|i: int| 0 <= i < front.len() && lets_in(c, #[trigger] front[i]);
                assert(answers[i] == front[i]);
                assert(lets_type(c, answers[answers.len() - 1], handle));
            }
        }
    }
}

/// The text that is entered is the one that was asked for, and what is looked up in a window is what
/// was asked for; a window that is resized has its corner dragged.
pub proof fn law_text_is_entered_as_given(c: ConfigV, input: Input<Seq<char>, Seq<KeyEvent>>, answers: Seq<GiveAnswerV>)
    ensures
        give_run(c, give_start(input), answers) matches GiveStage::Give { act: Act::SetValue { handle, text } } ==> input == (Input::<Seq<char>, Seq<KeyEvent>>::TypeText { text }),
        give_run(c, give_start(input), answers) matches GiveStage::Window { input: i } ==> i == input,
        give_run(c, give_start(input), answers) matches GiveStage::Focus { input: i } ==> !(i is Resize) && (i == input || (input is Resize && i is Drag)),
        give_run(c, give_start(input), answers) is Corner ==> input is Resize,
    decreases answers.len(),
{
    if answers.len() > 0 {
        law_text_is_entered_as_given(c, input, answers.drop_last());
    }
}

/// Whether a window was seen in which a candidate for a click has this handle.
pub open spec fn was_seen(answers: Seq<GiveAnswerV>, handle: u64) -> bool {
    exists|e: UiElement, k: int| #[trigger] answers.contains(GiveAnswerV::Seen(e)) && 0 <= k < clickable(e, 0, Seq::empty()).len() && (#[trigger] clickable(e, 0, Seq::empty())[k]).handle == handle
}

/// Whether a window was seen in which a candidate with this label is at this place.
pub open spec fn was_seen_at(answers: Seq<GiveAnswerV>, label: Option<Seq<char>>, at: Point) -> bool {
    exists|e: UiElement, k: int| #[trigger] answers.contains(GiveAnswerV::Seen(e)) && 0 <= k < clickable(e, 0, Seq::empty()).len() && (#[trigger] clickable(e, 0, Seq::empty())[k]).label == label && clickable(e, 0, Seq::empty())[k].position == Some(at)
}

/// Whether an element was said to know an action.
pub open spec fn was_known(answers: Seq<GiveAnswerV>, action: Seq<char>) -> bool {
    exists|v: Seq<Seq<char>>| #[trigger] answers.contains(GiveAnswerV::Knows(v)) && v.contains(action)
}

/// Whether the place of a click is the one asked for, or that of the label asked for.
pub open spec fn is_place_asked_for(answers: Seq<GiveAnswerV>, label: Option<Seq<char>>, position: Option<Point>, at: Point) -> bool {
    position == Some(at) || (position is None && label is Some && was_seen_at(answers, label, at))
}

/// Whether an act is what an input asks for, as far as the screen has answered.
pub open spec fn is_asked_for(input: Input<Seq<char>, Seq<KeyEvent>>, answers: Seq<GiveAnswerV>, act: Act<Seq<char>, Seq<KeyEvent>>) -> bool {
    match act {
        Act::Press { handle } => input is Click && was_seen(answers, handle) && was_known(answers, "AXPress"@),
        Act::SetValue { handle, text } => input matches Input::TypeText { text: t } && t == text,
        Act::Confirm { handle } => input is TypeText && was_known(answers, "AXConfirm"@),
        Act::Keys { events } => input matches Input::Keys { events: e } && e == events,
        Act::Hold { code, ms } => input matches Input::Hold { code: c, ms: m } && c == code && m == ms,
        Act::Scroll { dx, dy, at } => input matches Input::Scroll { dx: x, dy: y, at: a } && x == dx && y == dy && a == at,
        Act::Drag { from, to } => {
            ||| input matches Input::Drag { from: f, to: t } && f == from && t == to
            ||| input is Resize && answers.contains(GiveAnswerV::Way { from, to })
        },
        Act::Clicks { at, count } => input matches Input::Clicks { ax_label, ax_position, count: n } && n == count && is_place_asked_for(answers, ax_label, ax_position, at),
        Act::RightClick { at } => input matches Input::RightClick { ax_label, ax_position } && is_place_asked_for(answers, ax_label, ax_position, at),
        Act::Hover { at } => input matches Input::Hover { at: a } && a == at,
    }
}

/// Whether a stage can stand for an input, as far as the screen has answered.
pub open spec fn can_stand(input: Input<Seq<char>, Seq<KeyEvent>>, answers: Seq<GiveAnswerV>, s: GiveV) -> bool {
    match s {
        GiveStage::Corner { bundle_id, size } => input matches Input::Resize { bundle_id: b, size: z } && b == bundle_id && z == size,
        GiveStage::Focus { input: i } => {
            ||| i == input && !(i is Resize)
            ||| input is Resize && (i matches Input::Drag { from, to } && answers.contains(GiveAnswerV::Way { from, to }))
        },
        GiveStage::Window { input: i } => i == input && (i is Click || i is TypeText || (i matches Input::Clicks { ax_label, ax_position, count } && ax_label is Some && ax_position is None) || (i matches Input::RightClick { ax_label, ax_position } && ax_label is Some && ax_position is None)),
        GiveStage::Far { found, label, at } => {
            &&& input matches Input::Click { ax_label, ax_position } && ax_label == label && ax_position == Some(at)
            &&& exists|e: UiElement| #[trigger] answers.contains(GiveAnswerV::Seen(e)) && found == clickable(e, 0, Seq::empty())
        },
        GiveStage::Actions { handle } => input is Click && was_seen(answers, handle),
        GiveStage::Give { act } => is_asked_for(input, answers, act),
        GiveStage::Entered { handle } => input is TypeText,
        _ => true,
    }
}

/// What can stand for an input can still stand for it behind one more answer.
proof fn lemma_stands_on(input: Input<Seq<char>, Seq<KeyEvent>>, front: Seq<GiveAnswerV>, a: GiveAnswerV, s: GiveV)
    requires
        can_stand(input, front, s),
    ensures
        can_stand(input, front.push(a), s),
{
    let answers = front.push(a);
    assert forall|x: GiveAnswerV| front.contains(x) implies answers.contains(x) by {
        let i = choose|i: int| 0 <= i < front.len() && front[i] == x;
        assert(answers[i] == x);
    }
    assert forall|h: u64| was_seen(front, h) implies was_seen(answers, h) by {
        let (e, k) = choose|e: UiElement, k: int| #[trigger] front.contains(GiveAnswerV::Seen(e)) && 0 <= k < clickable(e, 0, Seq::empty()).len() && (#[trigger] clickable(e, 0, Seq::empty())[k]).handle == h;
        assert(answers.contains(GiveAnswerV::Seen(e)));
        assert(clickable(e, 0, Seq::empty())[k].handle == h);
    }
    assert forall|l: Option<Seq<char>>, at: Point| was_seen_at(front, l, at) implies was_seen_at(answers, l, at) by {
        let (e, k) = choose|e: UiElement, k: int| #[trigger] front.contains(GiveAnswerV::Seen(e)) && 0 <= k < clickable(e, 0, Seq::empty()).len() && (#[trigger] clickable(e, 0, Seq::empty())[k]).label == l && clickable(e, 0, Seq::empty())[k].position == Some(at);
        assert(answers.contains(GiveAnswerV::Seen(e)));
        assert(clickable(e, 0, Seq::empty())[k].label == l);
    }
    assert forall|w: Seq<char>| was_known(front, w) implies was_known(answers, w) by {
        let v = choose|v: Seq<Seq<char>>| #[trigger] front.contains(GiveAnswerV::Knows(v)) && v.contains(w);
        assert(answers.contains(GiveAnswerV::Knows(v)));
    }
}

/// A place that was found for a label was seen at it.
proof fn lemma_place_was_seen(answers: Seq<GiveAnswerV>, e: UiElement, label: Option<Seq<char>>, position: Option<Point>)
    requires
        answers.contains(GiveAnswerV::Seen(e)),
        position is Some || label is Some,
    ensures
        place_said(clickable(e, 0, Seq::empty()), label, position) matches Ok(at) ==> is_place_asked_for(answers, label, position, at),
{
    let found = clickable(e, 0, Seq::empty());
    law_place_of_a_click(found, label, position);
    if position is None {
        if let Ok(at) = place_said(found, label, position) {
            let k = choose|k: int| 0 <= k < found.len() && (#[trigger] found[k]).label == label && found[k].position == Some(at);
            assert(clickable(e, 0, Seq::empty())[k].label == label);
            assert(was_seen_at(answers, label, at));
        }
    }
}

/// A target that was found was seen.
proof fn lemma_target_was_seen(answers: Seq<GiveAnswerV>, e: UiElement, label: Option<Seq<char>>, far: Option<Seq<i64>>)
    requires
        answers.contains(GiveAnswerV::Seen(e)),
        far matches Some(keys) ==> keys.len() == clickable(e, 0, Seq::empty()).len(),
    ensures
        target_said(clickable(e, 0, Seq::empty()), label, far) matches Ok(t) ==> was_seen(answers, t.handle),
{
    let found = clickable(e, 0, Seq::empty());
    law_click_goes_to_the_label_or_the_nearest(found, label, far);
    if let Ok(t) = target_said(found, label, far) {
        let k = choose|k: int| 0 <= k < found.len() && #[trigger] found[k] == t;
        assert(clickable(e, 0, Seq::empty())[k].handle == t.handle);
    }
}

/// One answer behind a stage that can stand for an input comes another that can.
#[verifier::spinoff_prover]
#[verifier::rlimit(40)]
proof fn lemma_next_can_stand(c: ConfigV, input: Input<Seq<char>, Seq<KeyEvent>>, front: Seq<GiveAnswerV>, a: GiveAnswerV, s: GiveV)
    requires
        can_stand(input, front, s),
    ensures
        can_stand(input, front.push(a), give_next(c, s, a)),
{
    let answers = front.push(a);
    assert(answers[front.len() as int] == a);
    assert(answers.contains(a));
    lemma_stands_on(input, front, a, s);
    match (s, a) {
        (GiveStage::Window { input: i }, GiveAnswerV::Seen(e)) => {
            match i {
                Input::Click { ax_label, ax_position } => {
                    lemma_target_was_seen(answers, e, ax_label, None);
                },
                Input::Clicks { ax_label, ax_position, count } => {
                    lemma_place_was_seen(answers, e, ax_label, ax_position);
                },
                Input::RightClick { ax_label, ax_position } => {
                    lemma_place_was_seen(answers, e, ax_label, ax_position);
                },
                _ => {},
            }
        },
        (GiveStage::Far { found, label, at }, GiveAnswerV::Distances(far)) => {
            let e = choose|e: UiElement| #[trigger] answers.contains(GiveAnswerV::Seen(e)) && found == clickable(e, 0, Seq::empty());
            if far.len() == found.len() {
                lemma_target_was_seen(answers, e, label, Some(far));
            }
        },
        _ => {},
    }
}

/// What is done to the screen is what was asked for, whatever is answered: a drag goes from where to
/// where it was asked to, or where the corner of a window that is resized goes; a scroll, a held
/// key, keys and a hover are those asked for; clicks are as many as asked for, at the place or the
/// label asked for; what is pressed was seen and can be pressed; and text is the text asked for.
pub proof fn law_act_is_what_was_asked_for(c: ConfigV, input: Input<Seq<char>, Seq<KeyEvent>>, answers: Seq<GiveAnswerV>)
    ensures
        give_run(c, give_start(input), answers) matches GiveStage::Give { act } ==> is_asked_for(input, answers, act),
        can_stand(input, answers, give_run(c, give_start(input), answers)),
    decreases answers.len(),
{
    if answers.len() > 0 {
        let front = answers.drop_last();
        law_act_is_what_was_asked_for(c, input, front);
        lemma_next_can_stand(c, input, front, answers.last(), give_run(c, give_start(input), front));
        assert(front.push(answers.last()) =~= answers);
    }
}

/// An input that needs no look at the window is given as soon as the application in front may be
/// driven, and is over once it was done.
pub proof fn law_allowed_input_is_given(c: ConfigV, input: Input<Seq<char>, Seq<KeyEvent>>, focused: Option<Seq<char>>)
    requires
        focus_refused(c, focused) is None,
        input is Keys || input is Hold || input is Scroll || input is Drag || input is Hover || (input is Clicks && input->Clicks_ax_position is Some) || (input is RightClick && input->RightClick_ax_position is Some),
    ensures
        ({
            let given = give_next(c, give_start(input), GiveAnswerV::Focused(focused));
            &&& given is Give
            &&& give_next(c, given, GiveAnswerV::Done) matches GiveStage::Over(r) && r.ok && r.error is None
        }),
{
}

/// An application that may not be driven gets nothing: the input is over with its refusal.
pub proof fn law_refused_focus_ends_the_input(c: ConfigV, input: Input<Seq<char>, Seq<KeyEvent>>, focused: Option<Seq<char>>)
    requires
        focus_refused(c, focused) is Some,
        !(input is Resize),
    ensures
        give_next(c, give_start(input), GiveAnswerV::Focused(focused)) == GiveStage::<Seq<char>, Seq<KeyEvent>, Seq<CandidateV>, GuiResultV>::Over(focus_refused(c, focused)->0),
{
}

/// Text that was entered is confirmed where the field can be, and the input is over without error
/// either way; a reason why something could not be done ends it with that reason.
pub proof fn law_end_of_an_input_is_told(c: ConfigV, s: GiveV, actions: Seq<Seq<char>>, why: Seq<char>)
    ensures
        s matches GiveStage::Entered { handle } ==> {
            &&& actions.contains("AXConfirm"@) ==> give_next(c, s, GiveAnswerV::Knows(actions)) == (GiveStage::<Seq<char>, Seq<KeyEvent>, Seq<CandidateV>, GuiResultV>::Give { act: Act::Confirm { handle } })
            &&& !actions.contains("AXConfirm"@) ==> (give_next(c, s, GiveAnswerV::Knows(actions)) matches GiveStage::Over(r) && r.ok)
        },
        s matches GiveStage::Actions { handle } ==> {
            &&& actions.contains("AXPress"@) ==> give_next(c, s, GiveAnswerV::Knows(actions)) == (GiveStage::<Seq<char>, Seq<KeyEvent>, Seq<CandidateV>, GuiResultV>::Give { act: Act::Press { handle } })
            &&& !actions.contains("AXPress"@) ==> (give_next(c, s, GiveAnswerV::Knows(actions)) matches GiveStage::Over(r) && !r.ok && r.error == Some("click-target-no-press-action"@))
        },
        s matches GiveStage::Give { act: Act::SetValue { handle, text } } ==> give_next(c, s, GiveAnswerV::Done) == (GiveStage::<Seq<char>, Seq<KeyEvent>, Seq<CandidateV>, GuiResultV>::Entered { handle }),
        s matches GiveStage::Give { act } && !(act is Confirm) ==> give_next(c, s, GiveAnswerV::Fault(why)) == GiveStage::<Seq<char>, Seq<KeyEvent>, Seq<CandidateV>, GuiResultV>::Failed(why),
        s is Window || s is Corner ==> give_next(c, s, GiveAnswerV::Fault(why)) == GiveStage::<Seq<char>, Seq<KeyEvent>, Seq<CandidateV>, GuiResultV>::Failed(why),
{
}

/// What is done to the screen, and what is answered of it, is seen as it is.
pub proof fn law_acts_are_seen_as_they_are(a: Act<String, Vec<KeyEvent>>, g: GiveAnswer, i: Input<String, Vec<KeyEvent>>)
    ensures
        a matches Act::Drag { from, to } ==> (a@ matches Act::Drag { from: f, to: t } && f == from && t == to),
        a matches Act::Scroll { dx, dy, at } ==> (a@ matches Act::Scroll { dx: x, dy: y, at: p } && x == dx && y == dy && p == at),
        a matches Act::Hold { code, ms } ==> (a@ matches Act::Hold { code: c, ms: m } && c == code && m == ms),
        a matches Act::SetValue { handle, text } ==> (a@ matches Act::SetValue { handle: h, text: t } && h == handle && t == text@),
        a matches Act::Clicks { at, count } ==> (a@ matches Act::Clicks { at: p, count: c } && p == at && c == count),
        g matches GiveAnswer::Way { from, to } ==> (g@ matches GiveAnswerV::Way { from: f, to: t } && f == from && t == to),
        i matches Input::Drag { from, to } ==> (i@ matches Input::Drag { from: f, to: t } && f == from && t == to),
        i matches Input::Scroll { dx, dy, at } ==> (i@ matches Input::Scroll { dx: x, dy: y, at: p } && x == dx && y == dy && p == at),
{
}

/// What is seen of the window decides what is done: a click with a place waits for the distances to
/// it, one without goes to its label; text goes into the field for it unless that is refused; and
/// other clicks go to the place asked for. What is not found ends the input with the reason.
pub proof fn law_window_decides_what_is_done(c: ConfigV, e: UiElement, label: Option<Seq<char>>, place: Option<Point>, count: u32, text: Seq<char>)
    ensures
        ({
            let found = clickable(e, 0, Seq::empty());
            let seen = GiveAnswerV::Seen(e);
            let click = give_next(c, GiveStage::<Seq<char>, Seq<KeyEvent>, Seq<CandidateV>, GuiResultV>::Window { input: Input::Click { ax_label: label, ax_position: place } }, seen);
            let clicks = give_next(c, GiveStage::<Seq<char>, Seq<KeyEvent>, Seq<CandidateV>, GuiResultV>::Window { input: Input::Clicks { ax_label: label, ax_position: place, count } }, seen);
            let right = give_next(c, GiveStage::<Seq<char>, Seq<KeyEvent>, Seq<CandidateV>, GuiResultV>::Window { input: Input::RightClick { ax_label: label, ax_position: place } }, seen);
            let typed = give_next(c, GiveStage::<Seq<char>, Seq<KeyEvent>, Seq<CandidateV>, GuiResultV>::Window { input: Input::TypeText { text } }, seen);
            &&& place matches Some(at) ==> click == (GiveStage::<Seq<char>, Seq<KeyEvent>, Seq<CandidateV>, GuiResultV>::Far { found, label, at })
            &&& place is None ==> match target_said(found, label, None) {
                Ok(t) => click == (GiveStage::<Seq<char>, Seq<KeyEvent>, Seq<CandidateV>, GuiResultV>::Actions { handle: t.handle }),
                Err(why) => click == GiveStage::<Seq<char>, Seq<KeyEvent>, Seq<CandidateV>, GuiResultV>::Failed(why),
            }
            &&& match place_said(found, label, place) {
                Ok(at) => clicks == (GiveStage::<Seq<char>, Seq<KeyEvent>, Seq<CandidateV>, GuiResultV>::Give { act: Act::Clicks { at, count } }) && right == (GiveStage::<Seq<char>, Seq<KeyEvent>, Seq<CandidateV>, GuiResultV>::Give { act: Act::RightClick { at } }),
                Err(why) => clicks == GiveStage::<Seq<char>, Seq<KeyEvent>, Seq<CandidateV>, GuiResultV>::Failed(why) && right == GiveStage::<Seq<char>, Seq<KeyEvent>, Seq<CandidateV>, GuiResultV>::Failed(why),
            }
            &&& match text_target(e) {
                Some(f) => if typing_refused(c, f) is None {
                    typed == (GiveStage::<Seq<char>, Seq<KeyEvent>, Seq<CandidateV>, GuiResultV>::Give { act: Act::SetValue { handle: f.handle, text } })
                } else {
                    typed == GiveStage::<Seq<char>, Seq<KeyEvent>, Seq<CandidateV>, GuiResultV>::Over(typing_refused(c, f)->0)
                },
                None => typed is Failed,
            }
        }),
{
}

/// The distances to a place decide which element is clicked on; as many as there are elements are
/// waited for.
pub proof fn law_distances_decide_the_click(c: ConfigV, found: Seq<CandidateV>, label: Option<Seq<char>>, at: Point, far: Seq<i64>)
    ensures
        ({
            let s = GiveStage::<Seq<char>, Seq<KeyEvent>, Seq<CandidateV>, GuiResultV>::Far { found, label, at };
            let next = give_next(c, s, GiveAnswerV::Distances(far));
            &&& far.len() != found.len() ==> next == s
            &&& far.len() == found.len() ==> match target_said(found, label, Some(far)) {
                Ok(t) => next == (GiveStage::<Seq<char>, Seq<KeyEvent>, Seq<CandidateV>, GuiResultV>::Actions { handle: t.handle }),
                Err(why) => next == GiveStage::<Seq<char>, Seq<KeyEvent>, Seq<CandidateV>, GuiResultV>::Failed(why),
            }
        }),
{
}

/// Once the application in front may be driven, a click and a text are looked up in its window, and
/// so are clicks that have a label and no place; those with neither end with a reason. A window that
/// is resized has its corner dragged along the way that is answered.
pub proof fn law_window_is_looked_at_where_it_must_be(c: ConfigV, focused: Option<Seq<char>>, label: Option<Seq<char>>, place: Option<Point>, count: u32, text: Seq<char>, bundle_id: Option<Seq<char>>, size: Point, from: Point, to: Point)
    requires
        focus_refused(c, focused) is None,
    ensures
        ({
            let ask = |i: Input<Seq<char>, Seq<KeyEvent>>| give_next(c, give_start(i), GiveAnswerV::Focused(focused));
            let click = Input::Click { ax_label: label, ax_position: place };
            let typed = Input::TypeText { text };
            let clicks = Input::Clicks { ax_label: label, ax_position: place, count };
            let right = Input::RightClick { ax_label: label, ax_position: place };
            &&& ask(click) == (GiveStage::<Seq<char>, Seq<KeyEvent>, Seq<CandidateV>, GuiResultV>::Window { input: click })
            &&& ask(typed) == (GiveStage::<Seq<char>, Seq<KeyEvent>, Seq<CandidateV>, GuiResultV>::Window { input: typed })
            &&& place is None && label is Some ==> ask(clicks) == (GiveStage::<Seq<char>, Seq<KeyEvent>, Seq<CandidateV>, GuiResultV>::Window { input: clicks }) && ask(right) == (GiveStage::<Seq<char>, Seq<KeyEvent>, Seq<CandidateV>, GuiResultV>::Window { input: right })
            &&& place is None && label is None ==> ask(clicks) is Failed && ask(right) is Failed
        }),
        give_next(c, give_start(Input::Resize { bundle_id, size }), GiveAnswerV::Way { from, to }) == (GiveStage::<Seq<char>, Seq<KeyEvent>, Seq<CandidateV>, GuiResultV>::Focus { input: Input::Drag { from, to } }),
{
}

} // verus!
