use fusion_executor::giving::{Act, GiveAnswer, GiveStage, Giving};
use fusion_executor::gui::{
    build_node, click_denied, collect_clickable, collect_secure_rects, confirms, find_click_target, find_text_field, resolve_click_position,
    screenshot, wants_mask, Captured, ClickCandidate, GuiAction, GuiConfig, GuiController, GuiResult, Input, Plan, Point, TextField, UiElement,
    WindowButton, MAX_HOLD_MS, MAX_TREE_NODES, SECURE_SUBROLE,
};
use fusion_executor::keys::{
    clicks, drag, press, resolve_keycode, resolve_modifier, right_click, KeyEvent, Modifier, MouseKind, DRAG_STEPS, FLAG_ALTERNATE, FLAG_COMMAND,
    FLAG_CONTROL, FLAG_SHIFT, KEY_COMMAND, KEY_CONTROL, KEY_SHIFT,
};
use fusion_executor::picture::{mask_rgba_inplace, picture_text, rgba_to_png_b64, PixelRect, Png};

type Planned = Plan<String, Vec<KeyEvent>, GuiResult>;

fn at(x: f64, y: f64) -> Point {
    Point { x: x.to_bits(), y: y.to_bits() }
}

fn unrestricted() -> GuiController {
    GuiController::new_with_config(GuiConfig { allowed_bundle_ids: None, allow_type_into_secure: false })
}

fn refusal(p: Planned) -> GuiResult {
    match p {
        Plan::Refused(r) => r,
        _ => panic!("the action is refused"),
    }
}

fn degraded(ctrl: &GuiController, action: GuiAction) {
    let r = refusal(ctrl.execute(&action, false));
    assert!(!r.ok, "未授权应降级");
    assert_eq!(r.error.as_deref(), Some("accessibility-permission-required"));
}

fn element(handle: u64, role: &str, title: Option<&str>, position: Option<Point>, children: Vec<UiElement>) -> UiElement {
    UiElement {
        handle,
        role: Some(role.to_string()),
        subrole: None,
        title: title.map(|t| t.to_string()),
        label: None,
        position,
        size: None,
        focused: Some(false),
        enabled: Some(true),
        actions: Vec::new(),
        children,
    }
}

/// The pixels that a rectangle of points covers at a scale.
fn pixels(rect: (f64, f64, f64, f64), scale: f64) -> PixelRect {
    PixelRect {
        x0: (rect.0 * scale).floor() as i64,
        y0: (rect.1 * scale).floor() as i64,
        x1: ((rect.0 + rect.2) * scale).ceil() as i64,
        y1: ((rect.1 + rect.3) * scale).ceil() as i64,
    }
}

#[test]
fn gui_result_default() {
    let r = GuiResult::default();
    assert!(!r.ok);
    assert!(r.node_tree.is_none());
    assert!(r.screenshot_png_b64.is_none());
    assert!(r.error.is_none());
    assert_eq!(f32::from_bits(r.scale_factor), 1.0);
}

#[test]
fn execute_degrades_without_ax_trust() {
    match GuiController::new().execute(&GuiAction::Screenshot { mask_sensitive: false }, false) {
        Plan::Screenshot { mask_sensitive } => {
            assert!(!mask_sensitive);
            let r = screenshot(Captured::Nothing, &Vec::new(), 1.0f32.to_bits());
            assert!(!r.ok, "IMPL-9: 未授权 (无 Screen Recording) 应降级 ok:false");
            assert!(r.error.is_some(), "IMPL-9: 未授权应降级 (Screen Recording 或 encode 错误)");
        }
        _ => panic!("a screenshot needs no trust"),
    }
}

#[test]
fn resolve_keycode_maps_known_keys() {
    assert_eq!(resolve_keycode("Tab"), Some(0x30));
    assert_eq!(resolve_keycode("return"), Some(0x24));
    assert_eq!(resolve_keycode("Enter"), Some(0x24));
    assert_eq!(resolve_keycode("esc"), Some(0x35));
    assert_eq!(resolve_keycode("UP"), Some(0x7e));
    assert_eq!(resolve_keycode("ctrl"), Some(0x3b));
    assert_eq!(resolve_keycode("cmd"), Some(0x37));
    assert_eq!(resolve_keycode("fn_delete"), Some(0x75));
    assert_eq!(resolve_keycode("F12"), Some(0x6f));
}

#[test]
fn resolve_keycode_unknown_returns_none() {
    assert_eq!(resolve_keycode("totally-fake-key"), None);
    assert_eq!(resolve_keycode(""), None);
}

#[test]
fn keypress_unknown_key_degrades_even_if_trusted() {
    let ctrl = unrestricted();
    let action = GuiAction::KeyPress { key: "totally-fake-key".into(), modifiers: vec![] };
    let r = refusal(ctrl.execute(&action, true));
    assert!(!r.ok, "未知键名应 ok:false");
    assert!(r.error.as_deref().unwrap_or("").contains("unknown-key"), "未知键名错误标记: {:?}", r.error);
    degraded(&ctrl, action);
}

#[test]
fn holdkey_unknown_key_degrades_even_if_trusted() {
    let ctrl = unrestricted();
    let action = GuiAction::HoldKey { key: "totally-fake-key".into(), duration_ms: 10 };
    let r = refusal(ctrl.execute(&action, true));
    assert!(!r.ok, "未知键名应 ok:false");
    assert!(r.error.as_deref().unwrap_or("").contains("unknown-key"), "未知键名错误标记: {:?}", r.error);
    degraded(&ctrl, action);
}

#[test]
fn tripleclick_degrades_without_ax_trust() {
    degraded(&GuiController::new(), GuiAction::TripleClick { ax_label: None, ax_position: Some(at(1.0, 2.0)) });
}

#[test]
fn gui_controller_new_is_fast() {
    let start = std::time::Instant::now();
    let _ = GuiController::new();
    let elapsed = start.elapsed();
    assert!(elapsed.as_millis() < 50, "GuiController::new 应 <50ms (lazy), 实际 {elapsed:?}");
}

#[test]
fn resolve_modifier_maps_known_mods() {
    assert_eq!(resolve_modifier("command"), Some(FLAG_COMMAND));
    assert_eq!(resolve_modifier("Cmd"), Some(FLAG_COMMAND));
    assert_eq!(resolve_modifier("super"), Some(FLAG_COMMAND));
    assert_eq!(resolve_modifier("shift"), Some(FLAG_SHIFT));
    assert_eq!(resolve_modifier("Alt"), Some(FLAG_ALTERNATE));
    assert_eq!(resolve_modifier("control"), Some(FLAG_CONTROL));
    assert_eq!(resolve_modifier("ctrl"), Some(FLAG_CONTROL));
}

#[test]
fn resolve_modifier_unknown_returns_none() {
    assert_eq!(resolve_modifier("hyper"), None);
    assert_eq!(resolve_modifier(""), None);
}

#[test]
fn keypress_unknown_modifier_degrades_even_if_trusted() {
    let ctrl = unrestricted();
    let action = GuiAction::KeyPress { key: "Tab".into(), modifiers: vec!["hyper".into()] };
    let r = refusal(ctrl.execute(&action, true));
    assert!(!r.ok, "未知修饰键应 ok:false");
    assert!(r.error.as_deref().unwrap_or("").contains("unknown-modifier"), "未知修饰键错误标记: {:?}", r.error);
    degraded(&ctrl, action);
}

#[test]
fn window_actions_degrade_without_ax_trust() {
    let ctrl = GuiController::new();
    for action in [
        GuiAction::WindowClose { bundle_id: None },
        GuiAction::WindowMinimize { bundle_id: Some("com.apple.TextEdit".into()) },
        GuiAction::WindowZoom { bundle_id: None },
        GuiAction::WindowResize { bundle_id: None, size: at(800.0, 600.0) },
    ] {
        degraded(&ctrl, action);
    }
}

#[test]
fn resizing_a_window_waits_for_the_application_in_front() {
    let ctrl = unrestricted();
    let action = GuiAction::WindowResize { bundle_id: None, size: at(800.0, 600.0) };
    match ctrl.execute(&action, true) {
        Plan::InFront(Input::Resize { bundle_id, size }) => {
            assert!(bundle_id.is_none());
            assert_eq!(size, at(800.0, 600.0));
        }
        _ => panic!("the mouse drags the corner of a window"),
    }
    let ids = Some(vec!["com.apple.TextEdit".to_string()]);
    let ctrl = GuiController::new_with_config(GuiConfig { allowed_bundle_ids: ids, allow_type_into_secure: false });
    assert!(matches!(
        ctrl.window_resize(&Some("com.apple.TextEdit".into()), at(1.0, 1.0)),
        Plan::InFront(Input::Resize { bundle_id: Some(_), .. })
    ));
    assert!(ctrl.focused_not_allowed(Some("com.apple.TextEdit")).is_none());
    assert!(ctrl.focused_not_allowed(Some("com.evil")).is_some());
}

fn window(children: Vec<UiElement>) -> UiElement {
    named(1, Some("AXWindow"), None, children)
}

fn named(handle: u64, role: Option<&str>, subrole: Option<&str>, children: Vec<UiElement>) -> UiElement {
    UiElement {
        handle,
        role: role.map(|r| r.to_string()),
        subrole: subrole.map(|r| r.to_string()),
        title: None,
        label: Some(format!("e{handle}")),
        position: Some(at(handle as f64, 0.0)),
        size: None,
        focused: None,
        enabled: None,
        actions: Vec::new(),
        children,
    }
}

#[test]
fn nothing_is_given_before_the_application_in_front_is_known() {
    let ids = Some(vec!["com.ok".to_string()]);
    let c = GuiController::new_with_config(GuiConfig { allowed_bundle_ids: ids, allow_type_into_secure: false });
    let start = || Giving::start(Input::Drag { from: at(1.0, 2.0), to: at(3.0, 4.0) });
    assert!(matches!(start(), GiveStage::Focus { .. }));
    assert!(matches!(start().step(&c, GiveAnswer::Done), GiveStage::Focus { .. }));
    match start().step(&c, GiveAnswer::Focused(Some("com.evil".to_string()))) {
        GiveStage::Over(r) => assert!(!r.ok && r.error.unwrap().contains("focused-app-not-allowed")),
        _ => panic!("an application that is not on the list gets nothing"),
    }
    let s = start().step(&c, GiveAnswer::Focused(Some("com.ok".to_string())));
    assert!(matches!(&s, GiveStage::Give { act: Act::Drag { .. } }));
    assert!(matches!(s.step(&c, GiveAnswer::Done), GiveStage::Over(r) if r.ok));

    let s = Giving::start(Input::Resize { bundle_id: None, size: at(9.0, 9.0) });
    let s = s.step(&c, GiveAnswer::Way { from: at(1.0, 1.0), to: at(2.0, 2.0) });
    assert!(matches!(s, GiveStage::Focus { input: Input::Drag { .. } }));
    let s = Giving::start(Input::Resize { bundle_id: None, size: at(9.0, 9.0) });
    assert!(matches!(s.step(&c, GiveAnswer::Fault("none".to_string())), GiveStage::Failed(e) if e == "none"));
}

#[test]
fn text_is_entered_behind_the_password_check() {
    let start = |c: &GuiController| Giving::start(Input::TypeText { text: "hi".to_string() }).step(c, GiveAnswer::Focused(None));
    let c = unrestricted();
    let secure = || window(vec![named(7, Some("AXTextField"), Some(SECURE_SUBROLE), Vec::new())]);
    match start(&c).step(&c, GiveAnswer::Seen(secure())) {
        GiveStage::Over(r) => assert!(!r.ok && r.error.unwrap().starts_with("secure-text-field-rejected")),
        _ => panic!("a field for a password is spared"),
    }
    let open = GuiController::new_with_config(GuiConfig { allowed_bundle_ids: None, allow_type_into_secure: true });
    assert!(matches!(start(&open).step(&open, GiveAnswer::Seen(secure())), GiveStage::Give { act: Act::SetValue { handle: 7, .. } }));
    let plain = || window(vec![named(7, Some("AXTextField"), None, Vec::new())]);
    let s = start(&c).step(&c, GiveAnswer::Seen(plain()));
    assert!(matches!(&s, GiveStage::Give { act: Act::SetValue { handle: 7, text } } if text == "hi"));
    let s = s.step(&c, GiveAnswer::Done);
    assert!(matches!(s, GiveStage::Entered { handle: 7 }));
    let s = s.step(&c, GiveAnswer::Knows(vec!["AXConfirm".to_string()]));
    assert!(matches!(s, GiveStage::Give { act: Act::Confirm { handle: 7 } }));
    assert!(matches!(s.step(&c, GiveAnswer::Fault("no".to_string())), GiveStage::Over(r) if r.ok));
    assert!(matches!(start(&c).step(&c, GiveAnswer::Seen(window(Vec::new()))), GiveStage::Failed(_)));
}

#[test]
fn clicks_find_their_target() {
    let c = unrestricted();
    let seen = || GiveAnswer::Seen(window(vec![named(5, None, None, Vec::new())]));
    let s = Giving::start(Input::Click { ax_label: None, ax_position: Some(at(5.0, 0.0)) });
    let s = s.step(&c, GiveAnswer::Focused(None)).step(&c, seen());
    let n = match &s {
        GiveStage::Far { found, .. } => found.len(),
        _ => panic!("a click at a place goes to the nearest element"),
    };
    assert_eq!(n, 2);
    let s = s.step(&c, GiveAnswer::Distances(vec![4]));
    assert!(matches!(s, GiveStage::Far { .. }));
    let s = s.step(&c, GiveAnswer::Distances(vec![4, 0]));
    assert!(matches!(s, GiveStage::Actions { handle: 5 }));
    let s = s.step(&c, GiveAnswer::Knows(vec!["AXPress".to_string()]));
    assert!(matches!(s, GiveStage::Give { act: Act::Press { handle: 5 } }));
    let by_label = || Giving::start(Input::Click { ax_label: Some("e5".to_string()), ax_position: None }).step(&c, GiveAnswer::Focused(None));
    let s = by_label().step(&c, seen());
    assert!(matches!(s, GiveStage::Actions { handle: 5 }));
    assert!(matches!(s.step(&c, GiveAnswer::Knows(Vec::new())), GiveStage::Over(r) if r.error.as_deref() == Some("click-target-no-press-action")));
    let clicks = |label: Option<&str>, position: Option<Point>| {
        Giving::start(Input::Clicks { ax_label: label.map(|l| l.to_string()), ax_position: position, count: 2 }).step(&c, GiveAnswer::Focused(None))
    };
    assert!(matches!(clicks(None, Some(at(1.0, 1.0))), GiveStage::Give { act: Act::Clicks { count: 2, .. } }));
    assert!(matches!(clicks(None, None), GiveStage::Failed(_)));
    assert!(matches!(clicks(Some("e5"), None).step(&c, seen()), GiveStage::Give { act: Act::Clicks { at: p, .. } } if p == at(5.0, 0.0)));
}

#[test]
fn pointer_actions_degrade_without_ax_trust() {
    let ctrl = GuiController::new();
    for action in [
        GuiAction::DoubleClick { ax_label: None, ax_position: Some(at(10.0, 20.0)) },
        GuiAction::RightClick { ax_label: None, ax_position: Some(at(10.0, 20.0)) },
        GuiAction::Hover { ax_position: at(10.0, 20.0) },
    ] {
        degraded(&ctrl, action);
    }
}

#[test]
fn double_click_no_target_error_when_trusted() {
    let ctrl = unrestricted();
    let action = GuiAction::DoubleClick { ax_label: None, ax_position: None };
    match ctrl.execute(&action, true) {
        Plan::InFront(Input::Clicks { ax_label, ax_position, count }) => {
            assert_eq!(count, 2);
            let e = resolve_click_position(&Vec::new(), ax_label.as_deref(), ax_position).unwrap_err();
            assert!(e.contains("ax_label 或 ax_position"), "错误应提及定位缺失");
        }
        _ => panic!("two clicks are planned"),
    }
    degraded(&ctrl, action);
}

#[test]
fn wait_zero_seconds_ok_without_trust() {
    match GuiController::new().execute(&GuiAction::Wait { seconds: 0.0f64.to_bits() }, false) {
        Plan::Wait { seconds } => assert_eq!(f64::from_bits(seconds), 0.0),
        _ => panic!("Wait 0s 应 ok=true (trusted-independent)"),
    }
    let r = GuiResult::done();
    assert!(r.ok);
    assert!(r.error.is_none(), "Wait 无错误: {:?}", r.error);
}

#[test]
fn msec04_no_allowlist_allows_any_bundle() {
    let ctrl = GuiController::new();
    assert!(ctrl.check_bundle_allowed("com.evil.keylogger").is_err(), "RUN-12: 默认 allowlist 应拒未列入的 evil bundle");
    assert!(ctrl.check_bundle_allowed("com.apple.TextEdit").is_ok());
    let ctrl_unrestricted = unrestricted();
    assert!(ctrl_unrestricted.check_bundle_allowed("com.evil.keylogger").is_ok());
    assert!(ctrl_unrestricted.check_bundle_allowed("com.apple.TextEdit").is_ok());
}

#[test]
fn msec04_allowlist_rejects_unlisted_bundle() {
    let ctrl = GuiController::new_with_config(GuiConfig {
        allowed_bundle_ids: Some(vec!["com.apple.TextEdit".into(), "com.apple.Terminal".into()]),
        allow_type_into_secure: false,
    });
    assert!(ctrl.check_bundle_allowed("com.apple.TextEdit").is_ok());
    assert!(ctrl.check_bundle_allowed("com.apple.Terminal").is_ok());
    assert!(ctrl.check_bundle_allowed("com.evil.keylogger").is_err(), "未列入 allowlist 的 bundle 应被拒");
    assert!(ctrl.check_bundle_allowed("").is_err(), "空 bundle 非白名单应拒");
}

#[test]
fn msec04_gui_config_default_unrestricted() {
    let cfg = GuiConfig::default();
    assert!(cfg.allowed_bundle_ids.is_some(), "RUN-12: 默认应有非空 allowlist");
    let set = cfg.allowed_bundle_ids.unwrap();
    assert!(set.contains(&"com.apple.Terminal".to_string()), "默认集含 Terminal");
    assert!(set.contains(&"com.apple.TextEdit".to_string()), "默认集含 TextEdit");
    assert!(set.contains(&"com.apple.finder".to_string()), "默认集含 finder");
    assert!(!cfg.allow_type_into_secure, "默认拒绝向密码框 type_text");
}

#[test]
fn msec04_allow_type_into_secure_opt_in() {
    let ctrl = GuiController::new_with_config(GuiConfig { allowed_bundle_ids: None, allow_type_into_secure: true });
    assert!(ctrl.config.allow_type_into_secure);
}

#[test]
fn msec04_secure_textfield_subrole_constant() {
    assert_eq!(SECURE_SUBROLE, "AXSecureTextField");
    assert!(!SECURE_SUBROLE.is_empty());
}

#[test]
fn c13_focused_not_allowed_blocks_when_allowlist_set() {
    let ctrl = GuiController::new_with_config(GuiConfig {
        allowed_bundle_ids: Some(vec!["com.apple.TextEdit".into()]),
        allow_type_into_secure: false,
    });
    assert!(ctrl.asks_for_focus());
    let res = ctrl.focused_not_allowed(None).expect("C-13: CI 无 AX + allowlist 应拦截 (bundle 解析失败)");
    assert!(!res.ok, "C-13: 拦截应 ok:false");
    assert!(res.error.as_deref().unwrap_or("").contains("focused-app-not-allowed"), "C-13: 错误标记: {:?}", res.error);
    assert!(ctrl.focused_not_allowed(Some("com.apple.TextEdit")).is_none());
}

#[test]
fn c13_focused_not_allowed_passes_without_allowlist() {
    let ctrl = unrestricted();
    assert!(!ctrl.asks_for_focus());
    assert!(ctrl.focused_not_allowed(None).is_none(), "C-13: 无 allowlist (显式 None) 应放行返 None");
}

#[test]
fn c13_type_text_blocked_by_allowlist_when_trusted() {
    let ctrl = GuiController::new_with_config(GuiConfig {
        allowed_bundle_ids: Some(vec!["com.apple.TextEdit".into()]),
        allow_type_into_secure: false,
    });
    let action = GuiAction::TypeText { text: "x".into() };
    assert!(matches!(ctrl.execute(&action, true), Plan::InFront(Input::TypeText { .. })));
    assert!(ctrl.focused_not_allowed(Some("com.other")).is_some());
    degraded(&ctrl, action);
}

#[test]
fn m12_4_hold_key_zero_duration_rejected() {
    let ctrl = unrestricted();
    let action = GuiAction::HoldKey { key: "Return".into(), duration_ms: 0 };
    let r = refusal(ctrl.execute(&action, true));
    assert!(!r.ok, "M-12.4: duration_ms=0 应 ok:false");
    assert!(r.error.as_deref().unwrap_or("").contains("hold-key-duration-zero"), "M-12.4: trusted 应 duration-zero 错误: {:?}", r.error);
    degraded(&ctrl, action);
}

#[test]
fn run12_default_rejects_non_allowlisted_bundle() {
    let ctrl = GuiController::new();
    assert!(ctrl.check_bundle_allowed("com.apple.Terminal").is_ok());
    assert!(ctrl.check_bundle_allowed("com.apple.finder").is_ok());
    assert!(ctrl.check_bundle_allowed("com.evil.keylogger").is_err(), "RUN-12: 默认受限应拒 evil bundle");
    assert!(ctrl.check_bundle_allowed("com.apple.Safari").is_err(), "RUN-12: 默认集不含 Safari 应拒 (须显式扩)");
}

#[test]
fn impl9_screenshot_bypasses_accessibility_gate() {
    assert!(matches!(GuiController::new().execute(&GuiAction::Screenshot { mask_sensitive: false }, false), Plan::Screenshot { .. }));
    let r = screenshot(Captured::Nothing, &Vec::new(), 1.0f32.to_bits());
    assert_ne!(r.error.as_deref(), Some("accessibility-permission-required"), "IMPL-9: screenshot 不应被 Accessibility 闸门拦 (TCC 权限独立)");
    assert!(!r.ok, "IMPL-9: CI 无 Screen Recording 应降级 ok:false");
    assert!(
        r.error.as_deref().unwrap_or("").contains("screen-recording-permission-required"),
        "IMPL-9: CI 应返 screen-recording 错误: {:?}",
        r.error
    );
}

#[test]
fn mask_rgba_inplace_full_cover() {
    let mut rgba = vec![255u8; 2 * 2 * 4];
    let rects = vec![pixels((0.0f64, 0.0, 2.0, 2.0), 1.0)];
    mask_rgba_inplace(&mut rgba, 2, 2, &rects);
    for px in rgba.chunks(4) {
        assert_eq!(px, &[0, 0, 0, 255], "全图应涂黑 RGBA(0,0,0,255)");
    }
}

#[test]
fn mask_rgba_inplace_partial_scale_yflip() {
    let mut rgba = vec![255u8; 4 * 4 * 4];
    let rects = vec![pixels((1.0f64, 1.0, 1.0, 1.0), 2.0)];
    mask_rgba_inplace(&mut rgba, 4, 4, &rects);
    let is_black = |x: usize, y: usize| -> bool {
        let row = 4 - 1 - y;
        let i = (row * 4 + x) * 4;
        rgba[i] == 0 && rgba[i + 1] == 0 && rgba[i + 2] == 0 && rgba[i + 3] == 255
    };
    for y in 2..4 {
        for x in 2..4 {
            assert!(is_black(x, y), "({x},{y}) 应黑");
        }
    }
    for y in 0..4 {
        for x in 0..4 {
            if !(2..4).contains(&x) || !(2..4).contains(&y) {
                assert!(!is_black(x, y), "({x},{y}) 应白");
            }
        }
    }
}

#[test]
fn mask_rgba_inplace_oob_clamp() {
    let mut rgba = vec![255u8; 2 * 2 * 4];
    let rects = vec![pixels((-5.0f64, -5.0, 100.0, 100.0), 1.0)];
    mask_rgba_inplace(&mut rgba, 2, 2, &rects);
    for px in rgba.chunks(4) {
        assert_eq!(px, &[0, 0, 0, 255], "超界 rect 应裁剪到全图涂黑");
    }
}

#[test]
fn gui_action_batch_empty() {
    let batch = GuiController::new().gui_action_batch(vec![]);
    assert!(batch.due().is_none());
    assert!(batch.results.is_empty(), "空 batch 应返空 Vec");
}

#[test]
fn gui_action_batch_sequential_collects() {
    let ctrl = GuiController::new();
    let mut batch = ctrl.gui_action_batch(vec![
        GuiAction::Wait { seconds: 0.0f64.to_bits() },
        GuiAction::Click { ax_label: None, ax_position: None },
        GuiAction::Wait { seconds: 0.0f64.to_bits() },
    ]);
    while let Some(action) = batch.due() {
        let came = match ctrl.execute(action, false) {
            Plan::Refused(r) => r,
            _ => GuiResult::done(),
        };
        batch = batch.next(Ok(came));
    }
    let results = batch.results;
    assert_eq!(results.len(), 3, "应收集 3 步结果");
    assert!(results[0].ok, "Wait[0] trusted-independent 应 ok");
    assert!(results[2].ok, "Wait[2] trusted-independent 应 ok");
    assert!(!results[1].ok, "CI 无 TCC: Click[1] 应降级 ok:false");
}

#[test]
fn batch_goes_on_behind_an_error() {
    let wait = || GuiAction::Wait { seconds: 0 };
    let batch = GuiController::new().gui_action_batch(vec![wait(), wait(), wait()]);
    let batch = batch.next(Ok(GuiResult::done())).next(Err("no app".to_string()));
    assert!(batch.due().is_some());
    let batch = batch.next(Ok(GuiResult::done()));
    assert!(batch.due().is_none());
    let ok: Vec<bool> = batch.results.iter().map(|r| r.ok).collect();
    assert_eq!(ok, vec![true, false, true]);
    assert_eq!(batch.results[1].error.as_deref(), Some("no app"));
    assert_eq!(batch.next(Ok(GuiResult::done())).results.len(), 3);
}

#[test]
fn keys_that_go_down_come_up() {
    let mods = vec![Modifier { flag: FLAG_COMMAND, code: KEY_COMMAND }, Modifier { flag: FLAG_SHIFT, code: KEY_SHIFT }];
    let events = press(0x24, &mods);
    let said: Vec<(u16, bool, u64)> = events.iter().map(|e| (e.code, e.down, e.flags)).collect();
    assert_eq!(
        said,
        vec![
            (KEY_COMMAND, true, FLAG_COMMAND | FLAG_SHIFT),
            (KEY_SHIFT, true, FLAG_COMMAND | FLAG_SHIFT),
            (0x24, true, FLAG_COMMAND | FLAG_SHIFT),
            (0x24, false, 0),
            (KEY_SHIFT, false, 0),
            (KEY_COMMAND, false, 0),
        ]
    );
    match unrestricted().key_press("tab", &vec!["control".to_string()]) {
        Plan::InFront(Input::Keys { events }) => {
            assert_eq!(events.len(), 4);
            assert_eq!(events[0].code, KEY_CONTROL);
        }
        _ => panic!("keys are pressed"),
    }
}

#[test]
fn held_keys_come_up_in_time() {
    match unrestricted().hold_key("Return", MAX_HOLD_MS + 1) {
        Plan::InFront(Input::Hold { code, ms }) => assert_eq!((code, ms), (0x24, MAX_HOLD_MS)),
        _ => panic!("the key is held"),
    }
}

#[test]
fn mouse_events_come_in_order() {
    let d = drag();
    assert_eq!(d.len(), DRAG_STEPS as usize + 1);
    assert_eq!((d[0].kind, d[0].step), (MouseKind::LeftDown, 0));
    assert_eq!((d[5].kind, d[5].step), (MouseKind::LeftDragged, 5));
    assert_eq!((d[16].kind, d[16].step), (MouseKind::LeftUp, 16));
    let c: Vec<(MouseKind, i64)> = clicks(2).iter().map(|e| (e.kind, e.click_state)).collect();
    assert_eq!(c, vec![(MouseKind::LeftDown, 1), (MouseKind::LeftUp, 1), (MouseKind::LeftDown, 2), (MouseKind::LeftUp, 2)]);
    assert_eq!(right_click().len(), 2);
}

#[test]
fn denied_application_is_left_alone() {
    let ctrl = GuiController::new();
    let r = refusal(ctrl.execute(&GuiAction::FocusApp { bundle_id: "com.evil".into() }, true));
    assert_eq!(r.error.as_deref(), Some("bundle-not-allowed: com.evil"));
    let r = refusal(ctrl.window_button(&Some("com.evil".into()), WindowButton::Close));
    assert_eq!(r.error.as_deref(), Some("bundle-not-allowed: com.evil"));
    let r = refusal(ctrl.window_resize(&Some("com.evil".into()), at(1.0, 1.0)));
    assert_eq!(r.error.as_deref(), Some("bundle-not-allowed: com.evil"));
    match ctrl.window_button(&None, WindowButton::Zoom) {
        Plan::Button { bundle_id, button } => {
            assert!(bundle_id.is_none());
            assert_eq!(button.attribute(), "AXZoomButton");
        }
        _ => panic!("a window in front has no name to go by"),
    }
    assert_eq!(WindowButton::Close.attribute(), "AXCloseButton");
    assert_eq!(WindowButton::Minimize.attribute(), "AXMinimizeButton");
}

#[test]
fn tree_is_listed_up_to_its_bounds() {
    let leaves: Vec<UiElement> = (0..700).map(|i| element(i, "AXButton", Some("b"), None, Vec::new())).collect();
    let root = element(1000, "AXWindow", Some("w"), None, leaves);
    let mut count: usize = 0;
    let node = build_node(&root, 0, &mut count);
    assert_eq!(count, MAX_TREE_NODES);
    assert_eq!(node.role, "AXWindow");
    assert_eq!(node.children.len(), MAX_TREE_NODES - 1);
    let mut full: usize = MAX_TREE_NODES;
    assert_eq!(build_node(&root, 0, &mut full).role, "_truncated");
    let mut deep = element(0, "AXGroup", None, None, Vec::new());
    for i in 1..20 {
        deep = element(i, "AXGroup", None, None, vec![deep]);
    }
    let mut count: usize = 0;
    let _ = build_node(&deep, 0, &mut count);
    assert_eq!(count, 9);
}

#[test]
fn clicks_go_to_the_label_or_the_nearest() {
    let root = element(
        1,
        "AXWindow",
        None,
        None,
        vec![
            element(2, "AXButton", Some("Open"), Some(at(1.0, 1.0)), Vec::new()),
            element(3, "AXButton", Some("Save"), Some(at(9.0, 9.0)), Vec::new()),
            element(4, "AXGroup", None, None, Vec::new()),
        ],
    );
    let mut cs: Vec<ClickCandidate> = Vec::new();
    collect_clickable(&root, 0, &mut cs);
    let handles: Vec<u64> = cs.iter().map(|c| c.handle).collect();
    assert_eq!(handles, vec![2, 3]);
    assert_eq!(find_click_target(&cs, Some("Save"), None).unwrap().handle, 3);
    assert_eq!(find_click_target(&cs, None, Some(&vec![7, 2])).unwrap().handle, 3);
    assert_eq!(find_click_target(&cs, Some("Nope"), Some(&vec![2, 2])).unwrap().handle, 2);
    assert_eq!(find_click_target(&cs, None, None).unwrap_err(), "click 需 ax_label 或 ax_position");
    assert_eq!(find_click_target(&Vec::new(), None, None).unwrap_err(), "无可点击节点 (子树为空)");
    assert_eq!(resolve_click_position(&cs, Some("Open"), None), Ok(at(1.0, 1.0)));
    assert_eq!(resolve_click_position(&cs, None, Some(at(5.0, 5.0))), Ok(at(5.0, 5.0)));
    let bare = vec![ClickCandidate { handle: 5, label: Some("x".into()), position: None }];
    assert_eq!(resolve_click_position(&bare, Some("x"), None).unwrap_err(), "目标节点无 AXPosition, 无法取坐标");
}

#[test]
fn elements_without_a_press_are_not_clicked() {
    assert!(click_denied(&vec!["AXPress".to_string()]).is_none());
    assert_eq!(click_denied(&Vec::new()).unwrap().error.as_deref(), Some("click-target-no-press-action"));
    assert!(confirms(&vec!["AXConfirm".to_string()]));
    assert!(!confirms(&vec!["AXPress".to_string()]));
}

#[test]
fn password_fields_are_found_and_spared() {
    let mut field = element(7, "AXTextField", None, Some(at(1.0, 2.0)), Vec::new());
    field.subrole = Some(SECURE_SUBROLE.to_string());
    field.size = Some(at(3.0, 4.0));
    let root = element(1, "AXWindow", None, None, vec![element(2, "AXGroup", None, None, vec![field])]);
    let found = find_text_field(&root).unwrap();
    assert_eq!(found, TextField { handle: 7, secure: true });
    assert!(GuiController::new().type_text(&found).unwrap().error.unwrap().starts_with("secure-text-field-rejected"));
    let open = GuiController::new_with_config(GuiConfig { allowed_bundle_ids: None, allow_type_into_secure: true });
    assert!(open.type_text(&found).is_none());
    assert!(GuiController::new().type_text(&TextField { handle: 7, secure: false }).is_none());
    assert_eq!(collect_secure_rects(&root), vec![(at(1.0, 2.0), at(3.0, 4.0))]);
    assert!(find_text_field(&element(1, "AXWindow", None, None, Vec::new())).is_err());
    let mut focused = element(9, "AXTextArea", None, None, Vec::new());
    focused.focused = Some(true);
    let two = element(1, "AXWindow", None, None, vec![element(8, "AXTextField", None, None, Vec::new()), focused]);
    assert_eq!(find_text_field(&two).unwrap(), TextField { handle: 9, secure: false });
    assert!(wants_mask(true, true) && !wants_mask(true, false) && !wants_mask(false, true));
}

#[test]
fn pictures_are_written_as_png() {
    let text = rgba_to_png_b64(&vec![10, 20, 30, 255], 1, 1).unwrap();
    let bytes = base64::Engine::decode(&base64::engine::general_purpose::STANDARD, &text).unwrap();
    assert_eq!(&bytes[0..8], &[0x89, b'P', b'N', b'G', 13, 10, 26, 10]);
    let decoder = png::Decoder::new(std::io::Cursor::new(bytes));
    let mut reader = decoder.read_info().unwrap();
    let mut out = vec![0u8; 4];
    reader.next_frame(&mut out).unwrap();
    assert_eq!(out, vec![10, 20, 30, 255]);
    assert!(rgba_to_png_b64(&vec![1, 2, 3], 1, 1).unwrap_err().starts_with("PNG 写像素失败: "));
    assert!(rgba_to_png_b64(&Vec::new(), 0, 0).unwrap_err().starts_with("PNG 写头失败: "));
    assert_eq!(picture_text(&Png::File(vec![1, 2, 3])), Ok("AQID".to_string()));
    assert_eq!(picture_text(&Png::NoHead("h".to_string())), Err("PNG 写头失败: h".to_string()));
}

#[test]
fn masked_pixels_tell_nothing() {
    let rects = vec![PixelRect { x0: 0, y0: 0, x1: 1, y1: 1 }];
    let secret = screenshot(Captured::Pixels { rgba: vec![9, 9, 9, 9, 1, 1, 1, 255], w: 2, h: 1 }, &rects, 2.0f32.to_bits());
    let other = screenshot(Captured::Pixels { rgba: vec![7, 7, 7, 7, 1, 1, 1, 255], w: 2, h: 1 }, &rects, 2.0f32.to_bits());
    assert!(secret.ok);
    assert_eq!(secret.screenshot_png_b64, other.screenshot_png_b64);
    assert_eq!((secret.screenshot_width, secret.screenshot_height), (Some(2), Some(1)));
    assert_eq!(f32::from_bits(secret.scale_factor), 2.0);
    let r = screenshot(Captured::Pixels { rgba: Vec::new(), w: 0, h: 0 }, &Vec::new(), 0);
    assert_eq!(r.error.as_deref(), Some("screenshot-encode-failed: 截图尺寸为 0"));
    let r = screenshot(Captured::Broken("x".to_string()), &Vec::new(), 0);
    assert_eq!(r.error.as_deref(), Some("screenshot-encode-failed: x"));
}
