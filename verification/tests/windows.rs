//! Geometry, previews, quick notes, hovering and the tray.
use usticky::errors::CommandError;
use usticky::hover::{
    is_floating_topmost_at_with_status, look_at_window, HitSlot, HoverTick, HoverTracker,
    LayerDelay, Sample, SimpleTracker,
};
use usticky::platform::{
    apply_z_order, is_cursor_inside_floating, save_previous_app_for_quick_add, z_order_of, Edges,
    Layering, Level, Platform, PointerFacts, ZOrder,
};
use usticky::preview::{
    close_preview_window, open_preview_window, pin_label, pin_preview, present_preview,
    image_height, preview_logical_size, preview_position, ImageHeight, preview_url, PendingPreview, PinPlan, Placement,
    Presentation, PreviewHeight, PreviewSize,
};
use usticky::quick_add::{
    handle_event, plan_binding, register_quick_add_shortcut, BindingPlan, QuickAdd, QuickEvent,
    WindowAction,
};
use usticky::store::Store;
use usticky::todo::{
    PinMode, StoreData, Todo, TodoAttachment, TodoPriority, TodoStatus, WindowGeom,
};
use usticky::tray::{
    build_tray_menu, format_shortcut_for_display, may_rebuild, on_menu_event, toggle_from_icon,
    toggle_from_menu, ToggleAction, TrayAction, TrayEntry,
};
use usticky::window::{
    finish_reset, home_monitor, monitor_or_default, monitor_under, on_window_event,
    reset_floating_window, resize_floating_window, restore_geometry, Monitor, WindowEvent,
};

fn empty() -> Store {
    Store::from_data(StoreData::default(), None)
}

fn screen() -> Monitor {
    Monitor {
        x: 0,
        y: 0,
        width: 1920,
        height: 1080,
    }
}

#[test]
fn a_reset_centers_the_window() {
    let mut s = empty();
    let plan = reset_floating_window(s.last_window_geom(), screen(), (320, 481), true);
    assert_eq!((plan.x, plan.y, plan.move_now), (800, 299, true));
    assert_eq!(s.last_window_geom().x, None);
    finish_reset(&mut s, plan);
    assert_eq!(
        *s.last_window_geom(),
        WindowGeom {
            x: Some(800),
            y: Some(299),
            width: Some(320),
            height: Some(481)
        }
    );
    s.update_window_size(Some(2001), Some(80));
    let plan = reset_floating_window(s.last_window_geom(), screen(), (320, 480), false);
    assert_eq!((plan.x, plan.y), (-40, 500));
    assert_eq!((plan.width, plan.height, plan.move_now), (2001, 80, false));
    s.update_window_size(Some(0), Some(80));
    let plan = reset_floating_window(s.last_window_geom(), screen(), (20, 20), false);
    assert_eq!((plan.width, plan.height), (20, 20));
}

#[test]
fn displays_fall_back() {
    let other = Monitor { x: 5, ..screen() };
    assert_eq!(home_monitor(Some(screen()), Some(other)).unwrap(), screen());
    assert_eq!(home_monitor(None, Some(other)).unwrap(), other);
    assert!(matches!(
        home_monitor(None, None),
        Err(CommandError::NoPrimaryMonitor)
    ));
    assert_eq!(monitor_under(None, Some(other)).unwrap(), other);
    assert!(matches!(
        monitor_under(None, None),
        Err(CommandError::NoMonitor)
    ));
    assert_eq!(monitor_or_default(None), screen());
    assert_eq!(monitor_or_default(Some(other)), other);
}

#[test]
fn a_window_grows_to_the_bottom_at_most() {
    let plan = resize_floating_window(screen(), 100, 300, 400);
    assert_eq!((plan.height, plan.bottomed), (400, None));
    let plan = resize_floating_window(screen(), 100, 300, 5000);
    assert_eq!((plan.height, plan.bottomed), (968, Some(true)));
    let plan = resize_floating_window(screen(), 100, 968, 5000);
    assert_eq!((plan.height, plan.bottomed), (968, None));
    let plan = resize_floating_window(screen(), 100, 968, 200);
    assert_eq!((plan.height, plan.bottomed), (200, Some(false)));
    let plan = resize_floating_window(screen(), 1070, 300, 400);
    assert_eq!((plan.height, plan.bottomed), (160, None));
    let plan = resize_floating_window(screen(), -300, 10, 5000);
    assert_eq!(plan.height, 1080);
}

#[test]
fn a_saved_window_comes_back_on_screen() {
    let geom = |x, y, width, height| WindowGeom {
        x,
        y,
        width,
        height,
    };
    let g = restore_geometry(
        &geom(Some(5000), Some(-300), Some(300), Some(400)),
        screen(),
    );
    assert_eq!(g.position, Some((1870, -10)));
    assert_eq!(g.size, Some((300, 400)));
    let g = restore_geometry(&geom(Some(-500), Some(50), Some(300), Some(0)), screen());
    assert_eq!(g.position, Some((-50, 50)));
    assert_eq!(g.size, None);
    let g = restore_geometry(&geom(Some(1), None, None, Some(2)), screen());
    assert_eq!(g.position, None);
    assert_eq!(g.size, None);
    let edge = Monitor {
        x: i32::MIN,
        ..screen()
    };
    let g = restore_geometry(&geom(Some(i32::MIN), Some(0), None, None), edge);
    assert_eq!(g.position, Some((i32::MIN, 0)));
}

#[test]
fn window_events_are_recorded() {
    let mut s = empty();
    let mut q = QuickAdd::new();
    let r = on_window_event(&mut s, &mut q, WindowEvent::Moved(3, 4), false);
    assert!(r.geometry_changed && !r.prevent_close && r.actions.is_empty());
    let r = on_window_event(&mut s, &mut q, WindowEvent::Resized(0, 9), false);
    assert!(!r.geometry_changed);
    on_window_event(&mut s, &mut q, WindowEvent::Resized(8, 9), false);
    assert_eq!(
        *s.last_window_geom(),
        WindowGeom {
            x: Some(3),
            y: Some(4),
            width: Some(8),
            height: Some(9)
        }
    );
    let r = on_window_event(&mut s, &mut q, WindowEvent::CloseRequested, true);
    assert!(r.prevent_close);
    assert_eq!(
        r.actions,
        vec![WindowAction::Hide, WindowAction::ClosePreview]
    );
    q.quick_show_floating_window(true);
    let r = on_window_event(&mut s, &mut q, WindowEvent::FocusLost, false);
    assert_eq!(
        r.actions,
        vec![WindowAction::RestoreLevel(PinMode::PinBottom)]
    );
    assert!(!q.active);
}

fn note(attachment: Option<(Option<u32>, Option<u32>)>) -> Todo {
    Todo {
        id: "t".to_string(),
        title: "t".to_string(),
        status: TodoStatus::Pending,
        priority: TodoPriority::P2,
        created_at: 0,
        updated_at: 0,
        due_at: None,
        tags: vec![],
        order: 0,
        attachment: attachment.map(|(width, height)| TodoAttachment {
            file: "f.png".to_string(),
            mime: "image/png".to_string(),
            width,
            height,
        }),
    }
}

#[test]
fn previews_are_sized_by_what_they_show() {
    let usual = PreviewSize {
        width: 460,
        height: PreviewHeight::Fixed(340),
    };
    assert_eq!(preview_logical_size(&note(None), false), usual);
    assert_eq!(
        preview_logical_size(&note(None), true),
        PreviewSize {
            width: 460,
            height: PreviewHeight::OfText {
                extra: 74,
                least: 130,
                most: 720
            },
        }
    );
    assert_eq!(
        preview_logical_size(&note(Some((Some(0), Some(9)))), true),
        usual
    );
    assert_eq!(preview_logical_size(&note(Some((None, None))), true), usual);
    let image = |w: u32, h: u32| preview_logical_size(&note(Some((Some(w), Some(h)))), true);
    let of_image = |num, den| PreviewHeight::OfImage {
        num,
        den,
        extra: 178,
        least: 200,
        most: 720,
    };
    assert_eq!(image(100, 50).width, 240);
    assert_eq!(image(100, 50).height, of_image(240 * 50, 100));
    assert_eq!(image(1000, 2000).width, 640);
    assert_eq!(image(300, 200).height, of_image(300 * 200, 300));
    assert_eq!(
        image(u32::MAX, u32::MAX).height,
        of_image(640 * u32::MAX as u64, u32::MAX as u64)
    );
}

#[test]
fn image_previews_are_brought_into_range() {
    let within = |num, den| ImageHeight::Within {
        num,
        den,
        extra: 178,
    };
    let height = |num, den| image_height(num, den, 178, 200, 720);
    assert_eq!(height(22 * 7 - 1, 7), ImageHeight::End(200));
    assert_eq!(height(22 * 7, 7), within(22 * 7, 7));
    assert_eq!(height(300 * 200, 300), within(300 * 200, 300));
    assert_eq!(height(542 * 7, 7), within(542 * 7, 7));
    assert_eq!(height(542 * 7 + 1, 7), ImageHeight::End(720));
    assert_eq!(height(u64::MAX, 1), ImageHeight::End(720));
    assert_eq!(height(0, u64::MAX), ImageHeight::End(200));
}

fn place(fx: i32) -> Placement {
    Placement {
        fx,
        fw: 300,
        pw: 460,
        ph: 340,
        mx: 0,
        my: 25,
        mw: 1920,
        mh: 1000,
        anchor: 100,
    }
}

#[test]
fn previews_open_left_then_right_then_as_far_as_it_goes() {
    assert_eq!(preview_position(place(600)), (128, 100));
    assert_eq!(preview_position(place(472)), (0, 100));
    assert_eq!(preview_position(place(471)), (783, 100));
    let narrow = Placement {
        mw: 900,
        ..place(300)
    };
    assert_eq!(preview_position(narrow), (440, 100));
    let tiny = Placement {
        mw: 400,
        ..place(50)
    };
    assert_eq!(preview_position(tiny), (0, 100));
    let low = Placement {
        anchor: 2000,
        ..place(600)
    };
    assert_eq!(preview_position(low), (128, 685));
    let high = Placement {
        anchor: -5,
        ..place(600)
    };
    assert_eq!(preview_position(high), (128, 25));
    let tall = Placement {
        ph: 3000,
        ..place(600)
    };
    assert_eq!(preview_position(tall), (128, 25));
}

#[test]
fn previews_are_named_after_their_todo() {
    assert_eq!(pin_label("ab"), "preview-pin-ab");
    assert_ne!(pin_label("a"), pin_label("b"));
    assert_eq!(preview_url("x", false), "preview.html?id=x");
    assert_eq!(preview_url("x", true), "preview.html?id=x&pinned=1");
    let mut s = empty();
    let id = s.add("t".to_string()).id;
    assert_eq!(
        open_preview_window(&s, &id, false).unwrap().unwrap().title,
        "t"
    );
    assert!(open_preview_window(&s, &id, true).unwrap().is_none());
    assert!(open_preview_window(&s, "ghost", true).unwrap().is_none());
    assert!(matches!(
        open_preview_window(&s, "ghost", false),
        Err(CommandError::NotFound)
    ));
}

#[test]
fn previews_are_reused_and_spared() {
    assert_eq!(
        present_preview(true, false, true),
        Presentation::Reuse {
            focus: true,
            refresh: true
        }
    );
    assert_eq!(
        present_preview(true, true, false),
        Presentation::Reuse {
            focus: false,
            refresh: false
        }
    );
    assert_eq!(
        present_preview(false, true, true),
        Presentation::Create { focus: true }
    );
    assert!(!close_preview_window(false, false, Some(true)));
    assert!(!close_preview_window(true, true, None));
    assert!(!close_preview_window(true, true, Some(false)));
    assert!(close_preview_window(true, true, Some(true)));
    assert!(close_preview_window(true, false, None));
    assert_eq!(pin_preview(true, true), PinPlan::FocusPinned);
    assert_eq!(pin_preview(false, true), PinPlan::AtPreview);
    assert_eq!(pin_preview(false, false), PinPlan::BesideFloating);
    let mut p = PendingPreview::new();
    p.put("a");
    p.put("b");
    assert_eq!(p.take_pending_preview_todo().as_deref(), Some("b"));
    assert_eq!(p.take_pending_preview_todo(), None);
}

#[test]
fn the_shortcut_toggles() {
    let mut q = QuickAdd::new();
    let shown = q.on_shortcut(true, PinMode::PinTop);
    assert_eq!(
        shown,
        vec![
            WindowAction::SavePreviousApp,
            WindowAction::RaiseLevel,
            WindowAction::Show,
            WindowAction::Focus,
            WindowAction::AnnounceQuickAdd
        ]
    );
    assert!(q.active);
    let lowered = q.on_shortcut(true, PinMode::PinTop);
    assert_eq!(
        lowered,
        vec![
            WindowAction::RestoreLevel(PinMode::PinTop),
            WindowAction::ActivatePreviousApp
        ]
    );
    assert!(q.blur_dismiss_floating_window(PinMode::PinTop).is_empty());
    assert_eq!(
        q.toggle_dismiss_floating_window(PinMode::Normal),
        vec![WindowAction::ActivatePreviousApp]
    );
}

#[test]
fn the_shortcut_without_a_window() {
    let mut q = QuickAdd::new();
    assert!(q.on_shortcut(false, PinMode::Normal).is_empty());
    assert!(q.active);
    let mut q = QuickAdd::new();
    assert!(q.on_fallback_shortcut(false, PinMode::Normal).is_empty());
    assert!(!q.active);
    assert_eq!(q.on_fallback_shortcut(true, PinMode::Normal).len(), 5);
    assert_eq!(q.on_fallback_shortcut(true, PinMode::Normal).len(), 2);
    assert!(q.show_floating_window_normal(false).is_empty());
}

#[test]
fn hiding_comes_before_lowering() {
    let mut q = QuickAdd::new();
    q.quick_show_floating_window(true);
    assert_eq!(
        q.hide_dismiss_floating_window(true, true, PinMode::PinBottom),
        vec![
            WindowAction::Hide,
            WindowAction::ClosePreview,
            WindowAction::RestoreLevel(PinMode::PinBottom),
            WindowAction::ActivatePreviousApp
        ]
    );
    assert_eq!(
        q.hide_dismiss_floating_window(true, false, PinMode::PinBottom),
        vec![WindowAction::Hide]
    );
    q.quick_show_floating_window(true);
    assert_eq!(
        q.show_floating_window_normal(true),
        vec![WindowAction::Show, WindowAction::Focus]
    );
    assert!(!q.active);
    assert_eq!(
        handle_event(&mut q, QuickEvent::Shortcut, false, PinMode::Normal).len(),
        5
    );
    assert_eq!(
        handle_event(&mut q, QuickEvent::Blur, false, PinMode::Normal),
        vec![WindowAction::RestoreLevel(PinMode::Normal)]
    );
}

#[test]
fn an_unreadable_shortcut_keeps_the_binding() {
    let mut s = empty();
    s.set_quick_add_shortcut("nonsense+".to_string());
    match register_quick_add_shortcut(&s, Platform::Linux, None) {
        BindingPlan::Keep(CommandError::InvalidShortcut { accelerator, .. }) => {
            assert_eq!(accelerator, "nonsense+")
        }
        _ => panic!("expected the old binding to stay"),
    }
    s.set_quick_add_shortcut("Alt+N".to_string());
    let plan = register_quick_add_shortcut(&s, Platform::Linux, Some("Ctrl+M".to_string()));
    match plan {
        BindingPlan::Replace {
            accelerator,
            hotkey,
            fallback,
        } => {
            assert_eq!(accelerator, "Alt+N");
            assert_eq!(hotkey.mods, 1);
            let (text, key) = fallback.unwrap();
            assert_eq!((text.as_str(), key.mods), ("Ctrl+M", 8));
        }
        _ => panic!("expected a new binding"),
    }
    let plan = register_quick_add_shortcut(&s, Platform::Linux, Some("?+?".to_string()));
    assert!(matches!(plan, BindingPlan::Replace { fallback: None, .. }));
    let plan = plan_binding("x".to_string(), Err(CommandError::NotFound), None);
    assert!(matches!(plan, BindingPlan::Keep(CommandError::NotFound)));
}

fn known(inside: bool) -> Sample {
    Sample::Known {
        inside,
        has_frame: true,
    }
}

const QUIET: HoverTick = HoverTick {
    report: None,
    position: false,
    level: None,
};

#[test]
fn entering_counts_at_once_and_leaving_takes_two() {
    let mut t = HoverTracker::new();
    assert_eq!(t.tick(false, known(false), true), QUIET);
    let enter = t.tick(false, known(true), true);
    assert_eq!(enter.report, Some(true));
    assert_eq!(enter.level, Some(Level::Floating));
    assert!(enter.position);
    let stay = t.tick(false, known(true), true);
    assert_eq!((stay.report, stay.position, stay.level), (None, true, None));
    assert_eq!(t.tick(false, known(false), true), QUIET);
    assert!(t.tick(false, known(true), true).report.is_none());
    assert_eq!(t.tick(false, known(false), true), QUIET);
    let leave = t.tick(false, known(false), true);
    assert_eq!(leave.report, Some(false));
    assert_eq!(leave.level, Some(Level::BelowNormal));
    assert!(!leave.position);
}

#[test]
fn failed_looks_are_ridden_out() {
    let mut t = HoverTracker::new();
    t.tick(false, known(true), false);
    assert_eq!(t.tick(false, Sample::Unknown, true), QUIET);
    assert_eq!(t.tick(false, Sample::Unknown, true), QUIET);
    t.tick(false, known(true), true);
    assert_eq!(t.tick(false, Sample::Unknown, true), QUIET);
    assert_eq!(t.tick(false, Sample::Unknown, true), QUIET);
    let gone = t.tick(false, Sample::Unknown, true);
    assert_eq!(gone.report, Some(false));
    assert_eq!(gone.level, Some(Level::BelowNormal));
    for _ in 0..300 {
        assert_eq!(t.tick(false, Sample::Unknown, true), QUIET);
    }
}

#[test]
fn a_forced_look_reports_what_it_finds() {
    let mut t = HoverTracker::new();
    t.tick(false, known(true), false);
    let again = t.tick(true, known(true), true);
    assert_eq!(again.report, Some(true));
    assert_eq!(again.level, Some(Level::Floating));
    assert_eq!(t.tick(true, known(false), false).report, Some(false));
    assert_eq!(t.tick(true, Sample::Unknown, false), QUIET);
}

#[test]
fn a_hidden_window_is_not_hovered() {
    let mut t = HoverTracker::new();
    assert_eq!(t.tick(false, Sample::Hidden, true), QUIET);
    t.tick(false, known(true), true);
    let hidden = t.tick(false, Sample::Hidden, true);
    assert_eq!(hidden.report, Some(false));
    assert_eq!(hidden.level, Some(Level::BelowNormal));
    assert_eq!(t.tick(false, Sample::Hidden, true), QUIET);
    assert_eq!(t.tick(true, Sample::Hidden, false).report, Some(false));
    assert_eq!(t.tick(false, known(true), true).report, Some(true));
    assert_eq!(look_at_window(false, Some((7, 7))), Sample::Hidden);
    assert_eq!(look_at_window(true, Some((7, 7))), known(true));
    assert_eq!(look_at_window(true, None), Sample::Unknown);
}

#[test]
fn lowering_waits_for_one_look() {
    let mut d = LayerDelay::new();
    assert_eq!(
        d.next(Some(Level::Floating), true, true),
        Some(Level::Floating)
    );
    assert_eq!(d.next(Some(Level::BelowNormal), false, true), None);
    assert_eq!(d.next(None, false, true), Some(Level::BelowNormal));
    assert_eq!(d.next(None, false, true), None);
    d.next(Some(Level::BelowNormal), false, true);
    assert_eq!(
        d.next(Some(Level::Floating), true, true),
        Some(Level::Floating)
    );
    assert_eq!(d.next(None, true, true), None);
    d.next(Some(Level::BelowNormal), false, true);
    assert_eq!(d.next(None, false, false), None);
}

#[test]
fn an_open_menu_stays_as_it_is() {
    assert!(!may_rebuild(true));
    assert!(may_rebuild(false));
}

#[test]
fn showing_from_the_icon_is_no_quick_note() {
    let mut q = QuickAdd::new();
    assert_eq!(
        toggle_from_icon(true, true, true, false),
        ToggleAction::ShowNormally
    );
    let actions = q.show_floating_window_normal(true);
    assert_eq!(actions, vec![WindowAction::Show, WindowAction::Focus]);
    assert!(!q.active);
    assert!(q.blur_dismiss_floating_window(PinMode::PinBottom).is_empty());
}

#[test]
fn late_answers_are_dropped() {
    let mut slot = HitSlot::new();
    let first = slot.begin();
    let second = slot.begin();
    assert_ne!(first, second);
    slot.put(first, known(true));
    assert!(!slot.is_answered());
    assert_eq!(slot.read(), Sample::Unknown);
    slot.put(second, known(true));
    slot.fail(second);
    assert_eq!(slot.read(), known(true));
    let third = slot.begin();
    slot.fail(third);
    assert!(slot.is_answered());
    assert_eq!(slot.read(), Sample::Unknown);
    assert_eq!(
        is_floating_topmost_at_with_status(Some((7, 7))),
        known(true)
    );
    assert_eq!(
        is_floating_topmost_at_with_status(Some((7, 8))),
        known(false)
    );
    assert_eq!(
        is_floating_topmost_at_with_status(Some((0, 0))),
        Sample::Unknown
    );
    assert_eq!(is_floating_topmost_at_with_status(None), Sample::Unknown);
}

#[test]
fn windows_raises_while_hovered_and_drops_once() {
    let mut t = SimpleTracker::new();
    assert_eq!(t.tick(None, true).report, None);
    let r = t.tick(Some(true), true);
    assert_eq!((r.report, r.z_order), (Some(true), Some(ZOrder::TopMost)));
    let r = t.tick(Some(true), true);
    assert_eq!((r.report, r.z_order), (None, Some(ZOrder::TopMost)));
    let r = t.tick(Some(false), true);
    assert_eq!((r.report, r.z_order), (Some(false), Some(ZOrder::Bottom)));
    let r = t.tick(Some(false), true);
    assert_eq!((r.report, r.z_order), (None, None));
    let r = t.tick(Some(true), false);
    assert_eq!((r.report, r.z_order), (Some(true), None));
}

#[test]
fn layers_follow_the_pin_mode() {
    let mut l = Layering::new();
    assert_eq!(l.apply_pin_mode(PinMode::PinBottom).value(), -1);
    assert!(l.switching && l.take_force_report() && !l.take_force_report());
    assert_eq!(l.raise_for_quick_add().value(), 3);
    assert!(!l.switching);
    assert_eq!(l.restore_level_after_quick_add(PinMode::Normal).value(), 0);
    assert!(!l.switching);
    assert_eq!(l.apply_pin_mode(PinMode::PinTop), Level::Floating);
    assert_eq!(z_order_of(PinMode::PinTop), ZOrder::TopMost);
    assert_eq!(z_order_of(PinMode::PinBottom), ZOrder::Bottom);
    assert_eq!(z_order_of(PinMode::Normal), ZOrder::NotTopMost);
}

#[test]
fn only_another_application_is_gone_back_to() {
    assert!(save_previous_app_for_quick_add(Some(5), 6));
    assert!(!save_previous_app_for_quick_add(Some(6), 6));
    assert!(!save_previous_app_for_quick_add(None, 6));
}

#[test]
fn styles_keep_their_other_bits() {
    for style in [0i64, 8, 0x0008_0000, -1, 0x0020_0008] {
        let on = apply_z_order(ZOrder::TopMost, style);
        let off = apply_z_order(ZOrder::Bottom, style);
        assert_eq!(on, style | 8);
        assert_eq!(off, style & !8);
        assert_eq!(apply_z_order(ZOrder::NotTopMost, style), off);
    }
}

#[test]
fn the_pointer_counts_on_uncovered_parts_only() {
    let facts = PointerFacts {
        ours: 7,
        pointer: Some((10, 20)),
        rect: Some(Edges {
            left: 10,
            top: 20,
            right: 30,
            bottom: 40,
        }),
        topmost: 9,
        root: 7,
    };
    assert_eq!(is_cursor_inside_floating(&facts), Some(true));
    let covered = PointerFacts { root: 8, ..facts };
    assert_eq!(is_cursor_inside_floating(&covered), Some(false));
    let outside = PointerFacts {
        pointer: Some((30, 20)),
        ..facts
    };
    assert_eq!(is_cursor_inside_floating(&outside), Some(false));
    let rootless = PointerFacts {
        root: 0,
        topmost: 7,
        ..facts
    };
    assert_eq!(is_cursor_inside_floating(&rootless), Some(true));
    let nothing = PointerFacts {
        topmost: 0,
        ..facts
    };
    assert_eq!(is_cursor_inside_floating(&nothing), Some(false));
    for unknown in [
        PointerFacts { ours: 0, ..facts },
        PointerFacts {
            pointer: None,
            ..facts
        },
        PointerFacts {
            rect: None,
            ..facts
        },
    ] {
        assert_eq!(is_cursor_inside_floating(&unknown), None);
    }
}

#[test]
fn shortcuts_are_shown_by_signs_on_a_mac() {
    let mac = |s: &str| format_shortcut_for_display(s, Platform::MacOs);
    assert_eq!(mac("Cmd+Shift+Space"), "⌘⇧Space");
    assert_eq!(mac("CmdOrCtrl + alt+ k "), "⌘⌥k");
    assert_eq!(mac("Control+OPTION+Opt+F1"), "⌃⌥⌥F1");
    assert_eq!(mac("meta+super+command"), "⌘⌘⌘");
    assert_eq!(mac(""), "");
    assert_eq!(mac("a++"), "a");
    assert_eq!(
        format_shortcut_for_display("Cmd+Shift+Space", Platform::Windows),
        "Cmd+Shift+Space"
    );
}

#[test]
fn the_menu_shows_what_is_in_force() {
    let mut s = empty();
    s.set_pin_mode(PinMode::PinTop);
    let menu = build_tray_menu(Some(&s), Platform::MacOs);
    let checked: Vec<&str> = menu
        .settings
        .iter()
        .filter_map(|e| match e {
            TrayEntry::Check(id, _, true) => Some(*id),
            _ => None,
        })
        .collect();
    assert_eq!(checked, vec!["pin_top"]);
    match &menu.settings[6] {
        TrayEntry::Shortcut(id, label, shown) => {
            assert_eq!(*id, "change_shortcut");
            assert_eq!(*label, "tray.quick_add_change");
            assert_eq!(shown, "⌘⇧Space");
        }
        _ => panic!("expected the shortcut"),
    }
    assert!(matches!(
        menu.top[0],
        TrayEntry::Item("toggle", "tray.toggle")
    ));
    assert_eq!(menu.top.len(), 6);
    assert!(matches!(menu.top[5], TrayEntry::Item("quit", "tray.quit")));
    let menu = build_tray_menu(None, Platform::Linux);
    assert!(matches!(
        menu.settings[1],
        TrayEntry::Check("pin_bottom", "tray.pin.bottom", true)
    ));
}

#[test]
fn entries_do_what_they_say() {
    assert_eq!(on_menu_event("toggle"), TrayAction::ToggleWindow);
    assert_eq!(on_menu_event("settings"), TrayAction::OpenSettings);
    assert_eq!(on_menu_event("change_shortcut"), TrayAction::OpenSettings);
    assert_eq!(on_menu_event("reset_position"), TrayAction::ResetPosition);
    assert_eq!(
        on_menu_event("pin_top"),
        TrayAction::SetPinMode(PinMode::PinTop)
    );
    assert_eq!(
        on_menu_event("normal"),
        TrayAction::SetPinMode(PinMode::Normal)
    );
    assert_eq!(on_menu_event("quit"), TrayAction::Quit);
    assert_eq!(on_menu_event("other"), TrayAction::Nothing);
    assert_eq!(toggle_from_menu(false, true), ToggleAction::Nothing);
    assert_eq!(toggle_from_menu(true, true), ToggleAction::Hide);
    assert_eq!(toggle_from_menu(true, false), ToggleAction::ShowNormally);
    assert_eq!(
        toggle_from_icon(true, true, true, false),
        ToggleAction::ShowNormally
    );
    assert_eq!(toggle_from_icon(true, true, true, true), ToggleAction::Hide);
    assert_eq!(
        toggle_from_icon(false, true, true, true),
        ToggleAction::Nothing
    );
    assert_eq!(
        toggle_from_icon(true, false, true, true),
        ToggleAction::Nothing
    );
    assert_eq!(
        toggle_from_icon(true, true, false, true),
        ToggleAction::Nothing
    );
}
