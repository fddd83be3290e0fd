use gewy::CursorIcon;
use gewy::Delivery;
use gewy::DynEvent;
use gewy::EmitRule;
use gewy::Event;
use gewy::EventControl;
use gewy::EventKind;
use gewy::NodeId;
use gewy::NodeOrigin;
use gewy::PressEvent;
use gewy::Probe;
use gewy::RadioButton;
use gewy::ReleaseEvent;
use gewy::Widget;

#[test]
fn event_kinds_and_envelopes() {
    assert_eq!(EventKind::Press, PressEvent.kind());
    assert_eq!(EventKind::Release, ReleaseEvent.kind());
    let e = PressEvent.to_dyn();
    assert!(e.is_event(EventKind::Press));
    assert!(!e.is_event(EventKind::Release));
    let c = DynEvent::new(EventKind::Custom(42));
    assert!(c.is_event(EventKind::Custom(42)));
    assert!(!c.is_event(EventKind::Custom(41)));
}

#[test]
fn control_flags_and_outgoing_queue() {
    let mut ctl = EventControl::new(DynEvent::new(EventKind::Press), None);
    assert!(!ctl.stop && !ctl.repaint && !ctl.pressed);
    assert!(ctl.origin().is_none());
    ctl.press();
    ctl.repaint();
    ctl.stop();
    ctl.set_cursor_icon(CursorIcon::Hand);
    ctl.fire(DynEvent::new(EventKind::Focus));
    ctl.fire(DynEvent::new(EventKind::Unfocus));
    assert!(ctl.stop && ctl.repaint && ctl.pressed);
    assert_eq!(Some(CursorIcon::Hand), ctl.cursor_icon);
    assert_eq!(2, ctl.outgoing_events.len());
    assert_eq!(EventKind::Focus, ctl.outgoing_events[0].kind);
}

#[test]
fn matched_events_filter_by_name() {
    let origin = NodeOrigin { id: NodeId::default(), name: Some(4) };
    let ctl = EventControl::new(DynEvent::new(EventKind::Enter), Some(origin));
    assert_eq!(Some(origin), ctl.as_matched_event(EventKind::Enter, None));
    assert_eq!(Some(origin), ctl.as_matched_event(EventKind::Enter, Some(4)));
    assert_eq!(None, ctl.as_matched_event(EventKind::Enter, Some(5)));
    assert_eq!(None, ctl.as_matched_event(EventKind::Exit, None));
    let no_origin = EventControl::new(DynEvent::new(EventKind::Enter), None);
    assert_eq!(None, no_origin.as_matched_event(EventKind::Enter, None));
}

#[test]
fn radio_button_toggles_on_release() {
    let mut w = Widget::RadioButton(RadioButton { selected: false, entered: false });
    let mut ctl = EventControl::new(DynEvent::new(EventKind::Release), None);
    w.handle_event(&mut ctl);
    assert!(ctl.stop && ctl.repaint);
    match &w {
        Widget::RadioButton(rb) => assert!(rb.selected),
        _ => panic!("widget changed variant"),
    }
    let mut ctl2 = EventControl::new(DynEvent::new(EventKind::Release), None);
    w.handle_event(&mut ctl2);
    match &w {
        Widget::RadioButton(rb) => assert!(!rb.selected),
        _ => panic!("widget changed variant"),
    }
}

#[test]
fn radio_button_captures_press_and_requests_icons() {
    let mut w = Widget::RadioButton(RadioButton::default());
    let mut press = EventControl::new(DynEvent::new(EventKind::Press), None);
    w.handle_event(&mut press);
    assert!(press.pressed && press.stop);
    let mut enter = EventControl::new(DynEvent::new(EventKind::Enter), None);
    w.handle_event(&mut enter);
    assert_eq!(Some(CursorIcon::Hand), enter.cursor_icon);
    let mut exit = EventControl::new(DynEvent::new(EventKind::Exit), None);
    w.handle_event(&mut exit);
    assert_eq!(Some(CursorIcon::Default), exit.cursor_icon);
}

#[test]
fn probe_records_stops_and_emits() {
    let mut p = Probe::new();
    p.stop_kinds.push(EventKind::Press);
    p.emit_rules.push(EmitRule { on: EventKind::Enter, emit: EventKind::Focus });
    p.emit_rules.push(EmitRule { on: EventKind::Enter, emit: EventKind::Custom(9) });
    p.emit_rules.push(EmitRule { on: EventKind::Exit, emit: EventKind::Unfocus });
    let mut w = Widget::Probe(p);

    let origin = NodeOrigin { id: NodeId::default(), name: Some(2) };
    let mut enter = EventControl::new(DynEvent::new(EventKind::Enter), Some(origin));
    w.handle_event(&mut enter);
    assert!(!enter.stop);
    assert_eq!(2, enter.outgoing_events.len());
    assert_eq!(EventKind::Focus, enter.outgoing_events[0].kind);
    assert_eq!(EventKind::Custom(9), enter.outgoing_events[1].kind);

    let mut press = EventControl::new(DynEvent::new(EventKind::Press), None);
    w.handle_event(&mut press);
    assert!(press.stop);
    assert_eq!(0, press.outgoing_events.len());

    match &w {
        Widget::Probe(probe) => {
            assert_eq!(2, probe.log.len());
            assert_eq!(
                Delivery { kind: EventKind::Enter, origin: Some(origin) },
                probe.log[0]
            );
            assert_eq!(Delivery { kind: EventKind::Press, origin: None }, probe.log[1]);
        },
        _ => panic!("widget changed variant"),
    }
}

#[test]
fn pane_and_group_ignore_events() {
    let mut w = Widget::Pane(gewy::Pane);
    let mut ctl = EventControl::new(DynEvent::new(EventKind::Press), None);
    w.handle_event(&mut ctl);
    assert!(!ctl.stop && !ctl.pressed && !ctl.repaint);
    assert!(ctl.cursor_icon.is_none());
    assert_eq!(0, ctl.outgoing_events.len());
}

#[test]
fn color_modulation_scales_channels() {
    let c = gewy::Color::new(200, 100, 0, 255);
    let tint = gewy::Color::new(255, 128, 255, 255);
    let m = c.modulate(tint);
    assert_eq!(200, m.r);
    assert_eq!(50, m.g);
    assert_eq!(0, m.b);
    assert_eq!(255, m.a);
}
