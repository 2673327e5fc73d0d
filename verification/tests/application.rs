use pixel_ui::app::Application;
use pixel_ui::color::Color;
use pixel_ui::element::Element;
use pixel_ui::element::ElementInner;
use pixel_ui::element::HandlerId;
use pixel_ui::event::ButtonState;
use pixel_ui::event::MouseButton;
use pixel_ui::event::ResizeEvent;
use pixel_ui::react::ProxyEvent;
use pixel_ui::react::SignalError;
use pixel_ui::react::SignalId;
use pixel_ui::react::SignalValue;
use pixel_ui::util::IVec2;
use pixel_ui::util::UVec2;

#[test]
fn arena_old_identifier_never_aliases_new_element() {
    let mut app = Application::builder().build();
    let first = app.insert_element(Element::rect(2, 2, Color::white()));
    assert!(app.try_get(first).is_some());
    assert!(app.remove_element(first).is_some());
    let second = app.insert_element(Element::rect(3, 3, Color::black()));
    assert_ne!(first, second);
    assert!(app.try_get(first).is_none());
    assert!(app.try_get(second).is_some());
    assert!(app.remove_element(first).is_none());
}

#[test]
fn signal_writes_coalesce_to_one_notification() {
    let mut app = Application::builder().build();
    let (read, write) = app.create_signal(SignalValue::Bool(false));
    app.signal_set(&write, SignalValue::Bool(true));
    app.signal_set(&write, SignalValue::Bool(false));
    app.signal_set(&write, SignalValue::Bool(true));
    let pending = app.drain_pending();
    assert_eq!(pending.len(), 1);
    assert!(matches!(pending[0], ProxyEvent::React));
    assert_eq!(app.signal_get(&read), SignalValue::Bool(true));

    // The next re-render pass opens a new batch: one more notification.
    app.mark_clean();
    app.signal_set(&write, SignalValue::Bool(false));
    app.signal_set(&write, SignalValue::Bool(true));
    let pending = app.drain_pending();
    assert_eq!(pending.len(), 1);
}

#[test]
fn signal_type_mismatch_is_refused() {
    let mut app = Application::builder().build();
    let (read, write) = app.create_signal(SignalValue::Bool(false));
    assert_eq!(
        app.signal_try_set(&write, SignalValue::UInt(3)),
        Err(SignalError::WrongType)
    );
    assert_eq!(app.signal_get(&read), SignalValue::Bool(false));
}

#[test]
fn stale_signal_identifier_is_refused() {
    let mut ctx = pixel_ui::react::Context::new();
    assert_eq!(
        ctx.try_update(SignalId(0), SignalValue::Bool(true)),
        Err(SignalError::Missing)
    );
    assert!(ctx.try_get(SignalId(0)).is_none());
}

#[test]
fn cancelled_timeout_never_fires() {
    let mut app = Application::builder().build();
    let stale = app.set_timeout(100, 7);
    app.clear_timeout(stale);
    // Another timer scheduled before the stale notification arrives gets a
    // fresh identifier and never resurrects the cancelled one.
    let fresh = app.set_timeout(100, 8);
    assert_eq!(app.timer_fired(stale), None);
    assert_eq!(app.timer_fired(fresh), Some(8));
    // One-shot: consumed exactly once.
    assert_eq!(app.timer_fired(fresh), None);
}

#[test]
fn interval_persists_until_cleared() {
    let mut app = Application::builder().build();
    let id = app.set_interval(50, 9);
    assert_eq!(app.interval_fired(id), Some(9));
    assert_eq!(app.interval_fired(id), Some(9));
    app.clear_interval(id);
    assert_eq!(app.interval_fired(id), None);
}

#[test]
fn button_press_and_release_inside_bounds() {
    let mut app = Application::builder().build();
    let mut button = Element::button(60, 25, Color::black()).with_offset(300, 180);
    let token = button.on_click(41);
    assert_eq!(token, HandlerId::Mouse(0));
    let id = app.insert_element(button);

    let press = app_mouse(&app, IVec2::new(310, 190), ButtonState::Pressed);
    let tokens = app.deliver_mouse(id, press);
    assert_eq!(tokens, vec![41]);
    assert!(element_depressed(&app, id));

    let release = app_mouse(&app, IVec2::new(310, 190), ButtonState::Released);
    let tokens = app.deliver_mouse(id, release);
    assert_eq!(tokens, vec![41]);
    assert!(!element_depressed(&app, id));
}

#[test]
fn release_outside_bounds_delivers_nothing() {
    let mut app = Application::builder().build();
    let mut button = Element::button(60, 25, Color::black()).with_offset(300, 180);
    button.on_click(41);
    let id = app.insert_element(button);

    let press = app_mouse(&app, IVec2::new(310, 190), ButtonState::Pressed);
    app.deliver_mouse(id, press);
    assert!(element_depressed(&app, id));

    // No capture on press: a release at (1,1) never reaches the button.
    let release = app_mouse(&app, IVec2::new(1, 1), ButtonState::Released);
    let tokens = app.deliver_mouse(id, release);
    assert!(tokens.is_empty());
    assert!(element_depressed(&app, id));
}

#[test]
fn removing_a_wrong_kind_identifier_is_a_no_op() {
    let mut app = Application::builder().build();
    let mut button = Element::button(10, 10, Color::black());
    let click = button.on_click(1);
    let resize = button.on_resize(2);
    assert_eq!(click, HandlerId::Mouse(0));
    assert_eq!(resize, HandlerId::Resize(0));
    let id = app.insert_element(button);

    // A resize identifier with the same slot index never touches the
    // pointer-button partition.
    {
        let el = app.get_mut(id);
        el.remove_handler(HandlerId::Resize(0));
    }
    assert_eq!(app.get(id).mouse_tokens(), vec![1]);
    assert!(app.get(id).resize_tokens().is_empty());

    {
        let el = app.get_mut(id);
        el.remove_handler(HandlerId::Mouse(0));
    }
    assert!(app.get(id).mouse_tokens().is_empty());
}

#[test]
fn handlers_run_in_registration_order() {
    let mut button = Element::button(10, 10, Color::black());
    button.on_click(5);
    let middle = button.on_click(6);
    button.on_click(7);
    assert_eq!(button.mouse_tokens(), vec![5, 6, 7]);
    button.remove_handler(middle);
    assert_eq!(button.mouse_tokens(), vec![5, 7]);
}

#[test]
fn mouse_move_dispatch_hits_elements_under_pointer() {
    let mut app = Application::builder().build();
    let mut over = Element::rect(10, 10, Color::white()).with_offset(0, 0);
    over.on_mouse_move(51);
    let over_id = app.insert_element(over);
    let mut away = Element::rect(10, 10, Color::white()).with_offset(100, 100);
    away.on_mouse_move(52);
    let away_id = app.insert_element(away);

    let ev = app.pointer_moved(IVec2::new(5, 5));
    assert_eq!(app.deliver_mouse_move(over_id, ev), vec![51]);
    assert!(app.deliver_mouse_move(away_id, ev).is_empty());
}

#[test]
fn single_write_queues_single_notification() {
    let mut app = Application::builder().build();
    let (_, write) = app.create_signal(SignalValue::UInt(0));
    app.signal_set(&write, SignalValue::UInt(1));
    assert_eq!(app.drain_pending().len(), 1);
    assert!(app.drain_pending().is_empty());
}

#[test]
fn resize_reaches_every_element_without_hit_test() {
    let mut app = Application::builder().build();
    let mut rect = Element::rect(2, 2, Color::white()).with_offset(100, 100);
    let token = rect.on_resize(13);
    assert_eq!(token, HandlerId::Resize(0));
    let id = app.insert_element(rect);
    let ev = ResizeEvent { size: UVec2::new(640, 480) };
    assert_eq!(app.deliver_resize(id, ev), vec![13]);
}

#[test]
fn app_level_resize_handlers() {
    let mut app = Application::builder().build();
    app.on_resize(21);
    app.on_resize(22);
    assert_eq!(app.app_resize_tokens(), vec![21, 22]);
}

#[test]
fn rehydrate_tokens_only_for_live_elements() {
    let mut app = Application::builder().build();
    let mut rect = Element::rect(2, 2, Color::white());
    rect.on_rehydrate(31);
    let id = app.insert_element(rect);
    assert_eq!(app.rehydrate_tokens(id), vec![31]);
    app.remove_element(id);
    assert!(app.rehydrate_tokens(id).is_empty());
}

#[test]
fn render_composites_rect_over_background() {
    let mut app = Application::builder().build();
    assert_eq!(app.get_background(), Color::black());
    let rect = Element::rect(2, 2, Color::white()).with_offset(1, 1);
    app.insert_element(rect);
    let frame = app.render(4, 4);
    assert_eq!(frame.len(), 16);
    for y in 0..4 {
        for x in 0..4 {
            let expected = if (1..3).contains(&x) && (1..3).contains(&y) {
                Color::white()
            } else {
                Color::black()
            };
            assert_eq!(frame[y * 4 + x], expected, "pixel ({}, {})", x, y);
        }
    }
}

#[test]
fn hidden_element_draws_nothing() {
    let mut app = Application::builder().build();
    let mut rect = Element::rect(2, 2, Color::white());
    rect.set_hidden(true);
    app.insert_element(rect);
    let frame = app.render(2, 2);
    for pixel in frame {
        assert_eq!(pixel, Color::black());
    }
}

#[test]
fn query_class_finds_tagged_elements() {
    let mut app = Application::builder().build();
    let tagged = app.insert_element(
        Element::rect(1, 1, Color::white()).with_class(String::from("panel")),
    );
    let plain = app.insert_element(Element::rect(1, 1, Color::white()));
    let found = app.query_class(&String::from("panel"));
    assert_eq!(found.len(), 1);
    assert_eq!(found[0], tagged);
    assert_ne!(found[0], plain);
}

#[test]
fn pointer_move_reports_step_from_previous_position() {
    let mut app = Application::builder().build();
    app.pointer_moved(IVec2::new(10, 20));
    let ev = app.pointer_moved(IVec2::new(13, 18));
    assert_eq!(ev.pos, IVec2::new(13, 18));
    assert_eq!(ev.delta, IVec2::new(-3, 2));
}

#[test]
fn element_ids_lists_each_live_element_once() {
    let mut app = Application::builder().build();
    let a = app.insert_element(Element::rect(1, 1, Color::white()));
    let b = app.insert_element(Element::rect(1, 1, Color::white()));
    app.remove_element(a);
    let ids = app.element_ids();
    assert_eq!(ids.len(), 1);
    assert_eq!(ids[0], b);
}

fn app_mouse(
    app: &Application,
    pos: IVec2,
    state: ButtonState,
) -> pixel_ui::event::MouseEvent {
    let mut ev = app.mouse_event(state, MouseButton::Left);
    ev.pos = pos;
    ev
}

fn element_depressed(app: &Application, id: pixel_ui::app::ElementId) -> bool {
    match app.get(id).get_inner() {
        ElementInner::Button(b) => b.is_depressed(),
        _ => panic!("expected a button"),
    }
}
