use react::display_list::Operation;
use react::geometry::{Point, Size};
use react::identity::IdSource;
use react::layout::Layout;
use react::message::{Control, Key, Message, MessageFlow, Signal, Tick};
use react::render::{deliver, draw, frame};
use react::widget::{
    focus_msg, gather, poll, propagate_msg, route_msg, statefully_childlessly_create_element,
    statelessly_childfully_create_element, statelessly_childfully_create_element_functional, Keep,
    Producer, Reaction, Replace, Stateful, Widget, FOCUS_MARK,
};
use react::widgets::row::row;
use react::widgets::single_char::single_char;
use react::widgets::single_line::single_line;
use react::widgets::text::text;

/// The state of the widgets that these tests watch.
#[derive(Debug, PartialEq)]
enum Probe {
    /// Builds a dot and lets every message pass.
    Idle,
    /// Builds a counter below itself and decides the flow as told.
    Outer { propagate: bool },
    /// Counts the messages it is handed and shows the count.
    Counter { seen: u32 },
    /// Says on a check that there is news, as often as it has some left.
    News { left: u32 },
}

impl Default for Probe {
    fn default() -> Self {
        Probe::Idle
    }
}

impl Stateful for Probe {
    fn build(&self, ids: &mut IdSource) -> Widget<Probe> {
        match self {
            Probe::Idle => single_char(ids, '.'),
            Probe::Outer { .. } => Widget::stateful(ids, Probe::Counter { seen: 0 }),
            Probe::Counter { seen } => single_line(ids, format!("seen {}", seen)),
            Probe::News { left } => single_line(ids, format!("left {}", left)),
        }
    }

    fn handle(this: &mut Widget<Probe>, _msg: &Message) -> MessageFlow {
        match this.state() {
            Probe::Idle => MessageFlow::Propagate,
            Probe::Outer { propagate: true } => MessageFlow::Propagate,
            Probe::Outer { propagate: false } => MessageFlow::Intercept,
            Probe::Counter { seen } => {
                let next = Probe::Counter { seen: seen + 1 };
                this.set_state(Replace(next));
                MessageFlow::Intercept
            }
            Probe::News { .. } => MessageFlow::Intercept,
        }
    }

    fn check(&mut self) -> bool {
        match self {
            Probe::News { left } if *left > 0 => {
                *left -= 1;
                true
            }
            _ => false,
        }
    }
}

const SCREEN: Size = Size { x: 20, y: 9 };

fn at(x: isize, y: isize) -> Operation {
    Operation::SetAnchor(Point { x, y })
}

fn line(s: &str) -> Operation {
    Operation::PutString(s.to_string())
}

fn key(c: char) -> Message {
    Message::Key(Key::Char(c))
}

fn counter(ids: &mut IdSource) -> Widget<Probe> {
    Widget::stateful(ids, Probe::Counter { seen: 0 })
}

/// One frame of the widget, drawn on the screen of these tests.
fn shown(root: &mut Widget<Probe>, ids: &mut IdSource) -> (bool, Vec<Operation>) {
    let (rebuilt, element) = frame(root, ids);
    (rebuilt, draw(&element, SCREEN).0)
}

#[test]
fn the_first_frame_builds_and_the_next_one_does_not() {
    let mut ids = IdSource::new();
    let mut root = counter(&mut ids);
    assert!(root.needs_rebuild());
    assert_eq!(shown(&mut root, &mut ids), (true, vec![line("seen 0")]));
    assert!(!root.needs_rebuild());
    assert_eq!(shown(&mut root, &mut ids), (false, vec![line("seen 0")]));
    assert_eq!(shown(&mut root, &mut ids), (false, vec![line("seen 0")]));
}

#[test]
fn set_state_makes_the_very_next_frame_report_a_rebuild() {
    let mut ids = IdSource::new();
    let mut root = counter(&mut ids);
    shown(&mut root, &mut ids);
    root.set_state(Replace(Probe::Counter { seen: 5 }));
    assert!(root.needs_rebuild());
    assert_eq!(shown(&mut root, &mut ids), (true, vec![line("seen 5")]));
    assert_eq!(shown(&mut root, &mut ids), (false, vec![line("seen 5")]));
}

#[test]
fn set_state_marks_the_widget_even_if_the_state_stays_the_same() {
    let mut ids = IdSource::new();
    let mut root = counter(&mut ids);
    shown(&mut root, &mut ids);
    root.set_state(Keep);
    assert_eq!(root.state(), &Probe::Counter { seen: 0 });
    assert_eq!(shown(&mut root, &mut ids), (true, vec![line("seen 0")]));
    assert_eq!(shown(&mut root, &mut ids), (false, vec![line("seen 0")]));
}

#[test]
fn replace_puts_the_new_state_in_place() {
    let mut ids = IdSource::new();
    let mut root = counter(&mut ids);
    root.set_state(Replace(Probe::Idle));
    assert_eq!(root.state(), &Probe::Idle);
}

#[test]
fn a_propagating_handler_forwards_to_the_cached_subtree_exactly_once() {
    let mut ids = IdSource::new();
    let mut root = Widget::stateful(&mut ids, Probe::Outer { propagate: true });
    assert_eq!(shown(&mut root, &mut ids), (true, vec![line("seen 0")]));
    deliver(&mut root, &key('a'), &mut ids);
    assert!(!root.needs_rebuild());
    assert_eq!(shown(&mut root, &mut ids), (true, vec![line("seen 1")]));
    deliver(&mut root, &key('b'), &mut ids);
    deliver(&mut root, &Message::Tick(Tick(1)), &mut ids);
    assert_eq!(shown(&mut root, &mut ids), (true, vec![line("seen 3")]));
    assert_eq!(shown(&mut root, &mut ids), (false, vec![line("seen 3")]));
}

#[test]
fn an_intercepting_handler_forwards_nothing() {
    let mut ids = IdSource::new();
    let mut root = Widget::stateful(&mut ids, Probe::Outer { propagate: false });
    assert_eq!(shown(&mut root, &mut ids), (true, vec![line("seen 0")]));
    deliver(&mut root, &key('a'), &mut ids);
    deliver(&mut root, &key('b'), &mut ids);
    assert_eq!(shown(&mut root, &mut ids), (false, vec![line("seen 0")]));
}

#[test]
fn route_msg_returns_what_the_handler_decided() {
    let mut ids = IdSource::new();
    let mut open = Widget::stateful(&mut ids, Probe::Outer { propagate: true });
    let mut shut = Widget::stateful(&mut ids, Probe::Outer { propagate: false });
    shown(&mut open, &mut ids);
    shown(&mut shut, &mut ids);
    assert_eq!(route_msg(&mut open, &key('a'), &mut ids), MessageFlow::Propagate);
    assert_eq!(route_msg(&mut shut, &key('a'), &mut ids), MessageFlow::Intercept);
    assert_eq!(shown(&mut open, &mut ids), (true, vec![line("seen 1")]));
    assert_eq!(shown(&mut shut, &mut ids), (false, vec![line("seen 0")]));
}

#[test]
fn a_widget_can_be_asked_and_told_without_the_host_functions() {
    let mut ids = IdSource::new();
    let mut root = Widget::stateful(&mut ids, Probe::Outer { propagate: true });
    let (rebuilt, element) = root.create_element(&mut ids);
    assert!(rebuilt);
    assert_eq!(draw(&element, SCREEN).0, vec![line("seen 0")]);
    root.on_message(&key('a'), &mut ids);
    let (rebuilt, element) = root.create_element(&mut ids);
    assert!(rebuilt);
    assert_eq!(draw(&element, SCREEN).0, vec![line("seen 1")]);
    let (rebuilt, _) = root.create_element(&mut ids);
    assert!(!rebuilt);
}

#[test]
fn a_message_before_the_first_frame_finds_no_subtree() {
    let mut ids = IdSource::new();
    let mut root = Widget::stateful(&mut ids, Probe::Outer { propagate: true });
    deliver(&mut root, &key('a'), &mut ids);
    assert_eq!(shown(&mut root, &mut ids), (true, vec![line("seen 0")]));
}

#[test]
fn a_rebuild_drops_the_subtree_that_was_cached() {
    let mut ids = IdSource::new();
    let mut root = Widget::stateful(&mut ids, Probe::Outer { propagate: true });
    shown(&mut root, &mut ids);
    deliver(&mut root, &key('a'), &mut ids);
    assert_eq!(shown(&mut root, &mut ids), (true, vec![line("seen 1")]));
    let before = ids.count();
    root.set_state(Keep);
    assert_eq!(shown(&mut root, &mut ids), (true, vec![line("seen 0")]));
    assert!(ids.count() > before);
}

#[test]
fn a_frame_keeps_the_identities_of_the_children() {
    let mut ids = IdSource::new();
    let a = counter(&mut ids);
    let b = single_char(&mut ids, 'b');
    let mut root = react::widgets::column::column(&mut ids, vec![a, b]);
    shown(&mut root, &mut ids);
    deliver(&mut root, &key('a'), &mut ids);
    let (rebuilt, elements) = gather(&mut root, None, &mut ids);
    assert!(rebuilt);
    assert_eq!(elements.len(), 2);
    assert_eq!(root.id(), 2);
    assert_eq!(root.child_count(), 2);
    assert_eq!(ids.count(), 5);
}

#[test]
fn a_frame_without_rebuild_takes_no_identity() {
    let mut ids = IdSource::new();
    let mut root = Widget::stateful(&mut ids, Probe::Outer { propagate: true });
    shown(&mut root, &mut ids);
    let before = ids.count();
    shown(&mut root, &mut ids);
    assert_eq!(ids.count(), before);
}

#[test]
fn the_identity_of_a_widget_stays_through_frames_and_messages() {
    let mut ids = IdSource::new();
    let _ = counter(&mut ids);
    let mut root = Widget::stateful(&mut ids, Probe::Outer { propagate: true });
    assert_eq!(root.id(), 1);
    shown(&mut root, &mut ids);
    deliver(&mut root, &key('a'), &mut ids);
    root.set_state(Keep);
    shown(&mut root, &mut ids);
    assert_eq!(root.id(), 1);
}

#[test]
fn build_reports_whether_it_built() {
    let mut ids = IdSource::new();
    let mut root = counter(&mut ids);
    assert!(root._build(&mut ids));
    assert!(!root._build(&mut ids));
    assert!(!root.needs_rebuild());
    root.set_state(Keep);
    assert!(root._build(&mut ids));
    assert!(!root._build(&mut ids));
}

#[test]
fn the_producer_of_a_building_widget_passes_the_subtree_report_on() {
    let mut ids = IdSource::new();
    let mut root = Widget::stateful(&mut ids, Probe::Outer { propagate: true });
    let (rebuilt, element) = statefully_childlessly_create_element(&mut root, &mut ids);
    assert!(rebuilt);
    assert_eq!(draw(&element, SCREEN).0, vec![line("seen 0")]);
    let (rebuilt, _) = statefully_childlessly_create_element(&mut root, &mut ids);
    assert!(!rebuilt);
    deliver(&mut root, &key('a'), &mut ids);
    let (rebuilt, element) = statefully_childlessly_create_element(&mut root, &mut ids);
    assert!(rebuilt);
    assert_eq!(draw(&element, SCREEN).0, vec![line("seen 1")]);
}

#[test]
fn leaves_show_what_they_were_given_and_are_never_rebuilt() {
    let mut ids = IdSource::new();
    let mut c: Widget<Probe> = single_char(&mut ids, 'x');
    let mut l: Widget<Probe> = single_line(&mut ids, "hello".to_string());
    assert_eq!(shown(&mut c, &mut ids), (false, vec![Operation::PutChar('x')]));
    assert_eq!(shown(&mut l, &mut ids), (false, vec![line("hello")]));
    deliver(&mut c, &key('a'), &mut ids);
    deliver(&mut l, &Message::Tick(Tick(0)), &mut ids);
    assert_eq!(shown(&mut c, &mut ids), (false, vec![Operation::PutChar('x')]));
    assert_eq!(shown(&mut l, &mut ids), (false, vec![line("hello")]));
    assert_eq!(c.child_count(), 0);
    assert_eq!(l.child_count(), 0);
}

#[test]
fn a_column_stacks_its_children_and_reports_their_rebuilds() {
    let mut ids = IdSource::new();
    let a = counter(&mut ids);
    let b = single_char(&mut ids, 'b');
    let c = counter(&mut ids);
    let mut root = react::widgets::column::column(&mut ids, vec![a, b, c]);
    let full = |first: &str, third: &str| {
        vec![
            at(0, 0),
            line(first),
            at(0, 0),
            at(0, 3),
            Operation::PutChar('b'),
            at(0, -3),
            at(0, 6),
            line(third),
            at(0, -6),
        ]
    };
    assert_eq!(shown(&mut root, &mut ids), (true, full("seen 0", "seen 0")));
    assert_eq!(shown(&mut root, &mut ids), (false, full("seen 0", "seen 0")));
}

#[test]
fn a_column_hands_a_message_to_every_child() {
    let mut ids = IdSource::new();
    let a = counter(&mut ids);
    let b = counter(&mut ids);
    let mut root = react::widgets::column::column(&mut ids, vec![a, b]);
    shown(&mut root, &mut ids);
    deliver(&mut root, &key('a'), &mut ids);
    deliver(&mut root, &key('b'), &mut ids);
    let (rebuilt, ops) = shown(&mut root, &mut ids);
    assert!(rebuilt);
    assert_eq!(
        ops,
        vec![at(0, 0), line("seen 2"), at(0, 0), at(0, 4), line("seen 2"), at(0, -4)]
    );
}

#[test]
fn a_row_places_its_children_from_the_left() {
    let mut ids = IdSource::new();
    let a = single_char(&mut ids, 'a');
    let b = single_char(&mut ids, 'b');
    let mut root: Widget<Probe> = row(&mut ids, vec![a, b]);
    let (rebuilt, ops) = shown(&mut root, &mut ids);
    assert!(!rebuilt);
    assert_eq!(
        ops,
        vec![
            at(0, 0),
            Operation::PutChar('a'),
            at(0, 0),
            at(10, 0),
            Operation::PutChar('b'),
            at(-10, 0),
        ]
    );
}

#[test]
fn a_rebuild_deep_in_the_tree_is_reported_at_the_root() {
    let mut ids = IdSource::new();
    let deep = counter(&mut ids);
    let inner = row(&mut ids, vec![deep]);
    let side = single_char(&mut ids, 's');
    let mut root = react::widgets::column::column(&mut ids, vec![side, inner]);
    assert!(shown(&mut root, &mut ids).0);
    assert!(!shown(&mut root, &mut ids).0);
    deliver(&mut root, &key('a'), &mut ids);
    assert!(shown(&mut root, &mut ids).0);
    assert!(!shown(&mut root, &mut ids).0);
}

#[test]
fn propagate_msg_reaches_the_children_and_not_the_widget_itself() {
    let mut ids = IdSource::new();
    let a = counter(&mut ids);
    let mut root = Widget::elemental(
        &mut ids,
        Probe::Counter { seen: 0 },
        vec![a],
        Reaction::Ignore,
        Producer::Gather(Layout::Column),
    );
    shown(&mut root, &mut ids);
    deliver(&mut root, &key('a'), &mut ids);
    assert_eq!(shown(&mut root, &mut ids).1, vec![at(0, 0), line("seen 0"), at(0, 0)]);
    propagate_msg(&mut root, &key('a'), &mut ids);
    assert_eq!(shown(&mut root, &mut ids).1, vec![at(0, 0), line("seen 1"), at(0, 0)]);
    assert_eq!(root.state(), &Probe::Counter { seen: 0 });
}

#[test]
fn a_widget_that_only_handles_keeps_the_message_from_its_children() {
    let mut ids = IdSource::new();
    let a = counter(&mut ids);
    let mut root = Widget::elemental(
        &mut ids,
        Probe::Counter { seen: 0 },
        vec![a],
        Reaction::Handle,
        Producer::Gather(Layout::Column),
    );
    shown(&mut root, &mut ids);
    deliver(&mut root, &key('a'), &mut ids);
    deliver(&mut root, &key('b'), &mut ids);
    assert_eq!(root.state(), &Probe::Counter { seen: 2 });
    assert_eq!(
        shown(&mut root, &mut ids),
        (false, vec![at(0, 0), line("seen 0"), at(0, 0)])
    );
}

#[test]
fn a_widget_that_handles_and_propagates_reaches_every_child_whatever_the_flow() {
    let mut ids = IdSource::new();
    let a = counter(&mut ids);
    let b = counter(&mut ids);
    // The handler of a counter intercepts; the children are reached anyway.
    let mut root = Widget::elemental(
        &mut ids,
        Probe::Counter { seen: 0 },
        vec![a, b],
        Reaction::HandleThenPropagate,
        Producer::Gather(Layout::Row),
    );
    shown(&mut root, &mut ids);
    deliver(&mut root, &key('a'), &mut ids);
    assert_eq!(root.state(), &Probe::Counter { seen: 1 });
    assert_eq!(
        shown(&mut root, &mut ids),
        (
            true,
            vec![at(0, 0), line("seen 1"), at(0, 0), at(10, 0), line("seen 1"), at(-10, 0)]
        )
    );
}

#[test]
fn the_gathering_producer_arranges_by_the_layout_it_was_given() {
    assert_eq!(
        statelessly_childfully_create_element_functional(Layout::Row),
        Producer::Gather(Layout::Row)
    );
    let mut ids = IdSource::new();
    let f = single_char(&mut ids, 'f');
    let a = single_char(&mut ids, 'a');
    let mut root = Widget::elemental(
        &mut ids,
        Probe::Idle,
        vec![f, a],
        Reaction::Propagate,
        statelessly_childfully_create_element_functional(Layout::BottomColumn {
            footer_height: 2,
        }),
    );
    let expected = vec![
        at(0, 0),
        Operation::PutChar('a'),
        at(0, 0),
        at(0, 7),
        Operation::PutChar('f'),
        at(0, -7),
    ];
    assert_eq!(shown(&mut root, &mut ids), (false, expected.clone()));
    let (rebuilt, element) = statelessly_childfully_create_element(
        &mut root,
        Layout::BottomColumn { footer_height: 2 },
        &mut ids,
    );
    assert!(!rebuilt);
    assert_eq!(draw(&element, SCREEN).0, expected);
}

#[test]
fn gather_asks_every_child_and_marks_the_focused_one() {
    let mut ids = IdSource::new();
    let a = counter(&mut ids);
    let b = single_char(&mut ids, 'b');
    let mut root: Widget<Probe> = react::widgets::column::column(&mut ids, vec![a, b]);
    let (rebuilt, elements) = gather(&mut root, Some(1), &mut ids);
    assert!(rebuilt);
    assert_eq!(elements.len(), 2);
    assert_eq!(draw(&elements[0], SCREEN).0, vec![line("seen 0")]);
    assert_eq!(
        draw(&elements[1], SCREEN).0,
        vec![
            at(0, 0),
            Operation::PutChar(FOCUS_MARK),
            at(0, 0),
            at(1, 0),
            Operation::PutChar('b'),
            at(-1, 0),
        ]
    );
    let (rebuilt, elements) = gather(&mut root, None, &mut ids);
    assert!(!rebuilt);
    assert_eq!(draw(&elements[1], SCREEN).0, vec![Operation::PutChar('b')]);
}

#[test]
fn a_focused_element_carries_the_mark_in_a_sidebar_one_cell_wide() {
    let mut ids = IdSource::new();
    let mut root = counter(&mut ids);
    let (rebuilt, element) = root.create_focused_element(&mut ids);
    assert!(rebuilt);
    assert_eq!(FOCUS_MARK, '>');
    assert_eq!(
        draw(&element, SCREEN).0,
        vec![at(0, 0), Operation::PutChar('>'), at(0, 0), at(1, 0), line("seen 0"), at(-1, 0)]
    );
    let (rebuilt, _) = root.create_focused_element(&mut ids);
    assert!(!rebuilt);
}

fn container(ids: &mut IdSource, children: usize) -> Widget<Probe> {
    let mut kids = Vec::new();
    for _ in 0..children {
        kids.push(counter(ids));
    }
    Widget::containerlike(ids, Probe::Outer { propagate: true }, kids, Layout::Column)
}

/// What a container of three counters shows on the screen of these tests.
fn three(counts: [u32; 3], focus: usize) -> Vec<Operation> {
    let mut ops = Vec::new();
    for (i, seen) in counts.iter().enumerate() {
        let y = 3 * i as isize;
        ops.push(at(0, y));
        if i == focus {
            ops.extend(vec![at(0, 0), Operation::PutChar('>'), at(0, 0), at(1, 0)]);
            ops.push(line(&format!("seen {}", seen)));
            ops.push(at(-1, 0));
        } else {
            ops.push(line(&format!("seen {}", seen)));
        }
        ops.push(at(0, -y));
    }
    ops
}

#[test]
fn the_focus_starts_at_the_first_child() {
    let mut ids = IdSource::new();
    let mut root = container(&mut ids, 3);
    assert_eq!(root.focus_index(), 0);
    assert_eq!(root.child_count(), 3);
    assert_eq!(shown(&mut root, &mut ids), (true, three([0, 0, 0], 0)));
    assert_eq!(shown(&mut root, &mut ids), (false, three([0, 0, 0], 0)));
}

#[test]
fn moving_the_focus_backward_from_the_first_child_wraps_to_the_last() {
    let mut ids = IdSource::new();
    let mut root = container(&mut ids, 3);
    assert_eq!(root.focus_index(), 0);
    deliver(&mut root, &Message::Key(Key::BackTab), &mut ids);
    assert_eq!(root.focus_index(), 2);
    deliver(&mut root, &Message::Key(Key::BackTab), &mut ids);
    assert_eq!(root.focus_index(), 1);
    deliver(&mut root, &Message::Key(Key::BackTab), &mut ids);
    assert_eq!(root.focus_index(), 0);
}

#[test]
fn moving_the_focus_forward_from_the_last_child_wraps_to_the_first() {
    let mut ids = IdSource::new();
    let mut root = container(&mut ids, 3);
    deliver(&mut root, &Message::Key(Key::Tab), &mut ids);
    assert_eq!(root.focus_index(), 1);
    deliver(&mut root, &Message::Key(Key::Tab), &mut ids);
    assert_eq!(root.focus_index(), 2);
    deliver(&mut root, &Message::Key(Key::Tab), &mut ids);
    assert_eq!(root.focus_index(), 0);
}

#[test]
fn the_focus_keys_are_not_handed_to_any_child() {
    let mut ids = IdSource::new();
    let mut root = container(&mut ids, 3);
    shown(&mut root, &mut ids);
    deliver(&mut root, &Message::Key(Key::Tab), &mut ids);
    deliver(&mut root, &Message::Key(Key::BackTab), &mut ids);
    deliver(&mut root, &Message::Key(Key::Tab), &mut ids);
    assert_eq!(shown(&mut root, &mut ids), (false, three([0, 0, 0], 1)));
}

#[test]
fn any_other_message_goes_to_the_focused_child_alone() {
    let mut ids = IdSource::new();
    let mut root = container(&mut ids, 3);
    shown(&mut root, &mut ids);
    deliver(&mut root, &key('a'), &mut ids);
    assert_eq!(shown(&mut root, &mut ids), (true, three([1, 0, 0], 0)));
    deliver(&mut root, &Message::Key(Key::BackTab), &mut ids);
    deliver(&mut root, &key('b'), &mut ids);
    deliver(&mut root, &Message::Tick(Tick(9)), &mut ids);
    assert_eq!(shown(&mut root, &mut ids), (true, three([1, 0, 2], 2)));
    assert_eq!(shown(&mut root, &mut ids), (false, three([1, 0, 2], 2)));
}

#[test]
fn a_container_always_intercepts() {
    let mut ids = IdSource::new();
    let mut root = container(&mut ids, 2);
    for msg in [
        key('a'),
        Message::Key(Key::Tab),
        Message::Key(Key::BackTab),
        Message::Control(Control::Append),
        Message::Tick(Tick(0)),
        Message::Resize(Size { x: 1, y: 1 }),
        Message::Signal(Signal { tag: 0, body: String::new() }),
    ] {
        assert_eq!(focus_msg(&mut root, &msg, &mut ids), MessageFlow::Intercept);
    }
}

#[test]
fn appending_adds_one_child_built_from_the_state_and_keeps_the_focus() {
    let mut ids = IdSource::new();
    let mut root = container(&mut ids, 2);
    deliver(&mut root, &Message::Key(Key::Tab), &mut ids);
    let before = ids.count();
    deliver(&mut root, &Message::Control(Control::Append), &mut ids);
    assert_eq!(root.child_count(), 3);
    assert_eq!(root.focus_index(), 1);
    assert_eq!(ids.count(), before + 1);
    assert_eq!(shown(&mut root, &mut ids), (true, three([0, 0, 0], 1)));
    deliver(&mut root, &Message::Key(Key::Tab), &mut ids);
    deliver(&mut root, &key('a'), &mut ids);
    assert_eq!(shown(&mut root, &mut ids), (true, three([0, 0, 1], 2)));
}

#[test]
fn an_empty_container_keeps_its_focus_at_zero() {
    let mut ids = IdSource::new();
    let mut root = container(&mut ids, 0);
    deliver(&mut root, &Message::Key(Key::Tab), &mut ids);
    assert_eq!(root.focus_index(), 0);
    deliver(&mut root, &Message::Key(Key::BackTab), &mut ids);
    assert_eq!(root.focus_index(), 0);
    deliver(&mut root, &key('a'), &mut ids);
    assert_eq!(shown(&mut root, &mut ids), (false, vec![]));
    deliver(&mut root, &Message::Control(Control::Append), &mut ids);
    assert_eq!(root.child_count(), 1);
    assert_eq!(root.focus_index(), 0);
    deliver(&mut root, &Message::Key(Key::Tab), &mut ids);
    assert_eq!(root.focus_index(), 0);
}

#[test]
fn a_tick_makes_a_polling_widget_rebuild_when_its_state_has_news() {
    let mut ids = IdSource::new();
    let mut root = Widget::elemental(
        &mut ids,
        Probe::News { left: 2 },
        vec![],
        Reaction::Poll,
        Producer::Rebuild,
    );
    assert_eq!(shown(&mut root, &mut ids), (true, vec![line("left 2")]));
    deliver(&mut root, &key('a'), &mut ids);
    assert_eq!(shown(&mut root, &mut ids), (false, vec![line("left 2")]));
    deliver(&mut root, &Message::Tick(Tick(1)), &mut ids);
    assert_eq!(shown(&mut root, &mut ids), (true, vec![line("left 1")]));
    deliver(&mut root, &Message::Tick(Tick(2)), &mut ids);
    assert_eq!(shown(&mut root, &mut ids), (true, vec![line("left 0")]));
    deliver(&mut root, &Message::Tick(Tick(3)), &mut ids);
    assert_eq!(shown(&mut root, &mut ids), (false, vec![line("left 0")]));
}

#[test]
fn poll_looks_for_news_on_a_tick_only() {
    let mut ids = IdSource::new();
    let mut root = Widget::stateful(&mut ids, Probe::News { left: 1 });
    root._build(&mut ids);
    poll(&mut root, &key('a'));
    assert_eq!(root.state(), &Probe::News { left: 1 });
    assert!(!root.needs_rebuild());
    poll(&mut root, &Message::Tick(Tick(0)));
    assert_eq!(root.state(), &Probe::News { left: 0 });
    assert!(root.needs_rebuild());
    root._build(&mut ids);
    poll(&mut root, &Message::Tick(Tick(1)));
    assert!(!root.needs_rebuild());
}

#[test]
fn a_text_shows_its_state_and_a_signal_replaces_it() {
    let mut ids = IdSource::new();
    let mut root = text(&mut ids, "first".to_string());
    let (rebuilt, element) = frame(&mut root, &mut ids);
    assert!(rebuilt);
    assert_eq!(draw(&element, SCREEN).0, vec![line("first")]);
    deliver(&mut root, &key('a'), &mut ids);
    let (rebuilt, _) = frame(&mut root, &mut ids);
    assert!(!rebuilt);
    let msg = Message::Signal(Signal { tag: 1, body: "second".to_string() });
    deliver(&mut root, &msg, &mut ids);
    assert_eq!(root.state(), "second");
    let (rebuilt, element) = frame(&mut root, &mut ids);
    assert!(rebuilt);
    assert_eq!(draw(&element, SCREEN).0, vec![line("second")]);
    let (rebuilt, _) = frame(&mut root, &mut ids);
    assert!(!rebuilt);
}
