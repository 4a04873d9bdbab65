use react::display_list::{DisplayList, Operation};
use react::element::Element;
use react::elements::bottom_column_element::BottomColumnElement;
use react::elements::char_element::CharElement;
use react::elements::column_element::ColumnElement;
use react::elements::left_row_element::LeftRowElement;
use react::elements::row_element::RowElement;
use react::elements::string_element::StringElement;
use react::geometry::{Point, Size};
use react::layout::{reserve, share, Layout};
use react::render::draw;

fn leaf(c: char) -> Element {
    Element::Char(CharElement { c })
}

fn at(x: isize, y: isize) -> Operation {
    Operation::SetAnchor(Point { x, y })
}

/// A child that shows the room it was given: a footer column of one child
/// anchors that child at the height left above it, and so shows its height.
fn height_probe() -> Element {
    Element::BottomColumn(BottomColumnElement { children: vec![leaf('h')], footer_height: 0 })
}

/// A child that shows the width it was given, in the same way.
fn width_probe() -> Element {
    Element::LeftRow(LeftRowElement {
        children: vec![leaf('s'), leaf('w')],
        sidebar_width: isize::MAX,
    })
}

fn anchors(list: &DisplayList) -> Vec<Point> {
    let mut found = Vec::new();
    for op in list.0.iter() {
        if let Operation::SetAnchor(p) = op {
            found.push(*p);
        }
    }
    found
}

/// Runs the anchors of a list against a stack: an anchor that undoes the
/// one on top pops it, any other is pushed. Returns what is left.
fn unmatched(list: &DisplayList) -> usize {
    let mut stack: Vec<Point> = Vec::new();
    for p in anchors(list) {
        match stack.last() {
            Some(top) if top.x == -p.x && top.y == -p.y => {
                stack.pop();
            }
            _ => stack.push(p),
        }
    }
    stack.len()
}

#[test]
fn fixed_footer_column_stacks_the_others_and_puts_the_footer_last() {
    let element = Element::BottomColumn(BottomColumnElement {
        children: vec![leaf('f'), leaf('a'), leaf('b'), leaf('c')],
        footer_height: 1,
    });
    let list = draw(&element, Size { x: 4, y: 10 });
    assert_eq!(
        list.0,
        vec![
            at(0, 0),
            Operation::PutChar('a'),
            at(0, 0),
            at(0, 3),
            Operation::PutChar('b'),
            at(0, -3),
            at(0, 6),
            Operation::PutChar('c'),
            at(0, -6),
            at(0, 9),
            Operation::PutChar('f'),
            at(0, -9),
        ]
    );
}

#[test]
fn fixed_footer_column_gives_each_other_child_a_third_of_nine() {
    let element = Element::BottomColumn(BottomColumnElement {
        children: vec![height_probe(), height_probe(), height_probe(), height_probe()],
        footer_height: 1,
    });
    let list = draw(&element, Size { x: 4, y: 10 });
    let inner = |h: isize| vec![at(0, h), Operation::PutChar('h'), at(0, -h)];
    let mut expected = Vec::new();
    for y in [0, 3, 6] {
        expected.push(at(0, y));
        expected.extend(inner(3));
        expected.push(at(0, -y));
    }
    expected.push(at(0, 9));
    expected.extend(inner(1));
    expected.push(at(0, -9));
    assert_eq!(list.0, expected);
}

#[test]
fn fixed_footer_is_clamped_to_the_total_height() {
    assert_eq!(reserve(50, 10), 10);
    let element = Element::BottomColumn(BottomColumnElement {
        children: vec![height_probe(), height_probe(), height_probe()],
        footer_height: 50,
    });
    let list = draw(&element, Size { x: 4, y: 10 });
    let inner = |h: isize| vec![at(0, h), Operation::PutChar('h'), at(0, -h)];
    let mut expected = Vec::new();
    for _ in 0..2 {
        expected.push(at(0, 0));
        expected.extend(inner(0));
        expected.push(at(0, 0));
    }
    expected.push(at(0, 0));
    expected.extend(inner(10));
    expected.push(at(0, 0));
    assert_eq!(list.0, expected);
}

#[test]
fn reserve_clamps_into_zero_and_total() {
    assert_eq!(reserve(1, 10), 1);
    assert_eq!(reserve(10, 10), 10);
    assert_eq!(reserve(11, 10), 10);
    assert_eq!(reserve(0, 10), 0);
    assert_eq!(reserve(-3, 10), 0);
    assert_eq!(reserve(5, 0), 0);
    assert_eq!(reserve(5, -2), 0);
    assert_eq!(reserve(isize::MAX, isize::MAX), isize::MAX);
    assert_eq!(reserve(isize::MIN, isize::MIN), 0);
}

#[test]
fn share_is_the_quotient_rounded_towards_zero() {
    assert_eq!(share(9, 3), 3);
    assert_eq!(share(10, 3), 3);
    assert_eq!(share(11, 3), 3);
    assert_eq!(share(12, 3), 4);
    assert_eq!(share(0, 5), 0);
    assert_eq!(share(2, 5), 0);
    assert_eq!(share(7, 1), 7);
    assert_eq!(share(-7, 2), -3);
    assert_eq!(share(-1, 2), 0);
    assert_eq!(share(isize::MAX, 1), isize::MAX);
    assert_eq!(share(isize::MIN, 1), isize::MIN);
    assert_eq!(share(isize::MAX, usize::MAX), 0);
    assert_eq!(share(isize::MIN, usize::MAX), 0);
    assert_eq!(share(isize::MIN, (isize::MAX as usize) + 1), -1);
    assert_eq!(share(isize::MIN + 1, (isize::MAX as usize) + 1), 0);
}

#[test]
fn footer_alone_is_drawn_without_dividing() {
    let element = Element::BottomColumn(BottomColumnElement {
        children: vec![height_probe()],
        footer_height: 4,
    });
    let list = draw(&element, Size { x: 2, y: 10 });
    assert_eq!(
        list.0,
        vec![at(0, 6), at(0, 4), Operation::PutChar('h'), at(0, -4), at(0, -6)]
    );
}

#[test]
fn layouts_without_children_draw_nothing() {
    let size = Size { x: 7, y: 7 };
    let empty: Vec<Operation> = Vec::new();
    let bottom = Element::BottomColumn(BottomColumnElement { children: vec![], footer_height: 3 });
    assert_eq!(draw(&bottom, size).0, empty);
    let left = Element::LeftRow(LeftRowElement { children: vec![], sidebar_width: 3 });
    assert_eq!(draw(&left, size).0, empty);
    let column = Element::Column(ColumnElement { children: vec![] });
    assert_eq!(draw(&column, size).0, empty);
    let row = Element::Row(RowElement { children: vec![] });
    assert_eq!(draw(&row, size).0, empty);
}

#[test]
fn sidebar_row_reserves_width_and_flows_the_others_to_the_right() {
    let element = Element::LeftRow(LeftRowElement {
        children: vec![width_probe(), width_probe(), width_probe(), width_probe()],
        sidebar_width: 2,
    });
    let list = draw(&element, Size { x: 11, y: 5 });
    // A width probe given width w draws its own sidebar at 0 and its other
    // child at w.
    let inner = |w: isize| {
        vec![
            at(0, 0),
            Operation::PutChar('s'),
            at(0, 0),
            at(w, 0),
            Operation::PutChar('w'),
            at(-w, 0),
        ]
    };
    let mut expected = Vec::new();
    expected.push(at(0, 0));
    expected.extend(inner(2));
    expected.push(at(0, 0));
    for x in [2, 5, 8] {
        expected.push(at(x, 0));
        expected.extend(inner(3));
        expected.push(at(-x, 0));
    }
    assert_eq!(list.0, expected);
}

#[test]
fn sidebar_is_clamped_to_the_total_width() {
    let element = Element::LeftRow(LeftRowElement {
        children: vec![width_probe(), width_probe()],
        sidebar_width: 50,
    });
    let list = draw(&element, Size { x: 10, y: 5 });
    let inner = |w: isize| {
        vec![
            at(0, 0),
            Operation::PutChar('s'),
            at(0, 0),
            at(w, 0),
            Operation::PutChar('w'),
            at(-w, 0),
        ]
    };
    let mut expected = Vec::new();
    expected.push(at(0, 0));
    expected.extend(inner(10));
    expected.push(at(0, 0));
    expected.push(at(10, 0));
    expected.extend(inner(0));
    expected.push(at(-10, 0));
    assert_eq!(list.0, expected);
}

#[test]
fn column_divides_the_height_evenly() {
    let element = Element::Column(ColumnElement {
        children: vec![height_probe(), height_probe(), height_probe()],
    });
    let list = draw(&element, Size { x: 3, y: 10 });
    let inner = |h: isize| vec![at(0, h), Operation::PutChar('h'), at(0, -h)];
    let mut expected = Vec::new();
    for y in [0, 3, 6] {
        expected.push(at(0, y));
        expected.extend(inner(3));
        expected.push(at(0, -y));
    }
    assert_eq!(list.0, expected);
}

#[test]
fn row_divides_the_width_evenly() {
    let element = Element::Row(RowElement { children: vec![width_probe(), width_probe()] });
    let list = draw(&element, Size { x: 9, y: 2 });
    let inner = |w: isize| {
        vec![
            at(0, 0),
            Operation::PutChar('s'),
            at(0, 0),
            at(w, 0),
            Operation::PutChar('w'),
            at(-w, 0),
        ]
    };
    let mut expected = Vec::new();
    for x in [0, 4] {
        expected.push(at(x, 0));
        expected.extend(inner(4));
        expected.push(at(-x, 0));
    }
    assert_eq!(list.0, expected);
}

#[test]
fn negative_room_is_divided_towards_zero() {
    let element = Element::Column(ColumnElement { children: vec![leaf('a'), leaf('b')] });
    let list = draw(&element, Size { x: 1, y: -7 });
    assert_eq!(
        list.0,
        vec![
            at(0, 0),
            Operation::PutChar('a'),
            at(0, 0),
            at(0, -3),
            Operation::PutChar('b'),
            at(0, 3),
        ]
    );
}

#[test]
fn leaves_draw_themselves_whatever_the_room() {
    let c = leaf('x');
    assert_eq!(draw(&c, Size { x: 0, y: 0 }).0, vec![Operation::PutChar('x')]);
    let s = Element::String(StringElement { s: "hello".to_string() });
    assert_eq!(
        draw(&s, Size { x: 80, y: 24 }).0,
        vec![Operation::PutString("hello".to_string())]
    );
}

#[test]
fn drawing_appends_to_what_the_list_holds() {
    let mut list = DisplayList::new();
    leaf('a').draw(Size { x: 1, y: 1 }, &mut list);
    Element::Row(RowElement { children: vec![leaf('b')] }).draw(Size { x: 5, y: 1 }, &mut list);
    assert_eq!(
        list.0,
        vec![Operation::PutChar('a'), at(0, 0), Operation::PutChar('b'), at(0, 0)]
    );
}

#[test]
fn anchors_of_a_nested_draw_cancel_and_nest() {
    let inner = Element::LeftRow(LeftRowElement {
        children: vec![leaf('s'), height_probe(), leaf('t'), width_probe()],
        sidebar_width: 3,
    });
    let element = Element::BottomColumn(BottomColumnElement {
        children: vec![
            leaf('f'),
            inner,
            Element::Column(ColumnElement { children: vec![leaf('p'), height_probe()] }),
            Element::Row(RowElement { children: vec![width_probe(), leaf('q'), leaf('r')] }),
        ],
        footer_height: 2,
    });
    let list = draw(&element, Size { x: 37, y: 23 });
    let found = anchors(&list);
    assert!(found.len() >= 20);
    assert_eq!(found.len() % 2, 0);
    let sum = found.iter().fold((0isize, 0isize), |acc, p| (acc.0 + p.x, acc.1 + p.y));
    assert_eq!(sum, (0, 0));
    assert_eq!(unmatched(&list), 0);
    for p in found.iter() {
        let same = found.iter().filter(|q| q.x == p.x && q.y == p.y).count();
        let opposite = found.iter().filter(|q| q.x == -p.x && q.y == -p.y).count();
        assert_eq!(same, opposite);
    }
}

#[test]
fn point_negated_undoes_the_offset() {
    assert_eq!(Point { x: 3, y: -4 }.negated(), Point { x: -3, y: 4 });
    assert_eq!(Point { x: 0, y: 0 }.negated(), Point { x: 0, y: 0 });
    assert_eq!(
        Point { x: isize::MAX, y: isize::MIN + 1 }.negated(),
        Point { x: isize::MIN + 1, y: isize::MAX }
    );
}

#[test]
fn layout_assembles_the_element_of_its_kind() {
    let size = Size { x: 8, y: 8 };
    let kids = || vec![leaf('a'), leaf('b')];
    assert_eq!(
        draw(&Layout::Column.assemble(kids()), size),
        draw(&Element::Column(ColumnElement { children: kids() }), size)
    );
    assert_eq!(
        draw(&Layout::Row.assemble(kids()), size),
        draw(&Element::Row(RowElement { children: kids() }), size)
    );
    assert_eq!(
        draw(&Layout::BottomColumn { footer_height: 3 }.assemble(kids()), size),
        draw(
            &Element::BottomColumn(BottomColumnElement { children: kids(), footer_height: 3 }),
            size
        )
    );
    assert_eq!(
        draw(&Layout::LeftRow { sidebar_width: 3 }.assemble(kids()), size),
        draw(&Element::LeftRow(LeftRowElement { children: kids(), sidebar_width: 3 }), size)
    );
    assert_ne!(
        draw(&Layout::Column.assemble(kids()), size),
        draw(&Layout::Row.assemble(kids()), size)
    );
}
