use vgui::dispatch::{Interaction, Invocation};
use vgui::error::HostError;
use vgui::events::{stale_handles, Events, PropKey, PropValue};
use vgui::flush::{Flush, FlushStep};
use vgui::host::Host;
use vgui::outline::write_heading;
use vgui::element::Element;
use vgui::text::{decimal, indent, join};
use vgui::walker::{RenderOp, Widget};

fn op(widget: Widget, id: usize, text: &str) -> RenderOp {
    RenderOp { widget, id, text: text.to_string() }
}

fn quiet(id: usize) -> Interaction {
    Interaction { id, clicked: false, hovered: false, lost_focus: false, text: None }
}

#[test]
fn a_new_host_has_an_empty_frame() {
    let host = Host::new();
    assert_eq!(host.walk(), Vec::<RenderOp>::new());
}

#[test]
fn end_to_end_one_scope_with_one_label() {
    let mut host = Host::new();
    assert_eq!(host.create_element(1, "vertical"), Ok(1));
    assert_eq!(host.create_element(2, "label"), Ok(2));
    assert_eq!(host.insert(2, 1, None), Ok(()));
    assert_eq!(host.insert(1, 0, None), Ok(()));
    assert_eq!(
        host.walk(),
        vec![op(Widget::BeginVertical, 1, ""), op(Widget::Label, 2, ""), op(Widget::End, 1, "")]
    );
    assert_eq!(host.set_element_text(2, "hi"), Ok(2));
    assert_eq!(
        host.walk(),
        vec![op(Widget::BeginVertical, 1, ""), op(Widget::Label, 2, "hi"), op(Widget::End, 1, "")]
    );
}

#[test]
fn the_walk_is_depth_first_and_in_child_order() {
    let mut host = Host::new();
    let tags = [
        (1, "vertical"),
        (2, "label"),
        (3, "horizontal"),
        (4, "button"),
        (5, "text-edit"),
        (6, "separator"),
        (7, "hidden"),
        (8, "comment"),
        (9, "label"),
    ];
    for (id, tag) in tags {
        assert_eq!(host.create_element(id, tag), Ok(id));
    }
    assert_eq!(host.insert(1, 0, None), Ok(()));
    assert_eq!(host.insert(2, 1, None), Ok(()));
    assert_eq!(host.insert(3, 1, None), Ok(()));
    assert_eq!(host.insert(4, 3, None), Ok(()));
    assert_eq!(host.insert(5, 3, None), Ok(()));
    assert_eq!(host.insert(6, 1, None), Ok(()));
    assert_eq!(host.insert(7, 1, Some(2)), Ok(()));
    assert_eq!(host.insert(8, 0, Some(1)), Ok(()));
    assert_eq!(host.set_element_text(2, "Value: 0"), Ok(2));
    assert_eq!(host.set_element_text(4, "Increment"), Ok(4));
    assert_eq!(host.set_element_text(5, "Hello"), Ok(5));
    assert_eq!(host.set_element_text(7, "unseen"), Ok(7));
    assert_eq!(host.set_element_text(9, "detached"), Ok(9));
    assert_eq!(
        host.walk(),
        vec![
            op(Widget::BeginVertical, 1, ""),
            op(Widget::Label, 2, "Value: 0"),
            op(Widget::BeginHorizontal, 3, ""),
            op(Widget::Button, 4, "Increment"),
            op(Widget::TextEdit, 5, "Hello"),
            op(Widget::End, 3, ""),
            op(Widget::Separator, 6, ""),
            op(Widget::End, 1, ""),
        ]
    );
}

#[test]
fn children_of_a_leaf_are_not_walked() {
    let mut host = Host::new();
    assert_eq!(host.create_element(1, "label"), Ok(1));
    assert_eq!(host.create_element(2, "button"), Ok(2));
    assert_eq!(host.insert(1, 0, None), Ok(()));
    assert_eq!(host.insert(2, 1, None), Ok(()));
    assert_eq!(host.walk(), vec![op(Widget::Label, 1, "")]);
}

#[test]
fn a_deep_chain_is_walked_to_the_bottom() {
    let mut host = Host::new();
    let depth = 40usize;
    for id in 1..=depth {
        assert_eq!(host.create_element(id, "vertical"), Ok(id));
        assert_eq!(host.insert(id, id - 1, None), Ok(()));
    }
    let ops = host.walk();
    assert_eq!(ops.len(), 2 * depth);
    for id in 1..=depth {
        assert_eq!(ops[id - 1], op(Widget::BeginVertical, id, ""));
        assert_eq!(ops[2 * depth - id], op(Widget::End, id, ""));
    }
}

#[test]
fn a_detached_cycle_does_not_stop_the_walk() {
    let mut host = Host::new();
    assert_eq!(host.create_element(1, "vertical"), Ok(1));
    assert_eq!(host.create_element(2, "vertical"), Ok(2));
    assert_eq!(host.create_element(3, "label"), Ok(3));
    assert_eq!(host.insert(1, 2, None), Ok(()));
    assert_eq!(host.insert(2, 1, None), Ok(()));
    assert_eq!(host.insert(3, 0, None), Ok(()));
    assert_eq!(host.walk(), vec![op(Widget::Label, 3, "")]);
    assert_eq!(host.parent_node(1), Ok(Some(2)));
    assert_eq!(host.parent_node(2), Ok(Some(1)));
}

#[test]
fn one_click_invokes_the_bound_callback_once() {
    let mut host = Host::new();
    assert_eq!(host.create_element(1, "button"), Ok(1));
    assert_eq!(host.create_element(2, "button"), Ok(2));
    assert_eq!(host.insert(1, 0, None), Ok(()));
    assert_eq!(host.insert(2, 0, None), Ok(()));
    assert_eq!(host.patch_prop(1, "onClick", PropValue::Other, PropValue::Callable(7)), Ok(()));
    let clicked = Interaction { clicked: true, ..quiet(1) };
    assert_eq!(
        host.dispatch(&vec![clicked, quiet(2)]),
        vec![Invocation { id: 1, event: PropKey::Click, handle: 7, argument: None }]
    );
    assert_eq!(host.dispatch(&vec![quiet(1), quiet(2)]), Vec::<Invocation>::new());
    let other = Interaction { clicked: true, ..quiet(2) };
    assert_eq!(host.dispatch(&vec![quiet(1), other]), Vec::<Invocation>::new());
    assert_eq!(host.dispatch(&Vec::new()), Vec::<Invocation>::new());
}

#[test]
fn callbacks_come_in_the_order_click_hover_input() {
    let mut host = Host::new();
    assert_eq!(host.create_element(1, "text-edit"), Ok(1));
    assert_eq!(host.create_element(2, "label"), Ok(2));
    for (key, handle) in [("onClick", 1u64), ("onHover", 2), ("onInput", 3)] {
        assert_eq!(host.patch_prop(1, key, PropValue::Other, PropValue::Callable(handle)), Ok(()));
        assert_eq!(
            host.patch_prop(2, key, PropValue::Other, PropValue::Callable(handle + 10)),
            Ok(())
        );
    }
    let all = |id: usize, text: Option<&str>| Interaction {
        id,
        clicked: true,
        hovered: true,
        lost_focus: true,
        text: text.map(|t| t.to_string()),
    };
    assert_eq!(
        host.dispatch(&vec![all(2, None), all(1, Some("typed"))]),
        vec![
            Invocation { id: 2, event: PropKey::Click, handle: 11, argument: None },
            Invocation { id: 2, event: PropKey::Hover, handle: 12, argument: None },
            Invocation { id: 1, event: PropKey::Click, handle: 1, argument: None },
            Invocation { id: 1, event: PropKey::Hover, handle: 2, argument: None },
            Invocation {
                id: 1,
                event: PropKey::Input,
                handle: 3,
                argument: Some("typed".to_string()),
            },
        ]
    );
    assert_eq!(host.text_of(1), Some("typed".to_string()));
    assert_eq!(host.text_of(2), Some(String::new()));
}

#[test]
fn a_text_edit_keeps_what_was_typed_even_without_a_callback() {
    let mut host = Host::new();
    assert_eq!(host.create_element(1, "text-edit"), Ok(1));
    assert_eq!(host.create_element(2, "label"), Ok(2));
    assert_eq!(host.set_element_text(1, "old"), Ok(1));
    assert_eq!(host.set_element_text(2, "fixed"), Ok(2));
    let typed = Interaction { text: Some("new".to_string()), ..quiet(1) };
    let stray = Interaction { text: Some("other".to_string()), ..quiet(2) };
    let unknown = Interaction { text: Some("x".to_string()), clicked: true, ..quiet(9) };
    assert_eq!(host.dispatch(&vec![typed, stray, unknown]), Vec::<Invocation>::new());
    assert_eq!(host.text_of(1), Some("new".to_string()));
    assert_eq!(host.text_of(2), Some("fixed".to_string()));
    assert!(!host.contains(9));
    assert_eq!(host.patch_prop(1, "onInput", PropValue::Other, PropValue::Callable(4)), Ok(()));
    let left = Interaction { lost_focus: true, ..quiet(1) };
    assert_eq!(
        host.dispatch(&vec![left]),
        vec![Invocation {
            id: 1,
            event: PropKey::Input,
            handle: 4,
            argument: Some("new".to_string()),
        }]
    );
}

#[test]
fn a_failed_callback_is_reported_by_its_handle() {
    let call = Invocation { id: 3, event: PropKey::Click, handle: 42, argument: None };
    assert_eq!(call.failure(), HostError::Dispatch { handle: 42 });
}

#[test]
fn a_callback_unbound_earlier_in_the_frame_is_passed_over() {
    let mut host = Host::new();
    assert_eq!(host.create_element(1, "button"), Ok(1));
    assert_eq!(host.create_element(2, "button"), Ok(2));
    assert_eq!(host.patch_prop(1, "onClick", PropValue::Other, PropValue::Callable(7)), Ok(()));
    assert_eq!(host.patch_prop(2, "onClick", PropValue::Other, PropValue::Callable(8)), Ok(()));
    let first = Interaction { clicked: true, ..quiet(1) };
    let second = Interaction { clicked: true, ..quiet(2) };
    let calls = host.dispatch(&vec![first, second]);
    assert_eq!(calls.len(), 2);
    assert!(host.is_live(&calls[0]));
    assert!(host.is_live(&calls[1]));
    assert_eq!(host.patch_prop(2, "onClick", PropValue::Callable(8), PropValue::Other), Ok(()));
    assert!(host.is_live(&calls[0]));
    assert!(!host.is_live(&calls[1]));
    assert_eq!(host.patch_prop(1, "onClick", PropValue::Callable(7), PropValue::Callable(9)), Ok(()));
    assert!(!host.is_live(&calls[0]));
    assert_eq!(host.patch_prop(1, "onHover", PropValue::Other, PropValue::Callable(7)), Ok(()));
    assert!(!host.is_live(&calls[0]));
    let stray = Invocation { id: 99, event: PropKey::Click, handle: 7, argument: None };
    assert!(!host.is_live(&stray));
}

#[test]
fn a_patch_names_the_handles_it_left_unbound() {
    let none = Events::unbound();
    let one = Events { click: Some(1), hover: None, input: None };
    let two = Events { click: Some(2), hover: None, input: None };
    assert_eq!(stale_handles(none, one, Some(1)), Vec::<u64>::new());
    assert_eq!(stale_handles(one, two, Some(2)), vec![1]);
    assert_eq!(stale_handles(one, none, None), vec![1]);
    assert_eq!(stale_handles(one, one, Some(5)), vec![5]);
    assert_eq!(stale_handles(none, none, None), Vec::<u64>::new());
    let full = Events { click: Some(1), hover: Some(2), input: Some(3) };
    let less = Events { click: Some(1), hover: None, input: Some(4) };
    assert_eq!(stale_handles(full, less, Some(4)), vec![2, 3]);
    assert_eq!(stale_handles(full, none, Some(9)), vec![1, 2, 3, 9]);
    let moved = Events { click: None, hover: Some(1), input: None };
    assert_eq!(stale_handles(one, moved, None), Vec::<u64>::new());
    assert_eq!(full.bound(PropKey::Click), Some(1));
    assert_eq!(full.bound(PropKey::Hover), Some(2));
    assert_eq!(full.bound(PropKey::Input), Some(3));
    assert_eq!(none.bound(PropKey::Input), None);
    assert!(full.binds(2));
    assert!(!full.binds(4));
    assert!(!none.binds(0));
}

#[test]
fn the_flush_runs_until_the_runtime_settles() {
    let mut flush = Flush::new(5);
    assert_eq!(flush.cap(), 5);
    assert_eq!(flush.next(true), FlushStep::Run);
    assert_eq!(flush.next(true), FlushStep::Run);
    assert_eq!(flush.rounds(), 2);
    assert_eq!(flush.next(false), FlushStep::Settled);
    assert_eq!(flush.rounds(), 2);
    assert_eq!(flush.next(true), FlushStep::Run);
    assert_eq!(flush.rounds(), 3);
}

#[test]
fn every_flush_grants_one_round_whatever_is_reported() {
    let mut idle = Flush::new(5);
    assert_eq!(idle.next(false), FlushStep::Run);
    assert_eq!(idle.rounds(), 1);
    assert_eq!(idle.next(false), FlushStep::Settled);
    assert_eq!(idle.next(false), FlushStep::Settled);
    assert_eq!(idle.rounds(), 1);
    let mut none = Flush::new(0);
    assert_eq!(none.next(false), FlushStep::Settled);
    assert_eq!(none.rounds(), 0);
}

#[test]
fn the_flush_stops_at_its_cap() {
    let mut flush = Flush::new(3);
    let mut runs = 0;
    for _ in 0..10 {
        if flush.next(true) == FlushStep::Run {
            runs += 1;
        }
    }
    assert_eq!(runs, 3);
    assert_eq!(flush.rounds(), 3);
    assert_eq!(flush.next(true), FlushStep::CapReached);
    assert_eq!(flush.next(false), FlushStep::Settled);
    let mut none = Flush::new(0);
    assert_eq!(none.next(true), FlushStep::CapReached);
    assert_eq!(none.rounds(), 0);
    let mut one = Flush::new(1);
    assert_eq!(one.next(false), FlushStep::Run);
    assert_eq!(one.next(true), FlushStep::CapReached);
    assert_eq!(one.rounds(), 1);
}

#[test]
fn the_outline_lists_the_tree_with_indentation() {
    let mut host = Host::new();
    assert_eq!(host.create_element(1, "vertical"), Ok(1));
    assert_eq!(host.create_element(2, "label"), Ok(2));
    assert_eq!(host.create_element(13, "separator"), Ok(13));
    assert_eq!(host.insert(1, 0, None), Ok(()));
    assert_eq!(host.insert(2, 1, None), Ok(()));
    assert_eq!(host.insert(13, 1, None), Ok(()));
    assert_eq!(host.set_element_text(2, "Value: 0"), Ok(2));
    assert_eq!(
        host.outline(0),
        vec![
            "Root(0)",
            "  Vertical(1)",
            "    Label(2): Value: 0",
            "    End",
            "    Separator(13)",
            "    End",
            "  End",
            "End",
        ]
    );
    assert_eq!(host.outline(2), vec!["Label(2): Value: 0", "End"]);
    assert_eq!(host.outline(99), Vec::<String>::new());
}

#[test]
fn headings_name_kind_id_and_text() {
    assert_eq!(write_heading(&Element::Root, 0, 0), "Root(0)");
    assert_eq!(write_heading(&Element::Horizontal, 7, 1), "  Horizontal(7)");
    assert_eq!(write_heading(&Element::Button("Reset".to_string()), 10, 2), "    Button(10): Reset");
    assert_eq!(write_heading(&Element::Hidden(String::new()), 3, 0), "Hidden(3): ");
    assert_eq!(write_heading(&Element::Comment("v-if".to_string()), 4, 0), "Comment(4): v-if");
    assert_eq!(write_heading(&Element::TextEdit("a".to_string()), 5, 0), "TextEdit(5): a");
}

#[test]
fn text_helpers_give_exact_strings() {
    assert_eq!(indent(0), "");
    assert_eq!(indent(3), "      ");
    assert_eq!(join(&Vec::new(), ", "), "");
    assert_eq!(join(&vec!["a".to_string()], ", "), "a");
    assert_eq!(join(&vec!["a".to_string(), "b".to_string(), "c".to_string()], ", "), "a, b, c");
    assert_eq!(decimal(0), "0");
    assert_eq!(decimal(9), "9");
    assert_eq!(decimal(10), "10");
    assert_eq!(decimal(1234567890), "1234567890");
    assert_eq!(decimal(u64::MAX), "18446744073709551615");
}
