use ui_ir::diagnostics::Diagnostics;
use ui_ir::object_tree::{
    set_enclosing_component, Component, Element, SourceLocation, Type,
};

fn loc(offset: u64) -> SourceLocation {
    SourceLocation { offset }
}

#[test]
fn element_new_is_empty() {
    let e = Element::new(
        String::from("box"),
        17,
        Type::Builtin(String::from("Rectangle")),
        loc(40),
    );
    assert_eq!(e.id, "box");
    assert_eq!(e.key, 17);
    assert_eq!(e.base_type, Type::Builtin(String::from("Rectangle")));
    assert_eq!(e.node, loc(40));
    assert!(e.bindings.is_empty());
    assert!(e.children.is_empty());
    assert!(e.property_declarations.is_empty());
    assert!(e.property_animations.is_empty());
    assert!(e.repeated.is_none());
    assert!(e.enclosing_component.is_none());
}

#[test]
fn component_new_has_no_parent() {
    let root = Element::new(String::from("root"), 1, Type::Invalid, loc(0));
    let c = Component::new(12, root);
    assert_eq!(c.id, 12);
    assert_eq!(c.root_element.id, "root");
    assert!(c.parent_element.is_none());
}

#[test]
fn rewiring_sets_every_enclosing_reference() {
    let mut child = Element::new(String::from("child"), 2, Type::Invalid, loc(1));
    child.children.push(Element::new(String::from("grandchild"), 3, Type::Invalid, loc(2)));
    let mut root = Element::new(String::from("root"), 1, Type::Invalid, loc(0));
    root.children.push(child);

    let rewired = set_enclosing_component(root, 99);

    assert_eq!(rewired.enclosing_component, Some(99));
    assert_eq!(rewired.children[0].enclosing_component, Some(99));
    assert_eq!(rewired.children[0].children[0].enclosing_component, Some(99));
    assert_eq!(rewired.id, "root");
    assert_eq!(rewired.children[0].id, "child");
    assert_eq!(rewired.children[0].children[0].id, "grandchild");
}

#[test]
fn diagnostics_collects_in_order() {
    let mut diag = Diagnostics::new();
    assert_eq!(diag.len(), 0);
    diag.push(String::from("first"), loc(3));
    diag.push(String::from("second"), loc(5));
    assert_eq!(diag.len(), 2);
    assert_eq!(diag.diagnostics[0].message, "first");
    assert_eq!(diag.diagnostics[0].location, loc(3));
    assert_eq!(diag.diagnostics[1].message, "second");
    assert_eq!(diag.diagnostics[1].location, loc(5));
}
