use ui_ir::diagnostics::Diagnostics;
use ui_ir::object_tree::{
    Binding, Component, Element, Expression, PropertyAnimation, PropertyDeclaration,
    RepeatedElementInfo, SourceLocation, Type,
};
use ui_ir::repeater_component::create_repeater_components;

fn loc(offset: u64) -> SourceLocation {
    SourceLocation { offset }
}

fn elem(id: &str, key: u64, base: Type, enclosing: Option<u64>) -> Element {
    Element {
        id: id.to_string(),
        key,
        base_type: base,
        bindings: Vec::new(),
        children: Vec::new(),
        property_declarations: Vec::new(),
        property_animations: Vec::new(),
        repeated: None,
        node: loc(key),
        enclosing_component: enclosing,
    }
}

fn rep(model: u64, var: &str) -> RepeatedElementInfo {
    RepeatedElementInfo {
        model: Expression { handle: model },
        model_data_id: var.to_string(),
        index_id: String::from("index"),
    }
}

fn binding(name: &str, handle: u64) -> Binding {
    Binding { name: name.to_string(), expr: Expression { handle } }
}

fn builtin(name: &str) -> Type {
    Type::Builtin(name.to_string())
}

#[test]
fn scenario_single_repeater() {
    // Component (id 10): root "r", one child "e" repeated over "items";
    // "e" is a Rectangle with one child "a" and the binding color=expr1.
    let a = elem("a", 3, builtin("Image"), Some(10));
    let mut e = elem("e", 2, builtin("Rectangle"), Some(10));
    e.children.push(a);
    e.bindings.push(binding("color", 1));
    e.repeated = Some(rep(7, "it"));
    let mut r = elem("r", 1, builtin("Window"), Some(10));
    r.children.push(e);
    let mut c = Component { id: 10, root_element: r, parent_element: None };
    let mut diag = Diagnostics::new();

    create_repeater_components(&mut c, &mut diag);

    assert_eq!(c.id, 10);
    assert_eq!(c.parent_element, None);
    assert_eq!(c.root_element.id, "r");
    assert_eq!(c.root_element.children.len(), 1);
    let e2 = &c.root_element.children[0];
    assert!(e2.repeated.is_some());
    assert_eq!(e2.id, "e");
    assert_eq!(e2.key, 2);
    assert_eq!(e2.children.len(), 0);
    assert_eq!(e2.bindings.len(), 0);
    assert_eq!(e2.property_declarations.len(), 0);
    assert_eq!(e2.property_animations.len(), 0);
    assert_eq!(e2.enclosing_component, Some(10));
    match &e2.base_type {
        Type::Component(c2) => {
            assert!(c2.id > 10);
            assert_eq!(c2.parent_element, Some(2));
            let root = &c2.root_element;
            assert_eq!(root.id, "e");
            assert_eq!(root.base_type, builtin("Rectangle"));
            assert!(root.repeated.is_none());
            assert_eq!(root.bindings, vec![binding("color", 1)]);
            assert_eq!(root.enclosing_component, Some(c2.id));
            assert_eq!(root.children.len(), 1);
            assert_eq!(root.children[0].id, "a");
            assert_eq!(root.children[0].base_type, builtin("Image"));
            assert_eq!(root.children[0].enclosing_component, Some(c2.id));
        },
        other => panic!("expected a component base type, got {:?}", other),
    }
}

#[test]
fn scenario_nested_repeater() {
    // As scenario_single_repeater, but the repeated element's only child is
    // itself repeated: its content must end up two components deep.
    let g = elem("g", 4, builtin("Image"), Some(10));
    let mut a = elem("a", 3, builtin("Text"), Some(10));
    a.children.push(g);
    a.bindings.push(binding("text", 2));
    a.repeated = Some(rep(8, "inner"));
    let mut e = elem("e", 2, builtin("Rectangle"), Some(10));
    e.children.push(a);
    e.repeated = Some(rep(7, "it"));
    let mut r = elem("r", 1, builtin("Window"), Some(10));
    r.children.push(e);
    let mut c = Component { id: 10, root_element: r, parent_element: None };
    let mut diag = Diagnostics::new();

    create_repeater_components(&mut c, &mut diag);

    let e2 = &c.root_element.children[0];
    assert_eq!(e2.children.len(), 0);
    match &e2.base_type {
        Type::Component(c2) => {
            let a2 = &c2.root_element.children[0];
            assert!(a2.repeated.is_some());
            assert_eq!(a2.id, "a");
            assert_eq!(a2.children.len(), 0);
            assert_eq!(a2.bindings.len(), 0);
            assert_eq!(a2.enclosing_component, Some(c2.id));
            match &a2.base_type {
                Type::Component(c3) => {
                    assert_ne!(c3.id, c2.id);
                    assert!(c3.id > 10);
                    assert_eq!(c3.parent_element, Some(3));
                    let inner = &c3.root_element;
                    assert_eq!(inner.id, "a");
                    assert_eq!(inner.base_type, builtin("Text"));
                    assert_eq!(inner.bindings, vec![binding("text", 2)]);
                    assert!(inner.repeated.is_none());
                    assert_eq!(inner.enclosing_component, Some(c3.id));
                    assert_eq!(inner.children.len(), 1);
                    assert_eq!(inner.children[0].id, "g");
                    assert_eq!(inner.children[0].enclosing_component, Some(c3.id));
                },
                other => panic!("expected a component base type, got {:?}", other),
            }
        },
        other => panic!("expected a component base type, got {:?}", other),
    }
}

#[test]
fn scenario_rerun_wraps_again() {
    // The pass is meant to run once; running it again on an already
    // normalized tree wraps each still-marked element in a further
    // component whose root names the first synthesized component.
    let mut e = elem("e", 2, builtin("Rectangle"), Some(10));
    e.repeated = Some(rep(7, "it"));
    let mut r = elem("r", 1, builtin("Window"), Some(10));
    r.children.push(e);
    let mut c = Component { id: 10, root_element: r, parent_element: None };
    let mut diag = Diagnostics::new();

    create_repeater_components(&mut c, &mut diag);
    let first_id = match &c.root_element.children[0].base_type {
        Type::Component(c2) => c2.id,
        other => panic!("expected a component base type, got {:?}", other),
    };
    create_repeater_components(&mut c, &mut diag);

    let e2 = &c.root_element.children[0];
    assert!(e2.repeated.is_some());
    assert_eq!(e2.children.len(), 0);
    match &e2.base_type {
        Type::Component(outer) => {
            assert!(outer.id > first_id);
            assert_eq!(outer.parent_element, Some(2));
            let root = &outer.root_element;
            assert!(root.repeated.is_none());
            assert_eq!(root.children.len(), 0);
            match &root.base_type {
                Type::Component(inner) => {
                    assert_eq!(inner.id, first_id);
                    assert_eq!(inner.root_element.base_type, builtin("Rectangle"));
                },
                other => panic!("expected the first component again, got {:?}", other),
            }
        },
        other => panic!("expected a component base type, got {:?}", other),
    }
}

#[test]
fn repeated_root_is_split() {
    let mut r = elem("list", 1, builtin("Rectangle"), Some(55));
    r.bindings.push(binding("model", 9));
    r.repeated = Some(rep(9, "entry"));
    let mut c = Component { id: 55, root_element: r, parent_element: None };
    let mut diag = Diagnostics::new();

    create_repeater_components(&mut c, &mut diag);

    let root = &c.root_element;
    assert!(root.repeated.is_some());
    assert_eq!(root.children.len(), 0);
    assert_eq!(root.bindings.len(), 0);
    assert_eq!(root.enclosing_component, Some(55));
    match &root.base_type {
        Type::Component(c2) => {
            assert!(c2.id > 55);
            assert_eq!(c2.parent_element, Some(1));
            assert_eq!(c2.root_element.base_type, builtin("Rectangle"));
            assert_eq!(c2.root_element.bindings, vec![binding("model", 9)]);
            assert_eq!(c2.root_element.enclosing_component, Some(c2.id));
        },
        other => panic!("expected a component base type, got {:?}", other),
    }
}

#[test]
fn declarations_and_animations_are_relocated() {
    let mut e = elem("e", 2, builtin("Rectangle"), Some(10));
    e.repeated = Some(rep(7, "it"));
    e.property_declarations.push(PropertyDeclaration {
        name: String::from("spacing"),
        declared_type: String::from("length"),
    });
    e.property_animations.push(PropertyAnimation {
        name: String::from("x"),
        animation: Expression { handle: 6 },
    });
    let mut r = elem("r", 1, builtin("Window"), Some(10));
    r.children.push(e);
    let mut c = Component { id: 10, root_element: r, parent_element: None };
    let mut diag = Diagnostics::new();

    create_repeater_components(&mut c, &mut diag);

    let e2 = &c.root_element.children[0];
    assert!(e2.property_declarations.is_empty());
    assert!(e2.property_animations.is_empty());
    match &e2.base_type {
        Type::Component(c2) => {
            let root = &c2.root_element;
            assert_eq!(root.property_declarations.len(), 1);
            assert_eq!(root.property_declarations[0].name, "spacing");
            assert_eq!(root.property_declarations[0].declared_type, "length");
            assert_eq!(root.property_animations.len(), 1);
            assert_eq!(root.property_animations[0].name, "x");
            assert_eq!(root.property_animations[0].animation, Expression { handle: 6 });
        },
        other => panic!("expected a component base type, got {:?}", other),
    }
}

#[test]
fn three_levels_of_repeaters_are_all_split() {
    // A repeater inside a repeater inside a repeater: the innermost content
    // must end up three synthesized components deep, every level emptied.
    let mut inner = elem("inner", 4, builtin("Text"), Some(10));
    inner.repeated = Some(rep(3, "c"));
    let mut middle = elem("middle", 3, builtin("Rectangle"), Some(10));
    middle.repeated = Some(rep(2, "b"));
    middle.children.push(inner);
    let mut outer = elem("outer", 2, builtin("Rectangle"), Some(10));
    outer.repeated = Some(rep(1, "a"));
    outer.children.push(middle);
    let mut r = elem("r", 1, builtin("Window"), Some(10));
    r.children.push(outer);
    let mut c = Component { id: 10, root_element: r, parent_element: None };
    let mut diag = Diagnostics::new();

    create_repeater_components(&mut c, &mut diag);

    let outer2 = &c.root_element.children[0];
    assert_eq!(outer2.children.len(), 0);
    let c1 = match &outer2.base_type {
        Type::Component(c1) => c1,
        other => panic!("expected a component base type, got {:?}", other),
    };
    let middle2 = &c1.root_element.children[0];
    assert_eq!(middle2.children.len(), 0);
    assert_eq!(middle2.enclosing_component, Some(c1.id));
    let c2 = match &middle2.base_type {
        Type::Component(c2) => c2,
        other => panic!("expected a component base type, got {:?}", other),
    };
    let inner2 = &c2.root_element.children[0];
    assert_eq!(inner2.children.len(), 0);
    assert_eq!(inner2.enclosing_component, Some(c2.id));
    let c3 = match &inner2.base_type {
        Type::Component(c3) => c3,
        other => panic!("expected a component base type, got {:?}", other),
    };
    assert_eq!(c3.root_element.base_type, builtin("Text"));
    assert_eq!(c3.parent_element, Some(4));
    assert_ne!(c1.id, c2.id);
    assert_ne!(c2.id, c3.id);
    assert_ne!(c1.id, c3.id);
    assert!(c1.id > 10 && c2.id > 10 && c3.id > 10);
}

#[test]
fn tree_without_repeaters_is_untouched() {
    let build = || {
        let mut r = elem("r", 1, builtin("Window"), Some(10));
        let mut m = elem("m", 2, builtin("Rectangle"), Some(10));
        m.bindings.push(binding("width", 4));
        m.children.push(elem("leaf", 3, builtin("Text"), Some(10)));
        r.children.push(m);
        r.children.push(elem("other", 4, builtin("Image"), Some(10)));
        Component { id: 10, root_element: r, parent_element: None }
    };
    let mut c = build();
    let mut diag = Diagnostics::new();

    create_repeater_components(&mut c, &mut diag);

    assert_eq!(c, build());
}

#[test]
fn pass_emits_no_diagnostics() {
    let mut e = elem("e", 2, builtin("Rectangle"), Some(10));
    e.repeated = Some(rep(7, "it"));
    let mut r = elem("r", 1, builtin("Window"), Some(10));
    r.children.push(e);
    let mut c = Component { id: 10, root_element: r, parent_element: None };
    let mut diag = Diagnostics::new();
    diag.push(String::from("earlier stage message"), loc(0));

    create_repeater_components(&mut c, &mut diag);

    assert_eq!(diag.len(), 1);
    assert_eq!(diag.diagnostics[0].message, "earlier stage message");
}
