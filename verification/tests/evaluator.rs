use neolisp::binding::Binding;
use neolisp::eval::evaluate;
use neolisp::eval::register_all_builtin_forms;
use neolisp::object::Object;
use neolisp::scope::Mode;
use neolisp::scope::Scope;

fn sym(s: &str) -> Object {
    Object::symbol(s.to_string())
}

fn num(v: i32) -> Object {
    Object::integer(v)
}

fn list(items: Vec<Object>) -> Object {
    Object::list(items)
}

fn ready_scope() -> Scope {
    let mut scope = Scope::new();
    register_all_builtin_forms(&mut scope);
    scope
}

#[test]
fn quote_round_trips_a_literal_with_its_location() {
    let mut scope = ready_scope();
    let v = Object::Integer(
        neolisp::object::ObjectInfo::new(neolisp::location::Location::new_intern("spot", 7)),
        42,
    );
    let expr = list(vec![sym("quote"), v]);
    let r = evaluate(&mut scope, &expr).unwrap();
    assert_eq!(r.as_integer(), Some(42));
    match r.get_info().location.as_intern() {
        Some(i) => {
            assert_eq!(i.file, "spot".to_string());
            assert_eq!(i.line, 7);
        }
        None => panic!("location was not kept"),
    }
}

#[test]
fn quote_round_trips_each_literal_kind() {
    let mut scope = ready_scope();
    let samples = vec![
        Object::nil(),
        Object::bool(true),
        Object::integer(-3),
        Object::float(1.5f32.to_bits()),
        Object::char('q'),
        Object::string("hey".to_string()),
        Object::keyword("k".to_string()),
        sym("z"),
    ];
    for v in samples {
        let kind = v.kind();
        let text = v.to_string();
        let expr = list(vec![sym("quote"), v]);
        let r = evaluate(&mut scope, &expr).unwrap();
        assert_eq!(r.kind(), kind);
        assert_eq!(r.to_string(), text);
    }
}

#[test]
fn break_outside_any_loop_is_an_error() {
    let mut scope = ready_scope();
    let defn = list(vec![
        sym("defndynamic"),
        sym("f"),
        list(vec![sym("x")]),
        list(vec![sym("break"), sym("x")]),
    ]);
    evaluate(&mut scope, &defn).unwrap();
    let call = list(vec![sym("f"), num(1)]);
    let err = evaluate(&mut scope, &call).unwrap_err();
    assert!(err.to_string().contains("'break' called outside of a loop."));
}

#[test]
fn break_does_not_cross_a_call_boundary_into_a_loop() {
    let mut scope = ready_scope();
    let defn = list(vec![
        sym("defndynamic"),
        sym("f"),
        list(vec![sym("x")]),
        list(vec![sym("break"), sym("x")]),
    ]);
    evaluate(&mut scope, &defn).unwrap();
    // The loop would run forever if the function's break ended it silently.
    let loop_expr = list(vec![sym("while"), Object::bool(true), list(vec![sym("f"), num(1)])]);
    let err = evaluate(&mut scope, &loop_expr).unwrap_err();
    assert!(err.to_string().contains("'break' called outside of a loop."));
}

#[test]
fn equote_splices_only_the_escaped_form() {
    let mut scope = ready_scope();
    let inner = list(vec![
        sym("a"),
        sym("b"),
        list(vec![sym("escape-quote"), list(vec![sym("+"), num(1), num(2)])]),
    ]);
    let expr = list(vec![sym("equote"), inner]);
    let r = evaluate(&mut scope, &expr).unwrap();
    let items = r.get_list();
    assert_eq!(items.len(), 3);
    assert_eq!(items[0].get_symbol(), "a");
    assert_eq!(items[1].get_symbol(), "b");
    assert_eq!(items[2].as_integer(), Some(3));
}

#[test]
fn escape_quote_outside_equote_is_an_error() {
    let mut scope = ready_scope();
    let expr = list(vec![sym("escape-quote"), num(1)]);
    let err = evaluate(&mut scope, &expr).unwrap_err();
    assert!(err.to_string().contains("'escape-quote' must be within a 'equote' form."));
}

#[test]
fn unbound_symbol_names_itself_in_the_innermost_frame() {
    let mut scope = ready_scope();
    let err = evaluate(&mut scope, &sym("nope")).unwrap_err();
    assert_eq!(
        err.to_string(),
        "Evaluation error : unbound symbol 'nope'\n\nStacktrace :\n  >>>> : 'nope' no location\n"
    );
}

#[test]
fn dynamic_form_arity_reports_expected_and_actual() {
    let mut scope = ready_scope();
    let defn = list(vec![
        sym("defndynamic"),
        sym("g"),
        list(vec![sym("x"), sym("y")]),
        sym("x"),
    ]);
    evaluate(&mut scope, &defn).unwrap();
    let one = evaluate(&mut scope, &list(vec![sym("g"), num(1)])).unwrap_err();
    assert!(one.to_string().contains("'g' requires 2 arguments, got 1 instead."));
    let three = evaluate(&mut scope, &list(vec![sym("g"), num(1), num(2), num(3)])).unwrap_err();
    assert!(three.to_string().contains("'g' requires 2 arguments, got 3 instead."));
}

#[test]
fn dynamic_form_applies_its_arguments() {
    let mut scope = ready_scope();
    let defn = list(vec![
        sym("defndynamic"),
        sym("twice"),
        list(vec![sym("x")]),
        list(vec![sym("+"), sym("x"), sym("x")]),
    ]);
    evaluate(&mut scope, &defn).unwrap();
    let r = evaluate(&mut scope, &list(vec![sym("twice"), num(21)])).unwrap();
    assert_eq!(r.as_integer(), Some(42));
}

#[test]
fn shadowing_restores_the_outer_binding_after_leave() {
    let mut scope = ready_scope();
    scope.insert("x".to_string(), Binding::Variable(num(1)));
    assert_eq!(evaluate(&mut scope, &sym("x")).unwrap().as_integer(), Some(1));
    scope.enter(Mode::Inherit);
    scope.insert("x".to_string(), Binding::Variable(num(2)));
    assert_eq!(evaluate(&mut scope, &sym("x")).unwrap().as_integer(), Some(2));
    scope.leave();
    assert_eq!(evaluate(&mut scope, &sym("x")).unwrap().as_integer(), Some(1));
}

#[test]
fn while_breaks_with_the_break_value() {
    let mut scope = ready_scope();
    let expr = list(vec![
        sym("while"),
        Object::bool(true),
        list(vec![sym("break"), num(42)]),
    ]);
    let r = evaluate(&mut scope, &expr).unwrap();
    assert_eq!(r.as_integer(), Some(42));
}

#[test]
fn while_catches_a_break_raised_by_its_own_condition() {
    let mut scope = ready_scope();
    let expr = list(vec![sym("while"), list(vec![sym("break"), num(7)])]);
    let r = evaluate(&mut scope, &expr).unwrap();
    assert_eq!(r.as_integer(), Some(7));
}

#[test]
fn while_with_a_false_condition_is_nil() {
    let mut scope = ready_scope();
    let expr = list(vec![sym("while"), Object::bool(false), num(1)]);
    let r = evaluate(&mut scope, &expr).unwrap();
    assert!(r.is_nil());
}

#[test]
fn return_ends_the_call_with_its_value() {
    let mut scope = ready_scope();
    let defn = list(vec![
        sym("defndynamic"),
        sym("f"),
        list(vec![]),
        list(vec![sym("return"), num(5)]),
        num(9),
    ]);
    evaluate(&mut scope, &defn).unwrap();
    let r = evaluate(&mut scope, &list(vec![sym("f")])).unwrap();
    assert_eq!(r.as_integer(), Some(5));
}

#[test]
fn return_outside_a_function_is_an_error() {
    let mut scope = ready_scope();
    let err = evaluate(&mut scope, &list(vec![sym("return"), num(5)])).unwrap_err();
    assert!(err.to_string().contains("'return' called outside of a function."));
}

#[test]
fn macro_result_is_evaluated_in_evaluation_mode() {
    let mut scope = ready_scope();
    let defn = list(vec![
        sym("defnmacro"),
        sym("m"),
        list(vec![sym("x")]),
        list(vec![sym("quote"), list(vec![sym("+"), num(1), num(2)])]),
    ]);
    evaluate(&mut scope, &defn).unwrap();
    let r = evaluate(&mut scope, &list(vec![sym("m"), num(9)])).unwrap();
    assert_eq!(r.as_integer(), Some(3));
}

#[test]
fn println_queues_its_line_on_the_scope() {
    let mut scope = ready_scope();
    let expr = list(vec![sym("println"), Object::string("hi there".to_string())]);
    let r = evaluate(&mut scope, &expr).unwrap();
    assert!(r.is_nil());
    let out = scope.take_output();
    assert_eq!(out.len(), 1);
    assert_eq!(out[0], "hi there".to_string());
    assert_eq!(scope.take_output().len(), 0);
}

#[test]
fn println_rejects_a_non_string() {
    let mut scope = ready_scope();
    let err = evaluate(&mut scope, &list(vec![sym("println"), num(5)])).unwrap_err();
    assert!(err.to_string().contains("'println' expects a String argument, got a Integer instead."));
}

#[test]
fn to_string_form_renders_for_display() {
    let mut scope = ready_scope();
    let r = evaluate(&mut scope, &list(vec![sym("to-string"), num(5)])).unwrap();
    assert_eq!(r.get_string(), "5");
    let r2 = evaluate(
        &mut scope,
        &list(vec![
            sym("to-string"),
            list(vec![sym("quote"), Object::string("a".to_string())]),
        ]),
    )
    .unwrap();
    assert_eq!(r2.get_string(), "\"a\"");
}

#[test]
fn kind_predicates_answer_for_their_kind() {
    let mut scope = ready_scope();
    let yes = evaluate(&mut scope, &list(vec![sym("is-nil?"), Object::nil()])).unwrap();
    assert_eq!(yes.as_bool(), Some(true));
    let no = evaluate(&mut scope, &list(vec![sym("is-string?"), num(1)])).unwrap();
    assert_eq!(no.as_bool(), Some(false));
    let q = evaluate(
        &mut scope,
        &list(vec![sym("is-symbol?"), list(vec![sym("quote"), sym("s")])]),
    )
    .unwrap();
    assert_eq!(q.as_bool(), Some(true));
}

#[test]
fn empty_list_evaluates_to_nil() {
    let mut scope = ready_scope();
    let r = evaluate(&mut scope, &list(vec![])).unwrap();
    assert!(r.is_nil());
}

#[test]
fn a_variable_head_is_not_an_operator() {
    let mut scope = ready_scope();
    scope.insert("v".to_string(), Binding::Variable(num(1)));
    let err = evaluate(&mut scope, &list(vec![sym("v"), num(2)])).unwrap_err();
    assert!(err.to_string().contains("'v' : expected an operator, got a variable."));
}

#[test]
fn a_non_symbol_head_is_an_invalid_expression() {
    let mut scope = ready_scope();
    let err = evaluate(&mut scope, &list(vec![num(1), num(2)])).unwrap_err();
    assert!(err.to_string().contains("invalid s-expression : 1"));
}

#[test]
fn addition_sums_its_arguments() {
    let mut scope = ready_scope();
    let r = evaluate(&mut scope, &list(vec![sym("+"), num(1), num(2), num(39)])).unwrap();
    assert_eq!(r.as_integer(), Some(42));
    let none = evaluate(&mut scope, &list(vec![sym("+")])).unwrap();
    assert_eq!(none.as_integer(), Some(0));
}

#[test]
fn hidden_frames_are_left_out_of_the_light_rendering() {
    let e = neolisp::error::Error::new("boom")
        .push("f", neolisp::location::Location::new_empty())
        .push("#inner", neolisp::location::Location::new_empty())
        .push("g", neolisp::location::Location::new_empty());
    let full = e.to_string();
    assert!(full.contains("'#inner'"));
    let light = e.to_string_light();
    assert!(!light.contains("'#inner'"));
    assert!(light.contains("'f'"));
    assert!(light.contains("'g'"));
}
