use jsonnet_builtins::binder::{bind, match_args, ArgEntry, CallArgs, NamedArg, Source};
use jsonnet_builtins::error::{ErrorKind, Location};
use jsonnet_builtins::state::{Cell, Computation, Context, State};
use jsonnet_builtins::value::{BuiltinParam, Thunk, Val};

fn required(name: &str) -> BuiltinParam {
    BuiltinParam { name: name.to_string(), default: None }
}

fn optional(name: &str, slot: usize) -> BuiltinParam {
    BuiltinParam { name: name.to_string(), default: Some(Thunk { slot }) }
}

fn num_arg(n: i64) -> ArgEntry {
    ArgEntry { computation: Computation::Value(Val::Num(n)), at: None }
}

fn num_arg_at(n: i64, begin: usize) -> ArgEntry {
    ArgEntry {
        computation: Computation::Value(Val::Num(n)),
        at: Some(Location { path: "call.jsonnet".to_string(), begin, end: begin + 1 }),
    }
}

fn by_name(name: &str, entry: ArgEntry) -> NamedArg {
    NamedArg { name: name.to_string(), entry }
}

#[test]
fn two_positional_arguments_against_one_parameter_are_unexpected() {
    let params = vec![required("x")];
    let args = CallArgs { positional: vec![num_arg_at(1, 10), num_arg_at(2, 20)], named: vec![] };
    let e = match_args(&params, &args).unwrap_err();
    assert_eq!(e.kind, ErrorKind::UnexpectedArgument);
    assert_eq!(e.message, "too many positional arguments");
    assert_eq!(e.location, Some(Location { path: "call.jsonnet".to_string(), begin: 20, end: 21 }));
    let mut s = State::new();
    let e = bind(&mut s, &Context::new(), &params, &args, true).unwrap_err();
    assert_eq!(e.kind, ErrorKind::UnexpectedArgument);
    assert_eq!(s.cells.len(), 0);
}

#[test]
fn parameter_bound_by_position_and_by_name_is_a_duplicate() {
    let params = vec![required("x"), required("y")];
    let args = CallArgs {
        positional: vec![num_arg(1), num_arg(2)],
        named: vec![by_name("x", num_arg_at(3, 30))],
    };
    let e = match_args(&params, &args).unwrap_err();
    assert_eq!(e.kind, ErrorKind::DuplicateArgument);
    assert_eq!(e.message, "argument bound twice: x");
    assert_eq!(e.location, Some(Location { path: "call.jsonnet".to_string(), begin: 30, end: 31 }));
}

#[test]
fn parameter_named_twice_is_a_duplicate() {
    let params = vec![required("x")];
    let args = CallArgs {
        positional: vec![],
        named: vec![by_name("x", num_arg(1)), by_name("x", num_arg(2))],
    };
    let e = match_args(&params, &args).unwrap_err();
    assert_eq!(e.kind, ErrorKind::DuplicateArgument);
    assert_eq!(e.message, "argument bound twice: x");
}

#[test]
fn unknown_name_is_unexpected() {
    let params = vec![required("x")];
    let args = CallArgs {
        positional: vec![num_arg(1)],
        named: vec![by_name("z", num_arg_at(2, 7))],
    };
    let e = match_args(&params, &args).unwrap_err();
    assert_eq!(e.kind, ErrorKind::UnexpectedArgument);
    assert_eq!(e.message, "no parameter is named: z");
    assert_eq!(e.location, Some(Location { path: "call.jsonnet".to_string(), begin: 7, end: 8 }));
}

#[test]
fn unbound_parameter_without_default_is_missing() {
    let params = vec![required("x"), required("y"), required("z")];
    let args = CallArgs { positional: vec![num_arg(1)], named: vec![by_name("z", num_arg(3))] };
    let e = match_args(&params, &args).unwrap_err();
    assert_eq!(e.kind, ErrorKind::MissingArgument);
    assert_eq!(e.message, "missing argument: y");
    assert_eq!(e.location, None);
}

#[test]
fn positional_overflow_is_reported_before_other_faults() {
    let params = vec![required("x")];
    let args = CallArgs {
        positional: vec![num_arg(1), num_arg(2)],
        named: vec![by_name("nope", num_arg(3))],
    };
    assert_eq!(match_args(&params, &args).unwrap_err().message, "too many positional arguments");
}

#[test]
fn named_faults_are_reported_before_missing_arguments() {
    let params = vec![required("x"), required("y")];
    let args = CallArgs { positional: vec![], named: vec![by_name("nope", num_arg(3))] };
    assert_eq!(match_args(&params, &args).unwrap_err().kind, ErrorKind::UnexpectedArgument);
}

#[test]
fn first_faulty_named_argument_decides() {
    let params = vec![required("x")];
    let args = CallArgs {
        positional: vec![num_arg(1)],
        named: vec![by_name("x", num_arg(2)), by_name("nope", num_arg(3))],
    };
    assert_eq!(match_args(&params, &args).unwrap_err().kind, ErrorKind::DuplicateArgument);
    let args = CallArgs {
        positional: vec![num_arg(1)],
        named: vec![by_name("nope", num_arg(3)), by_name("x", num_arg(2))],
    };
    assert_eq!(match_args(&params, &args).unwrap_err().kind, ErrorKind::UnexpectedArgument);
}

#[test]
fn sources_follow_declaration_order() {
    let params = vec![required("a"), required("b"), optional("c", 5), required("d")];
    let args = CallArgs {
        positional: vec![num_arg(1)],
        named: vec![by_name("d", num_arg(4)), by_name("b", num_arg(2))],
    };
    assert_eq!(
        match_args(&params, &args),
        Ok(vec![
            Source::Positional(0),
            Source::Named(1),
            Source::Default(Thunk { slot: 5 }),
            Source::Named(0),
        ])
    );
}

#[test]
fn named_argument_overrides_default() {
    let params = vec![optional("c", 5)];
    let args = CallArgs { positional: vec![], named: vec![by_name("c", num_arg(9))] };
    assert_eq!(match_args(&params, &args), Ok(vec![Source::Named(0)]));
    let none = CallArgs { positional: vec![], named: vec![] };
    assert_eq!(match_args(&params, &none), Ok(vec![Source::Default(Thunk { slot: 5 })]));
}

#[test]
fn no_parameters_and_no_arguments_match() {
    let none = CallArgs { positional: vec![], named: vec![] };
    assert_eq!(match_args(&vec![], &none), Ok(vec![]));
}

#[test]
fn rebinding_the_same_call_gives_the_same_mapping() {
    let params = vec![required("a"), optional("b", 0), required("c")];
    let args = CallArgs {
        positional: vec![num_arg_at(1, 1)],
        named: vec![by_name("c", num_arg_at(3, 3))],
    };
    let first = match_args(&params, &args);
    let second = match_args(&params, &args);
    assert_eq!(first, second);
    let mut s = State::new();
    let default =
        s.suspend(Computation::Value(Val::Str("default".to_string())), Context::new());
    assert_eq!(default, Thunk { slot: 0 });
    let one = bind(&mut s, &Context::new(), &params, &args, false).unwrap();
    let two = bind(&mut s, &Context::new(), &params, &args, false).unwrap();
    assert_eq!(one.len(), 3);
    assert_eq!(two.len(), 3);
    for i in 0..3 {
        assert_eq!(one[i].name, params[i].name);
        assert_eq!(two[i].name, one[i].name);
        assert_eq!(two[i].at, one[i].at);
        assert_eq!(s.force(one[i].thunk), s.force(two[i].thunk));
    }
    assert_eq!(one[1].thunk, default);
    assert_eq!(two[1].thunk, default);
}

#[test]
fn binding_gives_each_parameter_its_cell_in_declaration_order() {
    let mut s = State::new();
    let params = vec![required("a"), required("b")];
    let args = CallArgs {
        positional: vec![],
        named: vec![by_name("b", num_arg_at(2, 50)), by_name("a", num_arg(1))],
    };
    let bounds = bind(&mut s, &Context::new(), &params, &args, false).unwrap();
    assert_eq!(bounds.len(), 2);
    assert_eq!(bounds[0].name, "a");
    assert_eq!(bounds[0].thunk, Thunk { slot: 0 });
    assert_eq!(bounds[0].at, None);
    assert_eq!(bounds[1].name, "b");
    assert_eq!(bounds[1].thunk, Thunk { slot: 1 });
    assert_eq!(
        bounds[1].at,
        Some(Location { path: "call.jsonnet".to_string(), begin: 50, end: 51 })
    );
    assert_eq!(s.force(bounds[0].thunk), Ok(Val::Num(1)));
    assert_eq!(s.force(bounds[1].thunk), Ok(Val::Num(2)));
}

#[test]
fn lazy_binding_forces_nothing() {
    let mut s = State::new();
    let params = vec![required("a")];
    let args = CallArgs {
        positional: vec![ArgEntry { computation: Computation::Fail("boom".to_string()), at: None }],
        named: vec![],
    };
    let bounds = bind(&mut s, &Context::new(), &params, &args, false).unwrap();
    assert!(matches!(s.cells[bounds[0].thunk.slot], Cell::Unevaluated { .. }));
    assert_eq!(s.trace.len(), 0);
}

#[test]
fn strict_binding_forces_in_declaration_order_up_to_the_first_failure() {
    let mut s = State::new();
    let params = vec![required("a"), required("b"), required("c")];
    let traced = |m: &str| ArgEntry {
        computation: Computation::Trace {
            at: None,
            message: m.to_string(),
            rest: Box::new(Computation::Value(Val::Null)),
        },
        at: None,
    };
    let args = CallArgs {
        positional: vec![traced("first")],
        named: vec![
            by_name("c", traced("third")),
            by_name(
                "b",
                ArgEntry { computation: Computation::Fail("second fails".to_string()), at: None },
            ),
        ],
    };
    let e = bind(&mut s, &Context::new(), &params, &args, true).unwrap_err();
    assert_eq!(e.kind, ErrorKind::Runtime);
    assert_eq!(e.message, "second fails");
    assert_eq!(s.trace.len(), 1);
    assert_eq!(s.trace[0].message, "first");
    assert_eq!(s.cells.len(), 3);
    assert!(matches!(s.cells[0], Cell::Evaluated(Ok(Val::Null))));
    assert!(matches!(s.cells[1], Cell::Evaluated(Err(_))));
    assert!(matches!(s.cells[2], Cell::Unevaluated { .. }));
}

#[test]
fn strict_binding_that_succeeds_leaves_every_cell_forced() {
    let mut s = State::new();
    let params = vec![required("a"), required("b")];
    let args = CallArgs { positional: vec![num_arg(1), num_arg(2)], named: vec![] };
    let bounds = bind(&mut s, &Context::new(), &params, &args, true).unwrap();
    assert_eq!(bounds.len(), 2);
    assert_eq!(s.cells[0], Cell::Evaluated(Ok(Val::Num(1))));
    assert_eq!(s.cells[1], Cell::Evaluated(Ok(Val::Num(2))));
}

#[test]
fn arguments_run_in_the_callers_scope_and_defaults_in_their_own() {
    let mut s = State::new();
    let theirs = s.suspend(Computation::Value(Val::Str("declared".to_string())), Context::new());
    let mut declaring = Context::new();
    declaring.bind("v".to_string(), theirs);
    let default = s.suspend(Computation::Lookup("v".to_string()), declaring);
    let mine = s.suspend(Computation::Value(Val::Str("caller".to_string())), Context::new());
    let mut caller = Context::new();
    caller.bind("v".to_string(), mine);
    let params = vec![
        required("a"),
        BuiltinParam { name: "b".to_string(), default: Some(default) },
    ];
    let args = CallArgs {
        positional: vec![ArgEntry { computation: Computation::Lookup("v".to_string()), at: None }],
        named: vec![],
    };
    let bounds = bind(&mut s, &caller, &params, &args, false).unwrap();
    assert_eq!(s.force(bounds[0].thunk), Ok(Val::Str("caller".to_string())));
    assert_eq!(bounds[1].thunk, default);
    assert_eq!(s.force(bounds[1].thunk), Ok(Val::Str("declared".to_string())));
}
