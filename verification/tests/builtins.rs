use jsonnet_builtins::binder::{ArgEntry, CallArgs, NamedArg};
use jsonnet_builtins::builtin::{Builtin, StdBuiltin};
use jsonnet_builtins::equality::{compare_from, equals};
use jsonnet_builtins::error::{Error, ErrorKind, Location};
use jsonnet_builtins::misc::{builtin_ends_with, builtin_length, builtin_starts_with};
use jsonnet_builtins::native::{NativeCallback, NativeCallbackHandler};
use jsonnet_builtins::settings::Settings;
use jsonnet_builtins::state::{Cell, Computation, Context, State, TraceLine};
use jsonnet_builtins::typed::{classify, measurable, text, text_or_array, Either2, Either4};
use jsonnet_builtins::value::{BuiltinParam, Field, FuncVal, Shape, Val};

fn s(text: &str) -> Val {
    Val::Str(text.to_string())
}

fn nums(items: &[i64]) -> Vec<Val> {
    items.iter().map(|n| Val::Num(*n)).collect()
}

fn field(name: &str, value: Val) -> Field {
    Field { name: name.to_string(), value }
}

fn func(name: &str, params: &[&str]) -> FuncVal {
    FuncVal {
        name: name.to_string(),
        params: params
            .iter()
            .map(|p| BuiltinParam { name: p.to_string(), default: None })
            .collect(),
    }
}

fn txt(text: &str) -> Either2<String, Vec<Val>> {
    Either2::A(text.to_string())
}

fn arr(items: &[i64]) -> Either2<String, Vec<Val>> {
    Either2::B(nums(items))
}

fn backwards(x: &Either2<String, Vec<Val>>) -> Either2<String, Vec<Val>> {
    match x {
        Either2::A(t) => Either2::A(t.chars().rev().collect()),
        Either2::B(items) => Either2::B(items.iter().rev().cloned().collect()),
    }
}

fn again(x: &Either2<String, Vec<Val>>) -> Either2<String, Vec<Val>> {
    match x {
        Either2::A(t) => Either2::A(t.clone()),
        Either2::B(items) => Either2::B(items.clone()),
    }
}

fn value_arg(v: Val) -> ArgEntry {
    ArgEntry { computation: Computation::Value(v), at: None }
}

fn value_arg_at(v: Val, begin: usize) -> ArgEntry {
    ArgEntry {
        computation: Computation::Value(v),
        at: Some(Location { path: "lib.jsonnet".to_string(), begin, end: begin + 2 }),
    }
}

#[test]
fn length_of_a_string_counts_characters() {
    assert_eq!(builtin_length(Either4::A("hello".to_string())), Ok(5));
    assert_eq!(builtin_length(Either4::A("".to_string())), Ok(0));
    assert_eq!(builtin_length(Either4::A("h\u{e9}llo \u{1F600}".to_string())), Ok(7));
    assert_eq!("h\u{e9}llo \u{1F600}".len(), 11);
}

#[test]
fn length_of_an_array_counts_items() {
    assert_eq!(builtin_length(Either4::B(nums(&[1, 2, 3]))), Ok(3));
    assert_eq!(builtin_length(Either4::B(vec![])), Ok(0));
}

#[test]
fn length_of_an_object_counts_fields() {
    let fields = vec![field("a", Val::Num(1)), field("b", Val::Num(2))];
    assert_eq!(builtin_length(Either4::C(fields)), Ok(2));
}

#[test]
fn length_of_a_function_counts_parameters() {
    assert_eq!(builtin_length(Either4::D(func("f", &["x", "y", "z"]))), Ok(3));
    assert_eq!(builtin_length(Either4::D(func("g", &[]))), Ok(0));
}

#[test]
fn length_through_the_classifier() {
    assert_eq!(builtin_length(measurable(s("hello")).unwrap()), Ok(5));
    assert_eq!(builtin_length(measurable(Val::Arr(nums(&[1, 2, 3]))).unwrap()), Ok(3));
    let object = Val::Obj(vec![field("a", Val::Num(1)), field("b", Val::Num(2))]);
    assert_eq!(builtin_length(measurable(object).unwrap()), Ok(2));
    let e = measurable(Val::Num(3)).unwrap_err();
    assert_eq!(e.kind, ErrorKind::TypeMismatch);
    assert_eq!(e.message, "expected string, array, object, function, got number");
}

#[test]
fn starts_with_on_strings() {
    assert_eq!(builtin_starts_with(txt("hello"), txt("he")), Ok(true));
    assert_eq!(builtin_starts_with(txt("hello"), txt("lo")), Ok(false));
    assert_eq!(builtin_starts_with(txt("hello"), txt("")), Ok(true));
    assert_eq!(builtin_starts_with(txt("he"), txt("hello")), Ok(false));
    assert_eq!(builtin_starts_with(txt("hello"), txt("hello")), Ok(true));
}

#[test]
fn starts_with_on_arrays() {
    assert_eq!(builtin_starts_with(arr(&[1, 2, 3]), arr(&[1, 2])), Ok(true));
    assert_eq!(builtin_starts_with(arr(&[1, 2]), arr(&[1, 2, 3])), Ok(false));
    assert_eq!(builtin_starts_with(arr(&[1, 2, 3]), arr(&[2, 3])), Ok(false));
    assert_eq!(builtin_starts_with(arr(&[1, 2, 3]), arr(&[1, 2, 3])), Ok(true));
    assert_eq!(builtin_starts_with(arr(&[1, 2, 3]), arr(&[1, 2, 4])), Ok(false));
    assert_eq!(builtin_starts_with(arr(&[1, 2, 3]), arr(&[])), Ok(true));
    assert_eq!(builtin_starts_with(arr(&[]), arr(&[])), Ok(true));
}

#[test]
fn starts_with_of_a_string_and_an_array_is_a_type_error() {
    let e = builtin_starts_with(txt("a"), arr(&[1])).unwrap_err();
    assert_eq!(e.kind, ErrorKind::TypeMismatch);
    assert_eq!(e.message, "expected string, got array");
    let e = builtin_starts_with(arr(&[1]), txt("a")).unwrap_err();
    assert_eq!(e.kind, ErrorKind::TypeMismatch);
    assert_eq!(e.message, "expected array, got string");
}

#[test]
fn ends_with_on_strings() {
    assert_eq!(builtin_ends_with(txt("hello"), txt("lo")), Ok(true));
    assert_eq!(builtin_ends_with(txt("hello"), txt("he")), Ok(false));
    assert_eq!(builtin_ends_with(txt("hello"), txt("")), Ok(true));
    assert_eq!(builtin_ends_with(txt("lo"), txt("hello")), Ok(false));
}

#[test]
fn ends_with_on_arrays() {
    assert_eq!(builtin_ends_with(arr(&[1, 2, 3]), arr(&[2, 3])), Ok(true));
    assert_eq!(builtin_ends_with(arr(&[1, 2, 3]), arr(&[1, 2])), Ok(false));
    assert_eq!(builtin_ends_with(arr(&[2, 3]), arr(&[1, 2, 3])), Ok(false));
    assert_eq!(builtin_ends_with(arr(&[1, 2, 3]), arr(&[1, 2, 3])), Ok(true));
    assert_eq!(builtin_ends_with(arr(&[1, 2, 3]), arr(&[])), Ok(true));
}

#[test]
fn ends_with_of_a_string_and_an_array_is_a_type_error() {
    let e = builtin_ends_with(txt("a"), arr(&[1])).unwrap_err();
    assert_eq!(e.kind, ErrorKind::TypeMismatch);
    assert_eq!(e.message, "expected string, got array");
}

#[test]
fn ends_with_mirrors_starts_with_under_reversal() {
    let cases = vec![
        (txt("hello"), txt("lo")),
        (txt("hello"), txt("he")),
        (txt("hello"), txt("")),
        (txt("ab"), txt("abc")),
        (txt("abcabc"), txt("cabc")),
        (arr(&[1, 2, 3]), arr(&[2, 3])),
        (arr(&[1, 2, 3]), arr(&[1, 2])),
        (arr(&[1, 2, 3]), arr(&[1, 2, 3])),
        (arr(&[1, 2]), arr(&[1, 2, 3])),
        (arr(&[]), arr(&[])),
        (txt("a"), arr(&[1])),
        (
            Either2::B(vec![Val::Arr(nums(&[1, 2])), s("x"), Val::Null]),
            Either2::B(vec![s("x"), Val::Null]),
        ),
    ];
    for (a, b) in cases {
        let ends = builtin_ends_with(again(&a), again(&b));
        let starts = builtin_starts_with(backwards(&a), backwards(&b));
        assert_eq!(ends, starts);
    }
}

#[test]
fn ends_with_and_starts_with_meet_functions_from_opposite_ends() {
    let f = || Val::Func(func("f", &[]));
    let hay = || Either2::B(vec![f(), Val::Num(1)]);
    let needle = || Either2::B(vec![f(), Val::Num(2)]);
    let e = builtin_ends_with(hay(), needle()).unwrap_err();
    assert_eq!(e.message, "cannot test equality of functions");
    assert_eq!(builtin_starts_with(backwards(&hay()), backwards(&needle())), Ok(false));
}

#[test]
fn equality_is_structural() {
    assert_eq!(equals(&Val::Null, &Val::Null), Ok(true));
    assert_eq!(equals(&Val::Bool(true), &Val::Bool(false)), Ok(false));
    assert_eq!(equals(&Val::Num(3), &Val::Num(3)), Ok(true));
    assert_eq!(equals(&s("a"), &s("a")), Ok(true));
    assert_eq!(equals(&s("a"), &s("b")), Ok(false));
    assert_eq!(equals(&Val::Num(1), &s("1")), Ok(false));
    assert_eq!(equals(&Val::Null, &Val::Bool(false)), Ok(false));
    let nested = || Val::Arr(vec![Val::Arr(nums(&[1, 2])), s("x"), Val::Obj(vec![field("k", Val::Null)])]);
    assert_eq!(equals(&nested(), &nested()), Ok(true));
    assert_eq!(equals(&nested(), &Val::Arr(vec![Val::Arr(nums(&[1, 3])), s("x")])), Ok(false));
    assert_eq!(equals(&Val::Arr(nums(&[1, 2])), &Val::Arr(nums(&[1, 2, 3]))), Ok(false));
}

#[test]
fn equality_of_objects_goes_by_field_names() {
    let a = Val::Obj(vec![field("a", Val::Num(1)), field("b", Val::Num(2))]);
    let swapped = Val::Obj(vec![field("b", Val::Num(2)), field("a", Val::Num(1))]);
    let other = Val::Obj(vec![field("a", Val::Num(1)), field("b", Val::Num(3))]);
    let renamed = Val::Obj(vec![field("a", Val::Num(1)), field("c", Val::Num(2))]);
    let shorter = Val::Obj(vec![field("a", Val::Num(1))]);
    assert_eq!(equals(&a, &swapped), Ok(true));
    assert_eq!(equals(&a, &other), Ok(false));
    assert_eq!(equals(&a, &renamed), Ok(false));
    assert_eq!(equals(&a, &shorter), Ok(false));
}

#[test]
fn equality_of_functions_fails() {
    let f = Val::Func(func("f", &["x"]));
    let e = equals(&f, &f).unwrap_err();
    assert_eq!(e, Error { kind: ErrorKind::Runtime, message: "cannot test equality of functions".to_string(), location: None });
    assert_eq!(equals(&f, &Val::Null), Ok(false));
    let holds = |v: Val| Val::Arr(vec![Val::Num(1), v]);
    assert_eq!(equals(&holds(Val::Func(func("f", &[]))), &holds(Val::Func(func("g", &[])))).unwrap_err().kind, ErrorKind::Runtime);
    let settled = Val::Arr(vec![Val::Num(2), Val::Func(func("g", &[]))]);
    assert_eq!(equals(&holds(Val::Func(func("f", &[]))), &settled), Ok(false));
    let names_differ = (
        Val::Obj(vec![field("a", Val::Func(func("f", &[])))]),
        Val::Obj(vec![field("b", Val::Func(func("f", &[])))]),
    );
    assert_eq!(equals(&names_differ.0, &names_differ.1), Ok(false));
}

#[test]
fn compare_from_compares_an_aligned_stretch() {
    let hay = nums(&[1, 2, 3, 4]);
    assert_eq!(compare_from(&hay, 1, &nums(&[2, 3])), Ok(true));
    assert_eq!(compare_from(&hay, 2, &nums(&[2, 3])), Ok(false));
    assert_eq!(compare_from(&hay, 4, &nums(&[])), Ok(true));
}

#[test]
fn classify_finds_the_first_accepted_shape() {
    let accepted = vec![Shape::String, Shape::Array, Shape::String];
    assert_eq!(classify(&s("x"), &accepted), Ok(0));
    assert_eq!(classify(&Val::Arr(vec![]), &accepted), Ok(1));
    let e = classify(&Val::Bool(true), &accepted).unwrap_err();
    assert_eq!(e.kind, ErrorKind::TypeMismatch);
    assert_eq!(e.message, "expected string, array, string, got boolean");
    assert_eq!(e.location, None);
    assert_eq!(classify(&Val::Null, &vec![]).unwrap_err().message, "expected , got null");
}

#[test]
fn shapes_of_values() {
    assert_eq!(Val::Null.shape(), Shape::Null);
    assert_eq!(Val::Bool(true).shape(), Shape::Bool);
    assert_eq!(Val::Num(0).shape(), Shape::Number);
    assert_eq!(s("").shape(), Shape::String);
    assert_eq!(Val::Arr(vec![]).shape(), Shape::Array);
    assert_eq!(Val::Obj(vec![]).shape(), Shape::Object);
    assert_eq!(Val::Func(func("f", &[])).shape(), Shape::Function);
}

#[test]
fn values_are_taken_as_the_shapes_asked_for() {
    assert_eq!(text(s("abc")), Ok("abc".to_string()));
    assert_eq!(text(Val::Num(1)).unwrap_err().message, "expected string, got number");
    assert_eq!(text_or_array(s("abc")), Ok(Either2::A("abc".to_string())));
    assert_eq!(text_or_array(Val::Arr(nums(&[1]))), Ok(Either2::B(nums(&[1]))));
    let e = text_or_array(Val::Obj(vec![])).unwrap_err();
    assert_eq!(e.kind, ErrorKind::TypeMismatch);
    assert_eq!(e.message, "expected string, array, got object");
    assert_eq!(measurable(Val::Func(func("f", &["a"]))), Ok(Either4::D(func("f", &["a"]))));
    assert_eq!(measurable(Val::Null).unwrap_err().message, "expected string, array, object, function, got null");
    assert_eq!(measurable(Val::Bool(false)).unwrap_err().message, "expected string, array, object, function, got boolean");
}

#[test]
fn errors_are_located_once() {
    let at = Some(Location { path: "a.jsonnet".to_string(), begin: 1, end: 2 });
    let other = Some(Location { path: "b.jsonnet".to_string(), begin: 3, end: 4 });
    let e = Error::runtime("x").located(&at);
    assert_eq!(e.location, at);
    assert_eq!(e.located(&other).location, at);
    assert_eq!(Error::cyclic_dependency().kind, ErrorKind::CyclicDependency);
    assert_eq!(Error::missing_argument(&"p".to_string()).message, "missing argument: p");
}

#[test]
fn standard_functions_report_names_and_parameters() {
    let settings = Settings::new();
    let all = vec![
        (StdBuiltin::Length, "length", vec!["x"]),
        (StdBuiltin::ExtVar(&settings), "extVar", vec!["x"]),
        (StdBuiltin::Native(&settings), "native", vec!["name"]),
        (StdBuiltin::Trace, "trace", vec!["str", "rest"]),
        (StdBuiltin::StartsWith, "startsWith", vec!["a", "b"]),
        (StdBuiltin::EndsWith, "endsWith", vec!["a", "b"]),
    ];
    for (f, name, params) in all {
        assert_eq!(f.name(), name);
        let declared: Vec<String> = f.params().into_iter().map(|p| p.name).collect();
        assert_eq!(declared, params);
        assert!(f.params().iter().all(|p| p.default.is_none()));
    }
}

#[test]
fn calling_length_binds_forces_and_classifies() {
    let mut st = State::new();
    let args = CallArgs { positional: vec![value_arg(s("hello"))], named: vec![] };
    assert_eq!(StdBuiltin::Length.call(&mut st, &Context::new(), &None, &args), Ok(Val::Num(5)));
    let named = CallArgs {
        positional: vec![],
        named: vec![NamedArg { name: "x".to_string(), entry: value_arg(Val::Arr(nums(&[1, 2, 3]))) }],
    };
    assert_eq!(StdBuiltin::Length.call(&mut st, &Context::new(), &None, &named), Ok(Val::Num(3)));
    let wrong = CallArgs { positional: vec![value_arg_at(Val::Num(1), 40)], named: vec![] };
    let e = StdBuiltin::Length.call(&mut st, &Context::new(), &None, &wrong).unwrap_err();
    assert_eq!(e.kind, ErrorKind::TypeMismatch);
    assert_eq!(e.message, "expected string, array, object, function, got number");
    assert_eq!(e.location, Some(Location { path: "lib.jsonnet".to_string(), begin: 40, end: 42 }));
    let none = CallArgs { positional: vec![], named: vec![] };
    let e = StdBuiltin::Length.call(&mut st, &Context::new(), &None, &none).unwrap_err();
    assert_eq!(e.kind, ErrorKind::MissingArgument);
    let many = CallArgs { positional: vec![value_arg(s("a")), value_arg(s("b"))], named: vec![] };
    let e = StdBuiltin::Length.call(&mut st, &Context::new(), &None, &many).unwrap_err();
    assert_eq!(e.kind, ErrorKind::UnexpectedArgument);
}

#[test]
fn calling_starts_with_and_ends_with() {
    let mut st = State::new();
    let args = || CallArgs {
        positional: vec![value_arg(Val::Arr(nums(&[1, 2, 3]))), value_arg(Val::Arr(nums(&[1, 2])))],
        named: vec![],
    };
    assert_eq!(StdBuiltin::StartsWith.call(&mut st, &Context::new(), &None, &args()), Ok(Val::Bool(true)));
    assert_eq!(StdBuiltin::EndsWith.call(&mut st, &Context::new(), &None, &args()), Ok(Val::Bool(false)));
    let mixed = CallArgs { positional: vec![value_arg(s("a")), value_arg(Val::Arr(nums(&[1])))], named: vec![] };
    let e = StdBuiltin::StartsWith.call(&mut st, &Context::new(), &None, &mixed).unwrap_err();
    assert_eq!(e.kind, ErrorKind::TypeMismatch);
    let wrong = CallArgs { positional: vec![value_arg(s("a")), value_arg_at(Val::Null, 9)], named: vec![] };
    let e = StdBuiltin::EndsWith.call(&mut st, &Context::new(), &None, &wrong).unwrap_err();
    assert_eq!(e.message, "expected string, array, got null");
    assert_eq!(e.location, Some(Location { path: "lib.jsonnet".to_string(), begin: 9, end: 11 }));
}

#[test]
fn calling_trace_keeps_the_rest_lazy_until_the_line_is_written() {
    let mut st = State::new();
    let at = Some(Location { path: "main.jsonnet".to_string(), begin: 0, end: 4 });
    let args = CallArgs {
        positional: vec![
            value_arg(s("message")),
            ArgEntry {
                computation: Computation::Trace {
                    at: None,
                    message: "rest".to_string(),
                    rest: Box::new(Computation::Value(Val::Num(1))),
                },
                at: None,
            },
        ],
        named: vec![],
    };
    assert_eq!(StdBuiltin::Trace.call(&mut st, &Context::new(), &at, &args), Ok(Val::Num(1)));
    assert_eq!(
        st.trace,
        vec![
            TraceLine { at, message: "message".to_string() },
            TraceLine { at: None, message: "rest".to_string() },
        ]
    );
    let bad = CallArgs {
        positional: vec![value_arg(Val::Num(1)), ArgEntry { computation: Computation::Fail("never".to_string()), at: None }],
        named: vec![],
    };
    let before = st.cells.len();
    let e = StdBuiltin::Trace.call(&mut st, &Context::new(), &None, &bad).unwrap_err();
    assert_eq!(e.kind, ErrorKind::TypeMismatch);
    assert_eq!(st.trace.len(), 2);
    assert!(matches!(st.cells[before + 1], Cell::Unevaluated { .. }));
}

struct Nothing;

impl NativeCallbackHandler for Nothing {
    fn call(&self, _s: &State, _from: &Option<Location>, _args: &Vec<Val>) -> Result<Val, Error> {
        Ok(Val::Null)
    }
}

#[test]
fn calling_ext_var_and_native_through_the_settings() {
    let mut st = State::new();
    let mut settings = Settings::new();
    settings.add_ext_var(&mut st, "v".to_string(), Computation::Value(Val::Num(9)), Context::new());
    settings.add_native(
        "n".to_string(),
        NativeCallback::new(vec![BuiltinParam { name: "p".to_string(), default: None }], Box::new(Nothing)),
    );
    let name = |n: &str| CallArgs { positional: vec![value_arg(s(n))], named: vec![] };
    let ext = StdBuiltin::ExtVar(&settings);
    assert_eq!(ext.call(&mut st, &Context::new(), &None, &name("v")), Ok(Val::Num(9)));
    assert_eq!(
        ext.call(&mut st, &Context::new(), &None, &name("w")).unwrap_err().kind,
        ErrorKind::UndefinedExternalVariable
    );
    let native = StdBuiltin::Native(&settings);
    assert_eq!(native.call(&mut st, &Context::new(), &None, &name("missing")), Ok(Val::Null));
    assert_eq!(
        native.call(&mut st, &Context::new(), &None, &name("n")),
        Ok(Val::Func(func("n", &["p"])))
    );
    let f = native.call(&mut st, &Context::new(), &None, &name("n")).unwrap();
    let length = CallArgs { positional: vec![value_arg(f)], named: vec![] };
    assert_eq!(StdBuiltin::Length.call(&mut st, &Context::new(), &None, &length), Ok(Val::Num(1)));
}

#[test]
fn a_native_function_is_called_like_a_standard_one() {
    let mut st = State::new();
    let cb = NativeCallback::new(vec![], Box::new(Nothing));
    let none = CallArgs { positional: vec![], named: vec![] };
    let uniform: Vec<Box<dyn Builtin>> = vec![Box::new(cb), Box::new(StdBuiltin::Length)];
    assert_eq!(uniform[0].name(), "<native>");
    assert_eq!(uniform[0].params().len(), 0);
    assert_eq!(uniform[0].call(&mut st, &Context::new(), &None, &none), Ok(Val::Null));
    assert_eq!(uniform[1].name(), "length");
    assert_eq!(
        uniform[1].call(&mut st, &Context::new(), &None, &none).unwrap_err().kind,
        ErrorKind::MissingArgument
    );
}

#[test]
fn a_count_becomes_a_number_where_it_fits() {
    assert_eq!(jsonnet_builtins::builtin::count(5), Ok(Val::Num(5)));
    assert_eq!(jsonnet_builtins::builtin::count(0), Ok(Val::Num(0)));
    let e = jsonnet_builtins::builtin::count(usize::MAX).unwrap_err();
    assert_eq!(e.kind, ErrorKind::Runtime);
    assert_eq!(e.message, "count out of range");
}

#[test]
fn parameter_lists_without_defaults() {
    let one = jsonnet_builtins::builtin::one_param("x");
    assert_eq!(one, vec![BuiltinParam { name: "x".to_string(), default: None }]);
    let two = jsonnet_builtins::builtin::two_params("a", "b");
    assert_eq!(two.len(), 2);
    assert_eq!(two[1].name, "b");
}
