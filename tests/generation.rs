use thunder::dispatch::{
    convert_values, dispatch, find_command, CommandPlan, Dispatch, Matched, RunError, Value,
    ValuePlan,
};
use thunder::generate::{generate, global_option, global_plan, param_plan, GenError};
use thunder::globals::{populate, GlobalStore};
use thunder::schema::{build_schema, subcommand, Declaration, GlobalOption, Method, Param};
use thunder::shape::{classify, name_of, optional_form, Shape, TypeRef};

fn chars(s: &str) -> Vec<char> {
    s.chars().collect()
}

fn path(name: &str) -> TypeRef {
    TypeRef { text: chars(name), head: Some(chars(name)), first_arg: None }
}

fn reference(text: &str) -> TypeRef {
    TypeRef { text: chars(text), head: None, first_arg: None }
}

fn option_of(inner: TypeRef) -> TypeRef {
    let inner_text: String = inner.text.iter().collect();
    TypeRef {
        text: chars(&format!("Option < {} >", inner_text)),
        head: Some(chars("Option")),
        first_arg: Some(Box::new(inner)),
    }
}

fn param(name: &str, ty: TypeRef) -> Param {
    Param { name: chars(name), ty }
}

fn method(name: &str, doc: &[&str], params: Vec<Param>) -> Method {
    Method { name: chars(name), doc: doc.iter().map(|d| chars(d)).collect(), params }
}

fn option(name: &str, ty: TypeRef, about: &str) -> GlobalOption {
    GlobalOption { name: chars(name), ty, about: chars(about) }
}

fn plan(name: &str, optional: bool) -> ValuePlan {
    ValuePlan { name: chars(name), optional, parse_as: None }
}

fn greet_table() -> Vec<CommandPlan> {
    vec![param_table_entry("greet", vec![param("name", path("String"))])]
}

fn param_table_entry(name: &str, params: Vec<Param>) -> CommandPlan {
    CommandPlan { name: chars(name), params: params.iter().map(param_plan).collect() }
}

#[test]
fn optional_form_gives_inner_type() {
    match classify(option_of(path("u32"))) {
        Shape::Optional(inner) => {
            assert_eq!(inner.text, chars("u32"));
            assert_eq!(inner.head, Some(chars("u32")));
        }
        Shape::Scalar(_) => panic!("expected the optional shape"),
    }
}

#[test]
fn optional_of_reference_is_optional() {
    match classify(option_of(reference("& str"))) {
        Shape::Optional(inner) => assert_eq!(inner.text, chars("& str")),
        Shape::Scalar(_) => panic!("expected the optional shape"),
    }
}

#[test]
fn plain_type_is_scalar_unchanged() {
    match classify(path("u32")) {
        Shape::Scalar(t) => {
            assert_eq!(t.text, chars("u32"));
            assert!(t.first_arg.is_none());
        }
        Shape::Optional(_) => panic!("expected the scalar shape"),
    }
}

#[test]
fn other_generic_is_scalar() {
    let t = TypeRef {
        text: chars("Vec < Option < u8 > >"),
        head: Some(chars("Vec")),
        first_arg: Some(Box::new(option_of(path("u8")))),
    };
    assert!(!optional_form(&t));
    match classify(t) {
        Shape::Scalar(t) => assert_eq!(t.text, chars("Vec < Option < u8 > >")),
        Shape::Optional(_) => panic!("expected the scalar shape"),
    }
}

#[test]
fn qualified_option_path_is_scalar() {
    let t = TypeRef {
        text: chars("std :: option :: Option < u8 >"),
        head: Some(chars("std")),
        first_arg: None,
    };
    assert!(!optional_form(&t));
}

#[test]
fn bare_option_without_argument_is_scalar() {
    assert!(!optional_form(&path("Option")));
}

#[test]
fn unknown_app_name_for_non_path() {
    assert_eq!(name_of(&reference("& Foo")), chars("Unknown App"));
    assert_eq!(name_of(&path("Thor")), chars("Thor"));
}

#[test]
fn subcommand_has_one_argument_per_parameter() {
    let m = method(
        "hello",
        &["= \" Say hello to someone at home\""],
        vec![param("name", reference("& str")), param("times", option_of(path("u128")))],
    );
    let s = subcommand(&m);
    assert_eq!(s.name, chars("hello"));
    assert_eq!(s.about, chars("Say hello to someone at home"));
    assert_eq!(s.args.len(), 2);
    assert_eq!(s.args[0].name, chars("name"));
    assert!(s.args[0].required);
    assert_eq!(s.args[1].name, chars("times"));
    assert!(!s.args[1].required);
    assert!(s.args[1].long.is_empty());
    assert!(s.args[1].short.is_empty());
}

#[test]
fn schema_of_declaration() {
    let d = Declaration {
        self_ty: path("Thor"),
        doc: vec![chars("= \" An application\""), chars("= \" with lightning\"")],
        methods: vec![method("hello", &[], vec![]), method("bye", &["= \" Bye\""], vec![])],
    };
    let opts = vec![
        option("level", path("u32"), "verbosity"),
        option("tag", option_of(path("String")), "build tag"),
    ];
    let s = build_schema(&d, &opts);
    assert_eq!(s.name, chars("Thor"));
    assert_eq!(s.about, chars("An applicationwith lightning"));
    assert!(s.subcommand_required);
    assert_eq!(s.subcommands.len(), 2);
    assert_eq!(s.subcommands[0].name, chars("hello"));
    assert!(s.subcommands[0].about.is_empty());
    assert_eq!(s.subcommands[1].about, chars("Bye"));
    assert_eq!(s.args.len(), 2);
    assert!(s.args[0].required);
    assert!(s.args[0].takes_value);
    assert!(s.args[0].long.is_empty());
    assert_eq!(s.args[0].help, chars("verbosity"));
    assert!(!s.args[1].required);
    assert!(s.args[1].takes_value);
    assert_eq!(s.args[1].long, chars("--tag"));
    assert_eq!(s.args[1].short, chars("-t"));
    assert_eq!(s.args[1].help, chars("build tag"));
}

#[test]
fn global_option_takes_simple_name() {
    let o = global_option(&path("level"), path("u32"), chars("verbosity"));
    assert_eq!(o.name, chars("level"));
    assert_eq!(o.ty.text, chars("u32"));
    assert_eq!(o.about, chars("verbosity"));
}

#[test]
fn parameter_plans_follow_shape() {
    let p = param_plan(&param("times", option_of(path("u128"))));
    assert!(p.optional);
    assert_eq!(p.parse_as, Some(chars("u128")));
    let p = param_plan(&param("name", reference("& str")));
    assert!(!p.optional);
    assert_eq!(p.parse_as, None);
    let p = param_plan(&param("who", option_of(reference("& str"))));
    assert!(p.optional);
    assert_eq!(p.parse_as, None);
    let p = param_plan(&param("name", path("String")));
    assert_eq!(p.parse_as, Some(chars("String")));
}

#[test]
fn global_plans_follow_shape() {
    let p = global_plan(&option("level", path("u32"), "verbosity")).unwrap();
    assert!(!p.optional);
    assert_eq!(p.parse_as, Some(chars("u32")));
    let p = global_plan(&option("tag", option_of(path("String")), "build tag")).unwrap();
    assert!(p.optional);
    assert_eq!(p.parse_as, Some(chars("String")));
    assert!(global_plan(&option("who", option_of(reference("& str")), "x")).is_none());
}

#[test]
fn generation_builds_all_parts() {
    let d = Declaration {
        self_ty: path("MyApp"),
        doc: vec![],
        methods: vec![method("greet", &[], vec![param("name", path("String"))])],
    };
    let opts = vec![option("level", path("u32"), "verbosity")];
    let g = generate(&d, &opts).unwrap();
    assert_eq!(g.schema.name, chars("MyApp"));
    assert_eq!(g.commands.len(), 1);
    assert_eq!(g.commands[0].name, chars("greet"));
    assert_eq!(g.commands[0].params.len(), 1);
    assert_eq!(g.globals.len(), 1);
    assert_eq!(g.globals[0].name, chars("level"));
}

#[test]
fn generation_rejects_empty_option_name() {
    let d = Declaration { self_ty: path("A"), doc: vec![], methods: vec![] };
    let opts = vec![option("ok", path("u8"), "fine"), option("", path("u8"), "nameless")];
    assert_eq!(generate(&d, &opts).err(), Some(GenError::EmptyOptionName(1)));
}

#[test]
fn generation_rejects_optional_of_non_path() {
    let d = Declaration { self_ty: path("A"), doc: vec![], methods: vec![] };
    let opts = vec![option("who", option_of(reference("& str")), "x")];
    assert_eq!(generate(&d, &opts).err(), Some(GenError::UnsupportedOptionType(0)));
}

#[test]
fn empty_store_has_one_absent_slot_per_option() {
    let plans = vec![plan("level", false), plan("tag", true), plan("name", false)];
    let store: GlobalStore<u32> = GlobalStore::new_empty_store(&plans);
    assert_eq!(store.slots.len(), 3);
    assert!(store.slots.iter().all(|s| s.is_none()));
    assert_eq!(store.names, vec![chars("level"), chars("tag"), chars("name")]);
    assert_eq!(store.get(0), None);
}

#[test]
fn required_level_reads_back_parsed() {
    let plans = vec![global_plan(&option("level", path("u32"), "verbosity")).unwrap()];
    let parsed = match "3".parse::<u32>() {
        Ok(v) => Matched::Parsed(v),
        Err(_) => Matched::Unparsable,
    };
    let store = populate(&plans, vec![parsed]).unwrap();
    assert_eq!(store.lookup(&chars("level")), Some(&Value::Plain(3)));
}

#[test]
fn missing_optional_tag_reads_back_empty() {
    let plans = vec![global_plan(&option("tag", option_of(path("String")), "build tag")).unwrap()];
    let store: GlobalStore<String> = populate(&plans, vec![Matched::Absent]).unwrap();
    assert_eq!(store.lookup(&chars("tag")), Some(&Value::Maybe(None)));
}

#[test]
fn population_round_trip_mixed() {
    let plans = vec![plan("a", false), plan("b", true), plan("c", true)];
    let store =
        populate(&plans, vec![Matched::Parsed(1u8), Matched::Parsed(2u8), Matched::Absent]).unwrap();
    assert_eq!(store.get(0), Some(&Value::Plain(1)));
    assert_eq!(store.get(1), Some(&Value::Maybe(Some(2))));
    assert_eq!(store.get(2), Some(&Value::Maybe(None)));
    assert_eq!(store.get(3), None);
    assert_eq!(store.lookup(&chars("d")), None);
}

#[test]
fn population_fails_on_missing_required() {
    let plans = vec![plan("a", true), plan("b", false)];
    let r = populate(&plans, vec![Matched::<u8>::Absent, Matched::Absent]);
    assert_eq!(r.err(), Some(RunError::Missing(1)));
}

#[test]
fn population_fails_on_unparsable_value() {
    let plans = vec![plan("a", true)];
    let r = populate(&plans, vec![Matched::<u8>::Unparsable]);
    assert_eq!(r.err(), Some(RunError::Unparsable(0)));
}

#[test]
fn greet_with_name_is_called() {
    let table = greet_table();
    let r = dispatch(&table, Some(&chars("greet")), vec![Matched::Parsed("Ada".to_string())]);
    assert_eq!(
        r,
        Ok(Dispatch::Call { command: 0, args: vec![Value::Plain("Ada".to_string())] })
    );
}

#[test]
fn greet_without_name_is_fatal() {
    let table = greet_table();
    let r = dispatch::<String>(&table, Some(&chars("greet")), vec![Matched::Absent]);
    assert_eq!(r, Err(RunError::Missing(0)));
}

#[test]
fn unknown_subcommand_does_nothing() {
    let table = greet_table();
    let r = dispatch::<String>(&table, Some(&chars("wave")), vec![]);
    assert_eq!(r, Ok(Dispatch::NoCommand));
    let r = dispatch::<String>(&table, None, vec![]);
    assert_eq!(r, Ok(Dispatch::NoCommand));
}

#[test]
fn first_command_of_a_name_is_found() {
    let table = vec![
        param_table_entry("a", vec![]),
        param_table_entry("b", vec![]),
        param_table_entry("b", vec![param("x", path("u8"))]),
    ];
    assert_eq!(find_command(&table, &chars("b")), Some(1));
    assert_eq!(find_command(&table, &chars("c")), None);
}

#[test]
fn optional_parameters_convert_to_wrapped_values() {
    let plans = vec![plan("name", false), plan("times", true), plan("extra", true)];
    let r = convert_values(&plans, vec![Matched::Parsed(5u64), Matched::Parsed(2u64)]);
    assert_eq!(r, Ok(vec![Value::Plain(5), Value::Maybe(Some(2)), Value::Maybe(None)]));
}

#[test]
fn first_fatal_value_is_reported() {
    let plans = vec![plan("a", false), plan("b", false), plan("c", false)];
    let r = convert_values(&plans, vec![Matched::Parsed(1u8), Matched::Unparsable, Matched::Absent]);
    assert_eq!(r, Err(RunError::Unparsable(1)));
}
