use lazy_prefabs::dynamic_value::DynamicStruct;
use lazy_prefabs::dynamic_value::DynamicValue;
use lazy_prefabs::dynamic_value::GetValueError;
use lazy_prefabs::dynamic_value::ReflectField;
use lazy_prefabs::parse::LoadPrefabError;
use lazy_prefabs::parse::build_component;
use lazy_prefabs::parse::parse_command;
use lazy_prefabs::parse::parse_component;
use lazy_prefabs::parse::parse_field;
use lazy_prefabs::parse::parse_prefab;
use lazy_prefabs::parse::parse_string;
use lazy_prefabs::parse::parse_value;
use lazy_prefabs::prefab::PrefabBuildStep;
use lazy_prefabs::registry::PrefabRegistry;
use lazy_prefabs::registry::PrefabSource;
use lazy_prefabs::registry::ReflectType;
use lazy_prefabs::registry::TypeInfo;

fn test_struct(pairs: &[(&str, i32)]) -> DynamicStruct {
    let mut ds = DynamicStruct::new();
    for (name, value) in pairs {
        ds.insert(String::from(*name), DynamicValue::Int(*value));
    }
    ds
}

#[test]
fn cast() {
    let a = test_struct(&[("i", 5), ("q", 10)]);

    assert_eq!(a.get("i").as_int().unwrap(), 5);
    assert_eq!(a.get("q").as_int().unwrap(), 10);
}

#[test]
fn auto_cast() {
    let b = test_struct(&[("i", 15), ("q", 25)]);
    let bi = b.get("i").as_int().unwrap();

    assert_eq!(bi, 15);
}

#[test]
fn command_parse() {
    let input = "DOSTUFF!(i: 10, pet: Animal {name: \"Polly\"})";

    let mut registry = PrefabRegistry::new();
    registry.register_type(String::from("Animal"), ReflectType::Struct);

    let (parsed, _) = parse_command(input, 0, &registry).unwrap();

    let props = parsed.properties.unwrap();

    let i = props.get("i").as_int().unwrap();
    assert_eq!(i, 10);

    let pet = props.get("pet").as_struct().unwrap();
    assert_eq!(pet.get("name").as_str_value().unwrap(), "Polly");
}

#[test]
fn prefab_parse() {
    let input = "SomeName { dosomething!(), Visibility }";
    let mut registry = PrefabRegistry::new();
    registry.register_type(String::from("Visibility"), ReflectType::Struct);

    let prefab = parse_prefab(input, &registry).unwrap();

    assert_eq!(prefab.name, Some("SomeName".to_string()));

    match &prefab.steps[0] {
        PrefabBuildStep::AddComponent(_) => unreachable!(),
        PrefabBuildStep::RunCommand(command) => {
            assert_eq!(command.name, "dosomething");
        }
    }

    match &prefab.steps[1] {
        PrefabBuildStep::AddComponent(comp) => {
            assert_eq!(comp.ty_name, "Visibility");
        }
        PrefabBuildStep::RunCommand(_) => unreachable!(),
    }
}

#[test]
fn char_parse() {
    let input = "'a'";
    let registry = PrefabRegistry::new();
    let parsed = parse_value(input, 0, &registry);
    assert!(parsed.is_ok());
    let (val, _) = parsed.unwrap();
    let byte = val.as_char().unwrap();
    assert_eq!(byte as char, 'a');
}

#[test]
fn color_parse() {
    let registry = PrefabRegistry::new();

    let input = "Color::RED";
    let (val, _) = parse_value(input, 0, &registry).unwrap();
    let col = val.as_color().unwrap();
    assert_eq!(col.r.parse::<f32>().unwrap(), 1.0);
    assert_eq!(col.g.parse::<f32>().unwrap(), 0.0);
    assert_eq!(col.b.parse::<f32>().unwrap(), 0.0);
    assert_eq!(col.a.parse::<f32>().unwrap(), 1.0);

    let input = "Color { r: 1.0, g: 0.5 }";
    let (val, _) = parse_value(input, 0, &registry).unwrap();
    let col = val.as_color().unwrap();
    assert_eq!(col.r.parse::<f32>().unwrap(), 1.0);
    assert_eq!(col.g.parse::<f32>().unwrap(), 0.5);
}

#[test]
fn vec_parse() {
    let input = "Vec3 { z: 3.0, x: 10.0 }";

    let mut registry = PrefabRegistry::new();
    registry.register_type(String::from("Vec3"), ReflectType::Value);

    let (val, _) = parse_value(input, 0, &registry).unwrap();
    let v = val.as_vec3().unwrap();

    assert_eq!(v.x.parse::<f32>().unwrap(), 10.0);
    assert_eq!(v.z.parse::<f32>().unwrap(), 3.0);
}

#[test]
fn transform_parse() {
    let mut registry = PrefabRegistry::new();

    registry.register_type(String::from("Vec3"), ReflectType::Value);
    registry.register_type(String::from("Transform"), ReflectType::Struct);

    let input = "Transform { translation: Vec3 { y: 3.5, x: 10.5 } }";

    let (comp, _) = parse_component(input, 0, &registry).unwrap();

    let fields = comp.reflect.as_struct().unwrap();
    let translation = fields.get("translation").as_vec3().unwrap();

    assert_eq!(translation.y.parse::<f32>().unwrap(), 3.5);
    assert_eq!(translation.x.parse::<f32>().unwrap(), 10.5);
}

#[test]
fn string_parse() {
    let input = "\"Hello\"";
    let str = parse_string(input);

    assert_eq!("Hello", str);
}

#[test]
fn field_parse() {
    let input = "a: \"hi\"";

    let registry = PrefabRegistry::new();
    let (field, _) = parse_field(input, 0, &registry).unwrap();

    assert_eq!("a", field.name);
    assert_eq!(field.value.as_str_value().unwrap(), "hi");
}

struct CountingSource {
    text: String,
    reads: usize,
}

impl PrefabSource for CountingSource {
    fn read_text(&mut self, _name: &str) -> Result<String, String> {
        self.reads += 1;
        Ok(self.text.clone())
    }
}

struct FailingSource;

impl PrefabSource for FailingSource {
    fn read_text(&mut self, name: &str) -> Result<String, String> {
        Err(format!("no such description: {}", name))
    }
}

#[test]
fn cache_round_trip() {
    let mut registry = PrefabRegistry::new();
    registry.register_type(String::from("Visibility"), ReflectType::Struct);
    let mut source = CountingSource {
        text: String::from("SomeName { Visibility }"),
        reads: 0,
    };

    let first = registry.load("some_name", &mut source).unwrap();
    let second = registry.load("some_name", &mut source).unwrap();

    assert!(std::sync::Arc::ptr_eq(&first, &second));
    assert_eq!(source.reads, 1);

    registry.unload_prefab("some_name");
    let third = registry.load("some_name", &mut source).unwrap();
    assert_eq!(source.reads, 2);
    assert_eq!(third.name, Some("SomeName".to_string()));
}

#[test]
fn failed_load_caches_nothing() {
    let mut registry = PrefabRegistry::new();
    let mut bad = FailingSource;
    match registry.load("ghost", &mut bad) {
        Err(LoadPrefabError::FileReadError(msg)) => {
            assert!(msg.contains("ghost"));
        }
        _ => unreachable!(),
    }

    // After the failure nothing was cached: a good source is consulted.
    registry.register_type(String::from("Visibility"), ReflectType::Struct);
    let mut good = CountingSource {
        text: String::from("{ Visibility }"),
        reads: 0,
    };
    let prefab = registry.load("ghost", &mut good).unwrap();
    assert_eq!(good.reads, 1);
    assert_eq!(prefab.name, None);
}

#[test]
fn order_preservation() {
    let mut registry = PrefabRegistry::new();
    registry.register_type(String::from("Foo"), ReflectType::Struct);
    registry.register_type(String::from("Bar"), ReflectType::Struct);

    let prefab = parse_prefab("X { Foo, dostuff!(), Bar }", &registry).unwrap();
    assert_eq!(prefab.steps.len(), 3);
    match &prefab.steps[0] {
        PrefabBuildStep::AddComponent(c) => assert_eq!(c.ty_name, "Foo"),
        _ => unreachable!(),
    }
    match &prefab.steps[1] {
        PrefabBuildStep::RunCommand(c) => assert_eq!(c.name, "dostuff"),
        _ => unreachable!(),
    }
    match &prefab.steps[2] {
        PrefabBuildStep::AddComponent(c) => assert_eq!(c.ty_name, "Bar"),
        _ => unreachable!(),
    }
}

#[test]
fn named_vs_positional_dispatch() {
    let named = TypeInfo {
        ty_name: String::from("Named"),
        reflect_type: ReflectType::Struct,
    };
    let fields = vec![
        ReflectField { name: String::from("x"), value: DynamicValue::Int(1) },
        ReflectField { name: String::from("y"), value: DynamicValue::Int(2) },
        ReflectField { name: String::from("y"), value: DynamicValue::Int(3) },
    ];
    let built = build_component(&named, fields).unwrap();
    let ds = built.as_struct().unwrap();
    assert_eq!(ds.get("y").as_int().unwrap(), 3);
    assert_eq!(ds.get("x").as_int().unwrap(), 1);

    let positional = TypeInfo {
        ty_name: String::from("Positional"),
        reflect_type: ReflectType::TupleStruct,
    };
    let fields = vec![
        ReflectField { name: String::from("c"), value: DynamicValue::Int(1) },
        ReflectField { name: String::from("b"), value: DynamicValue::Int(2) },
        ReflectField { name: String::from("a"), value: DynamicValue::Int(3) },
    ];
    match build_component(&positional, fields).unwrap() {
        DynamicValue::TupleStruct(vals) => {
            assert_eq!(vals.len(), 3);
            for (i, v) in vals.iter().enumerate() {
                assert_eq!(v.as_int().unwrap(), (i + 1) as i32);
            }
        }
        _ => unreachable!(),
    }
}

#[test]
fn unimplemented_kind_fails_explicitly() {
    let listy = TypeInfo {
        ty_name: String::from("Listy"),
        reflect_type: ReflectType::List,
    };
    assert!(build_component(&listy, Vec::new()).is_none());

    let mut registry = PrefabRegistry::new();
    registry.register_type(String::from("Listy"), ReflectType::List);
    match parse_component("Listy", 0, &registry) {
        Err(LoadPrefabError::UnhandledValueRule(kind)) => assert_eq!(kind, "List"),
        _ => unreachable!(),
    }
}

#[test]
fn unknown_type_fails_closed() {
    let registry = PrefabRegistry::new();
    match parse_component("Nope { a: 1 }", 0, &registry) {
        Err(LoadPrefabError::UnregisteredPrefabComponent(name)) => assert_eq!(name, "Nope"),
        _ => unreachable!(),
    }

    // A whole description referring to the unknown type produces no prefab
    // and, through a load, no cache entry.
    let mut registry = PrefabRegistry::new();
    let mut source = CountingSource {
        text: String::from("{ Nope }"),
        reads: 0,
    };
    assert!(registry.load("bad", &mut source).is_err());
    assert!(registry.load("bad", &mut source).is_err());
    assert_eq!(source.reads, 2);
}

#[test]
fn int_literal_parse() {
    let registry = PrefabRegistry::new();
    let (field, _) = parse_field("i: 10", 0, &registry).unwrap();
    assert_eq!(field.name, "i");
    assert_eq!(field.value.as_int().unwrap(), 10);

    let (field, _) = parse_field("i: -5", 0, &registry).unwrap();
    assert_eq!(field.value.as_int().unwrap(), -5);

    match parse_field("i: 99999999999", 0, &registry) {
        Err(LoadPrefabError::ValueParseError(kind, text)) => {
            assert_eq!(kind, "i32");
            assert_eq!(text, "99999999999");
        }
        _ => unreachable!(),
    }
}

#[test]
fn string_literal_keeps_quoted_text() {
    let registry = PrefabRegistry::new();
    let (field, _) = parse_field("name: \"Polly\"", 0, &registry).unwrap();
    assert_eq!(field.name, "name");
    assert_eq!(field.value.as_str_value().unwrap(), "Polly");
}

#[test]
fn float_literal_parse() {
    let registry = PrefabRegistry::new();
    let (val, _) = parse_value("2.5", 0, &registry).unwrap();
    let text = val.as_float_text().unwrap();
    assert_eq!(text.parse::<f32>().unwrap(), 2.5);
}

#[test]
fn vector_defaults_and_unknown_fields() {
    let registry = PrefabRegistry::new();
    let (val, _) = parse_value("Vec3 { w: 9.0, x: 1.0 }", 0, &registry).unwrap();
    let v = val.as_vec3().unwrap();
    assert_eq!(v.x.parse::<f32>().unwrap(), 1.0);
    assert_eq!(v.y.parse::<f32>().unwrap(), 0.0);
    assert_eq!(v.z.parse::<f32>().unwrap(), 0.0);
}

#[test]
fn unknown_color_constant_fails() {
    let registry = PrefabRegistry::new();
    match parse_value("Color::MAUVE", 0, &registry) {
        Err(LoadPrefabError::UnhandledValueRule(name)) => assert_eq!(name, "MAUVE"),
        _ => unreachable!(),
    }
}

#[test]
fn range_parse() {
    let registry = PrefabRegistry::new();
    let (val, _) = parse_value("[1..5]", 0, &registry).unwrap();
    assert_eq!(val.as_range().unwrap(), (1, 5));

    match parse_value("[1..]", 0, &registry) {
        Err(LoadPrefabError::ValueParseError(kind, text)) => {
            assert_eq!(kind, "range max");
            assert_eq!(text, "[1..]");
        }
        _ => unreachable!(),
    }

    match parse_value("[..5]", 0, &registry) {
        Err(LoadPrefabError::ValueParseError(kind, text)) => {
            assert_eq!(kind, "range min");
            assert_eq!(text, "[..5]");
        }
        _ => unreachable!(),
    }

    match parse_value("[a..5]", 0, &registry) {
        Err(LoadPrefabError::ValueParseError(kind, text)) => {
            assert_eq!(kind, "range min");
            assert_eq!(text, "[a..5]");
        }
        _ => unreachable!(),
    }
}

#[test]
fn array_parse() {
    let registry = PrefabRegistry::new();
    let (val, _) = parse_value("[1, 2, \"x\"]", 0, &registry).unwrap();
    let items = val.as_list().unwrap();
    assert_eq!(items.len(), 3);
    assert_eq!(items[0].as_int().unwrap(), 1);
    assert_eq!(items[1].as_int().unwrap(), 2);
    assert_eq!(items[2].as_str_value().unwrap(), "x");
}

#[test]
fn shape_parse() {
    let registry = PrefabRegistry::new();
    let (field, _) = parse_field("shape: Cube", 0, &registry).unwrap();
    assert_eq!(field.value.as_shape().unwrap(), "Cube");
}

#[test]
fn nested_component_as_field() {
    let mut registry = PrefabRegistry::new();
    registry.register_type(String::from("Outer"), ReflectType::Struct);
    registry.register_type(String::from("Inner"), ReflectType::Struct);

    let (comp, _) = parse_component("Outer { Inner { a: 1 } }", 0, &registry).unwrap();
    let outer = comp.reflect.as_struct().unwrap();
    let inner = outer.get("Inner").as_struct().unwrap();
    assert_eq!(inner.get("a").as_int().unwrap(), 1);
}

#[test]
fn grammar_error_reports_position() {
    let registry = PrefabRegistry::new();
    match parse_prefab("Name {", &registry) {
        Err(LoadPrefabError::GrammarError(_)) => {}
        _ => unreachable!(),
    }
    match parse_prefab("Name { } trailing", &registry) {
        Err(LoadPrefabError::GrammarError(_)) => {}
        _ => unreachable!(),
    }
}

#[test]
fn accessor_errors() {
    let ds = test_struct(&[("i", 1)]);
    match ds.try_get("missing") {
        Err(GetValueError::FieldDoesntExist(name, _)) => assert_eq!(name, "missing"),
        _ => unreachable!(),
    }
    match ds.get("i").as_str_value() {
        Err(GetValueError::FailedCast(found, wanted)) => {
            assert_eq!(found, "i32");
            assert_eq!(wanted, "string");
        }
        _ => unreachable!(),
    }
}

struct DoSomething;

impl lazy_prefabs::registry::BuildPrefabCommand for DoSomething {
    fn key(&self) -> String {
        String::from("do_something")
    }
}

#[test]
fn command_registration() {
    let mut registry = PrefabRegistry::new();
    registry.register_build_command(Box::new(DoSomething));

    let cmd = registry.get_build_command("do_something");
    assert!(cmd.is_some());
    assert_eq!(cmd.unwrap().key(), "do_something");
    assert!(registry.get_build_command("other").is_none());
}

#[test]
fn type_registration_overwrites() {
    let mut registry = PrefabRegistry::new();
    registry.register_type(String::from("T"), ReflectType::Struct);
    registry.register_type(String::from("T"), ReflectType::TupleStruct);
    let info = registry.get_type_data("T").unwrap();
    assert_eq!(info.reflect_type, ReflectType::TupleStruct);
    assert!(registry.get_type_data("U").is_none());
}

#[test]
fn command_without_arguments_has_no_properties() {
    let registry = PrefabRegistry::new();
    let (parsed, _) = parse_command("noop!()", 0, &registry).unwrap();
    assert_eq!(parsed.name, "noop");
    assert!(parsed.properties.is_none());
}
