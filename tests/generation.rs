use intermix::{
    forwarding_method, generate, split_declaration, DeclFault, DeclValue, FieldMixins,
    GeneratedMethod, ImplBlock, MixinAttr, MixinError, TargetStruct,
};

fn attr(key: &str, decl: &str) -> MixinAttr {
    MixinAttr {
        key: key.split("::").map(|s| s.to_string()).collect(),
        value: DeclValue::Text(decl.to_string()),
    }
}

fn field(name: &str, attrs: Vec<MixinAttr>) -> FieldMixins {
    FieldMixins { field: Some(name.to_string()), attrs: Ok(attrs) }
}

fn record(ident: &str, fields: Vec<FieldMixins>) -> TargetStruct {
    TargetStruct { ident: ident.to_string(), is_record: true, fields }
}

fn method(name: &str, ty: &str, field: &str, source: &str) -> GeneratedMethod {
    GeneratedMethod {
        name: name.to_string(),
        return_type: ty.to_string(),
        field: field.to_string(),
        source_method: source.to_string(),
    }
}

struct Foo {
    name: String,
    age: i32,
    height: i32,
}

impl Foo {
    fn name(&self) -> &String {
        &self.name
    }
    fn age(&self) -> i32 {
        self.age
    }
    fn height(&self) -> i32 {
        self.height
    }
}

struct Bar {
    top_speed: f32,
    acceleration: f32,
}

impl Bar {
    fn top_speed(&self) -> f32 {
        self.top_speed
    }
    fn acceleration(&self) -> f32 {
        self.acceleration
    }
}

struct Baz {
    foo: Foo,
    bar: Bar,
    color: String,
}

#[derive(Debug, PartialEq)]
enum Value {
    Text(String),
    Int(i32),
    Float(f32),
}

impl Baz {
    fn math(&self) -> f32 {
        self.foo.height() as f32 * self.bar.acceleration()
    }

    /// Performs the call that a generated method's body makes.
    fn forward(&self, m: &GeneratedMethod) -> Value {
        match (m.field.as_str(), m.source_method.as_str()) {
            ("foo", "name") => Value::Text(self.foo.name().clone()),
            ("foo", "age") => Value::Int(self.foo.age()),
            ("foo", "height") => Value::Int(self.foo.height()),
            ("bar", "top_speed") => Value::Float(self.bar.top_speed()),
            ("bar", "acceleration") => Value::Float(self.bar.acceleration()),
            other => panic!("no such method: {:?}", other),
        }
    }
}

fn baz_model() -> TargetStruct {
    record(
        "Baz",
        vec![
            field("foo", vec![attr("name", "title:&String"), attr("age", "i32")]),
            field("bar", vec![attr("top_speed", "f32")]),
            field("color", vec![]),
        ],
    )
}

#[test]
fn it_works() {
    let baz = Baz {
        foo: Foo { name: "Tim".into(), age: 32, height: 60 },
        bar: Bar { top_speed: 20.0f32, acceleration: 5.0f32 },
        color: "Blue".into(),
    };
    let block = generate(&baz_model()).unwrap();
    let call = |name: &str| baz.forward(block.find_method(name).unwrap());
    assert_eq!(baz.foo.name, "Tim");
    assert_eq!(call("title"), Value::Text("Tim".to_string()));
    assert_eq!(call("age"), Value::Int(32));
    assert_eq!(call("top_speed"), Value::Float(20.0f32));
    assert_eq!(baz.math(), 300.0f32);
    assert_eq!(baz.color, "Blue");
}

#[test]
fn worked_example_exposes_exactly_three_methods() {
    let block = generate(&baz_model()).unwrap();
    assert_eq!(
        block,
        ImplBlock {
            target: "Baz".to_string(),
            methods: vec![
                method("title", "&String", "foo", "name"),
                method("age", "i32", "foo", "age"),
                method("top_speed", "f32", "bar", "top_speed"),
            ],
        }
    );
    assert!(block.find_method("name").is_none());
    assert!(block.find_method("height").is_none());
    assert_eq!(
        block.render(),
        "impl Baz { pub fn title(&self) -> &String { self.foo.name() } \
         pub fn age(&self) -> i32 { self.foo.age() } \
         pub fn top_speed(&self) -> f32 { self.bar.top_speed() } }"
    );
}

#[test]
fn no_annotated_fields_give_an_empty_block() {
    let target = record("Plain", vec![field("a", vec![]), field("b", vec![])]);
    let block = generate(&target).unwrap();
    assert_eq!(block.target, "Plain");
    assert!(block.methods.is_empty());
    assert_eq!(block.render(), "impl Plain { }");
    let empty = record("Empty", vec![]);
    assert!(generate(&empty).unwrap().methods.is_empty());
}

#[test]
fn plain_declaration_keeps_the_source_name() {
    let block = generate(&record("S", vec![field("inner", vec![attr("key", "i32")])])).unwrap();
    assert_eq!(block.methods, vec![method("key", "i32", "inner", "key")]);
    assert_eq!(block.methods[0].render(), "pub fn key(&self) -> i32 { self.inner.key() }");
}

#[test]
fn renaming_declaration_sets_name_and_type() {
    let block =
        generate(&record("S", vec![field("inner", vec![attr("alias", "newname:String")])])).unwrap();
    assert_eq!(block.methods, vec![method("newname", "String", "inner", "alias")]);
    assert_eq!(
        block.methods[0].render(),
        "pub fn newname(&self) -> String { self.inner.alias() }"
    );
}

#[test]
fn declaration_parts_are_trimmed() {
    assert_eq!(
        split_declaration("name", "  title :  &String  "),
        ("title".to_string(), "&String".to_string())
    );
    assert_eq!(split_declaration("age", "\ti32 \n"), ("age".to_string(), "i32".to_string()));
    let block =
        generate(&record("S", vec![field("f", vec![attr("x", " y : Vec<u8> ")])])).unwrap();
    assert_eq!(block.methods, vec![method("y", "Vec<u8>", "f", "x")]);
}

#[test]
fn only_the_first_colon_delimits() {
    assert_eq!(split_declaration("alias", "a:b:C"), ("a".to_string(), "b:C".to_string()));
    let r = generate(&record("S", vec![field("inner", vec![attr("alias", "a:b:C")])]));
    assert_eq!(
        r,
        Err(MixinError::MalformedDeclaration {
            field: "inner".to_string(),
            source_method: "alias".to_string(),
            declaration: "a:b:C".to_string(),
            fault: DeclFault::InvalidReturnType,
        })
    );
}

#[test]
fn path_in_return_type_is_accepted() {
    let block = generate(&record("S", vec![field("f", vec![attr("m", "n:std::string::String")])]))
        .unwrap();
    assert_eq!(block.methods, vec![method("n", "std::string::String", "f", "m")]);
}

#[test]
fn multi_segment_key_is_rejected() {
    let r = generate(&record("S", vec![field("inner", vec![attr("a::b", "i32")])]));
    assert_eq!(
        r,
        Err(MixinError::NonSimpleSourceMethod {
            field: "inner".to_string(),
            key: vec!["a".to_string(), "b".to_string()],
        })
    );
}

#[test]
fn duplicate_names_are_both_emitted() {
    let target = record(
        "S",
        vec![field("one", vec![attr("value", "same:i32")]), field("two", vec![attr("other", "same:i32")])],
    );
    let block = generate(&target).unwrap();
    assert_eq!(
        block.methods,
        vec![method("same", "i32", "one", "value"), method("same", "i32", "two", "other")]
    );
    assert_eq!(block.find_method("same").unwrap().field, "one");
}

#[test]
fn non_string_declaration_is_rejected() {
    let target = record(
        "S",
        vec![field("f", vec![MixinAttr { key: vec!["m".to_string()], value: DeclValue::Other }])],
    );
    assert_eq!(
        generate(&target),
        Err(MixinError::MalformedDeclaration {
            field: "f".to_string(),
            source_method: "m".to_string(),
            declaration: String::new(),
            fault: DeclFault::NotStringLiteral,
        })
    );
}

#[test]
fn empty_or_invalid_name_is_rejected() {
    for decl in [":i32", "  :i32", "two words:i32", "1st:i32"] {
        let r = forwarding_method(&"f".to_string(), &attr("m", decl));
        assert_eq!(
            r,
            Err(MixinError::MalformedDeclaration {
                field: "f".to_string(),
                source_method: "m".to_string(),
                declaration: decl.to_string(),
                fault: DeclFault::InvalidMethodName,
            })
        );
    }
}

#[test]
fn invalid_type_is_rejected() {
    for decl in ["", "   ", "i32 i64", "name:"] {
        let r = forwarding_method(&"f".to_string(), &attr("m", decl));
        match r {
            Err(MixinError::MalformedDeclaration { fault, .. }) => {
                assert_eq!(fault, DeclFault::InvalidReturnType)
            }
            other => panic!("unexpected {:?}", other),
        }
    }
}

#[test]
fn first_error_in_field_order_wins() {
    let target = record(
        "S",
        vec![
            field("a", vec![attr("ok", "i32"), attr("bad", "x:")]),
            field("b", vec![attr("p::q", "i32")]),
        ],
    );
    match generate(&target) {
        Err(MixinError::MalformedDeclaration { field, source_method, .. }) => {
            assert_eq!(field, "a");
            assert_eq!(source_method, "bad");
        }
        other => panic!("unexpected {:?}", other),
    }
}

#[test]
fn malformed_annotation_is_reported_at_its_field() {
    let target = record(
        "S",
        vec![
            field("a", vec![attr("bad", "x:")]),
            FieldMixins { field: Some("b".to_string()), attrs: Err("expected `=`".to_string()) },
        ],
    );
    assert_eq!(
        generate(&target),
        Err(MixinError::AttributeSyntax { field: "b".to_string(), message: "expected `=`".to_string() })
    );
}

#[test]
fn unnamed_fields_take_no_part() {
    let target = record(
        "S",
        vec![
            FieldMixins { field: None, attrs: Err("ignored".to_string()) },
            field("a", vec![attr("m", "u8")]),
        ],
    );
    assert_eq!(generate(&target).unwrap().methods, vec![method("m", "u8", "a", "m")]);
}

#[test]
fn other_shapes_give_an_empty_block() {
    let target = TargetStruct {
        ident: "E".to_string(),
        is_record: false,
        fields: vec![field("a", vec![attr("a::b", "")])],
    };
    assert_eq!(generate(&target), Ok(ImplBlock { target: "E".to_string(), methods: vec![] }));
}
