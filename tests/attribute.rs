use diff_enum::{common_fields, ExpandError, Expansion, FieldDecl, Instance, ItemDef, ItemKind, Payload, VariantDef};

#[derive(Debug, PartialEq)]
enum Lit {
    Bool(bool),
    Int(i32),
}

fn field(attrs: &[&str], name: &str, ty: &str) -> FieldDecl {
    FieldDecl {
        attrs: attrs.iter().map(|a| a.to_string()).collect(),
        vis: String::new(),
        name: name.to_string(),
        ty: ty.to_string(),
    }
}

fn variant(name: &str, payload: Payload) -> VariantDef {
    VariantDef { attrs: vec![], name: name.to_string(), payload, discriminant: None }
}

fn enum_item(attrs: &[&str], vis: &str, name: &str, variants: Vec<VariantDef>) -> ItemDef {
    ItemDef {
        attrs: attrs.iter().map(|a| a.to_string()).collect(),
        vis: vis.to_string(),
        name: name.to_string(),
        generics: String::new(),
        kind: ItemKind::Enum(variants),
    }
}

/// `enum E { A { b: bool }, B }`
fn e_with_b(attrs: &[&str], vis: &str) -> ItemDef {
    enum_item(
        attrs,
        vis,
        "E",
        vec![
            variant("A", Payload::Named(vec![field(&[], "b", "bool")])),
            variant("B", Payload::NoPayload),
        ],
    )
}

fn instance(variant: &str, values: Vec<(&str, Lit)>) -> Instance<Lit> {
    Instance {
        variant: variant.to_string(),
        values: values.into_iter().map(|(n, v)| (n.to_string(), v)).collect(),
    }
}

fn field_names(v: &VariantDef) -> Vec<String> {
    match &v.payload {
        Payload::Named(fs) => fs.iter().map(|f| f.name.clone()).collect(),
        _ => panic!("variant {} has no named fields", v.name),
    }
}

fn named_fields(v: &VariantDef) -> &Vec<FieldDecl> {
    match &v.payload {
        Payload::Named(fs) => fs,
        _ => panic!("variant {} has no named fields", v.name),
    }
}

fn accessor_value<'a>(e: &Expansion, field: &str, inst: &'a Instance<Lit>) -> Option<&'a Lit> {
    let a = e.accessors.iter().find(|a| a.name == field).expect("accessor exists");
    a.get(inst)
}

fn x_i32(attrs: &[&str]) -> Vec<FieldDecl> {
    vec![field(attrs, "x", "i32")]
}

#[test]
fn public_enum() {
    let e = common_fields(Ok(x_i32(&[])), Ok(e_with_b(&[], "pub"))).unwrap();
    assert_eq!(e.union.vis, "pub");
    assert_eq!(field_names(&e.union.variants[0]), vec!["b", "x"]);
    assert_eq!(field_names(&e.union.variants[1]), vec!["x"]);

    let a = instance("A", vec![("b", Lit::Bool(true)), ("x", Lit::Int(42))]);
    assert_eq!(accessor_value(&e, "x", &a), Some(&Lit::Int(42)));

    let b = instance("B", vec![("x", Lit::Int(12))]);
    assert_eq!(accessor_value(&e, "x", &b), Some(&Lit::Int(12)));
}

#[test]
fn private_enum() {
    let item = enum_item(
        &[],
        "",
        "E",
        vec![variant("A", Payload::NoPayload), variant("B", Payload::NoPayload)],
    );
    let e = common_fields(Ok(x_i32(&[])), Ok(item)).unwrap();
    assert_eq!(e.union.vis, "");
    assert_eq!(field_names(&e.union.variants[0]), vec!["x"]);
    assert_eq!(field_names(&e.union.variants[1]), vec!["x"]);

    let a = instance("A", vec![("x", Lit::Int(42))]);
    assert_eq!(accessor_value(&e, "x", &a), Some(&Lit::Int(42)));

    let b = instance("B", vec![("x", Lit::Int(12))]);
    assert_eq!(accessor_value(&e, "x", &b), Some(&Lit::Int(12)));
}

#[test]
fn contain_comment() {
    // Plain comments never reach the parsed field list: `x` comes bare.
    let e = common_fields(Ok(x_i32(&[])), Ok(e_with_b(&[], "pub"))).unwrap();
    assert!(named_fields(&e.union.variants[0])[1].attrs.is_empty());

    let a = instance("A", vec![("b", Lit::Bool(true)), ("x", Lit::Int(42))]);
    assert_eq!(accessor_value(&e, "x", &a), Some(&Lit::Int(42)));

    let b = instance("B", vec![("x", Lit::Int(12))]);
    assert_eq!(accessor_value(&e, "x", &b), Some(&Lit::Int(12)));
}

#[test]
fn contain_doc_comment() {
    let doc = "#[doc = r\" This is comment\"]";
    let e = common_fields(Ok(x_i32(&[doc])), Ok(e_with_b(&[], "pub"))).unwrap();
    for v in e.union.variants.iter() {
        let x = named_fields(v).last().unwrap();
        assert_eq!(x.attrs, vec![doc.to_string()]);
    }
    assert!(e.to_code().contains("#[doc = r\" This is comment\"] x: i32, }"));

    let a = instance("A", vec![("b", Lit::Bool(true)), ("x", Lit::Int(42))]);
    assert_eq!(accessor_value(&e, "x", &a), Some(&Lit::Int(42)));

    let b = instance("B", vec![("x", Lit::Int(12))]);
    assert_eq!(accessor_value(&e, "x", &b), Some(&Lit::Int(12)));
}

#[test]
fn contain_attribute() {
    let e = common_fields(Ok(x_i32(&["#[doc(hidden)]"])), Ok(e_with_b(&[], "pub"))).unwrap();
    for v in e.union.variants.iter() {
        let x = named_fields(v).last().unwrap();
        assert_eq!(x.attrs, vec!["#[doc(hidden)]".to_string()]);
        assert_eq!(x.ty, "i32");
    }

    let a = instance("A", vec![("b", Lit::Bool(true)), ("x", Lit::Int(42))]);
    assert_eq!(accessor_value(&e, "x", &a), Some(&Lit::Int(42)));

    let b = instance("B", vec![("x", Lit::Int(12))]);
    assert_eq!(accessor_value(&e, "x", &b), Some(&Lit::Int(12)));
}

#[test]
fn derive_enum() {
    let item = e_with_b(&["#[derive(Debug)]"], "");
    let e = common_fields(Ok(x_i32(&["#[doc(hidden)]"])), Ok(item)).unwrap();
    assert_eq!(e.union.attrs, vec!["#[derive(Debug)]".to_string()]);
    let code = e.union.to_code();
    assert!(code.starts_with("#[derive(Debug)] enum E"));

    // The derived Debug prints `A { b: true, x: 42 }`: `b` comes before `x`.
    assert!(code.contains("A { b: bool, #[doc(hidden)] x: i32, }"));
    let a = instance("A", vec![("b", Lit::Bool(true)), ("x", Lit::Int(42))]);
    assert_eq!(accessor_value(&e, "x", &a), Some(&Lit::Int(42)));

    // And `B { x: 12 }`.
    assert!(code.contains("B { #[doc(hidden)] x: i32, }"));
    let b = instance("B", vec![("x", Lit::Int(12))]);
    assert_eq!(accessor_value(&e, "x", &b), Some(&Lit::Int(12)));
}

#[test]
fn avoid_accessor_dead_code_warning() {
    let item = enum_item(
        &["#[deny(dead_code)]"],
        "",
        "E",
        vec![variant("A", Payload::NoPayload), variant("B", Payload::NoPayload)],
    );
    let e = common_fields(Ok(x_i32(&[])), Ok(item)).unwrap();
    let code = e.to_code();
    assert!(code.starts_with("#[deny(dead_code)] enum E"));
    assert!(code.contains("#[inline] #[allow(dead_code)] pub fn x(&self) -> &i32"));

    let a = instance("A", vec![("x", Lit::Int(42))]);
    assert_eq!(accessor_value(&e, "x", &a), Some(&Lit::Int(42)));
}

#[test]
fn whole_expansion_text() {
    let e = common_fields(Ok(x_i32(&[])), Ok(e_with_b(&[], "pub"))).unwrap();
    assert_eq!(
        e.to_code(),
        "pub enum E { A { b: bool, x: i32, }, B { x: i32, }, }\n\
         impl E { #[inline] #[allow(dead_code)] pub fn x(&self) -> &i32 { match self { \
         E::A { ref x, .. } => x, E::B { ref x, .. } => x, } } }"
    );
}

#[test]
fn order_of_fields_and_accessors() {
    let shared = vec![field(&[], "user", "String"), field(&[], "stars", "u32")];
    let item = enum_item(
        &[],
        "",
        "Repo",
        vec![
            variant(
                "GitHub",
                Payload::Named(vec![field(&[], "language", "String"), field(&[], "prs", "u32")]),
            ),
            variant("GitLab", Payload::Named(vec![field(&[], "mrs", "u32")])),
            variant("Local", Payload::NoPayload),
        ],
    );
    let e = common_fields(Ok(shared), Ok(item)).unwrap();
    assert_eq!(field_names(&e.union.variants[0]), vec!["language", "prs", "user", "stars"]);
    assert_eq!(field_names(&e.union.variants[1]), vec!["mrs", "user", "stars"]);
    assert_eq!(field_names(&e.union.variants[2]), vec!["user", "stars"]);
    let names: Vec<&str> = e.accessors.iter().map(|a| a.name.as_str()).collect();
    assert_eq!(names, vec!["user", "stars"]);
    assert_eq!(e.accessors[1].ty, "u32");
    assert_eq!(e.accessors[0].arms, vec!["GitHub", "GitLab", "Local"]);

    let v = instance("GitLab", vec![("mrs", Lit::Int(3)), ("user", Lit::Int(7)), ("stars", Lit::Int(9))]);
    assert_eq!(accessor_value(&e, "stars", &v), Some(&Lit::Int(9)));
    assert_eq!(accessor_value(&e, "user", &v), Some(&Lit::Int(7)));
}

#[test]
fn accessor_on_unknown_variant_is_none() {
    let e = common_fields(Ok(x_i32(&[])), Ok(e_with_b(&[], ""))).unwrap();
    let c = instance("C", vec![("x", Lit::Int(1))]);
    assert_eq!(accessor_value(&e, "x", &c), None);
}

#[test]
fn empty_shared_fields_are_refused() {
    let r = common_fields(Ok(vec![]), Ok(e_with_b(&[], "")));
    assert_eq!(r.unwrap_err(), ExpandError::EmptySharedFields);
}

#[test]
fn positional_variant_is_refused() {
    let item = enum_item(
        &[],
        "",
        "E",
        vec![variant("A", Payload::Positional(vec!["i32".to_string()])), variant("B", Payload::NoPayload)],
    );
    let r = common_fields(Ok(x_i32(&[])), Ok(item));
    assert_eq!(r.unwrap_err(), ExpandError::PositionalFieldConflict("A".to_string()));
}

#[test]
fn first_positional_variant_is_named() {
    let item = enum_item(
        &[],
        "",
        "E",
        vec![
            variant("A", Payload::NoPayload),
            variant("B", Payload::Positional(vec!["u8".to_string()])),
            variant("C", Payload::Positional(vec![])),
        ],
    );
    let r = common_fields(Ok(x_i32(&[])), Ok(item));
    assert_eq!(r.unwrap_err(), ExpandError::PositionalFieldConflict("B".to_string()));
}

#[test]
fn struct_is_not_an_enum() {
    let item = ItemDef {
        attrs: vec![],
        vis: String::new(),
        name: "S".to_string(),
        generics: String::new(),
        kind: ItemKind::Struct,
    };
    let r = common_fields(Ok(x_i32(&[])), Ok(item));
    assert_eq!(r.unwrap_err(), ExpandError::NotAnEnum);
}

#[test]
fn malformed_shared_fields_come_first() {
    let r = common_fields(Err("expected `:`".to_string()), Err("expected item".to_string()));
    assert_eq!(r.unwrap_err(), ExpandError::MalformedSharedFields("expected `:`".to_string()));
}

#[test]
fn unparsed_item_is_refused() {
    let r = common_fields(Ok(x_i32(&[])), Err("expected item".to_string()));
    assert_eq!(r.unwrap_err(), ExpandError::NotAnItem("expected item".to_string()));
}

#[test]
fn repeated_shared_name_is_refused() {
    let shared = vec![field(&[], "x", "i32"), field(&[], "y", "u8"), field(&[], "x", "u8")];
    let r = common_fields(Ok(shared), Ok(e_with_b(&[], "")));
    assert_eq!(r.unwrap_err(), ExpandError::DuplicateSharedField("x".to_string()));
}

#[test]
fn variant_field_named_like_shared_is_refused() {
    let item = enum_item(
        &[],
        "",
        "E",
        vec![
            variant("A", Payload::Named(vec![field(&[], "b", "bool")])),
            variant("B", Payload::Named(vec![field(&[], "c", "u8"), field(&[], "x", "u8")])),
        ],
    );
    let r = common_fields(Ok(x_i32(&[])), Ok(item));
    assert_eq!(
        r.unwrap_err(),
        ExpandError::FieldConflict { variant: "B".to_string(), field: "x".to_string() }
    );
}

#[test]
fn variant_attributes_and_discriminant_pass_through() {
    let mut v = variant("A", Payload::NoPayload);
    v.attrs = vec!["#[doc(hidden)]".to_string()];
    let mut item = enum_item(&["#[allow(unused)]"], "pub(crate)", "E", vec![v]);
    item.generics = "<T>".to_string();
    let e = common_fields(Ok(x_i32(&[])), Ok(item)).unwrap();
    assert_eq!(e.union.generics, "<T>");
    assert_eq!(e.union.variants[0].attrs, vec!["#[doc(hidden)]".to_string()]);
    assert_eq!(
        e.union.to_code(),
        "#[allow(unused)] pub(crate) enum E<T> { #[doc(hidden)] A { x: i32, }, }"
    );
}

#[test]
fn positional_variant_comes_before_repeated_shared_name() {
    let shared = vec![field(&[], "x", "i32"), field(&[], "x", "i32")];
    let item = enum_item(&[], "", "E", vec![variant("A", Payload::Positional(vec!["i32".to_string()]))]);
    let r = common_fields(Ok(shared), Ok(item));
    assert_eq!(r.unwrap_err(), ExpandError::PositionalFieldConflict("A".to_string()));
}

#[test]
fn unparsed_item_comes_before_repeated_shared_name() {
    let shared = vec![field(&[], "x", "i32"), field(&[], "x", "i32")];
    let r = common_fields(Ok(shared), Err("expected item".to_string()));
    assert_eq!(r.unwrap_err(), ExpandError::NotAnItem("expected item".to_string()));
}
