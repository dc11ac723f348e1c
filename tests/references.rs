use std::sync::Arc;
use string_refs::errors::ParseStrError;
use string_refs::{StringMethodReference, StringName, StringTypeReference, TypeVars};

fn name(s: &str) -> StringName {
    StringName::from_str(s)
}

fn single(assem: &str, ty: &str) -> StringTypeReference {
    StringTypeReference::Single { assem: name(assem), ty: name(ty) }
}

fn vars(pairs: Vec<(&str, StringTypeReference)>) -> Arc<TypeVars> {
    let mut tv = TypeVars::new();
    for (k, v) in pairs {
        tv.insert(&name(k), v);
    }
    Arc::new(tv)
}

fn generic(assem: &str, ty: &str, pairs: Vec<(&str, StringTypeReference)>) -> StringTypeReference {
    StringTypeReference::WithGeneric { assem: name(assem), ty: name(ty), type_vars: vars(pairs) }
}

fn encode(t: &StringTypeReference) -> String {
    t.string_name_repr().as_str().to_owned()
}

fn parse(s: &str) -> StringTypeReference {
    StringTypeReference::from_string_repr(s).unwrap()
}

#[test]
fn single_encodes_and_parses() {
    let t = single("!", "Int");
    assert_eq!(encode(&t), "[!]Int");
    assert_eq!(parse("[!]Int"), t);
    match parse("[!]Int") {
        StringTypeReference::Single { assem, ty } => {
            assert_eq!(assem.as_str(), "!");
            assert_eq!(ty.as_str(), "Int");
        }
        _ => panic!("expected a single type"),
    }
}

#[test]
fn one_argument_generic_round_trips() {
    let t = generic("!", "List", vec![("T", single("!", "Int"))]);
    assert_eq!(encode(&t), "[!]List[T:[!]Int]");
    let back = parse("[!]List[T:[!]Int]");
    assert_eq!(back, t);
    match &back {
        StringTypeReference::WithGeneric { assem, ty, type_vars } => {
            assert_eq!(assem.as_str(), "!");
            assert_eq!(ty.as_str(), "List");
            assert_eq!(type_vars.len(), 1);
            let (k, v) = type_vars.get_index(0);
            assert_eq!(k.as_str(), "T");
            assert_eq!(*v, single("!", "Int"));
        }
        _ => panic!("expected a generic instantiation"),
    }
}

#[test]
fn two_argument_generic_keeps_order() {
    let t = generic("!", "Map", vec![("K", single("!", "Str")), ("V", single("!", "Int"))]);
    assert_eq!(encode(&t), "[!]Map[K:[!]Str|V:[!]Int]");
    let back = parse("[!]Map[K:[!]Str|V:[!]Int]");
    assert_eq!(back, t);
    match &back {
        StringTypeReference::WithGeneric { type_vars, .. } => {
            assert_eq!(type_vars.len(), 2);
            assert_eq!(type_vars.get_index(0).0.as_str(), "K");
            assert_eq!(*type_vars.get_index(0).1, single("!", "Str"));
            assert_eq!(type_vars.get_index(1).0.as_str(), "V");
            assert_eq!(*type_vars.get_index(1).1, single("!", "Int"));
        }
        _ => panic!("expected a generic instantiation"),
    }
}

#[test]
fn unbracketed_text_is_a_type_error() {
    match StringTypeReference::from_string_repr("NotBracketed") {
        Err(ParseStrError::AtStringTypeReference(s)) => assert_eq!(s.as_str(), "NotBracketed"),
        other => panic!("unexpected result {:?}", other),
    }
}

#[test]
fn malformed_type_texts_are_rejected_with_the_whole_text() {
    for s in ["", "[!Int", "[!]List[T:[!]Int", "[!]List[T]", "[!]List[]", "[!]List[T:Int]", "[!]A[T:[!]B[U:[!]C|V:[!]D]]"] {
        match StringTypeReference::from_string_repr(s) {
            Err(ParseStrError::AtStringTypeReference(e)) => assert_eq!(e.as_str(), s),
            other => panic!("{s:?} gave {:?}", other),
        }
    }
}

#[test]
fn nested_generic_with_one_binding_round_trips() {
    let inner = generic("!", "List", vec![("U", single("core", "Int"))]);
    let t = generic("lib", "Map", vec![("K", single("!", "Str")), ("V", inner)]);
    let text = encode(&t);
    assert_eq!(text, "[lib]Map[K:[!]Str|V:[!]List[U:[core]Int]]");
    assert_eq!(parse(&text), t);
}

#[test]
fn generic_placeholder_asymmetry() {
    let t = StringTypeReference::Generic(name("T"));
    assert_eq!(encode(&t), "T");
    assert!(StringTypeReference::from_string_repr(&encode(&t)).is_err());
    assert_eq!(parse("@T"), t);
    assert!(parse("@T").is_generic());
}

#[test]
fn duplicate_parameter_names_keep_the_last_value_in_the_first_place() {
    let back = parse("[!]Map[K:[!]A|V:[!]B|K:[!]C]");
    assert_eq!(back, generic("!", "Map", vec![("K", single("!", "C")), ("V", single("!", "B"))]));
}

#[test]
fn encoding_without_assembly() {
    assert_eq!(single("!", "Int").string_name_repr_without_assembly().as_str(), "Int");
    let t = generic("!", "List", vec![("T", single("!", "Int"))]);
    assert_eq!(t.string_name_repr_without_assembly().as_str(), "List[T:[!]Int]");
    assert_eq!(StringTypeReference::Generic(name("T")).string_name_repr_without_assembly().as_str(), "T");
}

#[test]
fn equal_constructions_hash_alike() {
    let a = generic("!", "Map", vec![("K", single("!", "Str")), ("V", single("!", "Int"))]);
    let b = generic("!", "Map", vec![("K", single("!", "Str")), ("V", single("!", "Int"))]);
    assert_eq!(a, b);
    assert_eq!(a.hash_code(), b.hash_code());
    assert_eq!(single("!", "Int").hash_code(), parse("[!]Int").hash_code());
}

#[test]
fn binding_order_matters_for_equality() {
    let a = generic("!", "Map", vec![("K", single("!", "Str")), ("V", single("!", "Int"))]);
    let b = generic("!", "Map", vec![("V", single("!", "Int")), ("K", single("!", "Str"))]);
    assert_ne!(a, b);
    assert_ne!(single("!", "Int"), StringTypeReference::Generic(name("Int")));
    assert_ne!(single("!", "Int"), single("core", "Int"));
}

#[test]
fn shapes_hash_apart() {
    assert_ne!(single("!", "T").hash_code(), StringTypeReference::Generic(name("T")).hash_code());
}

#[test]
fn core_constructors() {
    assert_eq!(StringTypeReference::core_assembly_name().as_str(), "!");
    assert_eq!(StringTypeReference::core_static_single_type("Int"), single("!", "Int"));
    assert_eq!(StringTypeReference::core_single_type(name("Int")), single("!", "Int"));
    assert_eq!(StringTypeReference::make_static_single("a", "B"), single("a", "B"));
    let g = StringTypeReference::core_generic_type(name("List"), vars(vec![("T", single("!", "Int"))]));
    assert_eq!(encode(&g), "[!]List[T:[!]Int]");
    assert_eq!(single("!", "Int").unwrap_single_name_ref().as_str(), "Int");
    assert_eq!(g.assembly_name().unwrap().as_str(), "!");
    assert!(StringTypeReference::Generic(name("T")).assembly_name().is_none());
    assert!(!g.is_generic());
}

#[test]
fn method_single_encodes_verbatim() {
    let m = StringMethodReference::Single(name("Foo(Int)"));
    assert_eq!(m.string_name_repr().as_str(), "Foo(Int)");
    assert_eq!(StringMethodReference::static_single("A([!]A,[!]B)").string_name_repr().as_str(), "A([!]A,[!]B)");
}

#[test]
fn static_ctor_round_trips() {
    let m = StringMethodReference::static_ctor_ref();
    assert_eq!(m.string_name_repr().as_str(), ".sctor()");
    match StringMethodReference::from_string_repr(".sctor()").unwrap() {
        StringMethodReference::Single(s) => assert_eq!(s.as_str(), ".sctor()"),
        _ => panic!("expected a plain signature"),
    }
}

#[test]
fn method_with_generic_parses() {
    let m = StringMethodReference::from_string_repr("Foo([!]T)[T:[!]Int|U:[!]List[V:[!]Str]]").unwrap();
    assert_eq!(m.string_name_repr().as_str(), "Foo([!]T)[T:[!]Int|U:[!]List[V:[!]Str]]");
    let (sig, tv) = m.unwrap_with_generic();
    assert_eq!(sig.as_str(), "Foo([!]T)");
    assert_eq!(tv.len(), 2);
    assert_eq!(*tv.get_index(1).1, generic("!", "List", vec![("V", single("!", "Str"))]));
}

#[test]
fn method_signature_ends_at_last_paren_before_group() {
    let m = StringMethodReference::from_string_repr("F(a)(b)[T:[!]Int]").unwrap();
    let (sig, _) = m.unwrap_with_generic();
    assert_eq!(sig.as_str(), "F(a)(b)");
    let s = StringMethodReference::from_string_repr("F(a)[x](b)").unwrap().unwrap_single();
    assert_eq!(s.as_str(), "F(a)[x](b)");
}

#[test]
fn method_parse_errors() {
    for s in ["Foo", "Foo(", "Foo()x", "Foo()[T]", "Foo(\n)", ""] {
        match StringMethodReference::from_string_repr(s) {
            Err(ParseStrError::AtStringMethodReference(e)) => assert_eq!(e.as_str(), s),
            other => panic!("{s:?} gave {:?}", other),
        }
    }
    match StringMethodReference::from_string_repr("Foo()[T:Int]") {
        Err(ParseStrError::AtStringTypeReference(e)) => assert_eq!(e.as_str(), "Int"),
        other => panic!("unexpected result {:?}", other),
    }
}

#[test]
fn method_with_generic_round_trips() {
    let m = StringMethodReference::WithGeneric(
        name("Make([!]T,[!]U)"),
        vars(vec![("T", single("!", "Int")), ("U", generic("!", "List", vec![("V", single("!", "Str"))]))]),
    );
    let text = m.string_name_repr();
    assert_eq!(text.as_str(), "Make([!]T,[!]U)[T:[!]Int|U:[!]List[V:[!]Str]]");
    let back = StringMethodReference::from_string_repr(text.as_str()).unwrap();
    assert_eq!(back.string_name_repr(), text);
    let (sig, tv) = back.unwrap_with_generic();
    assert_eq!(sig.as_str(), "Make([!]T,[!]U)");
    assert_eq!(*tv.get_index(0).1, single("!", "Int"));
}
