use i_am_mt::code_gen::generator::tl_type::{self, TLType};
use i_am_mt::code_gen::generator::{module_source, Generator};
use i_am_mt::code_gen::schema::{Constructor, Method, Param, Schema};
use i_am_mt::code_gen::tl_ident::TLIdent;
use i_am_mt::error::SchemaError;

fn entry(id: i32, predicate: &str, kind: &str) -> Constructor {
    Constructor {
        id,
        predicate: TLIdent::new(predicate),
        params: vec![Param { name: TLIdent::new("x"), kind: TLIdent::new("int") }],
        return_type: TLIdent::new(kind),
    }
}

fn schema(constructors: Vec<Constructor>) -> Schema {
    Schema::new(constructors, vec![])
}

fn layout(generator: &Generator) -> Vec<(String, Vec<Vec<String>>)> {
    generator
        .types
        .iter()
        .map(|(name, types)| {
            (
                name.clone(),
                types
                    .iter()
                    .map(|t| t.constructors.iter().map(|c| c.name.as_str().to_string()).collect())
                    .collect(),
            )
        })
        .collect()
}

fn names(list: &[&str]) -> Vec<String> {
    list.iter().map(|s| s.to_string()).collect()
}

#[test]
fn constructors_are_grouped_in_first_seen_order() {
    let generator = Generator::new(&schema(vec![
        entry(1, "b1", "ns.B"),
        entry(2, "a1", "A"),
        entry(3, "c1", "ns.C"),
        entry(4, "a2", "A"),
        entry(5, "b2", "ns.B"),
        entry(6, "d1", "other.D"),
        entry(7, "e1", "E"),
    ]))
    .unwrap();
    assert_eq!(
        layout(&generator),
        vec![
            ("ns".to_string(), vec![names(&["b1", "b2"]), names(&["c1"])]),
            ("tl".to_string(), vec![names(&["a1", "a2"]), names(&["e1"])]),
            ("other".to_string(), vec![names(&["d1"])]),
        ]
    );
}

#[test]
fn built_ins_specials_and_vectors_are_left_out() {
    let generator = Generator::new(&schema(vec![
        entry(1, "boolTrue", "Bool"),
        entry(2, "true", "True"),
        entry(3, "peerSettings", "PeerSettings"),
        entry(4, "vector", "Vector t"),
        entry(5, "null", "Null"),
        entry(6, "msg_container", "MessageContainer"),
        entry(7, "list", "Vector<int>"),
        entry(8, "foo", "Foo"),
        entry(9, "int", "int"),
    ]))
    .unwrap();
    assert_eq!(
        layout(&generator),
        vec![("tl".to_string(), vec![names(&["foo"])])]
    );
    let text = module_source(&generator.types[0].1).unwrap();
    assert!(!text.contains("True"));
    assert!(!text.contains("PeerSettings"));
    assert!(text.contains("pub struct Foo"));
}

#[test]
fn the_same_name_in_two_namespaces_is_two_types() {
    let generator = Generator::new(&schema(vec![
        entry(1, "a", "x.T"),
        entry(2, "b", "y.T"),
        entry(3, "c", "T"),
        entry(4, "d", "x.T"),
    ]))
    .unwrap();
    assert_eq!(
        layout(&generator),
        vec![
            ("x".to_string(), vec![names(&["a", "d"])]),
            ("y".to_string(), vec![names(&["b"])]),
            ("tl".to_string(), vec![names(&["c"])]),
        ]
    );
}

#[test]
fn an_empty_schema_groups_to_nothing() {
    let generator = Generator::new(&schema(vec![])).unwrap();
    assert!(generator.types.is_empty());
    assert_eq!(generator.index_source(), "pub mod prelude;\n");
}

#[test]
fn methods_are_carried_but_not_grouped() {
    let method = Method {
        id: 1,
        method: TLIdent::new("req_pq"),
        params: vec![],
        return_type: TLIdent::new("ResPQ"),
    };
    let schema = Schema::new(vec![], vec![method]);
    assert_eq!(schema.methods.len(), 1);
    assert!(Generator::new(&schema).unwrap().types.is_empty());
}

#[test]
fn a_malformed_return_type_stops_the_run() {
    let run = |kinds: &[&str]| {
        Generator::new(&schema(
            kinds.iter().enumerate().map(|(i, k)| entry(i as i32, "c", k)).collect(),
        ))
        .map(|g| g.types.len())
    };
    assert_eq!(run(&["A", "a.b.C", "Foo<"]), Err(SchemaError::NamespaceDepth));
    assert_eq!(run(&["Foo<", "a.b.C"]), Err(SchemaError::StrayPunctuation));
    assert_eq!(run(&["A", "List<int>"]), Err(SchemaError::UnknownGeneric));
    assert_eq!(run(&["Vector<Vector<int>>"]), Err(SchemaError::NestedGeneric));
    assert_eq!(run(&["A", "Vector<int>", "True"]), Ok(1));
}

#[test]
fn a_module_imports_the_prelude_and_holds_its_types() {
    let generator = Generator::new(&schema(vec![
        entry(1, "a", "ns.A"),
        entry(2, "b1", "ns.B"),
        entry(3, "b2", "ns.B"),
    ]))
    .unwrap();
    let text = module_source(&generator.types[0].1).unwrap();
    assert!(text.starts_with("use super::prelude::*;\n\n#[derive(Debug, Clone)]\npub struct A {\n"));
    let a = generator.types[0].1[0].compile().unwrap().to_source();
    let b = generator.types[0].1[1].compile().unwrap().to_source();
    assert_eq!(text, format!("use super::prelude::*;\n\n{}\n{}", a, b));
    assert!(b.starts_with("#[derive(Debug, Clone)]\npub enum B {\n"));
    assert_eq!(module_source(&vec![]).unwrap(), "use super::prelude::*;\n");
}

#[test]
fn a_module_with_a_type_that_does_not_compile_has_no_source() {
    let good = TLType { constructors: vec![tl_type::Constructor::new(&entry(1, "a", "A"))] };
    let bad = TLType {
        constructors: vec![
            tl_type::Constructor::new(&entry(2, "b1", "B")),
            tl_type::Constructor::new(&entry(2, "b2", "B")),
        ],
    };
    assert_eq!(
        module_source(&vec![good.clone(), bad, TLType::default()]),
        Err(SchemaError::DuplicateId(2))
    );
    assert_eq!(
        module_source(&vec![good, TLType::default()]),
        Err(SchemaError::NoConstructors)
    );
}

#[test]
fn an_id_that_two_constructors_share_stops_the_run() {
    let run = |ids: &[i32]| {
        Generator::new(&schema(
            ids.iter().enumerate().map(|(i, id)| entry(*id, "c", ["A", "ns.B", "True"][i % 3])).collect(),
        ))
        .map(|g| g.types.len())
    };
    assert_eq!(run(&[1, 2, 3, 4]), Ok(2));
    assert_eq!(run(&[1, 2, 3, 1]), Err(SchemaError::DuplicateId(1)));
    assert_eq!(run(&[5, 7, 7, 5]), Err(SchemaError::DuplicateId(7)));
    assert_eq!(run(&[0, 9, 0]), Err(SchemaError::DuplicateId(0)));
    assert_eq!(
        Generator::new(&schema(vec![entry(1, "a", "A"), entry(1, "b", "x.y.Z")])).map(|g| g.types.len()),
        Err(SchemaError::NamespaceDepth)
    );
}

#[test]
fn the_index_names_the_prelude_and_every_namespace() {
    let generator = Generator::new(&schema(vec![
        entry(1, "a", "zeta.A"),
        entry(2, "b", "B"),
        entry(3, "c", "alpha.C"),
    ]))
    .unwrap();
    assert_eq!(
        generator.index_source(),
        "pub mod prelude;\npub mod zeta;\npub mod tl;\npub mod alpha;\n"
    );
}
