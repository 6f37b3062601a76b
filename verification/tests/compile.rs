use i_am_mt::code_gen::generator::arg::Arg;
use i_am_mt::code_gen::generator::emit::{
    compile_as_enum, compile_as_struct, compile_enum_definition, compile_enum_read_impl,
    compile_enum_write_impl, emit_field_lines,
};
use i_am_mt::code_gen::generator::tl_type::{
    find_duplicate, CompiledShape, Constructor, FieldShape, TLType, VariantShape,
};
use i_am_mt::code_gen::schema;
use i_am_mt::code_gen::tl_ident::TLIdent;
use i_am_mt::error::{FormatError, SchemaError};
use proc_macro2::TokenStream;

fn param(name: &str, kind: &str) -> schema::Param {
    schema::Param { name: TLIdent::new(name), kind: TLIdent::new(kind) }
}

fn entry(id: i32, predicate: &str, params: Vec<schema::Param>, kind: &str) -> schema::Constructor {
    schema::Constructor {
        id,
        predicate: TLIdent::new(predicate),
        params,
        return_type: TLIdent::new(kind),
    }
}

fn documents() -> Vec<schema::Constructor> {
    vec![
        entry(
            1013613780,
            "p_q_inner_data_temp",
            vec![
                param("pq", "bytes"),
                param("p", "bytes"),
                param("q", "bytes"),
                param("nonce", "int128"),
                param("server_nonce", "int128"),
                param("new_nonce", "int256"),
                param("expires_in", "int"),
            ],
            "P_Q_inner_data",
        ),
        entry(
            -2083955988,
            "p_q_inner_data",
            vec![
                param("pq", "bytes"),
                param("p", "bytes"),
                param("q", "bytes"),
                param("nonce", "int128"),
                param("server_nonce", "int128"),
                param("new_nonce", "int256"),
            ],
            "P_Q_inner_data",
        ),
    ]
}

fn tokens(text: &str) -> String {
    text.parse::<TokenStream>().unwrap().to_string()
}

fn target_enum() -> String {
    tokens(
        "#[derive(Debug, Clone)]
        pub enum PQInnerData {
            PQInnerDataTemp {
                pq: TLBytes,
                p: TLBytes,
                q: TLBytes,
                nonce: [u8; 16],
                server_nonce: [u8; 16],
                new_nonce: [u8; 32],
                expires_in: i32,
            },
            PQInnerData {
                pq: TLBytes,
                p: TLBytes,
                q: TLBytes,
                nonce: [u8; 16],
                server_nonce: [u8; 16],
                new_nonce: [u8; 32],
            },
        }
        impl TLType for PQInnerData {
            fn tl_read(input: &mut std::io::Read) -> MyResult<Self> {
                let id: i32 = TLType::tl_read(input)?;
                Ok(match id {
                    0x3c6a_84d4i32 => PQInnerData::PQInnerDataTemp {
                        pq: TLType::tl_read(input)?,
                        p: TLType::tl_read(input)?,
                        q: TLType::tl_read(input)?,
                        nonce: TLType::tl_read(input)?,
                        server_nonce: TLType::tl_read(input)?,
                        new_nonce: TLType::tl_read(input)?,
                        expires_in: TLType::tl_read(input)?,
                    },
                    -0x7c36_a514i32 => PQInnerData::PQInnerData {
                        pq: TLType::tl_read(input)?,
                        p: TLType::tl_read(input)?,
                        q: TLType::tl_read(input)?,
                        nonce: TLType::tl_read(input)?,
                        server_nonce: TLType::tl_read(input)?,
                        new_nonce: TLType::tl_read(input)?,
                    },
                    _ => return Err(FormatError::UnknownConstructor(id).into()),
                })
            }

            fn tl_write(&self, output: &mut std::io::Write) -> MyResult<usize> {
                let mut result = 4usize;
                match self {
                    PQInnerData::PQInnerDataTemp {
                        pq,
                        p,
                        q,
                        nonce,
                        server_nonce,
                        new_nonce,
                        expires_in,
                    } => {
                        (0x3c6a_84d4i32).tl_write(output)?;
                        result += pq.tl_write(output)?;
                        result += p.tl_write(output)?;
                        result += q.tl_write(output)?;
                        result += nonce.tl_write(output)?;
                        result += server_nonce.tl_write(output)?;
                        result += new_nonce.tl_write(output)?;
                        result += expires_in.tl_write(output)?;
                    }
                    PQInnerData::PQInnerData {
                        pq,
                        p,
                        q,
                        nonce,
                        server_nonce,
                        new_nonce,
                    } => {
                        (-0x7c36_a514i32).tl_write(output)?;
                        result += pq.tl_write(output)?;
                        result += p.tl_write(output)?;
                        result += q.tl_write(output)?;
                        result += nonce.tl_write(output)?;
                        result += server_nonce.tl_write(output)?;
                        result += new_nonce.tl_write(output)?;
                    }
                }
                Ok(result)
            }
        }",
    )
}

fn target_struct() -> String {
    tokens(
        "#[derive(Debug, Clone)]
        pub struct PQInnerData {
            pq: TLBytes,
            p: TLBytes,
            q: TLBytes,
            nonce: [u8; 16],
            server_nonce: [u8; 16],
            new_nonce: [u8; 32],
        }
        impl TLType for PQInnerData {
            fn tl_read(input: &mut std::io::Read) -> MyResult<Self> {
                let id: i32 = TLType::tl_read(input)?;
                if id != -0x7c36_a514i32 {
                    return Err(FormatError::UnknownConstructor(id).into());
                }
                Ok(PQInnerData {
                    pq: TLType::tl_read(input)?,
                    p: TLType::tl_read(input)?,
                    q: TLType::tl_read(input)?,
                    nonce: TLType::tl_read(input)?,
                    server_nonce: TLType::tl_read(input)?,
                    new_nonce: TLType::tl_read(input)?,
                })
            }

            fn tl_write(&self, output: &mut std::io::Write) -> MyResult<usize> {
                (-0x7c36_a514i32).tl_write(output)?;
                let mut result = 4usize;
                result += self.pq.tl_write(output)?;
                result += self.p.tl_write(output)?;
                result += self.q.tl_write(output)?;
                result += self.nonce.tl_write(output)?;
                result += self.server_nonce.tl_write(output)?;
                result += self.new_nonce.tl_write(output)?;
                Ok(result)
            }
        }",
    )
}

fn logical_type(entries: &[schema::Constructor]) -> TLType {
    TLType { constructors: entries.iter().map(Constructor::new).collect() }
}

#[test]
fn test_enum_compile() {
    let documents = documents();
    let ty = logical_type(&documents);
    assert_eq!(target_enum(), tokens(&ty.compile().unwrap().to_source()));
}

#[test]
fn test_struct_compile() {
    let documents = &documents()[1..];
    let ty = logical_type(documents);
    assert_eq!(target_struct(), tokens(&ty.compile().unwrap().to_source()));
}

#[test]
fn constructors_are_taken_over_field_by_field() {
    let info = &documents()[0];
    let made = Constructor::new(info);
    assert_eq!(made.id, 1013613780);
    assert_eq!(made.name, TLIdent::new("p_q_inner_data_temp"));
    assert_eq!(made.return_type, TLIdent::new("P_Q_inner_data"));
    assert_eq!(made.fields.len(), 7);
    assert_eq!(made.fields[0].name, TLIdent::new("pq"));
    assert_eq!(made.fields[0].kind, TLIdent::new("bytes"));
    assert_eq!(made.fields[6].name, TLIdent::new("expires_in"));
    assert_eq!(made.fields[6].kind, TLIdent::new("int"));
    let copy = made.duplicate();
    assert_eq!(copy.id, made.id);
    assert_eq!(copy.fields.len(), 7);
    assert_eq!(copy.fields[3].kind, TLIdent::new("int128"));
}

#[test]
fn one_constructor_makes_a_record() {
    let ty = logical_type(&[entry(7, "foo", vec![param("type", "Vector<ns.Bar>")], "Foo")]);
    let shape = ty.compile().unwrap();
    assert_eq!(
        shape,
        CompiledShape::Record {
            name: "Foo".to_string(),
            constructor: VariantShape {
                name: "Foo".to_string(),
                id: 7,
                fields: vec![FieldShape {
                    name: "ty".to_string(),
                    path: "Vec<super::ns::Bar>".to_string()
                }],
            },
        }
    );
    assert_eq!(shape.select(7), Ok(0));
    assert_eq!(shape.select(8), Err(FormatError::UnknownConstructor(8)));
}

#[test]
fn two_constructors_make_a_union() {
    let ty = logical_type(&[
        entry(1, "barA", vec![], "ns.Bar"),
        entry(-2, "barB", vec![param("x", "long")], "ns.Bar"),
    ]);
    let shape = ty.compile().unwrap();
    assert_eq!(
        shape,
        CompiledShape::TaggedUnion {
            name: "Bar".to_string(),
            variants: vec![
                VariantShape { name: "BarA".to_string(), id: 1, fields: vec![] },
                VariantShape {
                    name: "BarB".to_string(),
                    id: -2,
                    fields: vec![FieldShape { name: "x".to_string(), path: "i64".to_string() }],
                },
            ],
        }
    );
    assert_eq!(shape.select(1), Ok(0));
    assert_eq!(shape.select(-2), Ok(1));
    assert_eq!(shape.select(2), Err(FormatError::UnknownConstructor(2)));
}

#[test]
fn a_type_without_constructors_does_not_compile() {
    assert_eq!(TLType::default().compile(), Err(SchemaError::NoConstructors));
    assert_eq!(logical_type(&[]).compile(), Err(SchemaError::NoConstructors));
}

#[test]
fn an_id_used_twice_does_not_compile() {
    let ty = logical_type(&[
        entry(1, "a", vec![], "T"),
        entry(2, "b", vec![], "T"),
        entry(3, "c", vec![], "T"),
        entry(2, "d", vec![], "T"),
        entry(1, "e", vec![], "T"),
    ]);
    assert_eq!(ty.compile(), Err(SchemaError::DuplicateId(2)));
}

#[test]
fn the_first_repeated_id_is_found() {
    assert_eq!(find_duplicate(&vec![]), None);
    assert_eq!(find_duplicate(&vec![1, 2, 3]), None);
    assert_eq!(find_duplicate(&vec![1, 2, 1, 2]), Some(1));
    assert_eq!(find_duplicate(&vec![1, 2, 3, 3, 1]), Some(3));
    assert_eq!(find_duplicate(&vec![i32::MIN, 0, i32::MIN]), Some(i32::MIN));
}

#[test]
fn the_first_malformed_name_decides_the_error() {
    let ty = logical_type(&[entry(1, "a", vec![], "x.y.T")]);
    assert_eq!(ty.compile(), Err(SchemaError::NamespaceDepth));
    let ty = logical_type(&[
        entry(1, "a", vec![param("ok", "int")], "T"),
        entry(1, "b<", vec![param("x.y", "int")], "T"),
    ]);
    assert_eq!(ty.compile(), Err(SchemaError::StrayPunctuation));
    let ty = logical_type(&[entry(
        1,
        "a",
        vec![param("f", "int"), param("g", "Vector<Vector<int>>"), param("h.i", "int")],
        "T",
    )]);
    assert_eq!(ty.compile(), Err(SchemaError::NestedGeneric));
    let ty = logical_type(&[entry(
        1,
        "a",
        vec![param("s", "PeerSettings")],
        "T",
    )]);
    assert_eq!(ty.compile(), Err(SchemaError::SpecialType));
    let ty = logical_type(&[entry(1, "a", vec![param("s", "Set<int>")], "T")]);
    assert_eq!(ty.compile(), Err(SchemaError::UnknownGeneric));
    let ty = logical_type(&[
        entry(1, "a", vec![param("s", "a.b.c")], "T"),
        entry(1, "b", vec![], "T"),
    ]);
    assert_eq!(ty.compile(), Err(SchemaError::NamespaceDepth));
}

#[test]
fn field_lines_follow_their_pattern() {
    let fields = vec![
        FieldShape { name: "a".to_string(), path: "i32".to_string() },
        FieldShape { name: "b".to_string(), path: "String".to_string() },
    ];
    assert_eq!(
        emit_field_lines(&fields, "  ", ": ", true, ",\n"),
        "  a: i32,\n  b: String,\n"
    );
    assert_eq!(emit_field_lines(&fields, "<", ">", false, "!"), "<a>!<b>!");
    assert_eq!(emit_field_lines(&vec![], "<", ">", true, "!"), "");
}

#[test]
fn a_record_without_fields_is_written_out() {
    let constructor = VariantShape { name: "Ping".to_string(), id: 0x1cb5c415, fields: vec![] };
    assert_eq!(
        compile_as_struct("Ping", &constructor),
        "#[derive(Debug, Clone)]\n\
         pub struct Ping {\n\
         }\n\
         \n\
         impl TLType for Ping {\n    \
             fn tl_read(input: &mut std::io::Read) -> MyResult<Self> {\n        \
                 let id: i32 = TLType::tl_read(input)?;\n        \
                 if id != 0x1cb5_c415i32 {\n            \
                     return Err(FormatError::UnknownConstructor(id).into());\n        \
                 }\n        \
                 Ok(Ping {\n        \
                 })\n    \
             }\n\
         \n    \
             fn tl_write(&self, output: &mut std::io::Write) -> MyResult<usize> {\n        \
                 (0x1cb5_c415i32).tl_write(output)?;\n        \
                 let mut result = 4usize;\n        \
                 Ok(result)\n    \
             }\n\
         }\n"
    );
}

#[test]
fn a_union_is_put_together_from_its_parts() {
    let variants = vec![
        VariantShape { name: "A".to_string(), id: 1, fields: vec![] },
        VariantShape {
            name: "B".to_string(),
            id: -1,
            fields: vec![FieldShape { name: "x".to_string(), path: "bool".to_string() }],
        },
    ];
    let definition = compile_enum_definition("T", &variants);
    assert_eq!(
        definition,
        "#[derive(Debug, Clone)]\npub enum T {\n    A {\n    },\n    B {\n        x: bool,\n    },\n}\n"
    );
    let read = compile_enum_read_impl("T", &variants);
    assert_eq!(
        tokens(&read),
        tokens(
            "fn tl_read(input: &mut std::io::Read) -> MyResult<Self> {
                let id: i32 = TLType::tl_read(input)?;
                Ok(match id {
                    0x0000_0001i32 => T::A {},
                    -0x0000_0001i32 => T::B { x: TLType::tl_read(input)?, },
                    _ => return Err(FormatError::UnknownConstructor(id).into()),
                })
            }"
        )
    );
    let write = compile_enum_write_impl("T", &variants);
    assert_eq!(
        tokens(&write),
        tokens(
            "fn tl_write(&self, output: &mut std::io::Write) -> MyResult<usize> {
                let mut result = 4usize;
                match self {
                    T::A {} => { (0x0000_0001i32).tl_write(output)?; }
                    T::B { x, } => {
                        (-0x0000_0001i32).tl_write(output)?;
                        result += x.tl_write(output)?;
                    }
                }
                Ok(result)
            }"
        )
    );
    assert_eq!(
        compile_as_enum("T", &variants),
        format!("{}\nimpl TLType for T {{\n{}\n{}}}\n", definition, read, write)
    );
    let shape = CompiledShape::TaggedUnion { name: "T".to_string(), variants };
    assert_eq!(shape.to_source(), compile_as_enum("T", match &shape {
        CompiledShape::TaggedUnion { variants, .. } => variants,
        CompiledShape::Record { .. } => unreachable!(),
    }));
}

#[test]
fn arguments_hold_a_name_and_a_type() {
    let arg = Arg { name: TLIdent::new("n"), kind: TLIdent::new("int") };
    assert_eq!(arg.clone().name, TLIdent::new("n"));
    assert_eq!(arg.kind.as_rust_type_path(), "i32");
}
