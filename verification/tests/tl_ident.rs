use i_am_mt::code_gen::tl_ident::{
    namespaced_type_path, top_level_type_path, vec_type, TLIdent, PRELUDE_MOD, TOP_MOD,
};
use i_am_mt::code_gen::utils::{contains_char, find_char, i32_suffixed, str_eq};
use i_am_mt::error::SchemaError;
use regex::Regex;

fn id(s: &str) -> TLIdent {
    TLIdent::new(s)
}

#[test]
fn built_ins_are_a_fixed_table() {
    for name in [
        "int", "long", "double", "bytes", "string", "int128", "int256", "Vector t", "Bool",
    ] {
        assert!(id(name).is_built_in_type(), "{}", name);
        assert!(!id(name).should_generate(), "{}", name);
    }
    for name in ["Int", "bool", "vector t", "True", "Foo", "", "int "] {
        assert!(!id(name).is_built_in_type(), "{}", name);
    }
}

#[test]
fn specials_are_a_fixed_table() {
    for name in ["True", "Null", "PeerSettings", "MessageContainer"] {
        assert!(id(name).is_special(), "{}", name);
        assert!(!id(name).should_generate(), "{}", name);
    }
    for name in ["true", "Peersettings", "Bool", "Foo"] {
        assert!(!id(name).is_special(), "{}", name);
    }
}

#[test]
fn vectors_are_not_generated() {
    for name in ["Vector<int>", "vector<Foo>", "VECTOR<ns.Foo>", "Vector<%Message>", "Vector<T>"] {
        assert!(id(name).is_vector(), "{}", name);
        assert!(id(name).is_built_in_type(), "{}", name);
        assert!(!id(name).should_generate(), "{}", name);
    }
    for name in ["Foo", "ns.Foo", "Vector", "Vector<>", "<a>", "P_Q_inner_data", "List<int>"] {
        assert!(!id(name).is_vector(), "{}", name);
        assert!(!id(name).is_built_in_type(), "{}", name);
        assert!(id(name).should_generate(), "{}", name);
    }
}

#[test]
fn generic_split_takes_wrapper_and_argument() {
    assert_eq!(
        id("Vector<int>").generic_split(),
        (Some("Vector".to_string()), "int".to_string())
    );
    assert_eq!(
        id("vector<ns.Foo>").generic_split(),
        (Some("vector".to_string()), "ns.Foo".to_string())
    );
    assert_eq!(id("Foo").generic_split(), (None, "Foo".to_string()));
    assert_eq!(id("Vector<>").generic_split(), (None, "Vector<>".to_string()));
    assert_eq!(id("<ab>").generic_split(), (None, "<ab>".to_string()));
    assert_eq!(id("").generic_split(), (None, "".to_string()));
}

#[test]
fn generic_shapes_agree_with_the_pattern() {
    let pattern = Regex::new(r"(?i)^(?P<outer>.+?)<(?P<inner>.+?)>$").unwrap();
    let samples = [
        "", "a", "<", ">", "<>", "a<>", "a<b", "a<b>", "<b>", "<<b>", "a<b>c", "a<b>>", "a<<b>",
        "Vector<int>", "vector<ns.Foo>", "Vector<Vector<int>>", "a\n<b>", "a<\nb>", "a<b>\n",
        "a<b\n>", "ab<cd>", "a<b><c>", "Vector t", "a<b>c>", "é<ü>", "a<>>", "<<>>", "a< >",
        "Foo", "ns.Foo", "x<y", "x>y<", "<a<b>",
    ];
    for text in samples {
        let expected = pattern.captures(text).map(|cap| {
            (
                cap.name("outer").unwrap().as_str().to_string(),
                cap.name("inner").unwrap().as_str().to_string(),
            )
        });
        let ident = id(text);
        let found = match ident.check_field_type() {
            Err(SchemaError::UnknownGeneric) | Err(SchemaError::NestedGeneric) => true,
            _ => ident.is_vector(),
        };
        assert_eq!(found, expected.is_some(), "{:?}", text);
        if let Some((outer, inner)) = expected {
            if outer.to_lowercase() == "vector" && !inner.contains('<') {
                assert_eq!(ident.generic_split(), (Some(outer), inner), "{:?}", text);
            }
        }
    }
}

#[test]
fn the_wrapper_is_compared_without_regard_to_case() {
    let wrappers = [
        "Vector", "vector", "VECTOR", "vEcToR", "Vectors", "Vecto", "Vect\u{43e}r", "\u{56}ector",
        "Vec\u{2c6f}or", "vect\u{f6}r", "Vector ", " Vector", "V\u{212a}ctor", "Ve\u{441}tor",
    ];
    for wrapper in wrappers {
        let text = format!("{}<int>", wrapper);
        assert_eq!(
            id(&text).is_vector(),
            wrapper.to_lowercase() == "vector",
            "{:?}",
            wrapper
        );
    }
}

#[test]
fn namespace_split_takes_one_level() {
    assert_eq!(id("Foo").namespace_split(), (None, "Foo".to_string()));
    assert_eq!(
        id("ns.Foo").namespace_split(),
        (Some("ns".to_string()), "Foo".to_string())
    );
    assert_eq!(
        id("ns.").namespace_split(),
        (Some("ns".to_string()), "".to_string())
    );
    assert_eq!(
        id(".Foo").namespace_split(),
        (Some("".to_string()), "Foo".to_string())
    );
    assert_eq!(id("").namespace_split(), (None, "".to_string()));
}

#[test]
fn type_names_are_camel_case() {
    assert_eq!(id("P_Q_inner_data").as_rust_type_name(), "PQInnerData");
    assert_eq!(id("aaa.Bbb").as_rust_type_name(), "Bbb");
    assert_eq!(id("aaa.bbb_ccc").as_rust_type_name(), "BbbCcc");
    assert_eq!(id("ResPQ").as_rust_type_name(), "ResPq");
    assert_eq!(id("Vector<aaa.Bbb>").as_rust_type_name(), "Vec<super::aaa::Bbb>");
    assert_eq!(id("Vector<Bbb>").as_rust_type_name(), "Vec<super::tl::Bbb>");
    assert_eq!(id("Vector<int>").as_rust_type_name(), "Vec<i32>");
}

#[test]
fn type_paths_resolve_built_ins_namespaces_and_vectors() {
    assert_eq!(id("int").as_rust_type_path(), "i32");
    assert_eq!(id("long").as_rust_type_path(), "i64");
    assert_eq!(id("double").as_rust_type_path(), "f64");
    assert_eq!(id("bytes").as_rust_type_path(), "TLBytes");
    assert_eq!(id("string").as_rust_type_path(), "String");
    assert_eq!(id("int128").as_rust_type_path(), "[u8; 16]");
    assert_eq!(id("int256").as_rust_type_path(), "[u8; 32]");
    assert_eq!(id("Bool").as_rust_type_path(), "bool");
    assert_eq!(id("aaa.Bbb").as_rust_type_path(), "super::aaa::Bbb");
    assert_eq!(id("aaa.bbb_ccc").as_rust_type_path(), "super::aaa::BbbCcc");
    assert_eq!(id("Vector<aaa.bbb_ccc>").as_rust_type_path(), "Vec<super::aaa::BbbCcc>");
    assert_eq!(id("Bbb").as_rust_type_path(), "super::tl::Bbb");
    assert_eq!(id("server_DH_params").as_rust_type_path(), "super::tl::ServerDhParams");
    assert_eq!(id("Vector<aaa.Bbb>").as_rust_type_path(), "Vec<super::aaa::Bbb>");
    assert_eq!(id("Vector<Bbb>").as_rust_type_path(), "Vec<super::tl::Bbb>");
    assert_eq!(id("vector<long>").as_rust_type_path(), "Vec<i64>");
    assert_eq!(id("True").as_rust_type_path(), "super::tl::True");
}

#[test]
fn a_path_ends_in_the_name_of_the_emitted_type() {
    for (name, module) in [
        ("aaa.bbb_ccc", "aaa"),
        ("auth.sentCode", "auth"),
        ("help.Config", "help"),
        ("server_DH_params", "tl"),
        ("ResPQ", "tl"),
        ("ns.int", "ns"),
    ] {
        let ident = id(name);
        assert_eq!(
            ident.as_rust_type_path(),
            format!("super::{}::{}", module, ident.as_rust_type_name()),
            "{}",
            name
        );
    }
}

#[test]
fn paths_are_put_together_from_their_parts() {
    assert_eq!(top_level_type_path("Abc"), "super::tl::Abc");
    assert_eq!(top_level_type_path(""), "super::tl::");
    assert_eq!(namespaced_type_path("ns", "name"), "super::ns::name");
    assert_eq!(vec_type("i32"), "Vec<i32>");
    assert_eq!(PRELUDE_MOD, "prelude");
    assert_eq!(TOP_MOD, "tl");
}

#[test]
fn field_names_are_snake_case_and_avoid_the_reserved_word() {
    assert_eq!(id("type").as_field_name(), "ty");
    assert_eq!(id("server_nonce").as_field_name(), "server_nonce");
    assert_eq!(id("serverNonce").as_field_name(), "server_nonce");
    assert_eq!(id("Type").as_field_name(), "type");
    assert_eq!(id("pq").as_field_name(), "pq");
}

#[test]
fn variant_names_are_camel_case_without_the_namespace() {
    assert_eq!(id("p_q_inner_data_temp").as_variant_name(), "PQInnerDataTemp");
    assert_eq!(id("auth.sentCode").as_variant_name(), "SentCode");
    assert_eq!(id("boolTrue").as_variant_name(), "BoolTrue");
}

#[test]
fn malformed_identifiers_are_told_apart() {
    assert_eq!(id("Foo").check_field_type(), Ok(()));
    assert_eq!(id("ns.Foo").check_field_type(), Ok(()));
    assert_eq!(id("Vector<ns.Foo>").check_field_type(), Ok(()));
    assert_eq!(id("a.b.c").check_field_type(), Err(SchemaError::NamespaceDepth));
    assert_eq!(
        id("Vector<a.b.c>").check_field_type(),
        Err(SchemaError::NamespaceDepth)
    );
    assert_eq!(
        id("Vector<Vector<int>>").check_field_type(),
        Err(SchemaError::NestedGeneric)
    );
    assert_eq!(id("List<int>").check_field_type(), Err(SchemaError::UnknownGeneric));
    assert_eq!(id("Foo<").check_field_type(), Err(SchemaError::StrayPunctuation));
    assert_eq!(id("Foo>").check_field_type(), Err(SchemaError::StrayPunctuation));
    assert_eq!(
        id("Vector<a>b>").check_field_type(),
        Err(SchemaError::StrayPunctuation)
    );
    assert_eq!(id("PeerSettings").check_field_type(), Err(SchemaError::SpecialType));
    assert_eq!(
        id("Vector<PeerSettings>").check_field_type(),
        Err(SchemaError::SpecialType)
    );

    assert_eq!(id("name").check_field_name(), Ok(()));
    assert_eq!(id("a.b").check_field_name(), Err(SchemaError::StrayPunctuation));
    assert_eq!(id("a<b").check_field_name(), Err(SchemaError::StrayPunctuation));
    assert_eq!(id("a>").check_field_name(), Err(SchemaError::StrayPunctuation));

    assert_eq!(id("ns.ctor").check_variant_name(), Ok(()));
    assert_eq!(id("a.b.c").check_variant_name(), Err(SchemaError::NamespaceDepth));
    assert_eq!(id("a<b>").check_variant_name(), Err(SchemaError::StrayPunctuation));

    assert_eq!(id("ns.Foo").check_type_name(), Ok(()));
    assert_eq!(id("Vector<int>").check_type_name(), Ok(()));
    assert_eq!(id("a.b.c").check_type_name(), Err(SchemaError::NamespaceDepth));
    assert_eq!(id("a<").check_type_name(), Err(SchemaError::StrayPunctuation));
    assert_eq!(id("Map<int>").check_type_name(), Err(SchemaError::UnknownGeneric));

    assert_eq!(id("ns.Foo").check_return_type(), Ok(()));
    assert_eq!(id("Vector<int>").check_return_type(), Ok(()));
    assert_eq!(id("True").check_return_type(), Ok(()));
    assert_eq!(id("a.b.c").check_return_type(), Err(SchemaError::NamespaceDepth));
    assert_eq!(id("Foo<").check_return_type(), Err(SchemaError::StrayPunctuation));
    assert_eq!(id("Set<int>").check_return_type(), Err(SchemaError::UnknownGeneric));
    assert_eq!(
        id("Vector<Vector<int>>").check_return_type(),
        Err(SchemaError::NestedGeneric)
    );
}

#[test]
fn identifiers_keep_their_text() {
    let ident = id("ns.Foo");
    assert_eq!(ident.as_str(), "ns.Foo");
    assert_eq!(ident.duplicate().as_str(), "ns.Foo");
    assert!(ident.same_as(&id("ns.Foo")));
    assert!(!ident.same_as(&id("ns.foo")));
    assert_eq!(ident, id("ns.Foo"));
    assert_eq!("ns.Foo".parse::<TLIdent>(), Ok(id("ns.Foo")));
}

#[test]
fn text_helpers_search_by_character() {
    assert_eq!(find_char("a.b.c", '.', 0), 1);
    assert_eq!(find_char("a.b.c", '.', 2), 3);
    assert_eq!(find_char("a.b.c", '.', 4), 5);
    assert_eq!(find_char("日本.語", '.', 0), 2);
    assert!(contains_char("a<b", '<'));
    assert!(!contains_char("ab", '<'));
    assert!(str_eq("abc", "abc"));
    assert!(!str_eq("abc", "abd"));
}

#[test]
fn discriminators_are_written_as_hexadecimal_literals() {
    assert_eq!(i32_suffixed(-2083955988), "-0x7c36_a514i32");
    assert_eq!(i32_suffixed(1013613780), "0x3c6a_84d4i32");
    assert_eq!(i32_suffixed(0), "0x0000_0000i32");
    assert_eq!(i32_suffixed(-1), "-0x0000_0001i32");
    assert_eq!(i32_suffixed(i32::MAX), "0x7fff_ffffi32");
    assert_eq!(i32_suffixed(i32::MIN), "-0x8000_0000i32");
    assert_eq!(i32_suffixed(0x1cb5c415), "0x1cb5_c415i32");
}
