use abi_types::{parse, parse_signature, BaseType, Dim, ParameterDescriptor, ParseError, Type};

fn desc(name: &str, ty: &str, components: Vec<ParameterDescriptor>) -> ParameterDescriptor {
    ParameterDescriptor {
        name: name.to_string(),
        ty: ty.to_string(),
        components,
        indexed: None,
    }
}

fn field(name: &str, t: Type) -> (String, Type) {
    (name.to_string(), t)
}

#[test]
fn dynamic_follows_parts() {
    assert!(!Type::FixedArray(Box::new(Type::Uint(256)), 5).is_dynamic());
    assert!(Type::FixedArray(Box::new(Type::String), 5).is_dynamic());
    assert!(Type::Array(Box::new(Type::Uint(8))).is_dynamic());
    assert!(Type::Tuple(vec![field("a", Type::Uint(8)), field("b", Type::Bytes)]).is_dynamic());
    assert!(!Type::Tuple(vec![field("a", Type::Uint(8)), field("b", Type::Bool)]).is_dynamic());
    assert!(!Type::Address.is_dynamic());
    assert!(!Type::FixedBytes(32).is_dynamic());
    assert!(Type::Bytes.is_dynamic());
}

#[test]
fn nesting_order() {
    let t = parse(&desc("", "uint8[2][3]", vec![])).unwrap();
    assert_eq!(
        t,
        Type::FixedArray(Box::new(Type::FixedArray(Box::new(Type::Uint(8)), 2)), 3)
    );
    assert_eq!(t.render_canonical(), "uint8[2][3]");
}

#[test]
fn width_validation() {
    assert_eq!(parse(&desc("", "uint7", vec![])), Err(ParseError::InvalidWidth));
    assert_eq!(parse(&desc("", "uint256", vec![])), Ok(Type::Uint(256)));
    assert_eq!(parse(&desc("", "int8", vec![])), Ok(Type::Int(8)));
    assert_eq!(parse(&desc("", "uint264", vec![])), Err(ParseError::InvalidWidth));
    assert_eq!(parse(&desc("", "uint0", vec![])), Err(ParseError::InvalidWidth));
    assert_eq!(parse(&desc("", "uint", vec![])), Err(ParseError::InvalidWidth));
    assert_eq!(parse(&desc("", "bytes32", vec![])), Ok(Type::FixedBytes(32)));
    assert_eq!(parse(&desc("", "bytes1", vec![])), Ok(Type::FixedBytes(1)));
    assert_eq!(parse(&desc("", "bytes33", vec![])), Err(ParseError::InvalidWidth));
    assert_eq!(parse(&desc("", "bytes0", vec![])), Err(ParseError::InvalidWidth));
    assert_eq!(parse(&desc("", "bytes", vec![])), Ok(Type::Bytes));
    assert_eq!(
        parse(&desc("", "uint99999999999999999999999", vec![])),
        Err(ParseError::InvalidWidth)
    );
}

#[test]
fn tuple_components_pairing() {
    assert_eq!(parse(&desc("", "tuple", vec![])), Err(ParseError::MissingComponents));
    assert_eq!(
        parse(&desc("", "uint256", vec![desc("x", "bool", vec![])])),
        Err(ParseError::UnexpectedComponents)
    );
}

#[test]
fn end_to_end_tuple_array() {
    let d = desc(
        "",
        "tuple[2]",
        vec![desc("x", "uint256", vec![]), desc("y", "bool", vec![])],
    );
    let t = parse(&d).unwrap();
    assert_eq!(
        t,
        Type::FixedArray(
            Box::new(Type::Tuple(vec![field("x", Type::Uint(256)), field("y", Type::Bool)])),
            2
        )
    );
    assert!(!t.is_dynamic());
    assert_eq!(t.render_canonical(), "(uint256,bool)[2]");
}

#[test]
fn deep_nesting() {
    let d = desc(
        "outer",
        "tuple",
        vec![desc("mid", "tuple[]", vec![desc("leaf", "bytes", vec![])])],
    );
    let t = parse(&d).unwrap();
    let leaf = Type::Bytes;
    let inner = Type::Tuple(vec![field("leaf", Type::Bytes)]);
    let mid = Type::Array(Box::new(Type::Tuple(vec![field("leaf", Type::Bytes)])));
    assert_eq!(t, Type::Tuple(vec![field("mid", mid)]));
    assert!(t.is_dynamic());
    assert!(inner.is_dynamic());
    assert!(leaf.is_dynamic());
    if let Type::Tuple(fs) = &t {
        assert!(fs[0].1.is_dynamic());
    }
    assert_eq!(t.render_canonical(), "((bytes)[])");
}

#[test]
fn grammar_errors() {
    assert_eq!(parse(&desc("", "float", vec![])), Err(ParseError::UnknownBaseType));
    assert_eq!(parse(&desc("", "", vec![])), Err(ParseError::UnknownBaseType));
    assert_eq!(parse(&desc("", "(uint8)", vec![])), Err(ParseError::UnknownBaseType));
    assert_eq!(parse(&desc("", "uint8[0]", vec![])), Err(ParseError::MalformedArraySuffix));
    assert_eq!(parse(&desc("", "uint8[x]", vec![])), Err(ParseError::MalformedArraySuffix));
    assert_eq!(parse(&desc("", "uint8[2", vec![])), Err(ParseError::MalformedArraySuffix));
    assert_eq!(parse(&desc("", "uint8[", vec![])), Err(ParseError::MalformedArraySuffix));
    assert_eq!(
        parse(&desc("", "uint8[99999999999999999999999]", vec![])),
        Err(ParseError::MalformedArraySuffix)
    );
    assert_eq!(parse(&desc("", "uint8x", vec![])), Err(ParseError::TrailingInput));
    assert_eq!(parse(&desc("", "uint8]", vec![])), Err(ParseError::TrailingInput));
    assert_eq!(parse(&desc("", "address8", vec![])), Err(ParseError::TrailingInput));
    assert_eq!(parse(&desc("", "bool[]x", vec![])), Err(ParseError::TrailingInput));
}

#[test]
fn nested_failure_points_at_component() {
    let d = desc(
        "",
        "tuple",
        vec![
            desc("a", "uint8", vec![]),
            desc("b", "tuple", vec![desc("c", "bool", vec![]), desc("d", "uint7", vec![])]),
            desc("e", "nope", vec![]),
        ],
    );
    assert_eq!(
        parse(&d),
        Err(ParseError::NestedFailure(
            1,
            Box::new(ParseError::NestedFailure(1, Box::new(ParseError::InvalidWidth)))
        ))
    );
}

#[test]
fn canonical_rendering() {
    assert_eq!(Type::Uint(256).render_canonical(), "uint256");
    assert_eq!(Type::Int(16).render_canonical(), "int16");
    assert_eq!(Type::Address.render_canonical(), "address");
    assert_eq!(Type::Bool.render_canonical(), "bool");
    assert_eq!(Type::String.render_canonical(), "string");
    assert_eq!(Type::Bytes.render_canonical(), "bytes");
    assert_eq!(Type::FixedBytes(32).render_canonical(), "bytes32");
    assert_eq!(Type::Array(Box::new(Type::Int(16))).render_canonical(), "int16[]");
    assert_eq!(
        Type::Array(Box::new(Type::Tuple(vec![
            field("", Type::Address),
            field("", Type::Uint(256))
        ])))
        .render_canonical(),
        "(address,uint256)[]"
    );
}

#[test]
fn descriptor_round_trip() {
    let t = Type::Array(Box::new(Type::FixedArray(
        Box::new(Type::Tuple(vec![
            field("x", Type::Uint(256)),
            field("inner", Type::Tuple(vec![field("s", Type::String), field("", Type::FixedBytes(4))])),
            field("list", Type::Array(Box::new(Type::Int(24)))),
        ])),
        12,
    )));
    let d = t.to_descriptor();
    assert_eq!(d.ty, "tuple[12][]");
    assert_eq!(d.components.len(), 3);
    assert_eq!(d.components[1].ty, "tuple");
    assert_eq!(d.components[2].ty, "int24[]");
    assert_eq!(parse(&d), Ok(t));
}

#[test]
fn descriptor_of_plain_type_is_canonical() {
    let t = Type::FixedArray(Box::new(Type::Array(Box::new(Type::Bool))), 7);
    let d = t.to_descriptor();
    assert_eq!(d.ty, t.render_canonical());
    assert_eq!(d.ty, "bool[][7]");
    assert!(d.components.is_empty());
    assert_eq!(parse(&d), Ok(t));
}

#[test]
fn signature_splits_base_and_suffixes() {
    assert_eq!(
        parse_signature("bytes32[][4]"),
        Ok((BaseType::FixedBytes(32), vec![Dim::Dynamic, Dim::Fixed(4)]))
    );
    assert_eq!(parse_signature("tuple"), Ok((BaseType::Tuple, vec![])));
    assert_eq!(parse_signature("string[10]"), Ok((BaseType::String, vec![Dim::Fixed(10)])));
}

#[test]
fn same_shape_ignores_names() {
    let a = Type::Tuple(vec![field("x", Type::Uint(8)), field("y", Type::Array(Box::new(Type::Bool)))]);
    let b = Type::Tuple(vec![field("p", Type::Uint(8)), field("", Type::Array(Box::new(Type::Bool)))]);
    let c = Type::Tuple(vec![field("x", Type::Array(Box::new(Type::Bool))), field("y", Type::Uint(8))]);
    assert!(a.same_shape(&b));
    assert_ne!(a, b);
    assert!(!a.same_shape(&c));
    assert!(!Type::Uint(8).same_shape(&Type::Int(8)));
    assert!(!Type::FixedArray(Box::new(Type::Bool), 2).same_shape(&Type::FixedArray(Box::new(Type::Bool), 3)));
    assert_eq!(a.render_canonical(), b.render_canonical());
    assert_eq!(a.is_dynamic(), b.is_dynamic());
}

#[test]
fn canonical_signature_resolves_without_tuples() {
    for t in [
        Type::Uint(256),
        Type::Array(Box::new(Type::FixedBytes(20))),
        Type::FixedArray(Box::new(Type::Array(Box::new(Type::String))), 3),
        Type::Int(128),
        Type::Address,
    ] {
        let d = desc("", &t.render_canonical(), vec![]);
        assert_eq!(parse(&d), Ok(t));
    }
}
