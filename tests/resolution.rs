use abi_ast::{
    build_type_registries, getFunctionAst, resolve_type, AbiEnum, AbiFunction, AbiInput,
    AbiInterface, AbiItem, AbiMember, AbiStruct, EnumVariant, FunctionAst, TypeNode,
};

fn function(name: &str, inputs: &[(&str, &str)]) -> AbiItem {
    AbiItem::Function(AbiFunction {
        name: name.to_string(),
        inputs: inputs
            .iter()
            .map(|(n, t)| AbiInput { name: n.to_string(), ty: t.to_string() })
            .collect(),
    })
}

fn structure(name: &str, members: &[(&str, &str)]) -> AbiItem {
    AbiItem::Struct(AbiStruct {
        name: name.to_string(),
        members: members
            .iter()
            .map(|(n, t)| AbiMember { name: n.to_string(), ty: t.to_string() })
            .collect(),
    })
}

fn enumeration(name: &str, variants: &[(&str, &str)]) -> AbiItem {
    AbiItem::Enum(AbiEnum {
        name: name.to_string(),
        variants: variants
            .iter()
            .map(|(n, t)| EnumVariant { name: n.to_string(), ty: t.to_string() })
            .collect(),
    })
}

fn interface(name: &str, items: Vec<AbiItem>) -> AbiItem {
    AbiItem::Interface(AbiInterface { name: name.to_string(), items })
}

/// A compact rendering of a tree, to compare against expected text.
fn show(node: &TypeNode) -> String {
    match node {
        TypeNode::Primitive(p) => format!("P({})", p.name),
        TypeNode::Struct(s) => {
            let ms: Vec<String> = s.members.iter().map(|(n, t)| format!("{}: {}", n, show(t))).collect();
            format!("S({} {{{}}})", s.name, ms.join(", "))
        }
        TypeNode::Enum(e) => {
            let vs: Vec<String> = e.variants.iter().map(|v| format!("{}: {}", v.name, v.ty)).collect();
            format!("E({} [{}])", e.name, vs.join(", "))
        }
        TypeNode::Array(a) => format!("A({})", show(&a.element_type)),
        TypeNode::Generic(g) => format!("G({})", g.name),
        TypeNode::Unknown(u) => format!("U({})", u.name),
    }
}

fn show_ast(ast: &FunctionAst) -> String {
    let ins: Vec<String> = ast.inputs.iter().map(|i| format!("{}: {}", i.name, show(&i.ty))).collect();
    format!("{}({})", ast.name, ins.join(", "))
}

fn ast_text(items: Vec<AbiItem>, name: &str) -> Option<String> {
    match getFunctionAst(items, name) {
        Ok(found) => found.map(|a| show_ast(&a)),
        Err(e) => panic!("unexpected cycle at {}", e.name),
    }
}

fn resolved(items: &Vec<AbiItem>, ty: &str) -> String {
    let reg = build_type_registries(items);
    match resolve_type(ty, &reg) {
        Ok(n) => show(&n),
        Err(e) => format!("cycle({})", e.name),
    }
}

fn account_abi() -> Vec<AbiItem> {
    vec![
        AbiItem::Other,
        interface(
            "openzeppelin::account::interface::ISRC6",
            vec![
                function(
                    "__execute__",
                    &[("calls", "core::array::Array::<core::starknet::account::Call>")],
                ),
                function(
                    "is_valid_signature",
                    &[("hash", "core::felt252"), ("signature", "core::array::Array::<core::felt252>")],
                ),
            ],
        ),
        structure(
            "core::starknet::account::Call",
            &[
                ("to", "core::starknet::contract_address::ContractAddress"),
                ("selector", "core::felt252"),
                ("calldata", "core::array::Span::<core::felt252>"),
            ],
        ),
    ]
}

#[test]
fn test_resolve_type() {
    let text = ast_text(account_abi(), "is_valid_signature");
    assert_eq!(
        text,
        Some("is_valid_signature(hash: P(core::felt252), signature: A(P(core::felt252)))".to_string())
    );
}

#[test]
fn nested_function_with_struct_array() {
    let text = ast_text(account_abi(), "__execute__");
    assert_eq!(
        text,
        Some(
            "__execute__(calls: A(S(core::starknet::account::Call {to: P(core::starknet::contract_address::ContractAddress), selector: P(core::felt252), calldata: P(core::array::Span::<core::felt252>)})))"
                .to_string()
        )
    );
}

#[test]
fn absent_function_is_not_found() {
    assert_eq!(ast_text(account_abi(), "transfer"), None);
    assert_eq!(ast_text(Vec::new(), "f"), None);
}

#[test]
fn interfaces_inside_interfaces_are_not_searched() {
    let items = vec![interface("outer", vec![interface("inner", vec![function("g", &[])])])];
    assert_eq!(ast_text(items, "g"), None);
}

#[test]
fn first_match_in_item_order_wins() {
    let items = vec![
        interface("I", vec![function("f", &[("from_interface", "u8")])]),
        function("f", &[("top_level", "u16")]),
    ];
    assert_eq!(ast_text(items, "f"), Some("f(from_interface: P(u8))".to_string()));
}

#[test]
fn interface_without_match_does_not_stop_search() {
    let items = vec![
        interface("I", vec![function("other", &[])]),
        function("f", &[("x", "u64")]),
    ];
    assert_eq!(ast_text(items, "f"), Some("f(x: P(u64))".to_string()));
}

#[test]
fn unregistered_name_is_primitive() {
    let items = vec![structure("A", &[("y", "u32")])];
    assert_eq!(resolved(&items, "core::integer::u128"), "P(core::integer::u128)");
    assert_eq!(resolved(&items, ""), "P()");
    assert_eq!(resolved(&items, "core::array::Span::<core::felt252>"), "P(core::array::Span::<core::felt252>)");
    assert_eq!(resolved(&items, "core::array::Array::<u8"), "P(core::array::Array::<u8)");
    assert_eq!(resolved(&items, "core::array::Array>"), "P(core::array::Array>)");
}

#[test]
fn struct_members_keep_order_and_expand() {
    let items = vec![
        structure("Inner", &[("b", "u8"), ("a", "u16")]),
        structure("Outer", &[("z", "Inner"), ("y", "core::felt252"), ("x", "Inner")]),
    ];
    assert_eq!(
        resolved(&items, "Outer"),
        "S(Outer {z: S(Inner {b: P(u8), a: P(u16)}), y: P(core::felt252), x: S(Inner {b: P(u8), a: P(u16)})})"
    );
}

#[test]
fn enum_variants_are_kept_verbatim() {
    let items = vec![
        structure("Payload", &[("v", "u8")]),
        enumeration("Choice", &[("Left", "Payload"), ("Right", "core::array::Array::<u8>"), ("None", "()")]),
    ];
    assert_eq!(
        resolved(&items, "Choice"),
        "E(Choice [Left: Payload, Right: core::array::Array::<u8>, None: ()])"
    );
}

#[test]
fn array_of_felt() {
    let items: Vec<AbiItem> = Vec::new();
    let reg = build_type_registries(&items);
    match resolve_type("core::array::Array::<core::felt252>", &reg) {
        Ok(TypeNode::Array(a)) => match *a.element_type {
            TypeNode::Primitive(p) => assert_eq!(p.name, "core::felt252"),
            _ => panic!("element is not a primitive"),
        },
        _ => panic!("not an array"),
    }
}

#[test]
fn array_of_registered_struct() {
    let items = vec![structure("SomeStructName", &[("a", "u8"), ("b", "core::array::Array::<u16>")])];
    assert_eq!(
        resolved(&items, "core::array::Array::<SomeStructName>"),
        "A(S(SomeStructName {a: P(u8), b: A(P(u16))}))"
    );
}

#[test]
fn nested_arrays_resolve_inner_element() {
    let items: Vec<AbiItem> = Vec::new();
    assert_eq!(
        resolved(&items, "core::array::Array::<core::array::Array::<u8>>"),
        "A(A(P(u8)))"
    );
}

#[test]
fn registered_name_wins_over_array_syntax() {
    let items = vec![structure("core::array::Array::<u8>", &[("len", "u32")])];
    assert_eq!(resolved(&items, "core::array::Array::<u8>"), "S(core::array::Array::<u8> {len: P(u32)})");
}

#[test]
fn later_declaration_replaces_earlier() {
    let items = vec![
        structure("A", &[("old", "u8")]),
        enumeration("E", &[("First", "()")]),
        structure("A", &[("new", "u16")]),
        enumeration("E", &[("Second", "()")]),
    ];
    assert_eq!(resolved(&items, "A"), "S(A {new: P(u16)})");
    assert_eq!(resolved(&items, "E"), "E(E [Second: ()])");
}

#[test]
fn struct_takes_priority_over_enum() {
    let items = vec![enumeration("T", &[("V", "u8")]), structure("T", &[("m", "u8")])];
    assert_eq!(resolved(&items, "T"), "S(T {m: P(u8)})");
}

#[test]
fn structs_inside_interfaces_are_not_registered() {
    let items = vec![
        interface("I", vec![structure("Hidden", &[("h", "u8")]), function("f", &[("x", "Hidden")])]),
    ];
    assert_eq!(ast_text(items, "f"), Some("f(x: P(Hidden))".to_string()));
}

#[test]
fn same_input_gives_same_tree() {
    let first = ast_text(account_abi(), "__execute__");
    let second = ast_text(account_abi(), "__execute__");
    assert!(first.is_some());
    assert_eq!(first, second);
}

#[test]
fn single_struct_parameter() {
    let items = vec![structure("A", &[("y", "u32")]), function("f", &[("x", "A")])];
    assert_eq!(ast_text(items, "f"), Some("f(x: S(A {y: P(u32)}))".to_string()));
}

#[test]
fn self_referencing_struct_is_rejected() {
    let items = vec![structure("A", &[("next", "A")]), function("f", &[("x", "A")])];
    match getFunctionAst(items, "f") {
        Err(e) => assert_eq!(e.name, "A"),
        Ok(_) => panic!("cycle not detected"),
    }
}

#[test]
fn indirect_cycle_is_rejected() {
    let items = vec![
        structure("A", &[("ok", "u8"), ("b", "core::array::Array::<B>")]),
        structure("B", &[("a", "A")]),
    ];
    assert_eq!(resolved(&items, "A"), "cycle(A)");
    assert_eq!(resolved(&items, "B"), "cycle(B)");
}

#[test]
fn repeated_struct_without_cycle_is_expanded_twice() {
    let items = vec![structure("P", &[("v", "u8")]), function("f", &[("a", "P"), ("b", "P")])];
    assert_eq!(ast_text(items, "f"), Some("f(a: S(P {v: P(u8)}), b: S(P {v: P(u8)}))".to_string()));
}

#[test]
fn non_ascii_names_are_handled() {
    let items = vec![structure("Ü", &[("ß", "u8")])];
    assert_eq!(resolved(&items, "core::array::Array::<Ü>"), "A(S(Ü {ß: P(u8)}))");
}
