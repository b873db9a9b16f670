use gql_object::compiler::{impl_gql_object, Compiled};
use gql_object::context::CompileError;
use gql_object::emit::{emit_dispatch, emit_registration, select_field, DispatchBranch, DispatchError, RegClause};
use gql_object::syntax::{
    Attribute, GenericArg, ImplBlock, ImplMember, Item, Lit, Method, NestedMeta, Param,
    PathSegment, Ty,
};

fn s(x: &str) -> String {
    x.to_string()
}

fn graphql(pairs: &[(&str, &str)]) -> Attribute {
    Attribute::List {
        name: s("graphql"),
        nested: pairs
            .iter()
            .map(|(k, v)| NestedMeta::NameValue { name: s(k), lit: Lit::Str { value: s(v), as_type: Some(s(v)) } })
            .collect(),
    }
}

fn path(ident: &str, args: Vec<GenericArg>) -> Ty {
    Ty::Path { segments: vec![PathSegment { ident: s(ident), args }] }
}

fn executor(ctx: &str) -> Param {
    Param::Named {
        name: s("executor"),
        ty_text: format!("& Executor < {} >", ctx),
        ty: Ty::Reference {
            lifetime: None,
            mutable: false,
            elem: Box::new(path("Executor", vec![GenericArg::Type { text: s(ctx) }])),
        },
    }
}

fn named(name: &str, ty: &str) -> Param {
    Param::Named { name: s(name), ty_text: s(ty), ty: path(ty, vec![]) }
}

fn method(ident: &str, attrs: Vec<Attribute>, params: Vec<Param>, output: Option<&str>) -> ImplMember {
    ImplMember::Method { method: Method { ident: s(ident), attrs, params, output: output.map(s) } }
}

fn block(attrs: Vec<Attribute>, self_ty: Ty, members: Vec<ImplMember>) -> Item {
    Item::Impl { block: ImplBlock { attrs, self_ty, members } }
}

fn compile_ok(item: Item) -> Compiled {
    match impl_gql_object(item) {
        Ok(c) => c,
        Err(e) => panic!("compilation failed: {:?}", e),
    }
}

fn compile_err(item: Item) -> CompileError {
    match impl_gql_object(item) {
        Ok(_) => panic!("compilation succeeded"),
        Err(e) => e,
    }
}

fn two_members(ctx: &str) -> Vec<ImplMember> {
    vec![
        method("getName", vec![], vec![executor(ctx)], Some("String")),
        method(
            "getAge",
            vec![graphql(&[("deprecated", "use v2")])],
            vec![executor(ctx), named("unit", "String")],
            Some("i32"),
        ),
    ]
}

#[test]
fn explicit_context_two_fields() {
    let item = block(vec![graphql(&[("context", "Ctx")])], path("Foo", vec![]), two_members("Ctx"));
    let c = compile_ok(item);
    let d = &c.descriptor;
    assert_eq!(d.name, "Foo");
    assert_eq!(d.context, "Ctx");
    assert_eq!(d.fields.len(), 2);
    assert_eq!(d.fields[0].name, "getName");
    assert!(d.fields[0].args.is_empty());
    assert_eq!(d.fields[0].ret, "String");
    assert_eq!(d.fields[0].deprecation, None);
    assert_eq!(d.fields[1].name, "getAge");
    assert_eq!(d.fields[1].args.len(), 1);
    assert_eq!(d.fields[1].args[0].name, "unit");
    assert_eq!(d.fields[1].args[0].ty, "String");
    assert_eq!(d.fields[1].ret, "i32");
    assert_eq!(d.fields[1].deprecation, Some(s("use v2")));

    let reg = emit_registration(d);
    assert_eq!(reg.fields.len(), 2);
    assert_eq!(reg.fields[0].name, "getName");
    assert!(reg.fields[0].clauses.is_empty());
    assert_eq!(reg.fields[1].name, "getAge");
    assert_eq!(reg.fields[1].clauses.len(), 2);
    assert!(matches!(&reg.fields[1].clauses[0], RegClause::Argument { name, ty } if name == "unit" && ty == "String"));
    assert!(matches!(&reg.fields[1].clauses[1], RegClause::Deprecation { text } if text == "use v2"));

    let branches = emit_dispatch(d);
    assert_eq!(branches.len(), 3);
    assert!(matches!(&branches[0], DispatchBranch::Field { name, .. } if name == "getName"));
    assert!(matches!(&branches[1], DispatchBranch::Field { name, extractions, .. } if name == "getAge" && extractions.len() == 1));
    assert!(matches!(&branches[2], DispatchBranch::Unmatched { owner } if owner == "Foo"));
}

#[test]
fn binding_context_is_stripped() {
    let self_ty = path("Foo", vec![GenericArg::Binding { name: s("Context"), text: s("MyCtx") }]);
    let item = block(vec![graphql(&[("description", "a foo")])], self_ty, two_members("MyCtx"));
    let c = compile_ok(item);
    assert_eq!(c.descriptor.context, "MyCtx");
    assert_eq!(c.descriptor.description, Some(s("a foo")));
    assert_eq!(c.descriptor.fields.len(), 2);
    match &c.block.self_ty {
        Ty::Path { segments } => {
            assert_eq!(segments.len(), 1);
            assert_eq!(segments[0].ident, "Foo");
            assert!(segments[0].args.is_empty());
        }
        _ => panic!("self type is no longer a path"),
    }
    assert!(c.block.attrs.is_empty());
    let reg = emit_registration(&c.descriptor);
    assert_eq!(reg.description, Some(s("a foo")));
}

#[test]
fn directive_wins_over_binding() {
    let self_ty = path("Foo", vec![GenericArg::Binding { name: s("Context"), text: s("Other") }]);
    let item = block(vec![graphql(&[("context", "Ctx")])], self_ty, two_members("Ctx"));
    let c = compile_ok(item);
    assert_eq!(c.descriptor.context, "Ctx");
    assert_eq!(c.descriptor.fields.len(), 2);
}

fn context_attr(value: &str, as_type: Option<&str>) -> Attribute {
    Attribute::List {
        name: s("graphql"),
        nested: vec![NestedMeta::NameValue {
            name: s("context"),
            lit: Lit::Str { value: s(value), as_type: as_type.map(s) },
        }],
    }
}

#[test]
fn directive_context_is_read_as_type() {
    let item = block(
        vec![context_attr("Vec<u8>", Some("Vec < u8 >"))],
        path("Foo", vec![]),
        two_members("Vec < u8 >"),
    );
    let c = compile_ok(item);
    assert_eq!(c.descriptor.context, "Vec < u8 >");
    assert_eq!(c.descriptor.fields.len(), 2);
}

#[test]
fn member_names_are_camel_cased() {
    let members = vec![method(
        "get_full_name",
        vec![],
        vec![executor("Ctx"), named("last_name", "String")],
        Some("String"),
    )];
    let c = compile_ok(block(vec![graphql(&[("context", "Ctx")])], path("Foo", vec![]), members));
    let f = &c.descriptor.fields[0];
    assert_eq!(f.name, "getFullName");
    assert_eq!(f.member, "get_full_name");
    assert_eq!(f.args[0].name, "lastName");
    assert_eq!(f.args[0].param, "last_name");
    let branches = emit_dispatch(&c.descriptor);
    match &branches[0] {
        DispatchBranch::Field { name, member, extractions } => {
            assert_eq!(name, "getFullName");
            assert_eq!(member, "get_full_name");
            assert_eq!(extractions[0].key, "lastName");
            assert_eq!(extractions[0].binding, "last_name");
        }
        _ => panic!("expected a field branch"),
    }
}

#[test]
fn helpers_are_skipped_and_kept() {
    let members = vec![
        method("helper", vec![graphql(&[("description", "x")])], vec![], Some("u32")),
        method("other", vec![], vec![named("x", "u32")], Some("u32")),
        method("nothing", vec![], vec![executor("Ctx")], None),
        method("wrong_ctx", vec![], vec![executor("Else")], Some("u32")),
        method("field", vec![graphql(&[("description", "the field")])], vec![executor("Ctx")], Some("u32")),
    ];
    let c = compile_ok(block(vec![graphql(&[("context", "Ctx")])], path("Foo", vec![]), members));
    assert_eq!(c.descriptor.fields.len(), 1);
    assert_eq!(c.descriptor.fields[0].name, "field");
    assert_eq!(c.descriptor.fields[0].description, Some(s("the field")));
    assert_eq!(c.block.members.len(), 5);
    let names: Vec<String> = c
        .block
        .members
        .iter()
        .map(|m| match m {
            ImplMember::Method { method } => {
                assert!(method.attrs.is_empty());
                method.ident.clone()
            }
            _ => panic!("not a method"),
        })
        .collect();
    assert_eq!(names, vec!["helper", "other", "nothing", "wrong_ctx", "field"]);
}

#[test]
fn later_directive_entries_win_and_others_are_ignored() {
    let attr = Attribute::List {
        name: s("graphql"),
        nested: vec![
            NestedMeta::NameValue { name: s("description"), lit: Lit::Str { value: s("first"), as_type: None } },
            NestedMeta::Other,
            NestedMeta::NameValue { name: s("deprecated"), lit: Lit::Other },
            NestedMeta::NameValue { name: s("description"), lit: Lit::Str { value: s("second"), as_type: None } },
        ],
    };
    let members = vec![method("field", vec![Attribute::Other, attr], vec![executor("Ctx")], Some("u32"))];
    let c = compile_ok(block(vec![graphql(&[("context", "Ctx")])], path("Foo", vec![]), members));
    assert_eq!(c.descriptor.fields[0].description, Some(s("second")));
    assert_eq!(c.descriptor.fields[0].deprecation, None);
}

#[test]
fn recompiling_finds_no_context() {
    let item = block(vec![graphql(&[("context", "Ctx")])], path("Foo", vec![]), two_members("Ctx"));
    let c = compile_ok(item);
    let again = impl_gql_object(Item::Impl { block: c.block });
    assert!(matches!(again, Err(CompileError::MissingContext)));
}

#[test]
fn not_an_impl() {
    assert_eq!(compile_err(Item::Other), CompileError::NotAnImpl);
}

#[test]
fn not_a_struct_impl() {
    let item = block(vec![graphql(&[("context", "Ctx")])], Ty::Other { text: s("[u8]") }, vec![]);
    assert_eq!(compile_err(item), CompileError::NotAStructImpl);
}

#[test]
fn missing_context() {
    let item = block(vec![], path("Foo", vec![GenericArg::Type { text: s("T") }]), two_members("Ctx"));
    assert_eq!(compile_err(item), CompileError::MissingContext);
}

#[test]
fn invalid_context() {
    let item = block(vec![context_attr("<<", None)], path("Foo", vec![]), vec![]);
    assert_eq!(compile_err(item), CompileError::InvalidContext);
}

#[test]
fn unsupported_member() {
    let mut members = two_members("Ctx");
    members.push(ImplMember::Const);
    let item = block(vec![graphql(&[("context", "Ctx")])], path("Foo", vec![]), members);
    assert_eq!(compile_err(item), CompileError::UnsupportedMember);
}

#[test]
fn invalid_parameter() {
    let members = vec![method("field", vec![], vec![executor("Ctx"), Param::Other], Some("u32"))];
    let item = block(vec![graphql(&[("context", "Ctx")])], path("Foo", vec![]), members);
    assert_eq!(compile_err(item), CompileError::InvalidParameter);
}

#[test]
fn duplicate_field() {
    let members = vec![
        method("get_name", vec![], vec![executor("Ctx")], Some("String")),
        method("getName", vec![], vec![executor("Ctx")], Some("String")),
    ];
    let item = block(vec![graphql(&[("context", "Ctx")])], path("Foo", vec![]), members);
    assert_eq!(compile_err(item), CompileError::DuplicateField);
}

#[test]
fn dispatch_selects_by_name() {
    let item = block(vec![graphql(&[("context", "Ctx")])], path("Foo", vec![]), two_members("Ctx"));
    let c = compile_ok(item);
    assert_eq!(select_field(&c.descriptor, &s("getAge")), Ok(1));
    assert_eq!(select_field(&c.descriptor, &s("getName")), Ok(0));
    assert_eq!(select_field(&c.descriptor, &s("missing")), Err(DispatchError::FieldNotFound));
}

#[test]
fn non_ascii_after_underscore_is_refused() {
    let members = vec![method("a_\u{e9}t\u{e9}", vec![], vec![executor("Ctx")], Some("u32"))];
    let item = block(vec![graphql(&[("context", "Ctx")])], path("Foo", vec![]), members);
    assert_eq!(compile_err(item), CompileError::UnsupportedIdentifier);
}

#[test]
fn non_ascii_parameter_after_underscore_is_refused() {
    let members = vec![method("field", vec![], vec![executor("Ctx"), named("x_\u{e9}", "u32")], Some("u32"))];
    let item = block(vec![graphql(&[("context", "Ctx")])], path("Foo", vec![]), members);
    assert_eq!(compile_err(item), CompileError::UnsupportedIdentifier);
}

#[test]
fn non_ascii_elsewhere_is_cased() {
    let members = vec![method("\u{e9}t\u{e9}_x", vec![], vec![executor("Ctx")], Some("u32"))];
    let c = compile_ok(block(vec![graphql(&[("context", "Ctx")])], path("Foo", vec![]), members));
    assert_eq!(c.descriptor.fields[0].name, "\u{e9}t\u{e9}X");
}

#[test]
fn other_generic_arguments_are_kept() {
    let self_ty = path(
        "Foo",
        vec![
            GenericArg::Type { text: s("T") },
            GenericArg::Binding { name: s("Context"), text: s("MyCtx") },
            GenericArg::Type { text: s("U") },
        ],
    );
    let c = compile_ok(block(vec![], self_ty, two_members("MyCtx")));
    assert_eq!(c.descriptor.context, "MyCtx");
    match &c.block.self_ty {
        Ty::Path { segments } => {
            let texts: Vec<String> = segments[0]
                .args
                .iter()
                .map(|a| match a {
                    GenericArg::Type { text } => text.clone(),
                    _ => panic!("only type arguments should remain"),
                })
                .collect();
            assert_eq!(texts, vec!["T", "U"]);
        }
        _ => panic!("self type is no longer a path"),
    }
}

#[test]
fn explicit_context_keeps_type_arguments() {
    let self_ty = path("Foo", vec![GenericArg::Type { text: s("T") }]);
    let c = compile_ok(block(vec![graphql(&[("context", "Ctx")])], self_ty, two_members("Ctx")));
    match &c.block.self_ty {
        Ty::Path { segments } => assert_eq!(segments[0].args.len(), 1),
        _ => panic!("self type is no longer a path"),
    }
}

#[test]
fn other_annotations_are_kept() {
    let members = vec![
        method("helper", vec![Attribute::Other, graphql(&[("description", "x")])], vec![], Some("u32")),
        method("field", vec![graphql(&[("description", "d")]), Attribute::Other], vec![executor("Ctx")], Some("u32")),
    ];
    let c = compile_ok(block(vec![graphql(&[("context", "Ctx")])], path("Foo", vec![]), members));
    for m in c.block.members.iter() {
        match m {
            ImplMember::Method { method } => {
                assert_eq!(method.attrs.len(), 1);
                assert!(matches!(method.attrs[0], Attribute::Other));
            }
            _ => panic!("not a method"),
        }
    }
    assert_eq!(c.descriptor.fields[0].description, Some(s("d")));
}
