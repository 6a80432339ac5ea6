use fidl_ir::decl_map::DeclMap;
use fidl_ir::decl_path::DeclPath;
use fidl_ir::doc::{CodecError, Doc, Entry};
use fidl_ir::groups::{decode_group, decode_member, decode_req_res, encode_group, encode_member, MethodReqRes, TableMemberType};
use fidl_ir::ir::{DeclType, HandleSubtype, Library, LibraryDep, Method, PrimitiveSubtype, Protocol, Table, TableMember};
use fidl_ir::ser_option::SerOption;
use fidl_ir::span::{FileId, Span, Spanned};
use fidl_ir::types::{Type, TypeKind};
use fidl_ir::wire::Wire;

fn entry(k: &str, v: Doc) -> Entry {
    Entry { key: k.to_string(), value: v }
}

fn text(s: &str) -> Doc {
    Doc::Str(s.to_string())
}

fn obj(entries: Vec<Entry>) -> Doc {
    Doc::Obj(entries)
}

fn primitive(p: PrimitiveSubtype) -> Type {
    Type {
        kind: Spanned::without_span(TypeKind::Primitive { subtype: p }),
        nullable: Spanned::without_span(false),
    }
}

fn int32_doc() -> Doc {
    obj(vec![entry("kind", text("primitive")), entry("subtype", text("int32"))])
}

fn span() -> Span {
    Span { file_id: FileId(3), start: 10, end: 20 }
}

#[test]
fn path_example_round_trip() {
    let p = DeclPath::from_text("my.lib/MyStruct").unwrap();
    assert_eq!(p.library_name, "my.lib");
    assert_eq!(p.decl_name, "MyStruct");
    assert_eq!(p.to_text(), "my.lib/MyStruct");
}

#[test]
fn path_separator_count() {
    assert_eq!(DeclPath::from_text(""), Err(CodecError::MalformedPath));
    assert_eq!(DeclPath::from_text("nolib"), Err(CodecError::MalformedPath));
    assert_eq!(DeclPath::from_text("a/b/c"), Err(CodecError::MalformedPath));
    assert_eq!(DeclPath::from_text("a//"), Err(CodecError::MalformedPath));
    let p = DeclPath::from_text("/x").unwrap();
    assert_eq!(p.library_name, "");
    assert_eq!(p.decl_name, "x");
    let q = DeclPath::from_text("x/").unwrap();
    assert_eq!(q.to_text(), "x/");
}

#[test]
fn path_wire_form() {
    let p = DeclPath { library_name: "fuchsia.io".to_string(), decl_name: "Node".to_string() };
    assert_eq!(p.encode(), Ok(text("fuchsia.io/Node")));
    let odd = DeclPath { library_name: "a/b".to_string(), decl_name: "c".to_string() };
    assert_eq!(odd.encode(), Ok(text("a/b/c")));
    assert_eq!(DeclPath::decode(&text("a/b/c")).unwrap_err(), CodecError::MalformedPath);
    assert_eq!(DeclPath::decode(&Doc::Num(1)).unwrap_err(), CodecError::InvalidType);
}

fn req_res(entries: Vec<Entry>) -> Result<Option<MethodReqRes>, CodecError> {
    decode_req_res("has_request", "maybe_request", "maybe_request_size", &entries)
}

#[test]
fn group_flag_false_with_params_is_inconsistent() {
    let r = req_res(vec![entry("has_request", Doc::Bool(false)), entry("maybe_request", Doc::Arr(vec![]))]);
    assert_eq!(r.unwrap_err(), CodecError::InconsistentGroup);
    let r = req_res(vec![entry("has_request", Doc::Bool(false)), entry("maybe_request_size", Doc::Num(0))]);
    assert_eq!(r.unwrap_err(), CodecError::InconsistentGroup);
}

#[test]
fn group_flag_true_without_params_is_missing() {
    let r = req_res(vec![entry("has_request", Doc::Bool(true))]);
    assert_eq!(r.unwrap_err(), CodecError::MissingField("maybe_request".to_string()));
}

#[test]
fn group_flag_false_is_absent() {
    let r = req_res(vec![entry("has_request", Doc::Bool(false))]);
    assert!(r.unwrap().is_none());
}

#[test]
fn group_flag_true_with_empty_params() {
    let r = req_res(vec![
        entry("has_request", Doc::Bool(true)),
        entry("maybe_request", Doc::Arr(vec![])),
        entry("maybe_request_size", Doc::Num(0)),
    ]);
    let m = r.unwrap().unwrap();
    assert!(m.parameters.is_empty());
    assert_eq!(m.size.0, Some(0));
}

#[test]
fn group_size_may_be_left_out() {
    let r = req_res(vec![entry("maybe_request", Doc::Arr(vec![])), entry("has_request", Doc::Bool(true))]);
    let m = r.unwrap().unwrap();
    assert_eq!(m.size.0, None);
    let wrapped = Some(Spanned::without_span(m));
    let mut out = Vec::new();
    let e = encode_group("has_request", "maybe_request", "maybe_request_size", &wrapped, &mut out);
    assert_eq!(e, Err(CodecError::UnresolvedValue));
}

#[test]
fn group_errors() {
    assert_eq!(req_res(vec![]).unwrap_err(), CodecError::MissingField("has_request".to_string()));
    let r = req_res(vec![entry("has_request", Doc::Bool(false)), entry("other", Doc::Null)]);
    assert_eq!(r.unwrap_err(), CodecError::UnknownField("other".to_string()));
    let r = req_res(vec![entry("has_request", Doc::Bool(false)), entry("has_request", Doc::Bool(false))]);
    assert_eq!(r.unwrap_err(), CodecError::DuplicateField("has_request".to_string()));
    let r = req_res(vec![entry("has_request", Doc::Num(1))]);
    assert_eq!(r.unwrap_err(), CodecError::InvalidType);
}

#[test]
fn group_encoding() {
    let mut out = Vec::new();
    encode_group("has_response", "maybe_response", "maybe_response_size", &None, &mut out).unwrap();
    assert_eq!(out, vec![entry("has_response", Doc::Bool(false))]);
    let m = MethodReqRes { parameters: vec![], size: SerOption(Some(16)) };
    let mut out = Vec::new();
    encode_group("has_response", "maybe_response", "maybe_response_size", &Some(Spanned::without_span(m)), &mut out)
        .unwrap();
    assert_eq!(
        out,
        vec![
            entry("has_response", Doc::Bool(true)),
            entry("maybe_response", Doc::Arr(vec![])),
            entry("maybe_response_size", Doc::Num(16)),
        ]
    );
    let back = decode_group("has_response", "maybe_response", "maybe_response_size", &out).unwrap().unwrap();
    assert_eq!(back.size.0, Some(16));
}

#[test]
fn member_reserved_with_name_is_inconsistent() {
    let r = decode_member(&vec![entry("reserved", Doc::Bool(true)), entry("name", text("x"))]);
    assert_eq!(r.unwrap_err(), CodecError::InconsistentGroup);
}

#[test]
fn member_field_without_type_is_missing() {
    let r = decode_member(&vec![entry("reserved", Doc::Bool(false))]);
    assert_eq!(r.unwrap_err(), CodecError::MissingField("type".to_string()));
    let r = decode_member(&vec![entry("reserved", Doc::Bool(false)), entry("type", int32_doc())]);
    assert_eq!(r.unwrap_err(), CodecError::MissingField("name".to_string()));
    let r = decode_member(&vec![entry("name", text("x"))]);
    assert_eq!(r.unwrap_err(), CodecError::MissingField("reserved".to_string()));
}

#[test]
fn member_reserved() {
    let r = decode_member(&vec![entry("reserved", Doc::Bool(true))]);
    assert!(matches!(r, Ok(TableMemberType::Reserved)));
    let r = decode_member(&vec![entry("reserved", Doc::Bool(true)), entry("type", Doc::Null)]);
    assert!(matches!(r, Ok(TableMemberType::Reserved)));
}

#[test]
fn member_field_without_default() {
    let r = decode_member(&vec![entry("reserved", Doc::Bool(false)), entry("type", int32_doc()), entry("name", text("x"))]);
    match r.unwrap() {
        TableMemberType::Field { type_, name, maybe_default_value } => {
            assert_eq!(type_.inner.encode(), Ok(obj(vec![
                entry("kind", text("primitive")),
                entry("subtype", text("int32")),
                entry("nullable", Doc::Bool(false)),
            ])));
            assert_eq!(name.inner, "x");
            assert!(maybe_default_value.is_none());
        },
        TableMemberType::Reserved => panic!("expected a field"),
    }
}

#[test]
fn member_encoding() {
    let mut out = Vec::new();
    encode_member(&TableMemberType::Reserved, &mut out).unwrap();
    assert_eq!(out, vec![entry("reserved", Doc::Bool(true))]);
    let f = TableMemberType::Field {
        type_: Spanned::without_span(primitive(PrimitiveSubtype::Bool)),
        name: Spanned::without_span("flag".to_string()),
        maybe_default_value: None,
    };
    let mut out = Vec::new();
    encode_member(&f, &mut out).unwrap();
    assert_eq!(out.len(), 3);
    assert_eq!(out[0], entry("reserved", Doc::Bool(false)));
    assert_eq!(out[2], entry("name", text("flag")));
}

#[test]
fn placeholder_encoding() {
    let unset: SerOption<u32> = SerOption(None);
    assert_eq!(unset.encode(), Err(CodecError::UnresolvedValue));
    let set = SerOption(Some(7u32));
    assert_eq!(set.encode(), Ok(Doc::Num(7)));
    let back = SerOption::<u32>::decode(&Doc::Num(7)).unwrap();
    assert_eq!(back.0, Some(7));
    assert_eq!(SerOption::<u32>::default().0, None);
    assert_eq!(SerOption::from(Some(2u32)).0, Some(2));
}

#[test]
fn spanned_is_transparent() {
    let s = Spanned::with_span("abc".to_string(), span());
    assert_eq!(s.span(), &Some(span()));
    assert_eq!(s.encode(), Ok(text("abc")));
    let back = Spanned::<String>::decode(&text("abc")).unwrap();
    assert_eq!(back.span(), &None);
    assert!(back == s);
    assert_eq!(back.into_inner(), "abc");
}

#[test]
fn nested_type_round_trip() {
    let inner = Type {
        kind: Spanned::with_span(TypeKind::Handle { subtype: HandleSubtype::Vmo }, span()),
        nullable: Spanned::without_span(true),
    };
    let t = Type {
        kind: Spanned::without_span(TypeKind::Vector {
            element_type: Box::new(Spanned::without_span(inner)),
            maybe_element_count: Some(Spanned::without_span(4)),
            unresolved_maybe_element_count: None,
        }),
        nullable: Spanned::without_span(false),
    };
    let d = t.encode().unwrap();
    let back = Type::decode(&d).unwrap();
    assert_eq!(back.encode(), Ok(d));
}

#[test]
fn unresolved_type_cannot_be_written() {
    let t = Type {
        kind: Spanned::without_span(TypeKind::UnresolvedIdentifier {
            unresolved: Box::new(Spanned::without_span("Foo".to_string())),
        }),
        nullable: Spanned::without_span(false),
    };
    assert_eq!(t.encode(), Err(CodecError::UnresolvedValue));
}

#[test]
fn type_nullable_defaults_to_false() {
    let t = Type::decode(&obj(vec![entry("kind", text("string"))])).unwrap();
    assert_eq!(
        t.encode(),
        Ok(obj(vec![entry("kind", text("string")), entry("nullable", Doc::Bool(false))]))
    );
    assert_eq!(Type::decode(&obj(vec![entry("kind", text("pointer"))])).unwrap_err(), CodecError::InvalidType);
}

fn sample_method() -> Method {
    Method {
        attributes: vec![],
        ordinal: SerOption(Some(1)),
        generated_ordinal: SerOption(Some(2)),
        name: Spanned::with_span("Open".to_string(), span()),
        request: Some(Spanned::without_span(MethodReqRes { parameters: vec![], size: SerOption(Some(16)) })),
        response: None,
        unresolved_response_error_type: None,
    }
}

fn sample_library() -> Library {
    let mut declarations = DeclMap::new();
    declarations.insert(Spanned::without_span(DeclPath { library_name: "lib".to_string(), decl_name: "P".to_string() }), DeclType::Protocol);
    declarations.insert(Spanned::without_span(DeclPath { library_name: "lib".to_string(), decl_name: "T".to_string() }), DeclType::Table);
    let member = TableMember {
        attributes: vec![],
        ordinal: SerOption(Some(Spanned::without_span(1))),
        member_type: TableMemberType::Reserved,
        unresolved_ordinal: None,
    };
    Library {
        name: Spanned::without_span("lib".to_string()),
        attributes: vec![],
        consts: vec![],
        bits: vec![],
        enums: vec![],
        protocols: vec![Spanned::without_span(Protocol {
            name: Spanned::without_span(DeclPath { library_name: "lib".to_string(), decl_name: "P".to_string() }),
            attributes: vec![],
            methods: vec![Spanned::without_span(sample_method())],
            unresolved_composed: None,
        })],
        structs: vec![],
        tables: vec![Spanned::with_span(Table {
            attributes: vec![],
            name: Spanned::without_span(DeclPath { library_name: "lib".to_string(), decl_name: "T".to_string() }),
            members: vec![Spanned::without_span(member)],
            size: SerOption(Some(16)),
            alignment: SerOption(Some(8)),
            max_handles: SerOption(Some(0)),
            max_out_of_line: SerOption(Some(0)),
        }, span())],
        unions: vec![],
        xunions: vec![],
        declaration_order: vec!["lib/P".to_string(), "lib/T".to_string()],
        declarations,
        library_dependencies: vec![LibraryDep { name: "dep".to_string(), declarations: SerOption(Some(DeclMap::new())) }],
        usings: vec![],
    }
}

#[test]
fn library_encode_then_decode() {
    let lib = sample_library();
    let d = lib.encode().unwrap();
    let back = Library::decode(&d).unwrap();
    assert_eq!(back.name.inner, "lib");
    assert_eq!(back.declarations.len(), 2);
    assert_eq!(back.tables[0].span(), &None);
    assert_eq!(back.encode(), Ok(d));
}

#[test]
fn library_decode_then_encode() {
    let d = sample_library().encode().unwrap();
    let x = Library::decode(&d).unwrap();
    let d2 = x.encode().unwrap();
    let y = Library::decode(&d2).unwrap();
    assert_eq!(y.encode(), Ok(d2));
}

#[test]
fn library_with_unset_placeholder_cannot_be_written() {
    let mut lib = sample_library();
    lib.library_dependencies[0].declarations = SerOption(None);
    assert_eq!(lib.encode(), Err(CodecError::UnresolvedValue));
}

#[test]
fn method_wire_keys() {
    let d = sample_method().encode().unwrap();
    match d {
        Doc::Obj(e) => {
            let keys: Vec<&str> = e.iter().map(|x| x.key.as_str()).collect();
            assert!(keys.contains(&"has_request"));
            assert!(keys.contains(&"maybe_request_size"));
            assert!(keys.contains(&"has_response"));
            assert!(!keys.contains(&"maybe_response"));
        },
        _ => panic!("expected an object"),
    }
}

#[test]
fn declaration_map_wire_form() {
    let mut m = DeclMap::new();
    m.insert(Spanned::without_span(DeclPath { library_name: "a".to_string(), decl_name: "S".to_string() }), DeclType::Struct);
    m.insert(Spanned::without_span(DeclPath { library_name: "a".to_string(), decl_name: "P".to_string() }), DeclType::Protocol);
    let d = m.encode().unwrap();
    assert_eq!(d, obj(vec![entry("a/S", text("struct")), entry("a/P", text("interface"))]));
    let back = DeclMap::decode(&d).unwrap();
    assert_eq!(back.len(), 2);
    assert_eq!(back.get_index(1).unwrap().0.inner.decl_name, "P");
    let dup = obj(vec![entry("a/S", text("struct")), entry("a/S", text("table"))]);
    assert_eq!(DeclMap::decode(&dup).unwrap_err(), CodecError::DuplicateField("a/S".to_string()));
    let bad = obj(vec![entry("aS", text("struct"))]);
    assert_eq!(DeclMap::decode(&bad).unwrap_err(), CodecError::MalformedPath);
}

#[test]
fn literal_and_enum_names() {
    assert_eq!(DeclType::Protocol.encode(), Ok(text("interface")));
    assert_eq!(DeclType::decode(&text("xunion")), Ok(DeclType::XUnion));
    assert_eq!(HandleSubtype::decode(&text("suspendtoken")), Ok(HandleSubtype::SuspendToken));
    assert_eq!(PrimitiveSubtype::UInt64.encode(), Ok(text("uint64")));
}

#[test]
fn number_range() {
    assert_eq!(u32::decode(&Doc::Num(1u64 << 40)), Err(CodecError::InvalidType));
    assert_eq!(u64::decode(&Doc::Num(1u64 << 40)), Ok(1u64 << 40));
}

#[test]
fn handwritten_document_round_trip() {
    // keys out of order, an extra key that the format does not know, a null default
    let member = obj(vec![
        entry("name", text("count")),
        entry("comment", text("ignored")),
        entry("type", obj(vec![entry("nullable", Doc::Bool(true)), entry("kind", text("identifier")), entry("identifier", text("lib/Thing"))])),
        entry("reserved", Doc::Bool(false)),
        entry("ordinal", Doc::Num(2)),
        entry("attributes", Doc::Arr(vec![])),
        entry("maybe_default_value", Doc::Null),
    ]);
    let x = TableMember::decode(&member).unwrap();
    let d2 = x.encode().unwrap();
    let y = TableMember::decode(&d2).unwrap();
    let d3 = y.encode().unwrap();
    assert_eq!(d3, d2);
    match d2 {
        Doc::Obj(e) => assert!(!e.iter().any(|en| en.key == "comment" || en.key == "maybe_default_value")),
        _ => panic!("expected an object"),
    }
}

#[test]
fn record_field_errors() {
    let no_name = obj(vec![entry("kind", text("numeric"))]);
    assert!(fidl_ir::ir::Literal::decode(&no_name).is_ok());
    let twice = obj(vec![entry("kind", text("numeric")), entry("kind", text("string"))]);
    assert_eq!(fidl_ir::ir::Literal::decode(&twice).unwrap_err(), CodecError::DuplicateField("kind".to_string()));
    let missing = obj(vec![entry("value", text("1"))]);
    assert_eq!(fidl_ir::ir::Literal::decode(&missing).unwrap_err(), CodecError::MissingField("kind".to_string()));
    assert_eq!(fidl_ir::ir::Literal::decode(&Doc::Null).unwrap_err(), CodecError::InvalidType);
}

#[test]
fn spanned_identity_ignores_span() {
    let a = Spanned::with_span(5u32, span());
    let b = Spanned::without_span(5u32);
    assert!(a == b);
    let mut set = std::collections::HashSet::new();
    set.insert(a);
    set.insert(b);
    assert_eq!(set.len(), 1);
    let c = Spanned::with_span(7u32, Span { file_id: FileId(0), start: 0, end: 1 });
    assert!(Spanned::without_span(5u32) < c);
    assert_eq!(Spanned::with_span(5u32, span()).partial_cmp(&Spanned::without_span(5u32)), Some(std::cmp::Ordering::Equal));
}

#[test]
fn member_encoding_with_default_in_order() {
    let lit = fidl_ir::ir::Literal {
        kind: fidl_ir::ir::LiteralKind::Numeric,
        value: Some(Spanned::without_span("3".to_string())),
        unsanitized_value: None,
    };
    let f = TableMemberType::Field {
        type_: Spanned::without_span(primitive(PrimitiveSubtype::UInt8)),
        name: Spanned::with_span("n".to_string(), span()),
        maybe_default_value: Some(Spanned::without_span(fidl_ir::types::Constant::Literal { literal: Spanned::without_span(lit) })),
    };
    let mut out = vec![entry("ordinal", Doc::Num(1))];
    encode_member(&f, &mut out).unwrap();
    let keys: Vec<&str> = out.iter().map(|x| x.key.as_str()).collect();
    assert_eq!(keys, vec!["ordinal", "reserved", "type", "name", "maybe_default_value"]);
    let back = decode_member(&out).unwrap();
    match back {
        TableMemberType::Field { type_, name, maybe_default_value } => {
            assert_eq!(type_.span(), &None);
            assert_eq!(name.span(), &None);
            assert_eq!(maybe_default_value.unwrap().span(), &None);
        },
        TableMemberType::Reserved => panic!("expected a field"),
    }
}

#[test]
fn member_and_group_errors_on_unset_values() {
    let unset = Type {
        kind: Spanned::without_span(TypeKind::Array {
            element_type: Box::new(Spanned::without_span(primitive(PrimitiveSubtype::Bool))),
            element_count: SerOption(None),
            unresolved_element_count: None,
        }),
        nullable: Spanned::without_span(false),
    };
    let f = TableMemberType::Field { type_: Spanned::without_span(unset), name: Spanned::without_span("a".to_string()), maybe_default_value: None };
    let mut out = Vec::new();
    assert_eq!(encode_member(&f, &mut out), Err(CodecError::UnresolvedValue));
    let r = decode_member(&vec![entry("reserved", text("yes"))]);
    assert_eq!(r.unwrap_err(), CodecError::InvalidType);
}

#[test]
fn member_field_exact_document() {
    let f = TableMemberType::Field {
        type_: Spanned::without_span(primitive(PrimitiveSubtype::Bool)),
        name: Spanned::without_span("x".to_string()),
        maybe_default_value: None,
    };
    let mut out = Vec::new();
    encode_member(&f, &mut out).unwrap();
    assert_eq!(
        out,
        vec![
            entry("reserved", Doc::Bool(false)),
            entry("type", obj(vec![entry("kind", text("primitive")), entry("subtype", text("bool")), entry("nullable", Doc::Bool(false))])),
            entry("name", text("x")),
        ]
    );
}

#[test]
fn spanned_and_placeholder_encode_as_inner() {
    let t = primitive(PrimitiveSubtype::Int8);
    let bare = t.encode().unwrap();
    assert_eq!(Spanned::with_span(t.clone(), span()).encode(), Ok(t.encode().unwrap()));
    assert_eq!(SerOption(Some(t)).encode(), Ok(bare));
}
