//! Types and constants.

use vstd::prelude::*;
use crate::doc::{CodecError, Doc, Entry, field, key_count, value_of, lemma_value_of_entry};
use crate::span::Spanned;
use crate::ser_option::SerOption;
use crate::decl_path::DeclPath;
use crate::ir::{HandleSubtype, Literal, PrimitiveSubtype};
use crate::wire::{Wire, entry_form, lemma_req_encodable, req, opt, opt_same, opt_fresh, get_req, get_opt, put, put_opt, push_entry, lemma_req_unique, lemma_opt_unique};

verus! {

/// Whether the text `s` reads `lit`.
pub fn text_is(s: &String, lit: &str) -> (r: bool)
    ensures
        r == (s@ == lit@),
{
    *s == lit.to_owned()
}

/// `k` occurs once in `e`, holding the text `t`.
pub open spec fn tag(e: Seq<Entry>, k: Seq<char>, t: Seq<char>) -> bool {
    &&& key_count(e, k) == 1
    &&& value_of(e, k) matches Doc::Str(s) && s@ == t
}

/// Reads the text held by the required field `k`.
pub fn get_tag<'a>(e: &'a Vec<Entry>, k: &str) -> (r: Result<&'a String, CodecError>)
    ensures
        r matches Ok(s) ==> tag(e@, k@, s@),
        (exists|t: Seq<char>| #[trigger] tag(e@, k@, t)) ==> r is Ok,
{
    match field(e, k) {
        Ok(Some(Doc::Str(s))) => Ok(s),
        Ok(Some(_)) => Err(CodecError::InvalidType),
        Ok(None) => Err(CodecError::MissingField(k.to_owned())),
        Err(er) => Err(er),
    }
}

/// Appends the entry `k` holding the text `t`.
fn put_tag(out: &mut Vec<Entry>, k: &str, t: &str)
    ensures
        final(out)@ == old(out)@.push(final(out)@.last()) && final(out)@.last().key@ == k@,
        final(out)@.last().value matches Doc::Str(s) && s@ == t@,
        crate::wire::pushed(old(out)@, final(out)@, k@, value_of(final(out)@, k@)),
        value_of(final(out)@, k@) matches Doc::Str(s) && s@ == t@,
{
    push_entry(out, k, Doc::Str(t.to_owned()));
}

/// The entry at `i` of `e` is `kind`, holding the text `t`.
pub open spec fn tag_at(e: Seq<Entry>, i: int, t: Seq<char>) -> bool {
    &&& e[i].key@ == "kind"@
    &&& e[i].value matches Doc::Str(s) && s@ == t
}

/// A constant: a reference to a named constant, or a literal.
#[derive(Debug, Clone)]
pub enum Constant {
    Identifier { identifier: String },
    Literal { literal: Spanned<Literal> },
}

impl Wire for Constant {
    open spec fn describes(d: Doc, x: Constant) -> bool {
        d matches Doc::Obj(e) && match x {
            Constant::Identifier { identifier } => tag(e@, "kind"@, "identifier"@) && req(
                e@,
                "identifier"@,
                identifier,
            ),
            Constant::Literal { literal } => tag(e@, "kind"@, "literal"@) && req(e@, "literal"@, literal),
        }
    }

    open spec fn wire_form(d: Doc, x: Constant) -> bool {
        d matches Doc::Obj(e) && e@.len() == 2 && match x {
            Constant::Identifier { identifier } => tag_at(e@, 0, "identifier"@) && entry_form(e@, 1, "identifier"@, identifier),
            Constant::Literal { literal } => tag_at(e@, 0, "literal"@) && entry_form(e@, 1, "literal"@, literal),
        }
    }

    open spec fn encodable(x: Constant) -> bool {
        x matches Constant::Literal { literal } ==> Spanned::<Literal>::encodable(literal)
    }

    open spec fn same_content(x: Constant, y: Constant) -> bool {
        match (x, y) {
            (Constant::Identifier { identifier: a }, Constant::Identifier { identifier: b }) => a@ == b@,
            (Constant::Literal { literal: a }, Constant::Literal { literal: b }) =>
                Spanned::<Literal>::same_content(a, b),
            _ => false,
        }
    }

    open spec fn readable(x: Constant) -> bool {
        x matches Constant::Literal { literal } ==> Spanned::<Literal>::readable(literal)
    }

    open spec fn complete(x: Constant) -> bool {
        x matches Constant::Literal { literal } ==> Spanned::<Literal>::complete(literal)
    }

    open spec fn fresh(x: Constant) -> bool {
        x matches Constant::Literal { literal } ==> Spanned::<Literal>::fresh(literal)
    }

    fn encode(&self) -> (r: Result<Doc, CodecError>) {
        let mut e: Vec<Entry> = Vec::new();
        match self {
            Constant::Identifier { identifier } => {
                put_tag(&mut e, "kind", "identifier");
                put(&mut e, "identifier", identifier)?;
            },
            Constant::Literal { literal } => {
                put_tag(&mut e, "kind", "literal");
                put(&mut e, "literal", literal)?;
            },
        }
        proof {
            reveal_strlit("kind");
            reveal_strlit("identifier");
            reveal_strlit("literal");
            assert("kind"@.len() == 4);
            assert("identifier"@.len() == 10);
            assert("literal"@.len() == 7);
        }
        Ok(Doc::Obj(e))
    }

    fn decode(d: &Doc) -> (r: Result<Constant, CodecError>) {
        proof {
            reveal_strlit("identifier");
            reveal_strlit("literal");
            assert("identifier"@.len() == 10);
            assert("literal"@.len() == 7);
        }
        match d {
            Doc::Obj(e) => {
                let kind = get_tag(e, "kind");
                proof {
                    if exists|x: Constant| #[trigger] Self::describes(*d, x) && Self::readable(x) {
                        let w = choose|x: Constant| #[trigger] Self::describes(*d, x) && Self::readable(x);
                        match w {
                            Constant::Identifier { identifier } => {
                                assert(tag(e@, "kind"@, "identifier"@));
                                assert(req(e@, "identifier"@, identifier));
                            },
                            Constant::Literal { literal } => {
                                assert(tag(e@, "kind"@, "literal"@));
                                assert(req(e@, "literal"@, literal));
                            },
                        }
                    }
                }
                let kind = match kind { Ok(k) => k, Err(er) => return Err(er) };
                if text_is(kind, "identifier") {
                    let identifier = get_req::<String>(e, "identifier")?;
                    Ok(Constant::Identifier { identifier })
                } else if text_is(kind, "literal") {
                    let literal = get_req::<Spanned<Literal>>(e, "literal")?;
                    Ok(Constant::Literal { literal })
                } else {
                    Err(CodecError::InvalidType)
                }
            },
            _ => Err(CodecError::InvalidType),
        }
    }

    proof fn lemma_unique(d: Doc, x: Constant, y: Constant) {
        reveal_strlit("identifier");
        reveal_strlit("literal");
        assert("identifier"@.len() == 10);
        assert("literal"@.len() == 7);
        let e = d->Obj_0@;
        match (x, y) {
            (Constant::Identifier { identifier: a }, Constant::Identifier { identifier: b }) => {
                lemma_req_unique(e, "identifier"@, a, b);
            },
            (Constant::Literal { literal: a }, Constant::Literal { literal: b }) => {
                lemma_req_unique(e, "literal"@, a, b);
            },
            _ => {},
        }
    }

    proof fn lemma_described_encodable(d: Doc, x: Constant) {
        if let Constant::Literal { literal } = x {
            lemma_req_encodable(d->Obj_0@, "literal"@, literal);
        }
    }

    proof fn lemma_not_null(d: Doc, x: Constant) {
    }
}

/// A type: its kind and whether it may be null.
///
/// The kind's fields are written into the same object as `nullable`.
#[derive(Debug)]
pub struct Type {
    pub kind: Spanned<TypeKind>,
    pub nullable: Spanned<bool>,
}

/// The kind of a type. Element types are owned: a type is a tree.
#[derive(Debug)]
pub enum TypeKind {
    Array {
        element_type: Box<Spanned<Type>>,
        element_count: SerOption<Spanned<u64>>,
        /// Only used before resolution; never written.
        unresolved_element_count: Option<Spanned<Constant>>,
    },
    Vector {
        element_type: Box<Spanned<Type>>,
        maybe_element_count: Option<Spanned<u64>>,
        /// Only used before resolution; never written.
        unresolved_maybe_element_count: Option<Spanned<Constant>>,
    },
    String {
        maybe_element_count: Option<Spanned<u64>>,
        /// Only used before resolution; never written.
        unresolved_maybe_element_count: Option<Spanned<Constant>>,
    },
    Handle { subtype: HandleSubtype },
    Request {
        subtype: DeclPath,
        /// Only used before resolution; never written.
        unresolved: Option<Box<Spanned<String>>>,
    },
    Primitive { subtype: PrimitiveSubtype },
    Identifier {
        identifier: Spanned<DeclPath>,
        /// Only used before resolution; never written.
        unresolved: Option<Box<Spanned<String>>>,
    },
    /// Only present before resolution; has no wire form.
    UnresolvedRequest { unresolved: Box<Spanned<String>> },
    /// Only present before resolution; has no wire form.
    UnresolvedIdentifier { unresolved: Box<Spanned<String>> },
}

impl Clone for Type {
    fn clone(&self) -> (r: Type) {
        clone_type(self)
    }
}

fn clone_boxed(t: &Box<Spanned<Type>>) -> Box<Spanned<Type>>
    decreases t,
{
    Box::new(Spanned { inner: clone_type(&t.inner), span: t.span })
}

/// A deep copy of `t`.
fn clone_type(t: &Type) -> Type
    decreases t,
{
    let kind = match &t.kind.inner {
        TypeKind::Array { element_type, element_count, unresolved_element_count } => TypeKind::Array {
            element_type: clone_boxed(element_type),
            element_count: element_count.clone(),
            unresolved_element_count: unresolved_element_count.clone(),
        },
        TypeKind::Vector { element_type, maybe_element_count, unresolved_maybe_element_count } => TypeKind::Vector {
            element_type: clone_boxed(element_type),
            maybe_element_count: maybe_element_count.clone(),
            unresolved_maybe_element_count: unresolved_maybe_element_count.clone(),
        },
        TypeKind::String { maybe_element_count, unresolved_maybe_element_count } => TypeKind::String {
            maybe_element_count: maybe_element_count.clone(),
            unresolved_maybe_element_count: unresolved_maybe_element_count.clone(),
        },
        TypeKind::Handle { subtype } => TypeKind::Handle { subtype: *subtype },
        TypeKind::Request { subtype, unresolved } => TypeKind::Request {
            subtype: subtype.clone(),
            unresolved: unresolved.clone(),
        },
        TypeKind::Primitive { subtype } => TypeKind::Primitive { subtype: *subtype },
        TypeKind::Identifier { identifier, unresolved } => TypeKind::Identifier {
            identifier: identifier.clone(),
            unresolved: unresolved.clone(),
        },
        TypeKind::UnresolvedRequest { unresolved } => TypeKind::UnresolvedRequest { unresolved: unresolved.clone() },
        TypeKind::UnresolvedIdentifier { unresolved } => TypeKind::UnresolvedIdentifier {
            unresolved: unresolved.clone(),
        },
    };
    Type {
        kind: Spanned { inner: kind, span: t.kind.span },
        nullable: Spanned { inner: t.nullable.inner, span: t.nullable.span },
    }
}

/// `nullable` in `e`: absent for `false`, or once with a boolean.
pub open spec fn nullable_in(e: Seq<Entry>, b: bool) -> bool {
    (key_count(e, "nullable"@) == 0 && !b) || req(e, "nullable"@, b)
}

/// The document `d` is a wire form of the type `t`.
pub open spec fn describes_type(d: Doc, t: Type) -> bool
    decreases t,
{
    match d {
        Doc::Obj(entries) => {
            let e = entries@;
            &&& nullable_in(e, t.nullable.inner)
            &&& match t.kind.inner {
                TypeKind::Array { element_type, element_count, .. } => {
                    &&& tag(e, "kind"@, "array"@)
                    &&& key_count(e, "element_type"@) == 1
                    &&& describes_type(value_of(e, "element_type"@), element_type.inner)
                    &&& req(e, "element_count"@, element_count)
                },
                TypeKind::Vector { element_type, maybe_element_count, .. } => {
                    &&& tag(e, "kind"@, "vector"@)
                    &&& key_count(e, "element_type"@) == 1
                    &&& describes_type(value_of(e, "element_type"@), element_type.inner)
                    &&& opt(e, "maybe_element_count"@, maybe_element_count)
                },
                TypeKind::String { maybe_element_count, .. } => tag(e, "kind"@, "string"@) && opt(
                    e,
                    "maybe_element_count"@,
                    maybe_element_count,
                ),
                TypeKind::Handle { subtype } => tag(e, "kind"@, "handle"@) && req(e, "subtype"@, subtype),
                TypeKind::Request { subtype, .. } => tag(e, "kind"@, "request"@) && req(
                    e,
                    "subtype"@,
                    subtype,
                ),
                TypeKind::Primitive { subtype } => tag(e, "kind"@, "primitive"@) && req(
                    e,
                    "subtype"@,
                    subtype,
                ),
                TypeKind::Identifier { identifier, .. } => tag(e, "kind"@, "identifier"@) && req(
                    e,
                    "identifier"@,
                    identifier,
                ),
                _ => false,
            }
        },
        _ => false,
    }
}

/// `d` is the document that writing the type `t` gives: `kind` first, then
/// the kind's fields (an absent element count left out), then `nullable`.
pub open spec fn wire_form_type(d: Doc, t: Type) -> bool
    decreases t,
{
    match d {
        Doc::Obj(entries) => {
            let e = entries@;
            let b = t.nullable.inner;
            match t.kind.inner {
                TypeKind::Array { element_type, element_count, .. } => {
                    &&& e.len() == 4 && tag_at(e, 0, "array"@)
                    &&& e[1].key@ == "element_type"@ && wire_form_type(e[1].value, element_type.inner)
                    &&& entry_form(e, 2, "element_count"@, element_count)
                    &&& entry_form(e, 3, "nullable"@, b)
                },
                TypeKind::Vector { element_type, maybe_element_count, .. } => {
                    let n: int = if maybe_element_count is Some { 4 } else { 3 };
                    &&& e.len() == n && tag_at(e, 0, "vector"@)
                    &&& e[1].key@ == "element_type"@ && wire_form_type(e[1].value, element_type.inner)
                    &&& maybe_element_count matches Some(c) ==> entry_form(e, 2, "maybe_element_count"@, c)
                    &&& entry_form(e, n - 1, "nullable"@, b)
                },
                TypeKind::String { maybe_element_count, .. } => {
                    let n: int = if maybe_element_count is Some { 3 } else { 2 };
                    &&& e.len() == n && tag_at(e, 0, "string"@)
                    &&& maybe_element_count matches Some(c) ==> entry_form(e, 1, "maybe_element_count"@, c)
                    &&& entry_form(e, n - 1, "nullable"@, b)
                },
                TypeKind::Handle { subtype } => e.len() == 3 && tag_at(e, 0, "handle"@) && entry_form(e, 1, "subtype"@, subtype)
                    && entry_form(e, 2, "nullable"@, b),
                TypeKind::Request { subtype, .. } => e.len() == 3 && tag_at(e, 0, "request"@) && entry_form(
                    e,
                    1,
                    "subtype"@,
                    subtype,
                ) && entry_form(e, 2, "nullable"@, b),
                TypeKind::Primitive { subtype } => e.len() == 3 && tag_at(e, 0, "primitive"@) && entry_form(
                    e,
                    1,
                    "subtype"@,
                    subtype,
                ) && entry_form(e, 2, "nullable"@, b),
                TypeKind::Identifier { identifier, .. } => e.len() == 3 && tag_at(e, 0, "identifier"@) && entry_form(
                    e,
                    1,
                    "identifier"@,
                    identifier,
                ) && entry_form(e, 2, "nullable"@, b),
                _ => false,
            }
        },
        _ => false,
    }
}

/// The type `t` can be written: it holds no unresolved kind, and every
/// element count and path is set and well formed.
pub open spec fn encodable_type(t: Type) -> bool
    decreases t,
{
    match t.kind.inner {
        TypeKind::Array { element_type, element_count, .. } => encodable_type(element_type.inner)
            && SerOption::<Spanned<u64>>::encodable(element_count),
        TypeKind::Vector { element_type, .. } => encodable_type(element_type.inner),
        TypeKind::Request { subtype, .. } => DeclPath::encodable(subtype),
        TypeKind::Identifier { identifier, .. } => Spanned::<DeclPath>::encodable(identifier),
        TypeKind::UnresolvedRequest { .. } => false,
        TypeKind::UnresolvedIdentifier { .. } => false,
        _ => true,
    }
}

/// The type reads back from its wire form: no path in it holds the
/// separator inside a part.
pub open spec fn readable_type(t: Type) -> bool
    decreases t,
{
    match t.kind.inner {
        TypeKind::Array { element_type, .. } => readable_type(element_type.inner),
        TypeKind::Vector { element_type, .. } => readable_type(element_type.inner),
        TypeKind::Request { subtype, .. } => DeclPath::readable(subtype),
        TypeKind::Identifier { identifier, .. } => Spanned::<DeclPath>::readable(identifier),
        _ => true,
    }
}

/// The type is as decoding makes it: no span anywhere in it, no field that
/// serves resolution set, and no unresolved kind.
pub open spec fn fresh_type(t: Type) -> bool
    decreases t,
{
    &&& t.kind.span is None
    &&& t.nullable.span is None
    &&& match t.kind.inner {
        TypeKind::Array { element_type, element_count, unresolved_element_count } => element_type.span is None
            && fresh_type(element_type.inner) && SerOption::<Spanned<u64>>::fresh(element_count)
            && unresolved_element_count is None,
        TypeKind::Vector { element_type, maybe_element_count, unresolved_maybe_element_count } => element_type.span
            is None && fresh_type(element_type.inner) && opt_fresh(maybe_element_count)
            && unresolved_maybe_element_count is None,
        TypeKind::String { maybe_element_count, unresolved_maybe_element_count } => opt_fresh(maybe_element_count)
            && unresolved_maybe_element_count is None,
        TypeKind::Handle { .. } => true,
        TypeKind::Request { unresolved, .. } => unresolved is None,
        TypeKind::Primitive { .. } => true,
        TypeKind::Identifier { identifier, unresolved } => identifier.span is None && unresolved is None,
        TypeKind::UnresolvedRequest { .. } => false,
        TypeKind::UnresolvedIdentifier { .. } => false,
    }
}

/// `x` and `y` agree in everything that the wire form keeps.
pub open spec fn same_type(x: Type, y: Type) -> bool
    decreases x,
{
    &&& x.nullable.inner == y.nullable.inner
    &&& match (x.kind.inner, y.kind.inner) {
        (
            TypeKind::Array { element_type: a, element_count: m, .. },
            TypeKind::Array { element_type: b, element_count: n, .. },
        ) => same_type(a.inner, b.inner) && SerOption::<Spanned<u64>>::same_content(m, n),
        (
            TypeKind::Vector { element_type: a, maybe_element_count: m, .. },
            TypeKind::Vector { element_type: b, maybe_element_count: n, .. },
        ) => same_type(a.inner, b.inner) && opt_same(m, n),
        (
            TypeKind::String { maybe_element_count: m, .. },
            TypeKind::String { maybe_element_count: n, .. },
        ) => opt_same(m, n),
        (TypeKind::Handle { subtype: a }, TypeKind::Handle { subtype: b }) => HandleSubtype::same_content(a, b),
        (TypeKind::Request { subtype: a, .. }, TypeKind::Request { subtype: b, .. }) => DeclPath::same_content(a, b),
        (TypeKind::Primitive { subtype: a }, TypeKind::Primitive { subtype: b }) => PrimitiveSubtype::same_content(a, b),
        (TypeKind::Identifier { identifier: a, .. }, TypeKind::Identifier { identifier: b, .. }) =>
            Spanned::<DeclPath>::same_content(a, b),
        _ => false,
    }
}

/// The lengths and first letters of the keys and tags of a type's wire form.
proof fn reveal_type_keys()
    ensures
        "kind"@.len() == 4,
        "nullable"@.len() == 8,
        "element_type"@.len() == 12,
        "element_count"@.len() == 13,
        "maybe_element_count"@.len() == 19,
        "subtype"@.len() == 7,
        "identifier"@.len() == 10,
        "array"@.len() == 5,
        "vector"@.len() == 6,
        "string"@.len() == 6,
        "handle"@.len() == 6,
        "request"@.len() == 7,
        "primitive"@.len() == 9,
        "vector"@[0] == 'v',
        "string"@[0] == 's',
        "handle"@[0] == 'h',
{
    reveal_strlit("kind");
    reveal_strlit("nullable");
    reveal_strlit("element_type");
    reveal_strlit("element_count");
    reveal_strlit("maybe_element_count");
    reveal_strlit("subtype");
    reveal_strlit("identifier");
    reveal_strlit("array");
    reveal_strlit("vector");
    reveal_strlit("string");
    reveal_strlit("handle");
    reveal_strlit("request");
    reveal_strlit("primitive");
}

/// Writes a type.
pub fn encode_type(t: &Type) -> (r: Result<Doc, CodecError>)
    ensures
        r is Ok <==> encodable_type(*t),
        r matches Ok(d) ==> describes_type(d, *t) && wire_form_type(d, *t),
        r matches Err(e) ==> e == CodecError::UnresolvedValue,
    decreases t,
{
    let mut e: Vec<Entry> = Vec::new();
    match &t.kind.inner {
        TypeKind::Array { element_type, element_count, .. } => {
            put_tag(&mut e, "kind", "array");
            let d = encode_type(&element_type.inner)?;
            push_entry(&mut e, "element_type", d);
            put(&mut e, "element_count", element_count)?;
        },
        TypeKind::Vector { element_type, maybe_element_count, .. } => {
            put_tag(&mut e, "kind", "vector");
            let d = encode_type(&element_type.inner)?;
            push_entry(&mut e, "element_type", d);
            put_opt(&mut e, "maybe_element_count", maybe_element_count)?;
        },
        TypeKind::String { maybe_element_count, .. } => {
            put_tag(&mut e, "kind", "string");
            put_opt(&mut e, "maybe_element_count", maybe_element_count)?;
        },
        TypeKind::Handle { subtype } => {
            put_tag(&mut e, "kind", "handle");
            put(&mut e, "subtype", subtype)?;
        },
        TypeKind::Request { subtype, .. } => {
            put_tag(&mut e, "kind", "request");
            put(&mut e, "subtype", subtype)?;
        },
        TypeKind::Primitive { subtype } => {
            put_tag(&mut e, "kind", "primitive");
            put(&mut e, "subtype", subtype)?;
        },
        TypeKind::Identifier { identifier, .. } => {
            put_tag(&mut e, "kind", "identifier");
            put(&mut e, "identifier", identifier)?;
        },
        TypeKind::UnresolvedRequest { .. } => {
            return Err(CodecError::UnresolvedValue);
        },
        TypeKind::UnresolvedIdentifier { .. } => {
            return Err(CodecError::UnresolvedValue);
        },
    }
    put(&mut e, "nullable", &t.nullable.inner)?;
    proof {
        reveal_type_keys();
    }
    Ok(Doc::Obj(e))
}

/// Reads a type.
pub fn decode_type(d: &Doc) -> (r: Result<Type, CodecError>)
    ensures
        r matches Ok(x) ==> describes_type(*d, x) && readable_type(x) && fresh_type(x),
        (exists|x: Type| #[trigger] describes_type(*d, x) && readable_type(x)) ==> r is Ok,
    decreases d,
{
    proof {
        reveal_type_keys();
    }
    match d {
        Doc::Obj(e) => {
            let kind = get_tag(e, "kind");
            let nullable = match field(e, "nullable") {
                Ok(None) => Ok(false),
                Ok(Some(v)) => bool::decode(v),
                Err(er) => Err(er),
            };
            proof {
                if exists|x: Type| #[trigger] describes_type(*d, x) && readable_type(x) {
                    let w = choose|x: Type| #[trigger] describes_type(*d, x) && readable_type(x);
                    assert(nullable_in(e@, w.nullable.inner));
                    match w.kind.inner {
                        TypeKind::Array { .. } => assert(tag(e@, "kind"@, "array"@)),
                        TypeKind::Vector { .. } => assert(tag(e@, "kind"@, "vector"@)),
                        TypeKind::String { .. } => assert(tag(e@, "kind"@, "string"@)),
                        TypeKind::Handle { .. } => assert(tag(e@, "kind"@, "handle"@)),
                        TypeKind::Request { .. } => assert(tag(e@, "kind"@, "request"@)),
                        TypeKind::Primitive { .. } => assert(tag(e@, "kind"@, "primitive"@)),
                        TypeKind::Identifier { .. } => assert(tag(e@, "kind"@, "identifier"@)),
                        _ => {},
                    }
                }
            }
            let kind = match kind { Ok(k) => k, Err(er) => return Err(er) };
            let nullable = match nullable { Ok(b) => b, Err(er) => return Err(er) };
            let ghost wk = kind@;
            let tk = if text_is(kind, "array") || text_is(kind, "vector") {
                let v = match field(e, "element_type") {
                    Ok(Some(v)) => v,
                    Ok(None) => return Err(CodecError::MissingField("element_type".to_owned())),
                    Err(er) => return Err(er),
                };
                proof {
                    let i = lemma_value_of_entry(e@, "element_type"@);
                    assert(decreases_to!(e => e[i]));
                }
                let element_type = decode_type(v);
                proof {
                    if exists|x: Type| #[trigger] describes_type(*d, x) && readable_type(x) {
                        let w = choose|x: Type| #[trigger] describes_type(*d, x) && readable_type(x);
                        match w.kind.inner {
                            TypeKind::Array { element_type, .. } => assert(describes_type(*v, element_type.inner) && readable_type(element_type.inner)),
                            TypeKind::Vector { element_type, .. } => assert(describes_type(*v, element_type.inner) && readable_type(element_type.inner)),
                            _ => {},
                        }
                    }
                }
                let element_type = match element_type { Ok(t) => Box::new(Spanned::without_span(t)), Err(er) => return Err(er) };
                if text_is(kind, "array") {
                    let element_count = get_req::<SerOption<Spanned<u64>>>(e, "element_count");
                    proof {
                        if exists|x: Type| #[trigger] describes_type(*d, x) && readable_type(x) {
                            let w = choose|x: Type| #[trigger] describes_type(*d, x) && readable_type(x);
                            assert(req(e@, "element_count"@, w.kind.inner->Array_element_count));
                        }
                    }
                    let element_count = match element_count { Ok(c) => c, Err(er) => return Err(er) };
                    TypeKind::Array { element_type, element_count, unresolved_element_count: None }
                } else {
                    let maybe_element_count = get_opt::<Spanned<u64>>(e, "maybe_element_count");
                    proof {
                        if exists|x: Type| #[trigger] describes_type(*d, x) && readable_type(x) {
                            let w = choose|x: Type| #[trigger] describes_type(*d, x) && readable_type(x);
                            assert(opt(e@, "maybe_element_count"@, w.kind.inner->Vector_maybe_element_count));
                        }
                    }
                    let maybe_element_count = match maybe_element_count { Ok(c) => c, Err(er) => return Err(er) };
                    TypeKind::Vector { element_type, maybe_element_count, unresolved_maybe_element_count: None }
                }
            } else if text_is(kind, "string") {
                let maybe_element_count = get_opt::<Spanned<u64>>(e, "maybe_element_count");
                proof {
                    if exists|x: Type| #[trigger] describes_type(*d, x) && readable_type(x) {
                        let w = choose|x: Type| #[trigger] describes_type(*d, x) && readable_type(x);
                        assert(opt(e@, "maybe_element_count"@, w.kind.inner->String_maybe_element_count));
                    }
                }
                let maybe_element_count = match maybe_element_count { Ok(c) => c, Err(er) => return Err(er) };
                TypeKind::String { maybe_element_count, unresolved_maybe_element_count: None }
            } else if text_is(kind, "handle") {
                let subtype = get_req::<HandleSubtype>(e, "subtype");
                proof {
                    if exists|x: Type| #[trigger] describes_type(*d, x) && readable_type(x) {
                        let w = choose|x: Type| #[trigger] describes_type(*d, x) && readable_type(x);
                        assert(req(e@, "subtype"@, w.kind.inner->Handle_subtype));
                    }
                }
                let subtype = match subtype { Ok(c) => c, Err(er) => return Err(er) };
                TypeKind::Handle { subtype }
            } else if text_is(kind, "request") {
                let subtype = get_req::<DeclPath>(e, "subtype");
                proof {
                    if exists|x: Type| #[trigger] describes_type(*d, x) && readable_type(x) {
                        let w = choose|x: Type| #[trigger] describes_type(*d, x) && readable_type(x);
                        assert(req(e@, "subtype"@, w.kind.inner->Request_subtype));
                    }
                }
                let subtype = match subtype { Ok(c) => c, Err(er) => return Err(er) };
                TypeKind::Request { subtype, unresolved: None }
            } else if text_is(kind, "primitive") {
                let subtype = get_req::<PrimitiveSubtype>(e, "subtype");
                proof {
                    if exists|x: Type| #[trigger] describes_type(*d, x) && readable_type(x) {
                        let w = choose|x: Type| #[trigger] describes_type(*d, x) && readable_type(x);
                        assert(req(e@, "subtype"@, w.kind.inner->Primitive_subtype));
                    }
                }
                let subtype = match subtype { Ok(c) => c, Err(er) => return Err(er) };
                TypeKind::Primitive { subtype }
            } else if text_is(kind, "identifier") {
                let identifier = get_req::<Spanned<DeclPath>>(e, "identifier");
                proof {
                    if exists|x: Type| #[trigger] describes_type(*d, x) && readable_type(x) {
                        let w = choose|x: Type| #[trigger] describes_type(*d, x) && readable_type(x);
                        assert(req(e@, "identifier"@, w.kind.inner->Identifier_identifier));
                    }
                }
                let identifier = match identifier { Ok(c) => c, Err(er) => return Err(er) };
                TypeKind::Identifier { identifier, unresolved: None }
            } else {
                return Err(CodecError::InvalidType);
            };
            Ok(Type { kind: Spanned::without_span(tk), nullable: Spanned::without_span(nullable) })
        },
        _ => Err(CodecError::InvalidType),
    }
}

/// A type that a document describes can be written: it holds no unresolved
/// kind, and its element counts are set.
pub proof fn lemma_type_encodable(d: Doc, t: Type)
    requires
        describes_type(d, t),
    ensures
        encodable_type(t),
    decreases t,
{
    let e = d->Obj_0@;
    match t.kind.inner {
        TypeKind::Array { element_type, element_count, .. } => {
            lemma_type_encodable(value_of(e, "element_type"@), element_type.inner);
        },
        TypeKind::Vector { element_type, .. } => {
            lemma_type_encodable(value_of(e, "element_type"@), element_type.inner);
        },
        _ => {},
    }
}

/// A document determines the content of the type that it describes.
pub proof fn lemma_type_unique(d: Doc, x: Type, y: Type)
    requires
        describes_type(d, x),
        describes_type(d, y),
        readable_type(x),
        readable_type(y),
    ensures
        same_type(x, y),
    decreases x,
{
    reveal_type_keys();
    let e = d->Obj_0@;
    if key_count(e, "nullable"@) != 0 {
        lemma_req_unique(e, "nullable"@, x.nullable.inner, y.nullable.inner);
    }
    match (x.kind.inner, y.kind.inner) {
        (
            TypeKind::Array { element_type: a, element_count: m, .. },
            TypeKind::Array { element_type: b, element_count: n, .. },
        ) => {
            lemma_type_unique(value_of(e, "element_type"@), a.inner, b.inner);
            lemma_req_unique(e, "element_count"@, m, n);
        },
        (
            TypeKind::Vector { element_type: a, maybe_element_count: m, .. },
            TypeKind::Vector { element_type: b, maybe_element_count: n, .. },
        ) => {
            lemma_type_unique(value_of(e, "element_type"@), a.inner, b.inner);
            lemma_opt_unique(e, "maybe_element_count"@, m, n);
        },
        (
            TypeKind::String { maybe_element_count: m, .. },
            TypeKind::String { maybe_element_count: n, .. },
        ) => {
            lemma_opt_unique(e, "maybe_element_count"@, m, n);
        },
        (TypeKind::Handle { subtype: a }, TypeKind::Handle { subtype: b }) => {
            lemma_req_unique(e, "subtype"@, a, b);
        },
        (TypeKind::Request { subtype: a, .. }, TypeKind::Request { subtype: b, .. }) => {
            lemma_req_unique(e, "subtype"@, a, b);
        },
        (TypeKind::Primitive { subtype: a }, TypeKind::Primitive { subtype: b }) => {
            lemma_req_unique(e, "subtype"@, a, b);
        },
        (TypeKind::Identifier { identifier: a, .. }, TypeKind::Identifier { identifier: b, .. }) => {
            lemma_req_unique(e, "identifier"@, a, b);
        },
        _ => {},
    }
}

impl Wire for Type {
    open spec fn describes(d: Doc, x: Type) -> bool {
        describes_type(d, x)
    }

    open spec fn wire_form(d: Doc, x: Type) -> bool {
        wire_form_type(d, x)
    }

    open spec fn encodable(x: Type) -> bool {
        encodable_type(x)
    }

    open spec fn same_content(x: Type, y: Type) -> bool {
        same_type(x, y)
    }

    open spec fn readable(x: Type) -> bool {
        readable_type(x)
    }

    open spec fn complete(x: Type) -> bool {
        true
    }

    open spec fn fresh(x: Type) -> bool {
        fresh_type(x)
    }

    fn encode(&self) -> (r: Result<Doc, CodecError>) {
        encode_type(self)
    }

    fn decode(d: &Doc) -> (r: Result<Type, CodecError>) {
        decode_type(d)
    }

    proof fn lemma_unique(d: Doc, x: Type, y: Type) {
        lemma_type_unique(d, x, y);
    }

    proof fn lemma_described_encodable(d: Doc, x: Type) {
        lemma_type_encodable(d, x);
    }

    proof fn lemma_not_null(d: Doc, x: Type) {
    }
}

} // verus!
