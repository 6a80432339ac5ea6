//! Encoding to and decoding from wire documents, for std types and wrappers.

use vstd::prelude::*;
use crate::doc::{CodecError, Doc, Entry, field, key_count, value_of, is_duplicate_of, is_missing_of};
use crate::span::Spanned;
use crate::ser_option::SerOption;
use crate::decl_path::{DeclPath, path_parts, path_text, slash_count, lemma_path_parts_of_text, lemma_path_text_of_parts};

verus! {

/// A value with a wire form.
///
/// `describes(d, x)` says that the document `d` is a wire form of `x`.
/// Encoding produces such a document, and fails only on an unresolved value.
/// Decoding accepts exactly the documents that describe some readable value,
/// yields a readable and fresh value, and a document determines the content
/// of the readable value that it describes.
pub trait Wire: Sized {
    /// The document `d` is a wire form of `x`.
    spec fn describes(d: Doc, x: Self) -> bool;

    /// `d` is the document that encoding `x` gives: every object's entries in
    /// the order written, absent optional fields left out, strings equal by
    /// their characters.
    spec fn wire_form(d: Doc, x: Self) -> bool;

    /// `x` can be written: every value that must be set before encoding is
    /// set, and no unresolved type is left.
    spec fn encodable(x: Self) -> bool;

    /// `x` reads back from its wire form: no part of an identifier path holds
    /// the separator.
    spec fn readable(x: Self) -> bool;

    /// `x` is as decoding makes it: no span, and every field that only serves
    /// resolution empty.
    spec fn fresh(x: Self) -> bool;

    /// `x` and `y` agree in everything that the wire form keeps.
    spec fn same_content(x: Self, y: Self) -> bool;

    /// Every request or response group in `x` that is present carries its
    /// size: the one placeholder that a document may leave unset.
    spec fn complete(x: Self) -> bool;

    fn encode(&self) -> (r: Result<Doc, CodecError>)
        ensures
            r is Ok <==> Self::encodable(*self),
            r matches Ok(d) ==> Self::describes(d, *self) && Self::wire_form(d, *self),
            r matches Err(e) ==> e == CodecError::UnresolvedValue,
    ;

    fn decode(d: &Doc) -> (r: Result<Self, CodecError>)
        ensures
            r matches Ok(x) ==> Self::describes(*d, x) && Self::readable(x) && Self::fresh(x),
            (exists|x: Self| #[trigger] Self::describes(*d, x) && Self::readable(x)) ==> r is Ok,
    ;

    /// A document determines the content of what it describes.
    proof fn lemma_unique(d: Doc, x: Self, y: Self)
        requires
            Self::describes(d, x),
            Self::describes(d, y),
            Self::readable(x),
            Self::readable(y),
        ensures
            Self::same_content(x, y),
    ;

    /// A value that a document describes can be written, once every present
    /// group carries its size.
    proof fn lemma_described_encodable(d: Doc, x: Self)
        requires
            Self::describes(d, x),
            Self::complete(x),
        ensures
            Self::encodable(x),
    ;

    /// No value is written as null.
    proof fn lemma_not_null(d: Doc, x: Self)
        requires
            Self::describes(d, x),
        ensures
            !(d is Null),
    ;
}

impl Wire for bool {
    open spec fn describes(d: Doc, x: bool) -> bool {
        d == Doc::Bool(x)
    }

    open spec fn wire_form(d: Doc, x: bool) -> bool {
        Self::describes(d, x)
    }

    open spec fn encodable(x: bool) -> bool {
        true
    }

    open spec fn same_content(x: bool, y: bool) -> bool {
        x == y
    }

    open spec fn readable(x: bool) -> bool {
        true
    }

    open spec fn complete(x: bool) -> bool {
        true
    }

    open spec fn fresh(x: bool) -> bool {
        true
    }

    fn encode(&self) -> (r: Result<Doc, CodecError>) {
        Ok(Doc::Bool(*self))
    }

    fn decode(d: &Doc) -> (r: Result<bool, CodecError>)
        ensures
            !(d is Bool) ==> r == Err::<bool, CodecError>(CodecError::InvalidType),
    {
        match d {
            Doc::Bool(b) => Ok(*b),
            _ => Err(CodecError::InvalidType),
        }
    }

    proof fn lemma_unique(d: Doc, x: bool, y: bool) {
    }

    proof fn lemma_described_encodable(d: Doc, x: bool) {
    }

    proof fn lemma_not_null(d: Doc, x: bool) {
    }
}

impl Wire for u64 {
    open spec fn describes(d: Doc, x: u64) -> bool {
        d == Doc::Num(x)
    }

    open spec fn wire_form(d: Doc, x: u64) -> bool {
        Self::describes(d, x)
    }

    open spec fn encodable(x: u64) -> bool {
        true
    }

    open spec fn same_content(x: u64, y: u64) -> bool {
        x == y
    }

    open spec fn readable(x: u64) -> bool {
        true
    }

    open spec fn complete(x: u64) -> bool {
        true
    }

    open spec fn fresh(x: u64) -> bool {
        true
    }

    fn encode(&self) -> (r: Result<Doc, CodecError>) {
        Ok(Doc::Num(*self))
    }

    fn decode(d: &Doc) -> (r: Result<u64, CodecError>) {
        match d {
            Doc::Num(n) => Ok(*n),
            _ => Err(CodecError::InvalidType),
        }
    }

    proof fn lemma_unique(d: Doc, x: u64, y: u64) {
    }

    proof fn lemma_described_encodable(d: Doc, x: u64) {
    }

    proof fn lemma_not_null(d: Doc, x: u64) {
    }
}

impl Wire for u32 {
    open spec fn describes(d: Doc, x: u32) -> bool {
        d == Doc::Num(x as u64)
    }

    open spec fn wire_form(d: Doc, x: u32) -> bool {
        Self::describes(d, x)
    }

    open spec fn encodable(x: u32) -> bool {
        true
    }

    open spec fn same_content(x: u32, y: u32) -> bool {
        x == y
    }

    open spec fn readable(x: u32) -> bool {
        true
    }

    open spec fn complete(x: u32) -> bool {
        true
    }

    open spec fn fresh(x: u32) -> bool {
        true
    }

    fn encode(&self) -> (r: Result<Doc, CodecError>) {
        Ok(Doc::Num(*self as u64))
    }

    fn decode(d: &Doc) -> (r: Result<u32, CodecError>) {
        match d {
            Doc::Num(n) => {
                if *n <= u32::MAX as u64 {
                    Ok(*n as u32)
                } else {
                    Err(CodecError::InvalidType)
                }
            },
            _ => Err(CodecError::InvalidType),
        }
    }

    proof fn lemma_unique(d: Doc, x: u32, y: u32) {
    }

    proof fn lemma_described_encodable(d: Doc, x: u32) {
    }

    proof fn lemma_not_null(d: Doc, x: u32) {
    }
}

impl Wire for String {
    open spec fn describes(d: Doc, x: String) -> bool {
        d matches Doc::Str(s) && s@ == x@
    }

    open spec fn wire_form(d: Doc, x: String) -> bool {
        Self::describes(d, x)
    }

    open spec fn encodable(x: String) -> bool {
        true
    }

    open spec fn same_content(x: String, y: String) -> bool {
        x@ == y@
    }

    open spec fn readable(x: String) -> bool {
        true
    }

    open spec fn complete(x: String) -> bool {
        true
    }

    open spec fn fresh(x: String) -> bool {
        true
    }

    fn encode(&self) -> (r: Result<Doc, CodecError>) {
        Ok(Doc::Str(self.clone()))
    }

    fn decode(d: &Doc) -> (r: Result<String, CodecError>) {
        match d {
            Doc::Str(s) => Ok(s.clone()),
            _ => Err(CodecError::InvalidType),
        }
    }

    proof fn lemma_unique(d: Doc, x: String, y: String) {
    }

    proof fn lemma_described_encodable(d: Doc, x: String) {
    }

    proof fn lemma_not_null(d: Doc, x: String) {
    }
}

impl<T: Wire> Wire for Vec<T> {
    open spec fn describes(d: Doc, x: Vec<T>) -> bool {
        d matches Doc::Arr(v) && v@.len() == x@.len() && forall|i: int|
            0 <= i < x@.len() ==> T::describes(#[trigger] v@[i], x@[i])
    }

    open spec fn wire_form(d: Doc, x: Vec<T>) -> bool {
        d matches Doc::Arr(v) && v@.len() == x@.len() && forall|i: int|
            0 <= i < x@.len() ==> T::wire_form(#[trigger] v@[i], x@[i])
    }

    open spec fn encodable(x: Vec<T>) -> bool {
        forall|i: int| 0 <= i < x@.len() ==> T::encodable(#[trigger] x@[i])
    }

    open spec fn same_content(x: Vec<T>, y: Vec<T>) -> bool {
        x@.len() == y@.len() && forall|i: int|
            0 <= i < x@.len() ==> T::same_content(#[trigger] x@[i], y@[i])
    }

    open spec fn readable(x: Vec<T>) -> bool {
        forall|i: int| 0 <= i < x@.len() ==> T::readable(#[trigger] x@[i])
    }

    open spec fn complete(x: Vec<T>) -> bool {
        forall|i: int| 0 <= i < x@.len() ==> T::complete(#[trigger] x@[i])
    }

    open spec fn fresh(x: Vec<T>) -> bool {
        forall|i: int| 0 <= i < x@.len() ==> T::fresh(#[trigger] x@[i])
    }

    fn encode(&self) -> (r: Result<Doc, CodecError>) {
        let mut out: Vec<Doc> = Vec::new();
        let mut i: usize = 0;
        while i < self.len()
            invariant
                i <= self@.len(),
                out@.len() == i,
                forall|j: int| 0 <= j < i ==> T::encodable(#[trigger] self@[j]),
                forall|j: int| 0 <= j < i ==> T::describes(#[trigger] out@[j], self@[j]),
                forall|j: int| 0 <= j < i ==> T::wire_form(#[trigger] out@[j], self@[j]),
            decreases self@.len() - i,
        {
            let d = self[i].encode()?;
            out.push(d);
            i = i + 1;
        }
        Ok(Doc::Arr(out))
    }

    fn decode(d: &Doc) -> (r: Result<Vec<T>, CodecError>) {
        match d {
            Doc::Arr(v) => {
                let mut out: Vec<T> = Vec::new();
                let mut i: usize = 0;
                while i < v.len()
                    invariant
                        *d == Doc::Arr(*v),
                        i <= v@.len(),
                        out@.len() == i,
                        forall|j: int| 0 <= j < i ==> T::describes(#[trigger] v@[j], out@[j]),
                        forall|j: int| 0 <= j < i ==> T::readable(#[trigger] out@[j]) && T::fresh(out@[j]),
                    decreases v@.len() - i,
                {
                    let r = T::decode(&v[i]);
                    match r {
                        Ok(x) => out.push(x),
                        Err(e) => {
                            proof {
                                if exists|x: Vec<T>| #[trigger] Self::describes(*d, x) && Self::readable(x) {
                                    let x = choose|x: Vec<T>| #[trigger] Self::describes(*d, x) && Self::readable(x);
                                    assert(d->Arr_0 == *v);
                                    assert(0 <= i < x@.len());
                                    assert(T::describes(v@[i as int], x@[i as int]));
                                }
                            }
                            return Err(e);
                        },
                    }
                    i = i + 1;
                }
                Ok(out)
            },
            _ => Err(CodecError::InvalidType),
        }
    }

    proof fn lemma_unique(d: Doc, x: Vec<T>, y: Vec<T>) {
        let v = d->Arr_0;
        assert forall|i: int| 0 <= i < x@.len() implies T::same_content(#[trigger] x@[i], y@[i]) by {
            assert(T::readable(x@[i]) && T::readable(y@[i]));
            T::lemma_unique(v@[i], x@[i], y@[i]);
        }
    }

    proof fn lemma_described_encodable(d: Doc, x: Vec<T>) {
        let v = d->Arr_0;
        assert forall|i: int| 0 <= i < x@.len() implies T::encodable(#[trigger] x@[i]) by {
            T::lemma_described_encodable(v@[i], x@[i]);
        }
    }

    proof fn lemma_not_null(d: Doc, x: Vec<T>) {
    }
}

impl<T: Wire> Wire for Box<T> {
    open spec fn describes(d: Doc, x: Box<T>) -> bool {
        T::describes(d, *x)
    }

    open spec fn wire_form(d: Doc, x: Box<T>) -> bool {
        T::wire_form(d, *x)
    }

    open spec fn encodable(x: Box<T>) -> bool {
        T::encodable(*x)
    }

    open spec fn same_content(x: Box<T>, y: Box<T>) -> bool {
        T::same_content(*x, *y)
    }

    open spec fn readable(x: Box<T>) -> bool {
        T::readable(*x)
    }

    open spec fn complete(x: Box<T>) -> bool {
        T::complete(*x)
    }

    open spec fn fresh(x: Box<T>) -> bool {
        T::fresh(*x)
    }

    fn encode(&self) -> (r: Result<Doc, CodecError>) {
        (**self).encode()
    }

    fn decode(d: &Doc) -> (r: Result<Box<T>, CodecError>) {
        let x = T::decode(d);
        proof {
            if exists|x: Box<T>| #[trigger] Self::describes(*d, x) && Self::readable(x) {
                let b = choose|x: Box<T>| #[trigger] Self::describes(*d, x) && Self::readable(x);
                assert(T::describes(*d, *b));
            }
        }
        match x {
            Ok(v) => Ok(Box::new(v)),
            Err(e) => Err(e),
        }
    }

    proof fn lemma_unique(d: Doc, x: Box<T>, y: Box<T>) {
        T::lemma_unique(d, *x, *y);
    }

    proof fn lemma_described_encodable(d: Doc, x: Box<T>) {
        T::lemma_described_encodable(d, *x);
    }

    proof fn lemma_not_null(d: Doc, x: Box<T>) {
        T::lemma_not_null(d, *x);
    }
}

impl<T: Wire> Wire for Spanned<T> {
    open spec fn describes(d: Doc, x: Spanned<T>) -> bool {
        T::describes(d, x.inner)
    }

    open spec fn wire_form(d: Doc, x: Spanned<T>) -> bool {
        T::wire_form(d, x.inner)
    }

    open spec fn encodable(x: Spanned<T>) -> bool {
        T::encodable(x.inner)
    }

    open spec fn same_content(x: Spanned<T>, y: Spanned<T>) -> bool {
        T::same_content(x.inner, y.inner)
    }

    open spec fn readable(x: Spanned<T>) -> bool {
        T::readable(x.inner)
    }

    open spec fn complete(x: Spanned<T>) -> bool {
        T::complete(x.inner)
    }

    open spec fn fresh(x: Spanned<T>) -> bool {
        x.span is None && T::fresh(x.inner)
    }

    fn encode(&self) -> (r: Result<Doc, CodecError>) {
        self.inner.encode()
    }

    fn decode(d: &Doc) -> (r: Result<Spanned<T>, CodecError>)
        ensures
            r matches Ok(y) ==> y.span is None,
    {
        let x = T::decode(d);
        proof {
            if exists|x: Spanned<T>| #[trigger] Self::describes(*d, x) && Self::readable(x) {
                let s = choose|x: Spanned<T>| #[trigger] Self::describes(*d, x) && Self::readable(x);
                assert(T::describes(*d, s.inner));
            }
        }
        match x {
            Ok(v) => Ok(Spanned::without_span(v)),
            Err(e) => Err(e),
        }
    }

    proof fn lemma_unique(d: Doc, x: Spanned<T>, y: Spanned<T>) {
        T::lemma_unique(d, x.inner, y.inner);
    }

    proof fn lemma_described_encodable(d: Doc, x: Spanned<T>) {
        T::lemma_described_encodable(d, x.inner);
    }

    proof fn lemma_not_null(d: Doc, x: Spanned<T>) {
        T::lemma_not_null(d, x.inner);
    }
}

/// Written as the bare inner value; an unset value cannot be written.
impl<T: Wire> Wire for SerOption<T> {
    open spec fn describes(d: Doc, x: SerOption<T>) -> bool {
        x.0 matches Some(v) && T::describes(d, v)
    }

    open spec fn wire_form(d: Doc, x: SerOption<T>) -> bool {
        x.0 matches Some(v) && T::wire_form(d, v)
    }

    open spec fn encodable(x: SerOption<T>) -> bool {
        x.0 matches Some(v) && T::encodable(v)
    }

    open spec fn same_content(x: SerOption<T>, y: SerOption<T>) -> bool {
        match (x.0, y.0) {
            (None, None) => true,
            (Some(a), Some(b)) => T::same_content(a, b),
            _ => false,
        }
    }

    open spec fn readable(x: SerOption<T>) -> bool {
        x.0 matches Some(v) ==> T::readable(v)
    }

    open spec fn complete(x: SerOption<T>) -> bool {
        x.0 matches Some(v) ==> T::complete(v)
    }

    open spec fn fresh(x: SerOption<T>) -> bool {
        x.0 matches Some(v) ==> T::fresh(v)
    }

    fn encode(&self) -> (r: Result<Doc, CodecError>)
        ensures
            self.0 is None ==> r == Err::<Doc, CodecError>(CodecError::UnresolvedValue),
    {
        match &self.0 {
            None => Err(CodecError::UnresolvedValue),
            Some(v) => v.encode(),
        }
    }

    fn decode(d: &Doc) -> (r: Result<SerOption<T>, CodecError>) {
        let x = T::decode(d);
        proof {
            if exists|x: SerOption<T>| #[trigger] Self::describes(*d, x) && Self::readable(x) {
                let s = choose|x: SerOption<T>| #[trigger] Self::describes(*d, x) && Self::readable(x);
                assert(T::describes(*d, s.0->Some_0));
            }
        }
        match x {
            Ok(v) => Ok(SerOption(Some(v))),
            Err(e) => Err(e),
        }
    }

    proof fn lemma_unique(d: Doc, x: SerOption<T>, y: SerOption<T>) {
        T::lemma_unique(d, x.0->Some_0, y.0->Some_0);
    }

    proof fn lemma_described_encodable(d: Doc, x: SerOption<T>) {
        T::lemma_described_encodable(d, x.0->Some_0);
    }

    proof fn lemma_not_null(d: Doc, x: SerOption<T>) {
        T::lemma_not_null(d, x.0->Some_0);
    }
}

/// Written as the text `"<library>/<decl>"`.
impl Wire for DeclPath {
    open spec fn describes(d: Doc, x: DeclPath) -> bool {
        d matches Doc::Str(s) && s@ == path_text(x.library_name@, x.decl_name@)
    }

    open spec fn wire_form(d: Doc, x: DeclPath) -> bool {
        Self::describes(d, x)
    }

    open spec fn encodable(x: DeclPath) -> bool {
        true
    }

    open spec fn same_content(x: DeclPath, y: DeclPath) -> bool {
        x.library_name@ == y.library_name@ && x.decl_name@ == y.decl_name@
    }

    open spec fn readable(x: DeclPath) -> bool {
        slash_count(x.library_name@) == 0 && slash_count(x.decl_name@) == 0
    }

    open spec fn complete(x: DeclPath) -> bool {
        true
    }

    open spec fn fresh(x: DeclPath) -> bool {
        true
    }

    fn encode(&self) -> (r: Result<Doc, CodecError>)
        ensures
            r matches Ok(Doc::Str(s)) && s@ == path_text(self.library_name@, self.decl_name@),
    {
        Ok(Doc::Str(self.to_text()))
    }

    fn decode(d: &Doc) -> (r: Result<DeclPath, CodecError>)
        ensures
            d matches Doc::Str(s) && path_parts(s@) is None ==> r == Err::<DeclPath, CodecError>(CodecError::MalformedPath),
            !(d is Str) ==> r == Err::<DeclPath, CodecError>(CodecError::InvalidType),
    {
        match d {
            Doc::Str(s) => {
                let r = DeclPath::from_text(s.as_str());
                proof {
                    lemma_path_text_of_parts(s@);
                    if exists|x: DeclPath| #[trigger] Self::describes(*d, x) && Self::readable(x) {
                        let w = choose|x: DeclPath| #[trigger] Self::describes(*d, x) && Self::readable(x);
                        lemma_path_parts_of_text(w.library_name@, w.decl_name@);
                    }
                }
                r
            },
            _ => Err(CodecError::InvalidType),
        }
    }

    proof fn lemma_unique(d: Doc, x: DeclPath, y: DeclPath) {
        lemma_path_parts_of_text(x.library_name@, x.decl_name@);
        lemma_path_parts_of_text(y.library_name@, y.decl_name@);
    }

    proof fn lemma_described_encodable(d: Doc, x: DeclPath) {
    }

    proof fn lemma_not_null(d: Doc, x: DeclPath) {
    }
}

/// The entry at `i` of `e` is keyed `k` and holds the document that encoding
/// `x` gives.
pub open spec fn entry_form<T: Wire>(e: Seq<Entry>, i: int, k: Seq<char>, x: T) -> bool {
    e[i].key@ == k && T::wire_form(e[i].value, x)
}

/// The entry at `i` of `e` is keyed `k` and holds `v`.
pub open spec fn entry_is(e: Seq<Entry>, i: int, k: Seq<char>, v: Doc) -> bool {
    e[i].key@ == k && e[i].value == v
}

/// `k` occurs once in `e`, with a wire form of `x`.
pub open spec fn req<T: Wire>(e: Seq<Entry>, k: Seq<char>, x: T) -> bool {
    key_count(e, k) == 1 && T::describes(value_of(e, k), x)
}

/// A nullable field: `k` is absent or null in `e` and `x` is `None`, or `k`
/// occurs once with a wire form of the value of `x`.
pub open spec fn opt<T: Wire>(e: Seq<Entry>, k: Seq<char>, x: Option<T>) -> bool {
    match x {
        None => key_count(e, k) == 0 || (key_count(e, k) == 1 && value_of(e, k) is Null),
        Some(v) => req(e, k, v),
    }
}

pub open spec fn opt_encodable<T: Wire>(x: Option<T>) -> bool {
    x matches Some(v) ==> T::encodable(v)
}

pub open spec fn opt_readable<T: Wire>(x: Option<T>) -> bool {
    x matches Some(v) ==> T::readable(v)
}

pub open spec fn opt_fresh<T: Wire>(x: Option<T>) -> bool {
    x matches Some(v) ==> T::fresh(v)
}

pub open spec fn opt_complete<T: Wire>(x: Option<T>) -> bool {
    x matches Some(v) ==> T::complete(v)
}

pub open spec fn opt_same<T: Wire>(x: Option<T>, y: Option<T>) -> bool {
    match (x, y) {
        (None, None) => true,
        (Some(a), Some(b)) => T::same_content(a, b),
        _ => false,
    }
}

pub proof fn lemma_req_unique<T: Wire>(e: Seq<Entry>, k: Seq<char>, x: T, y: T)
    requires
        req(e, k, x),
        req(e, k, y),
        T::readable(x),
        T::readable(y),
    ensures
        T::same_content(x, y),
{
    T::lemma_unique(value_of(e, k), x, y);
}

pub proof fn lemma_opt_unique<T: Wire>(e: Seq<Entry>, k: Seq<char>, x: Option<T>, y: Option<T>)
    requires
        opt(e, k, x),
        opt(e, k, y),
        opt_readable(x),
        opt_readable(y),
    ensures
        opt_same(x, y),
{
    if let Some(a) = x {
        T::lemma_not_null(value_of(e, k), a);
    }
    if let Some(b) = y {
        T::lemma_not_null(value_of(e, k), b);
    }
    if x is Some && y is Some {
        T::lemma_unique(value_of(e, k), x->Some_0, y->Some_0);
    }
}

/// Decodes the required field `k` of the entries `e`.
pub fn get_req<T: Wire>(e: &Vec<Entry>, k: &str) -> (r: Result<T, CodecError>)
    ensures
        r matches Ok(x) ==> req(e@, k@, x) && T::readable(x) && T::fresh(x),
        (exists|x: T| #[trigger] req(e@, k@, x) && T::readable(x)) ==> r is Ok,
        key_count(e@, k@) == 0 ==> r is Err && is_missing_of(r->Err_0, k@),
        key_count(e@, k@) > 1 ==> r is Err && is_duplicate_of(r->Err_0, k@),
{
    match field(e, k) {
        Err(er) => Err(er),
        Ok(None) => Err(CodecError::MissingField(k.to_owned())),
        Ok(Some(v)) => {
            let x = T::decode(v);
            proof {
                if exists|x: T| #[trigger] req(e@, k@, x) && T::readable(x) {
                    let w = choose|x: T| #[trigger] req(e@, k@, x) && T::readable(x);
                    assert(T::describes(*v, w));
                }
            }
            x
        },
    }
}

/// Decodes the nullable field `k` of the entries `e`.
pub fn get_opt<T: Wire>(e: &Vec<Entry>, k: &str) -> (r: Result<Option<T>, CodecError>)
    ensures
        r matches Ok(x) ==> opt(e@, k@, x) && opt_readable(x) && opt_fresh(x),
        (exists|x: Option<T>| #[trigger] opt(e@, k@, x) && opt_readable(x)) ==> r is Ok,
        key_count(e@, k@) > 1 ==> r is Err && is_duplicate_of(r->Err_0, k@),
{
    match field(e, k) {
        Err(er) => Err(er),
        Ok(None) => Ok(None),
        Ok(Some(Doc::Null)) => Ok(None),
        Ok(Some(v)) => {
            let x = T::decode(v);
            proof {
                if exists|x: Option<T>| #[trigger] opt(e@, k@, x) && opt_readable(x) {
                    let w = choose|x: Option<T>| #[trigger] opt(e@, k@, x) && opt_readable(x);
                    assert(T::describes(*v, w->Some_0));
                }
            }
            match x {
                Ok(y) => Ok(Some(y)),
                Err(er) => Err(er),
            }
        },
    }
}

/// `after` is `before` with one more entry, keyed `k`, whose value satisfies `pred`.
pub open spec fn pushed(before: Seq<Entry>, after: Seq<Entry>, k: Seq<char>, value: Doc) -> bool {
    &&& forall|j: Seq<char>| #[trigger] key_count(after, j) == key_count(before, j) + if j == k { 1nat } else { 0nat }
    &&& value_of(after, k) == value
    &&& forall|j: Seq<char>| j != k ==> #[trigger] value_of(after, j) == value_of(before, j)
}

/// Appends the entry `k` holding `value`.
pub fn push_entry(out: &mut Vec<Entry>, k: &str, value: Doc)
    ensures
        pushed(old(out)@, final(out)@, k@, value),
        final(out)@ == old(out)@.push(final(out)@.last()),
        final(out)@.last().key@ == k@ && final(out)@.last().value == value,
{
    let key = k.to_owned();
    proof {
        let x = Entry { key, value };
        assert(old(out)@.push(x).drop_last() =~= old(out)@);
    }
    out.push(Entry { key, value });
}

/// Appends the entry `k` with the wire form of `x`.
pub fn put<T: Wire>(out: &mut Vec<Entry>, k: &str, x: &T) -> (r: Result<(), CodecError>)
    ensures
        r is Ok <==> T::encodable(*x),
        r is Ok ==> pushed(old(out)@, final(out)@, k@, value_of(final(out)@, k@)),
        r is Ok ==> T::describes(value_of(final(out)@, k@), *x),
        r is Ok ==> final(out)@ == old(out)@.push(final(out)@.last()) && final(out)@.last().key@ == k@
            && T::describes(final(out)@.last().value, *x) && T::wire_form(final(out)@.last().value, *x),
        r matches Err(e) ==> e == CodecError::UnresolvedValue,
{
    match x.encode() {
        Ok(d) => {
            push_entry(out, k, d);
            Ok(())
        },
        Err(er) => Err(er),
    }
}

/// Appends the entry `k` with the wire form of the value of `x`; for `None`
/// appends nothing, so the field is left out.
pub fn put_opt<T: Wire>(out: &mut Vec<Entry>, k: &str, x: &Option<T>) -> (r: Result<(), CodecError>)
    ensures
        r is Ok <==> opt_encodable(*x),
        r matches Err(e) ==> e == CodecError::UnresolvedValue,
        x is None ==> final(out)@ == old(out)@,
        r is Ok && x is Some ==> pushed(old(out)@, final(out)@, k@, value_of(final(out)@, k@)),
        r is Ok && x is Some ==> T::describes(value_of(final(out)@, k@), x->Some_0),
        r is Ok && x is Some ==> final(out)@ == old(out)@.push(final(out)@.last()) && final(out)@.last().key@ == k@
            && T::describes(final(out)@.last().value, x->Some_0) && T::wire_form(final(out)@.last().value, x->Some_0),
{
    match x {
        None => Ok(()),
        Some(y) => put(out, k, y),
    }
}

/// A required field's value can be written once its groups carry sizes.
pub proof fn lemma_req_encodable<T: Wire>(e: Seq<Entry>, k: Seq<char>, x: T)
    requires
        req(e, k, x),
        T::complete(x),
    ensures
        T::encodable(x),
{
    T::lemma_described_encodable(value_of(e, k), x);
}

/// A nullable field's value can be written once its groups carry sizes.
pub proof fn lemma_opt_encodable<T: Wire>(e: Seq<Entry>, k: Seq<char>, x: Option<T>)
    requires
        opt(e, k, x),
        opt_complete(x),
    ensures
        opt_encodable(x),
{
    if let Some(v) = x {
        T::lemma_described_encodable(value_of(e, k), v);
    }
}

} // verus!
