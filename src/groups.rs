//! Flattened groups: a method's request or response, and a table member's slot.

use vstd::prelude::*;
use crate::doc::{CodecError, Doc, Entry, field, key_count, value_of, is_duplicate_of, is_missing_of};
use crate::span::Spanned;
use crate::ser_option::SerOption;
use crate::types::Type;
use crate::types::Constant;
use crate::ir::Parameter;
use crate::wire::{Wire, lemma_req_encodable, req, opt, opt_readable, opt_fresh, entry_form, entry_is, push_entry, put, get_opt, lemma_req_unique, lemma_opt_unique};

verus! {

/// The parameters of a method's request or response.
#[derive(Debug, Clone)]
pub struct MethodReqRes {
    pub parameters: Vec<Spanned<Parameter>>,
    pub size: SerOption<u32>,
}

/// `k` occurs once in `e`, holding `v`.
pub open spec fn holds(e: Seq<Entry>, k: Seq<char>, v: Doc) -> bool {
    key_count(e, k) == 1 && value_of(e, k) == v
}

/// The entries `e` hold the group (`h`: presence flag, `p`: parameters,
/// `s`: size) for `x`. The siblings are present only when the flag is true;
/// the size may then be left out, for an unset size.
pub open spec fn group_in(e: Seq<Entry>, h: Seq<char>, p: Seq<char>, s: Seq<char>, x: Option<MethodReqRes>) -> bool {
    match x {
        None => holds(e, h, Doc::Bool(false)) && key_count(e, p) == 0 && key_count(e, s) == 0,
        Some(m) => {
            &&& holds(e, h, Doc::Bool(true))
            &&& req(e, p, m.parameters)
            &&& ((key_count(e, s) == 0 && m.size.0 is None) || req(e, s, m.size))
        },
    }
}

/// The group for `x` can be written: its parameters can, and its size is set.
pub open spec fn group_encodable(x: Option<MethodReqRes>) -> bool {
    x matches Some(m) ==> Vec::<Spanned<Parameter>>::encodable(m.parameters) && SerOption::<u32>::encodable(m.size)
}

/// The group's parameters read back from their wire form.
pub open spec fn group_readable(x: Option<MethodReqRes>) -> bool {
    x matches Some(m) ==> Vec::<Spanned<Parameter>>::readable(m.parameters)
}

/// The group is as decoding makes it: its parameters carry no span.
pub open spec fn group_fresh(x: Option<MethodReqRes>) -> bool {
    x matches Some(m) ==> Vec::<Spanned<Parameter>>::fresh(m.parameters) && SerOption::<u32>::fresh(m.size)
}

/// A present group carries its size.
pub open spec fn group_complete(x: Option<MethodReqRes>) -> bool {
    x matches Some(m) ==> m.size.0 is Some && Vec::<Spanned<Parameter>>::complete(m.parameters)
}

/// A group that the entries hold can be written once it carries its size.
pub proof fn lemma_group_encodable(e: Seq<Entry>, h: Seq<char>, p: Seq<char>, s: Seq<char>, x: Option<MethodReqRes>)
    requires
        group_in(e, h, p, s, x),
        group_complete(x),
    ensures
        group_encodable(x),
{
    if let Some(m) = x {
        lemma_req_encodable(e, p, m.parameters);
        lemma_req_encodable(e, s, m.size);
    }
}

/// A method's group field is as decoding makes it: no span on it or inside.
pub open spec fn group_fresh_spanned(x: Option<Spanned<MethodReqRes>>) -> bool {
    x matches Some(m) ==> m.span is None && group_fresh(Some(m.inner))
}

pub open spec fn group_same(x: Option<MethodReqRes>, y: Option<MethodReqRes>) -> bool {
    match (x, y) {
        (None, None) => true,
        (Some(a), Some(b)) => Vec::<Spanned<Parameter>>::same_content(a.parameters, b.parameters)
            && SerOption::<u32>::same_content(a.size, b.size),
        _ => false,
    }
}

/// Some entry of `e` has a key other than `h`, `p` and `s`.
pub open spec fn has_unknown_key(e: Seq<Entry>, h: Seq<char>, p: Seq<char>, s: Seq<char>) -> bool {
    exists|i: int| 0 <= i < e.len() && #[trigger] e[i].key@ != h && e[i].key@ != p && e[i].key@ != s
}

/// Each of the three keys occurs at most once.
pub open spec fn group_keys_once(e: Seq<Entry>, h: Seq<char>, p: Seq<char>, s: Seq<char>) -> bool {
    key_count(e, h) <= 1 && key_count(e, p) <= 1 && key_count(e, s) <= 1
}

/// What reading the group under the keys `h`, `p` and `s` from `e` gives: a
/// value exactly when `e` holds one, and otherwise the error for the first
/// fault in this order: a repeated key, a missing flag, a flag that
/// contradicts the siblings, missing parameters.
pub open spec fn group_result(e: Seq<Entry>, h: Seq<char>, p: Seq<char>, s: Seq<char>, r: Result<Option<MethodReqRes>, CodecError>) -> bool {
    &&& r matches Ok(x) ==> group_in(e, h, p, s, x) && group_readable(x) && group_fresh(x)
    &&& (exists|x: Option<MethodReqRes>| #[trigger] group_in(e, h, p, s, x) && group_readable(x)) ==> r is Ok
    &&& key_count(e, h) > 1 ==> r is Err && is_duplicate_of(r->Err_0, h)
    &&& key_count(e, h) <= 1 && key_count(e, p) > 1 ==> r is Err && is_duplicate_of(r->Err_0, p)
    &&& key_count(e, h) <= 1 && key_count(e, p) <= 1 && key_count(e, s) > 1 ==> r is Err && is_duplicate_of(r->Err_0, s)
    &&& group_keys_once(e, h, p, s) && key_count(e, h) == 0 ==> r is Err && is_missing_of(r->Err_0, h)
    &&& group_keys_once(e, h, p, s) && key_count(e, h) == 1 && !(value_of(e, h) is Bool)
        ==> r == Err::<Option<MethodReqRes>, CodecError>(CodecError::InvalidType)
    &&& group_keys_once(e, h, p, s) && holds(e, h, Doc::Bool(false)) && (key_count(e, p) > 0 || key_count(e, s) > 0)
        ==> r == Err::<Option<MethodReqRes>, CodecError>(CodecError::InconsistentGroup)
    &&& group_keys_once(e, h, p, s) && holds(e, h, Doc::Bool(true)) && key_count(e, p) == 0 ==> r is Err && is_missing_of(r->Err_0, p)
}

/// The group that a method's field holds, without its source location.
pub open spec fn unspan(x: Option<Spanned<MethodReqRes>>) -> Option<MethodReqRes> {
    match x {
        None => None,
        Some(m) => Some(m.inner),
    }
}

/// A group stays in place while its three keys keep their entries.
pub proof fn lemma_group_kept(a: Seq<Entry>, b: Seq<Entry>, h: Seq<char>, p: Seq<char>, s: Seq<char>, x: Option<MethodReqRes>)
    requires
        group_in(a, h, p, s, x),
        key_count(b, h) == key_count(a, h) && value_of(b, h) == value_of(a, h),
        key_count(b, p) == key_count(a, p) && value_of(b, p) == value_of(a, p),
        key_count(b, s) == key_count(a, s) && value_of(b, s) == value_of(a, s),
    ensures
        group_in(b, h, p, s, x),
{
}

/// The number of entries that the group for `x` writes.
pub open spec fn group_len(x: Option<MethodReqRes>) -> int {
    if x is Some { 3 } else { 1 }
}

/// From position `n` on, `e` holds exactly what writing the group for `x`
/// gives: the flag `false`; or the flag `true`, the parameters, the size.
pub open spec fn group_form(e: Seq<Entry>, n: int, h: Seq<char>, p: Seq<char>, s: Seq<char>, x: Option<MethodReqRes>) -> bool {
    match x {
        None => entry_is(e, n, h, Doc::Bool(false)),
        Some(m) => {
            &&& entry_is(e, n, h, Doc::Bool(true))
            &&& entry_form(e, n + 1, p, m.parameters)
            &&& entry_form(e, n + 2, s, m.size)
        },
    }
}

/// A document determines the group it holds.
pub proof fn lemma_group_unique(e: Seq<Entry>, h: Seq<char>, p: Seq<char>, s: Seq<char>, x: Option<MethodReqRes>, y: Option<MethodReqRes>)
    requires
        group_in(e, h, p, s, x),
        group_in(e, h, p, s, y),
        group_readable(x),
        group_readable(y),
    ensures
        group_same(x, y),
{
    if x is Some && y is Some {
        let a = x->Some_0;
        let b = y->Some_0;
        lemma_req_unique(e, p, a.parameters, b.parameters);
        if key_count(e, s) != 0 {
            lemma_req_unique(e, s, a.size, b.size);
        }
    }
}

/// Writes the group for `x` under the keys `h`, `p` and `s`: the flag alone
/// when absent; the flag, the parameters and the size when present.
pub fn encode_group(h: &str, p: &str, s: &str, x: &Option<Spanned<MethodReqRes>>, out: &mut Vec<Entry>) -> (r: Result<(), CodecError>)
    requires
        h@ != p@,
        h@ != s@,
        p@ != s@,
        key_count(old(out)@, h@) == 0,
        key_count(old(out)@, p@) == 0,
        key_count(old(out)@, s@) == 0,
    ensures
        r is Ok <==> group_encodable(unspan(*x)),
        r matches Err(e) ==> e == CodecError::UnresolvedValue,
        r is Ok ==> group_in(final(out)@, h@, p@, s@, unspan(*x)),
        r is Ok ==> final(out)@.len() == old(out)@.len() + group_len(unspan(*x)) && final(out)@.take(
            old(out)@.len() as int,
        ) == old(out)@ && group_form(final(out)@, old(out)@.len() as int, h@, p@, s@, unspan(*x)),
        r is Ok ==> forall|k: Seq<char>| k != h@ && k != p@ && k != s@ ==> #[trigger] key_count(final(out)@, k)
            == key_count(old(out)@, k) && value_of(final(out)@, k) == value_of(old(out)@, k),
{
    match x {
        None => {
            push_entry(out, h, Doc::Bool(false));
            proof {
                assert(out@.take(old(out)@.len() as int) =~= old(out)@);
            }
            Ok(())
        },
        Some(m) => {
            let params = m.inner.parameters.encode()?;
            let size = m.inner.size.encode()?;
            push_entry(out, h, Doc::Bool(true));
            push_entry(out, p, params);
            push_entry(out, s, size);
            proof {
                assert(out@.take(old(out)@.len() as int) =~= old(out)@);
            }
            Ok(())
        },
    }
}

/// Reads the group under the keys `h`, `p` and `s` from entries that may hold
/// other keys too.
pub fn decode_group(h: &str, p: &str, s: &str, e: &Vec<Entry>) -> (r: Result<Option<MethodReqRes>, CodecError>)
    requires
        h@ != p@,
        h@ != s@,
        p@ != s@,
    ensures
        group_result(e@, h@, p@, s@, r),
{
    let hf = match field(e, h) { Ok(v) => v, Err(er) => return Err(er) };
    let pf = match field(e, p) { Ok(v) => v, Err(er) => return Err(er) };
    let sf = match field(e, s) { Ok(v) => v, Err(er) => return Err(er) };
    let hv = match hf { Some(v) => v, None => return Err(CodecError::MissingField(h.to_owned())) };
    let present = bool::decode(hv);
    proof {
        if let Doc::Bool(b) = *hv {
            assert(bool::describes(*hv, b));
        }
    }
    let present = match present { Ok(b) => b, Err(er) => return Err(er) };
    if !present {
        if pf.is_some() || sf.is_some() {
            return Err(CodecError::InconsistentGroup);
        }
        return Ok(None);
    }
    let pv = match pf { Some(v) => v, None => return Err(CodecError::MissingField(p.to_owned())) };
    let parameters = Vec::<Spanned<Parameter>>::decode(pv);
    let size = match sf {
        None => Ok(SerOption(None)),
        Some(v) => SerOption::<u32>::decode(v),
    };
    proof {
        if exists|x: Option<MethodReqRes>| #[trigger] group_in(e@, h@, p@, s@, x) && group_readable(x) {
            let w = choose|x: Option<MethodReqRes>| #[trigger] group_in(e@, h@, p@, s@, x) && group_readable(x);
            let m = w->Some_0;
            assert(Vec::<Spanned<Parameter>>::describes(*pv, m.parameters));
            if sf is Some {
                assert(SerOption::<u32>::describes(*sf->Some_0, m.size));
            }
        }
    }
    let parameters = match parameters { Ok(v) => v, Err(er) => return Err(er) };
    let size = match size { Ok(v) => v, Err(er) => return Err(er) };
    Ok(Some(MethodReqRes { parameters, size }))
}

/// Reads a standalone group: the entries hold the three keys and no others.
pub fn decode_req_res(h: &str, p: &str, s: &str, e: &Vec<Entry>) -> (r: Result<Option<MethodReqRes>, CodecError>)
    requires
        h@ != p@,
        h@ != s@,
        p@ != s@,
    ensures
        has_unknown_key(e@, h@, p@, s@) ==> r is Err && (r->Err_0 matches CodecError::UnknownField(k)
            && exists|i: int| 0 <= i < e@.len() && e@[i].key@ == k@ && k@ != h@ && k@ != p@ && k@ != s@),
        !has_unknown_key(e@, h@, p@, s@) ==> group_result(e@, h@, p@, s@, r),
{
    let mut i: usize = 0;
    while i < e.len()
        invariant
            i <= e@.len(),
            forall|j: int| 0 <= j < i ==> #[trigger] e@[j].key@ == h@ || e@[j].key@ == p@ || e@[j].key@ == s@,
        decreases e@.len() - i,
    {
        let k = &e[i].key;
        if !(*k == h.to_owned() || *k == p.to_owned() || *k == s.to_owned()) {
            return Err(CodecError::UnknownField(k.clone()));
        }
        i = i + 1;
    }
    decode_group(h, p, s, e)
}

/// A table member's slot: reserved, or a typed and named field.
///
/// Written as a `reserved` flag with `type`, `name` and
/// `maybe_default_value` beside it, present only for a field.
#[derive(Debug, Clone)]
pub enum TableMemberType {
    Reserved,
    Field { type_: Spanned<Type>, name: Spanned<String>, maybe_default_value: Option<Spanned<Constant>> },
}

/// The entries `e` hold the member slot `x`.
pub open spec fn member_in(e: Seq<Entry>, x: TableMemberType) -> bool {
    match x {
        TableMemberType::Reserved => {
            &&& holds(e, "reserved"@, Doc::Bool(true))
            &&& opt(e, "type"@, None::<Spanned<Type>>)
            &&& opt(e, "name"@, None::<Spanned<String>>)
            &&& opt(e, "maybe_default_value"@, None::<Spanned<Constant>>)
        },
        TableMemberType::Field { type_, name, maybe_default_value } => {
            &&& holds(e, "reserved"@, Doc::Bool(false))
            &&& req(e, "type"@, type_)
            &&& req(e, "name"@, name)
            &&& opt(e, "maybe_default_value"@, maybe_default_value)
        },
    }
}

pub open spec fn member_encodable(x: TableMemberType) -> bool {
    x matches TableMemberType::Field { type_, maybe_default_value, .. } ==> Spanned::<Type>::encodable(type_)
        && crate::wire::opt_encodable(maybe_default_value)
}

/// The slot reads back from its wire form.
pub open spec fn member_readable(x: TableMemberType) -> bool {
    x matches TableMemberType::Field { type_, maybe_default_value, .. } ==> Spanned::<Type>::readable(type_)
        && opt_readable(maybe_default_value)
}

/// The slot is as decoding makes it: no span on its type, name or default.
pub open spec fn member_fresh(x: TableMemberType) -> bool {
    x matches TableMemberType::Field { type_, name, maybe_default_value } ==> Spanned::<Type>::fresh(type_)
        && Spanned::<String>::fresh(name) && opt_fresh(maybe_default_value)
}

/// Every group inside the slot carries its size.
pub open spec fn member_complete(x: TableMemberType) -> bool {
    x matches TableMemberType::Field { type_, maybe_default_value, .. } ==> Spanned::<Type>::complete(type_)
        && crate::wire::opt_complete(maybe_default_value)
}

/// A slot that the entries hold can be written once its groups carry sizes.
pub proof fn lemma_member_encodable(e: Seq<Entry>, x: TableMemberType)
    requires
        member_in(e, x),
        member_complete(x),
    ensures
        member_encodable(x),
{
    if let TableMemberType::Field { type_, maybe_default_value, .. } = x {
        lemma_req_encodable(e, "type"@, type_);
        crate::wire::lemma_opt_encodable(e, "maybe_default_value"@, maybe_default_value);
    }
}

pub open spec fn member_same(x: TableMemberType, y: TableMemberType) -> bool {
    match (x, y) {
        (TableMemberType::Reserved, TableMemberType::Reserved) => true,
        (
            TableMemberType::Field { type_: t, name: n, maybe_default_value: v },
            TableMemberType::Field { type_: u, name: m, maybe_default_value: w },
        ) => Spanned::<Type>::same_content(t, u) && n.inner@ == m.inner@ && crate::wire::opt_same(v, w),
        _ => false,
    }
}

/// Each of the three siblings of the `reserved` flag is absent, null, or
/// holds a readable value.
pub open spec fn member_siblings_readable(e: Seq<Entry>) -> bool {
    &&& exists|t: Option<Spanned<Type>>| #[trigger] opt(e, "type"@, t) && opt_readable(t)
    &&& exists|n: Option<Spanned<String>>| #[trigger] opt(e, "name"@, n) && opt_readable(n)
    &&& exists|v: Option<Spanned<Constant>>| #[trigger] opt(e, "maybe_default_value"@, v) && opt_readable(v)
}

/// Some sibling of the `reserved` flag holds a value.
pub open spec fn member_sibling_given(e: Seq<Entry>) -> bool {
    ||| !opt(e, "type"@, None::<Spanned<Type>>)
    ||| !opt(e, "name"@, None::<Spanned<String>>)
    ||| !opt(e, "maybe_default_value"@, None::<Spanned<Constant>>)
}

/// The lengths and first letters of the member slot's keys.
pub proof fn reveal_member_keys()
    ensures
        "reserved"@.len() == 8,
        "type"@.len() == 4,
        "name"@.len() == 4,
        "maybe_default_value"@.len() == 19,
        "type"@[0] == 't',
        "name"@[0] == 'n',
{
    reveal_strlit("reserved");
    reveal_strlit("type");
    reveal_strlit("name");
    reveal_strlit("maybe_default_value");
}

/// The number of entries that writing the slot `x` gives.
pub open spec fn member_len(x: TableMemberType) -> int {
    match x {
        TableMemberType::Reserved => 1,
        TableMemberType::Field { maybe_default_value, .. } => if maybe_default_value is Some { 4 } else { 3 },
    }
}

/// From position `n` on, `e` holds exactly what writing the slot `x` gives:
/// `reserved: true` alone; or `reserved: false`, the type, the name, and the
/// default only when there is one.
pub open spec fn member_form(e: Seq<Entry>, n: int, x: TableMemberType) -> bool {
    match x {
        TableMemberType::Reserved => entry_is(e, n, "reserved"@, Doc::Bool(true)),
        TableMemberType::Field { type_, name, maybe_default_value } => {
            &&& entry_is(e, n, "reserved"@, Doc::Bool(false))
            &&& entry_form(e, n + 1, "type"@, type_)
            &&& entry_form(e, n + 2, "name"@, name)
            &&& maybe_default_value matches Some(v) ==> entry_form(e, n + 3, "maybe_default_value"@, v)
        },
    }
}

/// A document determines the member slot it holds.
pub proof fn lemma_member_unique(e: Seq<Entry>, x: TableMemberType, y: TableMemberType)
    requires
        member_in(e, x),
        member_in(e, y),
        member_readable(x),
        member_readable(y),
    ensures
        member_same(x, y),
{
    if let (
        TableMemberType::Field { type_: t, name: n, maybe_default_value: v },
        TableMemberType::Field { type_: u, name: m, maybe_default_value: w },
    ) = (x, y) {
        lemma_req_unique(e, "type"@, t, u);
        lemma_req_unique(e, "name"@, n, m);
        lemma_opt_unique(e, "maybe_default_value"@, v, w);
    }
}

/// Writes the member slot `x`: `reserved` alone for a reserved slot; for a
/// field, the flag, the type, the name and the default value if there is one.
pub fn encode_member(x: &TableMemberType, out: &mut Vec<Entry>) -> (r: Result<(), CodecError>)
    requires
        key_count(old(out)@, "reserved"@) == 0,
        key_count(old(out)@, "type"@) == 0,
        key_count(old(out)@, "name"@) == 0,
        key_count(old(out)@, "maybe_default_value"@) == 0,
    ensures
        r is Ok <==> member_encodable(*x),
        r matches Err(e) ==> e == CodecError::UnresolvedValue,
        r is Ok ==> member_in(final(out)@, *x),
        r is Ok ==> final(out)@.take(old(out)@.len() as int) == old(out)@,
        r is Ok ==> final(out)@.len() == old(out)@.len() + member_len(*x) && member_form(
            final(out)@,
            old(out)@.len() as int,
            *x,
        ),
        r is Ok ==> forall|k: Seq<char>|
            k != "reserved"@ && k != "type"@ && k != "name"@ && k != "maybe_default_value"@
                ==> #[trigger] key_count(final(out)@, k) == key_count(old(out)@, k) && value_of(final(out)@, k)
                == value_of(old(out)@, k),
{
    proof {
        reveal_member_keys();
    }
    match x {
        TableMemberType::Reserved => {
            push_entry(out, "reserved", Doc::Bool(true));
            proof {
                assert(out@.take(old(out)@.len() as int) =~= old(out)@);
            }
            Ok(())
        },
        TableMemberType::Field { type_, name, maybe_default_value } => {
            let t = type_.encode()?;
            push_entry(out, "reserved", Doc::Bool(false));
            push_entry(out, "type", t);
            put(out, "name", name)?;
            match maybe_default_value {
                Some(v) => {
                    put(out, "maybe_default_value", v)?;
                },
                None => {},
            }
            proof {
                assert(out@.take(old(out)@.len() as int) =~= old(out)@);
            }
            Ok(())
        },
    }
}

/// Reads a member slot from entries that may hold other keys too.
pub fn decode_member(e: &Vec<Entry>) -> (r: Result<TableMemberType, CodecError>)
    ensures
        r matches Ok(x) ==> member_in(e@, x) && member_readable(x) && member_fresh(x),
        (exists|x: TableMemberType| #[trigger] member_in(e@, x) && member_readable(x)) ==> r is Ok,
        key_count(e@, "reserved"@) == 1 && !(value_of(e@, "reserved"@) is Bool) ==> r == Err::<TableMemberType, CodecError>(CodecError::InvalidType),
        key_count(e@, "reserved"@) == 0 ==> r is Err && is_missing_of(r->Err_0, "reserved"@),
        member_siblings_readable(e@) && holds(e@, "reserved"@, Doc::Bool(true)) && member_sibling_given(e@)
            ==> r == Err::<TableMemberType, CodecError>(CodecError::InconsistentGroup),
        member_siblings_readable(e@) && holds(e@, "reserved"@, Doc::Bool(false)) && opt(e@, "type"@, None::<Spanned<Type>>)
            ==> r is Err && is_missing_of(r->Err_0, "type"@),
        member_siblings_readable(e@) && holds(e@, "reserved"@, Doc::Bool(false)) && !opt(e@, "type"@, None::<Spanned<Type>>)
            && opt(e@, "name"@, None::<Spanned<String>>) ==> r is Err && is_missing_of(r->Err_0, "name"@),
{
    proof {
        reveal_member_keys();
    }
    let rf = field(e, "reserved");
    let t = get_opt::<Spanned<Type>>(e, "type");
    let n = get_opt::<Spanned<String>>(e, "name");
    let v = get_opt::<Spanned<Constant>>(e, "maybe_default_value");
    proof {
        if exists|x: TableMemberType| #[trigger] member_in(e@, x) && member_readable(x) {
            let w = choose|x: TableMemberType| #[trigger] member_in(e@, x) && member_readable(x);
            match w {
                TableMemberType::Reserved => {},
                TableMemberType::Field { type_, name, maybe_default_value } => {
                    assert(opt(e@, "type"@, Some(type_)));
                    assert(opt(e@, "name"@, Some(name)));
                    assert(opt(e@, "maybe_default_value"@, maybe_default_value));
                },
            }
        }
    }
    let rv = match rf {
        Ok(Some(d)) => d,
        Ok(None) => return Err(CodecError::MissingField("reserved".to_owned())),
        Err(er) => return Err(er),
    };
    let reserved = bool::decode(rv);
    proof {
        if let Doc::Bool(b) = *rv {
            assert(bool::describes(*rv, b));
        }
    }
    let reserved = match reserved { Ok(b) => b, Err(er) => return Err(er) };
    let t = match t { Ok(x) => x, Err(er) => return Err(er) };
    let n = match n { Ok(x) => x, Err(er) => return Err(er) };
    let v = match v { Ok(x) => x, Err(er) => return Err(er) };
    if reserved {
        if t.is_some() || n.is_some() || v.is_some() {
            return Err(CodecError::InconsistentGroup);
        }
        Ok(TableMemberType::Reserved)
    } else {
        let type_ = match t { Some(x) => x, None => return Err(CodecError::MissingField("type".to_owned())) };
        let name = match n { Some(x) => x, None => return Err(CodecError::MissingField("name".to_owned())) };
        Ok(TableMemberType::Field { type_, name, maybe_default_value: v })
    }
}

} // verus!
