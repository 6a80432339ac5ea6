//! Declarations, their members, and the library that holds them.

use vstd::prelude::*;
use crate::doc::{CodecError, Doc, Entry, key_count, value_of};
use crate::span::Spanned;
use crate::ser_option::SerOption;
use crate::decl_path::DeclPath;
use crate::decl_map::DeclMap;
use crate::types::{Constant, Type, text_is};
use crate::groups::{group_complete, member_complete, lemma_group_encodable, lemma_member_encodable, group_form, group_len, member_form, member_len, MethodReqRes, TableMemberType, member_readable, member_fresh, group_readable, group_fresh_spanned, member_in, member_encodable, member_same, encode_member, decode_member, lemma_member_unique, group_in, group_encodable, group_same, unspan, encode_group, decode_group, lemma_group_unique, lemma_group_kept};
use crate::wire::{Wire, opt_complete, lemma_req_encodable, lemma_opt_encodable, entry_form, req, opt, opt_encodable, opt_readable, opt_fresh, opt_same, get_req, get_opt, put, put_opt, lemma_req_unique, lemma_opt_unique};

verus! {

/// A primitive type.
#[derive(Debug, Clone, Copy, PartialEq, Eq, Structural)]
pub enum PrimitiveSubtype {
    Bool,
    Int8,
    Int16,
    Int32,
    Int64,
    UInt8,
    UInt16,
    UInt32,
    UInt64,
    Float32,
    Float64,
}

impl PrimitiveSubtype {
    /// The text that stands for the value on the wire.
    pub open spec fn wire_name(self) -> Seq<char> {
        match self {
            PrimitiveSubtype::Bool => "bool"@,
            PrimitiveSubtype::Int8 => "int8"@,
            PrimitiveSubtype::Int16 => "int16"@,
            PrimitiveSubtype::Int32 => "int32"@,
            PrimitiveSubtype::Int64 => "int64"@,
            PrimitiveSubtype::UInt8 => "uint8"@,
            PrimitiveSubtype::UInt16 => "uint16"@,
            PrimitiveSubtype::UInt32 => "uint32"@,
            PrimitiveSubtype::UInt64 => "uint64"@,
            PrimitiveSubtype::Float32 => "float32"@,
            PrimitiveSubtype::Float64 => "float64"@,
        }
    }
}

impl Wire for PrimitiveSubtype {
    open spec fn describes(d: Doc, x: PrimitiveSubtype) -> bool {
        d matches Doc::Str(s) && s@ == x.wire_name()
    }

    open spec fn wire_form(d: Doc, x: PrimitiveSubtype) -> bool {
        Self::describes(d, x)
    }

    open spec fn encodable(x: PrimitiveSubtype) -> bool {
        true
    }

    open spec fn same_content(x: PrimitiveSubtype, y: PrimitiveSubtype) -> bool {
        x.wire_name() == y.wire_name()
    }

    open spec fn readable(x: PrimitiveSubtype) -> bool {
        true
    }

    open spec fn complete(x: PrimitiveSubtype) -> bool {
        true
    }

    open spec fn fresh(x: PrimitiveSubtype) -> bool {
        true
    }

    fn encode(&self) -> (r: Result<Doc, CodecError>) {
        let s = match self {
            PrimitiveSubtype::Bool => "bool",
            PrimitiveSubtype::Int8 => "int8",
            PrimitiveSubtype::Int16 => "int16",
            PrimitiveSubtype::Int32 => "int32",
            PrimitiveSubtype::Int64 => "int64",
            PrimitiveSubtype::UInt8 => "uint8",
            PrimitiveSubtype::UInt16 => "uint16",
            PrimitiveSubtype::UInt32 => "uint32",
            PrimitiveSubtype::UInt64 => "uint64",
            PrimitiveSubtype::Float32 => "float32",
            PrimitiveSubtype::Float64 => "float64",
        };
        Ok(Doc::Str(s.to_owned()))
    }

    fn decode(d: &Doc) -> (r: Result<PrimitiveSubtype, CodecError>) {
        match d {
            Doc::Str(s) => {
                if text_is(s, "bool") {
                    Ok(PrimitiveSubtype::Bool)
                } else if text_is(s, "int8") {
                    Ok(PrimitiveSubtype::Int8)
                } else if text_is(s, "int16") {
                    Ok(PrimitiveSubtype::Int16)
                } else if text_is(s, "int32") {
                    Ok(PrimitiveSubtype::Int32)
                } else if text_is(s, "int64") {
                    Ok(PrimitiveSubtype::Int64)
                } else if text_is(s, "uint8") {
                    Ok(PrimitiveSubtype::UInt8)
                } else if text_is(s, "uint16") {
                    Ok(PrimitiveSubtype::UInt16)
                } else if text_is(s, "uint32") {
                    Ok(PrimitiveSubtype::UInt32)
                } else if text_is(s, "uint64") {
                    Ok(PrimitiveSubtype::UInt64)
                } else if text_is(s, "float32") {
                    Ok(PrimitiveSubtype::Float32)
                } else if text_is(s, "float64") {
                    Ok(PrimitiveSubtype::Float64)
                } else {
                    Err(CodecError::InvalidType)
                }
            },
            _ => Err(CodecError::InvalidType),
        }
    }

    proof fn lemma_unique(d: Doc, x: PrimitiveSubtype, y: PrimitiveSubtype) {
    }

    proof fn lemma_described_encodable(d: Doc, x: PrimitiveSubtype) {
    }

    proof fn lemma_not_null(d: Doc, x: PrimitiveSubtype) {
    }
}

/// The kind of object that a handle refers to.
#[derive(Debug, Clone, Copy, PartialEq, Eq, Structural)]
pub enum HandleSubtype {
    Bti,
    Channel,
    DebugLog,
    Eventpair,
    Event,
    Exception,
    Handle,
    Interrupt,
    Iommu,
    Fifo,
    Guest,
    Job,
    Pager,
    PciDevice,
    Pmt,
    Port,
    Process,
    Profile,
    Resource,
    Socket,
    SuspendToken,
    Thread,
    Timer,
    VCpu,
    Vmar,
    Vmo,
}

impl HandleSubtype {
    /// The text that stands for the value on the wire.
    pub open spec fn wire_name(self) -> Seq<char> {
        match self {
            HandleSubtype::Bti => "bti"@,
            HandleSubtype::Channel => "channel"@,
            HandleSubtype::DebugLog => "debuglog"@,
            HandleSubtype::Eventpair => "eventpair"@,
            HandleSubtype::Event => "event"@,
            HandleSubtype::Exception => "exception"@,
            HandleSubtype::Handle => "handle"@,
            HandleSubtype::Interrupt => "interrupt"@,
            HandleSubtype::Iommu => "iommu"@,
            HandleSubtype::Fifo => "fifo"@,
            HandleSubtype::Guest => "guest"@,
            HandleSubtype::Job => "job"@,
            HandleSubtype::Pager => "pager"@,
            HandleSubtype::PciDevice => "pcidevice"@,
            HandleSubtype::Pmt => "pmt"@,
            HandleSubtype::Port => "port"@,
            HandleSubtype::Process => "process"@,
            HandleSubtype::Profile => "profile"@,
            HandleSubtype::Resource => "resource"@,
            HandleSubtype::Socket => "socket"@,
            HandleSubtype::SuspendToken => "suspendtoken"@,
            HandleSubtype::Thread => "thread"@,
            HandleSubtype::Timer => "timer"@,
            HandleSubtype::VCpu => "vcpu"@,
            HandleSubtype::Vmar => "vmar"@,
            HandleSubtype::Vmo => "vmo"@,
        }
    }
}

impl Wire for HandleSubtype {
    open spec fn describes(d: Doc, x: HandleSubtype) -> bool {
        d matches Doc::Str(s) && s@ == x.wire_name()
    }

    open spec fn wire_form(d: Doc, x: HandleSubtype) -> bool {
        Self::describes(d, x)
    }

    open spec fn encodable(x: HandleSubtype) -> bool {
        true
    }

    open spec fn same_content(x: HandleSubtype, y: HandleSubtype) -> bool {
        x.wire_name() == y.wire_name()
    }

    open spec fn readable(x: HandleSubtype) -> bool {
        true
    }

    open spec fn complete(x: HandleSubtype) -> bool {
        true
    }

    open spec fn fresh(x: HandleSubtype) -> bool {
        true
    }

    fn encode(&self) -> (r: Result<Doc, CodecError>) {
        let s = match self {
            HandleSubtype::Bti => "bti",
            HandleSubtype::Channel => "channel",
            HandleSubtype::DebugLog => "debuglog",
            HandleSubtype::Eventpair => "eventpair",
            HandleSubtype::Event => "event",
            HandleSubtype::Exception => "exception",
            HandleSubtype::Handle => "handle",
            HandleSubtype::Interrupt => "interrupt",
            HandleSubtype::Iommu => "iommu",
            HandleSubtype::Fifo => "fifo",
            HandleSubtype::Guest => "guest",
            HandleSubtype::Job => "job",
            HandleSubtype::Pager => "pager",
            HandleSubtype::PciDevice => "pcidevice",
            HandleSubtype::Pmt => "pmt",
            HandleSubtype::Port => "port",
            HandleSubtype::Process => "process",
            HandleSubtype::Profile => "profile",
            HandleSubtype::Resource => "resource",
            HandleSubtype::Socket => "socket",
            HandleSubtype::SuspendToken => "suspendtoken",
            HandleSubtype::Thread => "thread",
            HandleSubtype::Timer => "timer",
            HandleSubtype::VCpu => "vcpu",
            HandleSubtype::Vmar => "vmar",
            HandleSubtype::Vmo => "vmo",
        };
        Ok(Doc::Str(s.to_owned()))
    }

    fn decode(d: &Doc) -> (r: Result<HandleSubtype, CodecError>) {
        match d {
            Doc::Str(s) => {
                if text_is(s, "bti") {
                    Ok(HandleSubtype::Bti)
                } else if text_is(s, "channel") {
                    Ok(HandleSubtype::Channel)
                } else if text_is(s, "debuglog") {
                    Ok(HandleSubtype::DebugLog)
                } else if text_is(s, "eventpair") {
                    Ok(HandleSubtype::Eventpair)
                } else if text_is(s, "event") {
                    Ok(HandleSubtype::Event)
                } else if text_is(s, "exception") {
                    Ok(HandleSubtype::Exception)
                } else if text_is(s, "handle") {
                    Ok(HandleSubtype::Handle)
                } else if text_is(s, "interrupt") {
                    Ok(HandleSubtype::Interrupt)
                } else if text_is(s, "iommu") {
                    Ok(HandleSubtype::Iommu)
                } else if text_is(s, "fifo") {
                    Ok(HandleSubtype::Fifo)
                } else if text_is(s, "guest") {
                    Ok(HandleSubtype::Guest)
                } else if text_is(s, "job") {
                    Ok(HandleSubtype::Job)
                } else if text_is(s, "pager") {
                    Ok(HandleSubtype::Pager)
                } else if text_is(s, "pcidevice") {
                    Ok(HandleSubtype::PciDevice)
                } else if text_is(s, "pmt") {
                    Ok(HandleSubtype::Pmt)
                } else if text_is(s, "port") {
                    Ok(HandleSubtype::Port)
                } else if text_is(s, "process") {
                    Ok(HandleSubtype::Process)
                } else if text_is(s, "profile") {
                    Ok(HandleSubtype::Profile)
                } else if text_is(s, "resource") {
                    Ok(HandleSubtype::Resource)
                } else if text_is(s, "socket") {
                    Ok(HandleSubtype::Socket)
                } else if text_is(s, "suspendtoken") {
                    Ok(HandleSubtype::SuspendToken)
                } else if text_is(s, "thread") {
                    Ok(HandleSubtype::Thread)
                } else if text_is(s, "timer") {
                    Ok(HandleSubtype::Timer)
                } else if text_is(s, "vcpu") {
                    Ok(HandleSubtype::VCpu)
                } else if text_is(s, "vmar") {
                    Ok(HandleSubtype::Vmar)
                } else if text_is(s, "vmo") {
                    Ok(HandleSubtype::Vmo)
                } else {
                    Err(CodecError::InvalidType)
                }
            },
            _ => Err(CodecError::InvalidType),
        }
    }

    proof fn lemma_unique(d: Doc, x: HandleSubtype, y: HandleSubtype) {
    }

    proof fn lemma_described_encodable(d: Doc, x: HandleSubtype) {
    }

    proof fn lemma_not_null(d: Doc, x: HandleSubtype) {
    }
}

/// The section of a library that a declaration belongs to.
#[derive(Debug, Clone, Copy, PartialEq, Eq, Structural, Hash)]
pub enum DeclType {
    Const,
    Bits,
    Enum,
    Protocol,
    Struct,
    Table,
    Union,
    XUnion,
}

impl DeclType {
    /// The text that stands for the value on the wire.
    pub open spec fn wire_name(self) -> Seq<char> {
        match self {
            DeclType::Const => "const"@,
            DeclType::Bits => "bits"@,
            DeclType::Enum => "enum"@,
            DeclType::Protocol => "interface"@,
            DeclType::Struct => "struct"@,
            DeclType::Table => "table"@,
            DeclType::Union => "union"@,
            DeclType::XUnion => "xunion"@,
        }
    }
}

impl Wire for DeclType {
    open spec fn describes(d: Doc, x: DeclType) -> bool {
        d matches Doc::Str(s) && s@ == x.wire_name()
    }

    open spec fn wire_form(d: Doc, x: DeclType) -> bool {
        Self::describes(d, x)
    }

    open spec fn encodable(x: DeclType) -> bool {
        true
    }

    open spec fn same_content(x: DeclType, y: DeclType) -> bool {
        x.wire_name() == y.wire_name()
    }

    open spec fn readable(x: DeclType) -> bool {
        true
    }

    open spec fn complete(x: DeclType) -> bool {
        true
    }

    open spec fn fresh(x: DeclType) -> bool {
        true
    }

    fn encode(&self) -> (r: Result<Doc, CodecError>) {
        let s = match self {
            DeclType::Const => "const",
            DeclType::Bits => "bits",
            DeclType::Enum => "enum",
            DeclType::Protocol => "interface",
            DeclType::Struct => "struct",
            DeclType::Table => "table",
            DeclType::Union => "union",
            DeclType::XUnion => "xunion",
        };
        Ok(Doc::Str(s.to_owned()))
    }

    fn decode(d: &Doc) -> (r: Result<DeclType, CodecError>) {
        match d {
            Doc::Str(s) => {
                if text_is(s, "const") {
                    Ok(DeclType::Const)
                } else if text_is(s, "bits") {
                    Ok(DeclType::Bits)
                } else if text_is(s, "enum") {
                    Ok(DeclType::Enum)
                } else if text_is(s, "interface") {
                    Ok(DeclType::Protocol)
                } else if text_is(s, "struct") {
                    Ok(DeclType::Struct)
                } else if text_is(s, "table") {
                    Ok(DeclType::Table)
                } else if text_is(s, "union") {
                    Ok(DeclType::Union)
                } else if text_is(s, "xunion") {
                    Ok(DeclType::XUnion)
                } else {
                    Err(CodecError::InvalidType)
                }
            },
            _ => Err(CodecError::InvalidType),
        }
    }

    proof fn lemma_unique(d: Doc, x: DeclType, y: DeclType) {
    }

    proof fn lemma_described_encodable(d: Doc, x: DeclType) {
    }

    proof fn lemma_not_null(d: Doc, x: DeclType) {
    }
}

/// The kind of a literal value.
#[derive(Debug, Clone, Copy, PartialEq, Eq, Structural)]
pub enum LiteralKind {
    String,
    Numeric,
    True,
    False,
    Default,
}

impl LiteralKind {
    /// The text that stands for the value on the wire.
    pub open spec fn wire_name(self) -> Seq<char> {
        match self {
            LiteralKind::String => "string"@,
            LiteralKind::Numeric => "numeric"@,
            LiteralKind::True => "true"@,
            LiteralKind::False => "false"@,
            LiteralKind::Default => "default"@,
        }
    }
}

impl Wire for LiteralKind {
    open spec fn describes(d: Doc, x: LiteralKind) -> bool {
        d matches Doc::Str(s) && s@ == x.wire_name()
    }

    open spec fn wire_form(d: Doc, x: LiteralKind) -> bool {
        Self::describes(d, x)
    }

    open spec fn encodable(x: LiteralKind) -> bool {
        true
    }

    open spec fn same_content(x: LiteralKind, y: LiteralKind) -> bool {
        x.wire_name() == y.wire_name()
    }

    open spec fn readable(x: LiteralKind) -> bool {
        true
    }

    open spec fn complete(x: LiteralKind) -> bool {
        true
    }

    open spec fn fresh(x: LiteralKind) -> bool {
        true
    }

    fn encode(&self) -> (r: Result<Doc, CodecError>) {
        let s = match self {
            LiteralKind::String => "string",
            LiteralKind::Numeric => "numeric",
            LiteralKind::True => "true",
            LiteralKind::False => "false",
            LiteralKind::Default => "default",
        };
        Ok(Doc::Str(s.to_owned()))
    }

    fn decode(d: &Doc) -> (r: Result<LiteralKind, CodecError>) {
        match d {
            Doc::Str(s) => {
                if text_is(s, "string") {
                    Ok(LiteralKind::String)
                } else if text_is(s, "numeric") {
                    Ok(LiteralKind::Numeric)
                } else if text_is(s, "true") {
                    Ok(LiteralKind::True)
                } else if text_is(s, "false") {
                    Ok(LiteralKind::False)
                } else if text_is(s, "default") {
                    Ok(LiteralKind::Default)
                } else {
                    Err(CodecError::InvalidType)
                }
            },
            _ => Err(CodecError::InvalidType),
        }
    }

    proof fn lemma_unique(d: Doc, x: LiteralKind, y: LiteralKind) {
    }

    proof fn lemma_described_encodable(d: Doc, x: LiteralKind) {
    }

    proof fn lemma_not_null(d: Doc, x: LiteralKind) {
    }
}

/// A literal value as written in the source.
#[derive(Debug, Clone)]
pub struct Literal {
    pub kind: LiteralKind,
    pub value: Option<Spanned<String>>,
    /// Only used before resolution; never written.
    pub unsanitized_value: Option<Spanned<String>>,
}

impl Wire for Literal {
    open spec fn describes(d: Doc, x: Literal) -> bool {
        d matches Doc::Obj(e) && req(e@, "kind"@, x.kind)
            && opt(e@, "value"@, x.value)
    }

    open spec fn wire_form(d: Doc, x: Literal) -> bool {
        d matches Doc::Obj(e) && e@.len() == 1int + (if x.value is Some { 1int } else { 0int })
            && entry_form(e@, 0int, "kind"@, x.kind)
            && (x.value matches Some(v) ==> entry_form(e@, 1int, "value"@, v))
    }

    open spec fn encodable(x: Literal) -> bool {
        <LiteralKind as Wire>::encodable(x.kind)
            && opt_encodable(x.value)
    }

    open spec fn same_content(x: Literal, y: Literal) -> bool {
        <LiteralKind as Wire>::same_content(x.kind, y.kind)
            && opt_same(x.value, y.value)
    }

    open spec fn readable(x: Literal) -> bool {
        <LiteralKind as Wire>::readable(x.kind)
            && opt_readable(x.value)
    }

    open spec fn complete(x: Literal) -> bool {
        <LiteralKind as Wire>::complete(x.kind)
            && opt_complete(x.value)
    }

    open spec fn fresh(x: Literal) -> bool {
        <LiteralKind as Wire>::fresh(x.kind)
            && opt_fresh(x.value)
            && x.unsanitized_value is None
    }

    fn encode(&self) -> (r: Result<Doc, CodecError>) {
        proof {
            reveal_strlit("kind");
            reveal_strlit("value");
            assert("kind"@.len() == 4);
            assert("value"@.len() == 5);
        }
        let mut e: Vec<Entry> = Vec::new();
        put(&mut e, "kind", &self.kind)?;
        put_opt(&mut e, "value", &self.value)?;
        Ok(Doc::Obj(e))
    }

    fn decode(d: &Doc) -> (r: Result<Literal, CodecError>) {
        match d {
            Doc::Obj(e) => {
                let kind = get_req::<LiteralKind>(e, "kind");
                let value = get_opt::<Spanned<String>>(e, "value");
                proof {
                    if exists|x: Literal| #[trigger] Self::describes(*d, x) && Self::readable(x) {
                        let w = choose|x: Literal| #[trigger] Self::describes(*d, x) && Self::readable(x);
                        assert(req(e@, "kind"@, w.kind));
                        assert(opt(e@, "value"@, w.value));
                    }
                }
                let kind = match kind { Ok(v) => v, Err(er) => return Err(er) };
                let value = match value { Ok(v) => v, Err(er) => return Err(er) };
                Ok(Literal { kind, value, unsanitized_value: None })
            },
            _ => Err(CodecError::InvalidType),
        }
    }

    proof fn lemma_unique(d: Doc, x: Literal, y: Literal) {
        let e = d->Obj_0@;
        lemma_req_unique(e, "kind"@, x.kind, y.kind);
        lemma_opt_unique(e, "value"@, x.value, y.value);
    }

    proof fn lemma_described_encodable(d: Doc, x: Literal) {
        let e = d->Obj_0@;
        lemma_req_encodable(e, "kind"@, x.kind);
        lemma_opt_encodable(e, "value"@, x.value);
    }

    proof fn lemma_not_null(d: Doc, x: Literal) {
    }
}

/// An attribute attached to a declaration or member.
#[derive(Debug, Clone)]
pub struct Attribute {
    pub name: Spanned<String>,
    pub value: SerOption<Spanned<String>>,
    /// Only used before resolution; never written.
    pub unresolved_value: Option<Spanned<Literal>>,
}

impl Wire for Attribute {
    open spec fn describes(d: Doc, x: Attribute) -> bool {
        d matches Doc::Obj(e) && req(e@, "name"@, x.name)
            && req(e@, "value"@, x.value)
    }

    open spec fn wire_form(d: Doc, x: Attribute) -> bool {
        d matches Doc::Obj(e) && e@.len() == 2int
            && entry_form(e@, 0int, "name"@, x.name)
            && entry_form(e@, 1int, "value"@, x.value)
    }

    open spec fn encodable(x: Attribute) -> bool {
        <Spanned<String> as Wire>::encodable(x.name)
            && <SerOption<Spanned<String>> as Wire>::encodable(x.value)
    }

    open spec fn same_content(x: Attribute, y: Attribute) -> bool {
        <Spanned<String> as Wire>::same_content(x.name, y.name)
            && <SerOption<Spanned<String>> as Wire>::same_content(x.value, y.value)
    }

    open spec fn readable(x: Attribute) -> bool {
        <Spanned<String> as Wire>::readable(x.name)
            && <SerOption<Spanned<String>> as Wire>::readable(x.value)
    }

    open spec fn complete(x: Attribute) -> bool {
        <Spanned<String> as Wire>::complete(x.name)
            && <SerOption<Spanned<String>> as Wire>::complete(x.value)
    }

    open spec fn fresh(x: Attribute) -> bool {
        <Spanned<String> as Wire>::fresh(x.name)
            && <SerOption<Spanned<String>> as Wire>::fresh(x.value)
            && x.unresolved_value is None
    }

    fn encode(&self) -> (r: Result<Doc, CodecError>) {
        proof {
            reveal_strlit("name");
            reveal_strlit("value");
            assert("name"@.len() == 4);
            assert("value"@.len() == 5);
        }
        let mut e: Vec<Entry> = Vec::new();
        put(&mut e, "name", &self.name)?;
        put(&mut e, "value", &self.value)?;
        Ok(Doc::Obj(e))
    }

    fn decode(d: &Doc) -> (r: Result<Attribute, CodecError>) {
        match d {
            Doc::Obj(e) => {
                let name = get_req::<Spanned<String>>(e, "name");
                let value = get_req::<SerOption<Spanned<String>>>(e, "value");
                proof {
                    if exists|x: Attribute| #[trigger] Self::describes(*d, x) && Self::readable(x) {
                        let w = choose|x: Attribute| #[trigger] Self::describes(*d, x) && Self::readable(x);
                        assert(req(e@, "name"@, w.name));
                        assert(req(e@, "value"@, w.value));
                    }
                }
                let name = match name { Ok(v) => v, Err(er) => return Err(er) };
                let value = match value { Ok(v) => v, Err(er) => return Err(er) };
                Ok(Attribute { name, value, unresolved_value: None })
            },
            _ => Err(CodecError::InvalidType),
        }
    }

    proof fn lemma_unique(d: Doc, x: Attribute, y: Attribute) {
        let e = d->Obj_0@;
        lemma_req_unique(e, "name"@, x.name, y.name);
        lemma_req_unique(e, "value"@, x.value, y.value);
    }

    proof fn lemma_described_encodable(d: Doc, x: Attribute) {
        let e = d->Obj_0@;
        lemma_req_encodable(e, "name"@, x.name);
        lemma_req_encodable(e, "value"@, x.value);
    }

    proof fn lemma_not_null(d: Doc, x: Attribute) {
    }
}

/// A member of a union.
#[derive(Debug, Clone)]
pub struct UnionMember {
    pub attributes: Vec<Spanned<Attribute>>,
    pub type_: Spanned<Type>,
    pub name: Spanned<String>,
    pub offset: SerOption<u32>,
    pub max_out_of_line: SerOption<u32>,
}

impl Wire for UnionMember {
    open spec fn describes(d: Doc, x: UnionMember) -> bool {
        d matches Doc::Obj(e) && req(e@, "attributes"@, x.attributes)
            && req(e@, "type"@, x.type_)
            && req(e@, "name"@, x.name)
            && req(e@, "offset"@, x.offset)
            && req(e@, "max_out_of_line"@, x.max_out_of_line)
    }

    open spec fn wire_form(d: Doc, x: UnionMember) -> bool {
        d matches Doc::Obj(e) && e@.len() == 5int
            && entry_form(e@, 0int, "attributes"@, x.attributes)
            && entry_form(e@, 1int, "type"@, x.type_)
            && entry_form(e@, 2int, "name"@, x.name)
            && entry_form(e@, 3int, "offset"@, x.offset)
            && entry_form(e@, 4int, "max_out_of_line"@, x.max_out_of_line)
    }

    open spec fn encodable(x: UnionMember) -> bool {
        <Vec<Spanned<Attribute>> as Wire>::encodable(x.attributes)
            && <Spanned<Type> as Wire>::encodable(x.type_)
            && <Spanned<String> as Wire>::encodable(x.name)
            && <SerOption<u32> as Wire>::encodable(x.offset)
            && <SerOption<u32> as Wire>::encodable(x.max_out_of_line)
    }

    open spec fn same_content(x: UnionMember, y: UnionMember) -> bool {
        <Vec<Spanned<Attribute>> as Wire>::same_content(x.attributes, y.attributes)
            && <Spanned<Type> as Wire>::same_content(x.type_, y.type_)
            && <Spanned<String> as Wire>::same_content(x.name, y.name)
            && <SerOption<u32> as Wire>::same_content(x.offset, y.offset)
            && <SerOption<u32> as Wire>::same_content(x.max_out_of_line, y.max_out_of_line)
    }

    open spec fn readable(x: UnionMember) -> bool {
        <Vec<Spanned<Attribute>> as Wire>::readable(x.attributes)
            && <Spanned<Type> as Wire>::readable(x.type_)
            && <Spanned<String> as Wire>::readable(x.name)
            && <SerOption<u32> as Wire>::readable(x.offset)
            && <SerOption<u32> as Wire>::readable(x.max_out_of_line)
    }

    open spec fn complete(x: UnionMember) -> bool {
        <Vec<Spanned<Attribute>> as Wire>::complete(x.attributes)
            && <Spanned<Type> as Wire>::complete(x.type_)
            && <Spanned<String> as Wire>::complete(x.name)
            && <SerOption<u32> as Wire>::complete(x.offset)
            && <SerOption<u32> as Wire>::complete(x.max_out_of_line)
    }

    open spec fn fresh(x: UnionMember) -> bool {
        <Vec<Spanned<Attribute>> as Wire>::fresh(x.attributes)
            && <Spanned<Type> as Wire>::fresh(x.type_)
            && <Spanned<String> as Wire>::fresh(x.name)
            && <SerOption<u32> as Wire>::fresh(x.offset)
            && <SerOption<u32> as Wire>::fresh(x.max_out_of_line)
    }

    fn encode(&self) -> (r: Result<Doc, CodecError>) {
        proof {
            reveal_strlit("attributes");
            reveal_strlit("max_out_of_line");
            reveal_strlit("name");
            reveal_strlit("offset");
            reveal_strlit("type");
            assert("attributes"@.len() == 10);
            assert("max_out_of_line"@.len() == 15);
            assert("name"@.len() == 4);
            assert("offset"@.len() == 6);
            assert("type"@.len() == 4);
            assert("name"@[0] == 'n');
            assert("type"@[0] == 't');
        }
        let mut e: Vec<Entry> = Vec::new();
        put(&mut e, "attributes", &self.attributes)?;
        proof {
            assert(req(e@, "attributes"@, self.attributes));
        }
        put(&mut e, "type", &self.type_)?;
        proof {
            assert(req(e@, "attributes"@, self.attributes));
            assert(req(e@, "type"@, self.type_));
        }
        put(&mut e, "name", &self.name)?;
        proof {
            assert(req(e@, "attributes"@, self.attributes));
            assert(req(e@, "type"@, self.type_));
            assert(req(e@, "name"@, self.name));
        }
        put(&mut e, "offset", &self.offset)?;
        proof {
            assert(req(e@, "attributes"@, self.attributes));
            assert(req(e@, "type"@, self.type_));
            assert(req(e@, "name"@, self.name));
            assert(req(e@, "offset"@, self.offset));
        }
        put(&mut e, "max_out_of_line", &self.max_out_of_line)?;
        proof {
            assert(req(e@, "attributes"@, self.attributes));
            assert(req(e@, "type"@, self.type_));
            assert(req(e@, "name"@, self.name));
            assert(req(e@, "offset"@, self.offset));
            assert(req(e@, "max_out_of_line"@, self.max_out_of_line));
        }
        Ok(Doc::Obj(e))
    }

    fn decode(d: &Doc) -> (r: Result<UnionMember, CodecError>) {
        match d {
            Doc::Obj(e) => {
                let attributes = get_req::<Vec<Spanned<Attribute>>>(e, "attributes");
                let type_ = get_req::<Spanned<Type>>(e, "type");
                let name = get_req::<Spanned<String>>(e, "name");
                let offset = get_req::<SerOption<u32>>(e, "offset");
                let max_out_of_line = get_req::<SerOption<u32>>(e, "max_out_of_line");
                proof {
                    if exists|x: UnionMember| #[trigger] Self::describes(*d, x) && Self::readable(x) {
                        let w = choose|x: UnionMember| #[trigger] Self::describes(*d, x) && Self::readable(x);
                        assert(req(e@, "attributes"@, w.attributes));
                        assert(req(e@, "type"@, w.type_));
                        assert(req(e@, "name"@, w.name));
                        assert(req(e@, "offset"@, w.offset));
                        assert(req(e@, "max_out_of_line"@, w.max_out_of_line));
                    }
                }
                let attributes = match attributes { Ok(v) => v, Err(er) => return Err(er) };
                let type_ = match type_ { Ok(v) => v, Err(er) => return Err(er) };
                let name = match name { Ok(v) => v, Err(er) => return Err(er) };
                let offset = match offset { Ok(v) => v, Err(er) => return Err(er) };
                let max_out_of_line = match max_out_of_line { Ok(v) => v, Err(er) => return Err(er) };
                Ok(UnionMember { attributes, type_, name, offset, max_out_of_line })
            },
            _ => Err(CodecError::InvalidType),
        }
    }

    proof fn lemma_unique(d: Doc, x: UnionMember, y: UnionMember) {
        let e = d->Obj_0@;
        lemma_req_unique(e, "attributes"@, x.attributes, y.attributes);
        lemma_req_unique(e, "type"@, x.type_, y.type_);
        lemma_req_unique(e, "name"@, x.name, y.name);
        lemma_req_unique(e, "offset"@, x.offset, y.offset);
        lemma_req_unique(e, "max_out_of_line"@, x.max_out_of_line, y.max_out_of_line);
    }

    proof fn lemma_described_encodable(d: Doc, x: UnionMember) {
        let e = d->Obj_0@;
        lemma_req_encodable(e, "attributes"@, x.attributes);
        lemma_req_encodable(e, "type"@, x.type_);
        lemma_req_encodable(e, "name"@, x.name);
        lemma_req_encodable(e, "offset"@, x.offset);
        lemma_req_encodable(e, "max_out_of_line"@, x.max_out_of_line);
    }

    proof fn lemma_not_null(d: Doc, x: UnionMember) {
    }
}

/// A union declaration.
#[derive(Debug, Clone)]
pub struct Union {
    pub attributes: Vec<Spanned<Attribute>>,
    pub name: Spanned<DeclPath>,
    pub members: Vec<Spanned<UnionMember>>,
    pub size: SerOption<u32>,
    pub alignment: SerOption<u32>,
    pub max_handles: SerOption<u32>,
    pub max_out_of_line: SerOption<u32>,
}

impl Wire for Union {
    open spec fn describes(d: Doc, x: Union) -> bool {
        d matches Doc::Obj(e) && req(e@, "attributes"@, x.attributes)
            && req(e@, "name"@, x.name)
            && req(e@, "members"@, x.members)
            && req(e@, "size"@, x.size)
            && req(e@, "alignment"@, x.alignment)
            && req(e@, "max_handles"@, x.max_handles)
            && req(e@, "max_out_of_line"@, x.max_out_of_line)
    }

    open spec fn wire_form(d: Doc, x: Union) -> bool {
        d matches Doc::Obj(e) && e@.len() == 7int
            && entry_form(e@, 0int, "attributes"@, x.attributes)
            && entry_form(e@, 1int, "name"@, x.name)
            && entry_form(e@, 2int, "members"@, x.members)
            && entry_form(e@, 3int, "size"@, x.size)
            && entry_form(e@, 4int, "alignment"@, x.alignment)
            && entry_form(e@, 5int, "max_handles"@, x.max_handles)
            && entry_form(e@, 6int, "max_out_of_line"@, x.max_out_of_line)
    }

    open spec fn encodable(x: Union) -> bool {
        <Vec<Spanned<Attribute>> as Wire>::encodable(x.attributes)
            && <Spanned<DeclPath> as Wire>::encodable(x.name)
            && <Vec<Spanned<UnionMember>> as Wire>::encodable(x.members)
            && <SerOption<u32> as Wire>::encodable(x.size)
            && <SerOption<u32> as Wire>::encodable(x.alignment)
            && <SerOption<u32> as Wire>::encodable(x.max_handles)
            && <SerOption<u32> as Wire>::encodable(x.max_out_of_line)
    }

    open spec fn same_content(x: Union, y: Union) -> bool {
        <Vec<Spanned<Attribute>> as Wire>::same_content(x.attributes, y.attributes)
            && <Spanned<DeclPath> as Wire>::same_content(x.name, y.name)
            && <Vec<Spanned<UnionMember>> as Wire>::same_content(x.members, y.members)
            && <SerOption<u32> as Wire>::same_content(x.size, y.size)
            && <SerOption<u32> as Wire>::same_content(x.alignment, y.alignment)
            && <SerOption<u32> as Wire>::same_content(x.max_handles, y.max_handles)
            && <SerOption<u32> as Wire>::same_content(x.max_out_of_line, y.max_out_of_line)
    }

    open spec fn readable(x: Union) -> bool {
        <Vec<Spanned<Attribute>> as Wire>::readable(x.attributes)
            && <Spanned<DeclPath> as Wire>::readable(x.name)
            && <Vec<Spanned<UnionMember>> as Wire>::readable(x.members)
            && <SerOption<u32> as Wire>::readable(x.size)
            && <SerOption<u32> as Wire>::readable(x.alignment)
            && <SerOption<u32> as Wire>::readable(x.max_handles)
            && <SerOption<u32> as Wire>::readable(x.max_out_of_line)
    }

    open spec fn complete(x: Union) -> bool {
        <Vec<Spanned<Attribute>> as Wire>::complete(x.attributes)
            && <Spanned<DeclPath> as Wire>::complete(x.name)
            && <Vec<Spanned<UnionMember>> as Wire>::complete(x.members)
            && <SerOption<u32> as Wire>::complete(x.size)
            && <SerOption<u32> as Wire>::complete(x.alignment)
            && <SerOption<u32> as Wire>::complete(x.max_handles)
            && <SerOption<u32> as Wire>::complete(x.max_out_of_line)
    }

    open spec fn fresh(x: Union) -> bool {
        <Vec<Spanned<Attribute>> as Wire>::fresh(x.attributes)
            && <Spanned<DeclPath> as Wire>::fresh(x.name)
            && <Vec<Spanned<UnionMember>> as Wire>::fresh(x.members)
            && <SerOption<u32> as Wire>::fresh(x.size)
            && <SerOption<u32> as Wire>::fresh(x.alignment)
            && <SerOption<u32> as Wire>::fresh(x.max_handles)
            && <SerOption<u32> as Wire>::fresh(x.max_out_of_line)
    }

    fn encode(&self) -> (r: Result<Doc, CodecError>) {
        proof {
            reveal_strlit("alignment");
            reveal_strlit("attributes");
            reveal_strlit("max_handles");
            reveal_strlit("max_out_of_line");
            reveal_strlit("members");
            reveal_strlit("name");
            reveal_strlit("size");
            assert("alignment"@.len() == 9);
            assert("attributes"@.len() == 10);
            assert("max_handles"@.len() == 11);
            assert("max_out_of_line"@.len() == 15);
            assert("members"@.len() == 7);
            assert("name"@.len() == 4);
            assert("size"@.len() == 4);
            assert("name"@[0] == 'n');
            assert("size"@[0] == 's');
            assert("alignment"@ != "attributes"@);
            assert("alignment"@ != "max_handles"@);
            assert("alignment"@ != "max_out_of_line"@);
            assert("alignment"@ != "members"@);
            assert("alignment"@ != "name"@);
            assert("alignment"@ != "size"@);
            assert("attributes"@ != "max_handles"@);
            assert("attributes"@ != "max_out_of_line"@);
            assert("attributes"@ != "members"@);
            assert("attributes"@ != "name"@);
            assert("attributes"@ != "size"@);
            assert("max_handles"@ != "max_out_of_line"@);
            assert("max_handles"@ != "members"@);
            assert("max_handles"@ != "name"@);
            assert("max_handles"@ != "size"@);
            assert("max_out_of_line"@ != "members"@);
            assert("max_out_of_line"@ != "name"@);
            assert("max_out_of_line"@ != "size"@);
            assert("members"@ != "name"@);
            assert("members"@ != "size"@);
            assert("name"@ != "size"@);
        }
        let mut e: Vec<Entry> = Vec::new();
        put(&mut e, "attributes", &self.attributes)?;
        proof {
            assert(req(e@, "attributes"@, self.attributes));
        }
        put(&mut e, "name", &self.name)?;
        proof {
            assert(req(e@, "attributes"@, self.attributes));
            assert(req(e@, "name"@, self.name));
        }
        put(&mut e, "members", &self.members)?;
        proof {
            assert(req(e@, "attributes"@, self.attributes));
            assert(req(e@, "name"@, self.name));
            assert(req(e@, "members"@, self.members));
        }
        put(&mut e, "size", &self.size)?;
        proof {
            assert(req(e@, "attributes"@, self.attributes));
            assert(req(e@, "name"@, self.name));
            assert(req(e@, "members"@, self.members));
            assert(req(e@, "size"@, self.size));
        }
        put(&mut e, "alignment", &self.alignment)?;
        proof {
            assert(req(e@, "attributes"@, self.attributes));
            assert(req(e@, "name"@, self.name));
            assert(req(e@, "members"@, self.members));
            assert(req(e@, "size"@, self.size));
            assert(req(e@, "alignment"@, self.alignment));
        }
        put(&mut e, "max_handles", &self.max_handles)?;
        proof {
            assert(req(e@, "attributes"@, self.attributes));
            assert(req(e@, "name"@, self.name));
            assert(req(e@, "members"@, self.members));
            assert(req(e@, "size"@, self.size));
            assert(req(e@, "alignment"@, self.alignment));
            assert(req(e@, "max_handles"@, self.max_handles));
        }
        put(&mut e, "max_out_of_line", &self.max_out_of_line)?;
        proof {
            assert(req(e@, "attributes"@, self.attributes));
            assert(req(e@, "name"@, self.name));
            assert(req(e@, "members"@, self.members));
            assert(req(e@, "size"@, self.size));
            assert(req(e@, "alignment"@, self.alignment));
            assert(req(e@, "max_handles"@, self.max_handles));
            assert(req(e@, "max_out_of_line"@, self.max_out_of_line));
        }
        Ok(Doc::Obj(e))
    }

    fn decode(d: &Doc) -> (r: Result<Union, CodecError>) {
        match d {
            Doc::Obj(e) => {
                let attributes = get_req::<Vec<Spanned<Attribute>>>(e, "attributes");
                let name = get_req::<Spanned<DeclPath>>(e, "name");
                let members = get_req::<Vec<Spanned<UnionMember>>>(e, "members");
                let size = get_req::<SerOption<u32>>(e, "size");
                let alignment = get_req::<SerOption<u32>>(e, "alignment");
                let max_handles = get_req::<SerOption<u32>>(e, "max_handles");
                let max_out_of_line = get_req::<SerOption<u32>>(e, "max_out_of_line");
                proof {
                    if exists|x: Union| #[trigger] Self::describes(*d, x) && Self::readable(x) {
                        let w = choose|x: Union| #[trigger] Self::describes(*d, x) && Self::readable(x);
                        assert(req(e@, "attributes"@, w.attributes));
                        assert(req(e@, "name"@, w.name));
                        assert(req(e@, "members"@, w.members));
                        assert(req(e@, "size"@, w.size));
                        assert(req(e@, "alignment"@, w.alignment));
                        assert(req(e@, "max_handles"@, w.max_handles));
                        assert(req(e@, "max_out_of_line"@, w.max_out_of_line));
                    }
                }
                let attributes = match attributes { Ok(v) => v, Err(er) => return Err(er) };
                let name = match name { Ok(v) => v, Err(er) => return Err(er) };
                let members = match members { Ok(v) => v, Err(er) => return Err(er) };
                let size = match size { Ok(v) => v, Err(er) => return Err(er) };
                let alignment = match alignment { Ok(v) => v, Err(er) => return Err(er) };
                let max_handles = match max_handles { Ok(v) => v, Err(er) => return Err(er) };
                let max_out_of_line = match max_out_of_line { Ok(v) => v, Err(er) => return Err(er) };
                Ok(Union { attributes, name, members, size, alignment, max_handles, max_out_of_line })
            },
            _ => Err(CodecError::InvalidType),
        }
    }

    proof fn lemma_unique(d: Doc, x: Union, y: Union) {
        let e = d->Obj_0@;
        lemma_req_unique(e, "attributes"@, x.attributes, y.attributes);
        lemma_req_unique(e, "name"@, x.name, y.name);
        lemma_req_unique(e, "members"@, x.members, y.members);
        lemma_req_unique(e, "size"@, x.size, y.size);
        lemma_req_unique(e, "alignment"@, x.alignment, y.alignment);
        lemma_req_unique(e, "max_handles"@, x.max_handles, y.max_handles);
        lemma_req_unique(e, "max_out_of_line"@, x.max_out_of_line, y.max_out_of_line);
    }

    proof fn lemma_described_encodable(d: Doc, x: Union) {
        let e = d->Obj_0@;
        lemma_req_encodable(e, "attributes"@, x.attributes);
        lemma_req_encodable(e, "name"@, x.name);
        lemma_req_encodable(e, "members"@, x.members);
        lemma_req_encodable(e, "size"@, x.size);
        lemma_req_encodable(e, "alignment"@, x.alignment);
        lemma_req_encodable(e, "max_handles"@, x.max_handles);
        lemma_req_encodable(e, "max_out_of_line"@, x.max_out_of_line);
    }

    proof fn lemma_not_null(d: Doc, x: Union) {
    }
}

/// A member of an extensible union.
#[derive(Debug, Clone)]
pub struct XUnionMember {
    pub attributes: Vec<Spanned<Attribute>>,
    pub ordinal: SerOption<u64>,
    pub type_: Spanned<Type>,
    pub name: Spanned<String>,
    pub offset: SerOption<u32>,
    pub max_out_of_line: SerOption<u32>,
}

impl Wire for XUnionMember {
    open spec fn describes(d: Doc, x: XUnionMember) -> bool {
        d matches Doc::Obj(e) && req(e@, "attributes"@, x.attributes)
            && req(e@, "ordinal"@, x.ordinal)
            && req(e@, "type"@, x.type_)
            && req(e@, "name"@, x.name)
            && req(e@, "offset"@, x.offset)
            && req(e@, "max_out_of_line"@, x.max_out_of_line)
    }

    open spec fn wire_form(d: Doc, x: XUnionMember) -> bool {
        d matches Doc::Obj(e) && e@.len() == 6int
            && entry_form(e@, 0int, "attributes"@, x.attributes)
            && entry_form(e@, 1int, "ordinal"@, x.ordinal)
            && entry_form(e@, 2int, "type"@, x.type_)
            && entry_form(e@, 3int, "name"@, x.name)
            && entry_form(e@, 4int, "offset"@, x.offset)
            && entry_form(e@, 5int, "max_out_of_line"@, x.max_out_of_line)
    }

    open spec fn encodable(x: XUnionMember) -> bool {
        <Vec<Spanned<Attribute>> as Wire>::encodable(x.attributes)
            && <SerOption<u64> as Wire>::encodable(x.ordinal)
            && <Spanned<Type> as Wire>::encodable(x.type_)
            && <Spanned<String> as Wire>::encodable(x.name)
            && <SerOption<u32> as Wire>::encodable(x.offset)
            && <SerOption<u32> as Wire>::encodable(x.max_out_of_line)
    }

    open spec fn same_content(x: XUnionMember, y: XUnionMember) -> bool {
        <Vec<Spanned<Attribute>> as Wire>::same_content(x.attributes, y.attributes)
            && <SerOption<u64> as Wire>::same_content(x.ordinal, y.ordinal)
            && <Spanned<Type> as Wire>::same_content(x.type_, y.type_)
            && <Spanned<String> as Wire>::same_content(x.name, y.name)
            && <SerOption<u32> as Wire>::same_content(x.offset, y.offset)
            && <SerOption<u32> as Wire>::same_content(x.max_out_of_line, y.max_out_of_line)
    }

    open spec fn readable(x: XUnionMember) -> bool {
        <Vec<Spanned<Attribute>> as Wire>::readable(x.attributes)
            && <SerOption<u64> as Wire>::readable(x.ordinal)
            && <Spanned<Type> as Wire>::readable(x.type_)
            && <Spanned<String> as Wire>::readable(x.name)
            && <SerOption<u32> as Wire>::readable(x.offset)
            && <SerOption<u32> as Wire>::readable(x.max_out_of_line)
    }

    open spec fn complete(x: XUnionMember) -> bool {
        <Vec<Spanned<Attribute>> as Wire>::complete(x.attributes)
            && <SerOption<u64> as Wire>::complete(x.ordinal)
            && <Spanned<Type> as Wire>::complete(x.type_)
            && <Spanned<String> as Wire>::complete(x.name)
            && <SerOption<u32> as Wire>::complete(x.offset)
            && <SerOption<u32> as Wire>::complete(x.max_out_of_line)
    }

    open spec fn fresh(x: XUnionMember) -> bool {
        <Vec<Spanned<Attribute>> as Wire>::fresh(x.attributes)
            && <SerOption<u64> as Wire>::fresh(x.ordinal)
            && <Spanned<Type> as Wire>::fresh(x.type_)
            && <Spanned<String> as Wire>::fresh(x.name)
            && <SerOption<u32> as Wire>::fresh(x.offset)
            && <SerOption<u32> as Wire>::fresh(x.max_out_of_line)
    }

    fn encode(&self) -> (r: Result<Doc, CodecError>) {
        proof {
            reveal_strlit("attributes");
            reveal_strlit("max_out_of_line");
            reveal_strlit("name");
            reveal_strlit("offset");
            reveal_strlit("ordinal");
            reveal_strlit("type");
            assert("attributes"@.len() == 10);
            assert("max_out_of_line"@.len() == 15);
            assert("name"@.len() == 4);
            assert("offset"@.len() == 6);
            assert("ordinal"@.len() == 7);
            assert("type"@.len() == 4);
            assert("name"@[0] == 'n');
            assert("type"@[0] == 't');
        }
        let mut e: Vec<Entry> = Vec::new();
        put(&mut e, "attributes", &self.attributes)?;
        proof {
            assert(req(e@, "attributes"@, self.attributes));
        }
        put(&mut e, "ordinal", &self.ordinal)?;
        proof {
            assert(req(e@, "attributes"@, self.attributes));
            assert(req(e@, "ordinal"@, self.ordinal));
        }
        put(&mut e, "type", &self.type_)?;
        proof {
            assert(req(e@, "attributes"@, self.attributes));
            assert(req(e@, "ordinal"@, self.ordinal));
            assert(req(e@, "type"@, self.type_));
        }
        put(&mut e, "name", &self.name)?;
        proof {
            assert(req(e@, "attributes"@, self.attributes));
            assert(req(e@, "ordinal"@, self.ordinal));
            assert(req(e@, "type"@, self.type_));
            assert(req(e@, "name"@, self.name));
        }
        put(&mut e, "offset", &self.offset)?;
        proof {
            assert(req(e@, "attributes"@, self.attributes));
            assert(req(e@, "ordinal"@, self.ordinal));
            assert(req(e@, "type"@, self.type_));
            assert(req(e@, "name"@, self.name));
            assert(req(e@, "offset"@, self.offset));
        }
        put(&mut e, "max_out_of_line", &self.max_out_of_line)?;
        proof {
            assert(req(e@, "attributes"@, self.attributes));
            assert(req(e@, "ordinal"@, self.ordinal));
            assert(req(e@, "type"@, self.type_));
            assert(req(e@, "name"@, self.name));
            assert(req(e@, "offset"@, self.offset));
            assert(req(e@, "max_out_of_line"@, self.max_out_of_line));
        }
        Ok(Doc::Obj(e))
    }

    fn decode(d: &Doc) -> (r: Result<XUnionMember, CodecError>) {
        match d {
            Doc::Obj(e) => {
                let attributes = get_req::<Vec<Spanned<Attribute>>>(e, "attributes");
                let ordinal = get_req::<SerOption<u64>>(e, "ordinal");
                let type_ = get_req::<Spanned<Type>>(e, "type");
                let name = get_req::<Spanned<String>>(e, "name");
                let offset = get_req::<SerOption<u32>>(e, "offset");
                let max_out_of_line = get_req::<SerOption<u32>>(e, "max_out_of_line");
                proof {
                    if exists|x: XUnionMember| #[trigger] Self::describes(*d, x) && Self::readable(x) {
                        let w = choose|x: XUnionMember| #[trigger] Self::describes(*d, x) && Self::readable(x);
                        assert(req(e@, "attributes"@, w.attributes));
                        assert(req(e@, "ordinal"@, w.ordinal));
                        assert(req(e@, "type"@, w.type_));
                        assert(req(e@, "name"@, w.name));
                        assert(req(e@, "offset"@, w.offset));
                        assert(req(e@, "max_out_of_line"@, w.max_out_of_line));
                    }
                }
                let attributes = match attributes { Ok(v) => v, Err(er) => return Err(er) };
                let ordinal = match ordinal { Ok(v) => v, Err(er) => return Err(er) };
                let type_ = match type_ { Ok(v) => v, Err(er) => return Err(er) };
                let name = match name { Ok(v) => v, Err(er) => return Err(er) };
                let offset = match offset { Ok(v) => v, Err(er) => return Err(er) };
                let max_out_of_line = match max_out_of_line { Ok(v) => v, Err(er) => return Err(er) };
                Ok(XUnionMember { attributes, ordinal, type_, name, offset, max_out_of_line })
            },
            _ => Err(CodecError::InvalidType),
        }
    }

    proof fn lemma_unique(d: Doc, x: XUnionMember, y: XUnionMember) {
        let e = d->Obj_0@;
        lemma_req_unique(e, "attributes"@, x.attributes, y.attributes);
        lemma_req_unique(e, "ordinal"@, x.ordinal, y.ordinal);
        lemma_req_unique(e, "type"@, x.type_, y.type_);
        lemma_req_unique(e, "name"@, x.name, y.name);
        lemma_req_unique(e, "offset"@, x.offset, y.offset);
        lemma_req_unique(e, "max_out_of_line"@, x.max_out_of_line, y.max_out_of_line);
    }

    proof fn lemma_described_encodable(d: Doc, x: XUnionMember) {
        let e = d->Obj_0@;
        lemma_req_encodable(e, "attributes"@, x.attributes);
        lemma_req_encodable(e, "ordinal"@, x.ordinal);
        lemma_req_encodable(e, "type"@, x.type_);
        lemma_req_encodable(e, "name"@, x.name);
        lemma_req_encodable(e, "offset"@, x.offset);
        lemma_req_encodable(e, "max_out_of_line"@, x.max_out_of_line);
    }

    proof fn lemma_not_null(d: Doc, x: XUnionMember) {
    }
}

/// An extensible union declaration.
#[derive(Debug, Clone)]
pub struct XUnion {
    pub attributes: Vec<Spanned<Attribute>>,
    pub name: Spanned<DeclPath>,
    pub members: Vec<Spanned<XUnionMember>>,
    pub size: SerOption<u32>,
    pub alignment: SerOption<u32>,
    pub max_handles: SerOption<u32>,
    pub max_out_of_line: SerOption<u32>,
}

impl Wire for XUnion {
    open spec fn describes(d: Doc, x: XUnion) -> bool {
        d matches Doc::Obj(e) && req(e@, "attributes"@, x.attributes)
            && req(e@, "name"@, x.name)
            && req(e@, "members"@, x.members)
            && req(e@, "size"@, x.size)
            && req(e@, "alignment"@, x.alignment)
            && req(e@, "max_handles"@, x.max_handles)
            && req(e@, "max_out_of_line"@, x.max_out_of_line)
    }

    open spec fn wire_form(d: Doc, x: XUnion) -> bool {
        d matches Doc::Obj(e) && e@.len() == 7int
            && entry_form(e@, 0int, "attributes"@, x.attributes)
            && entry_form(e@, 1int, "name"@, x.name)
            && entry_form(e@, 2int, "members"@, x.members)
            && entry_form(e@, 3int, "size"@, x.size)
            && entry_form(e@, 4int, "alignment"@, x.alignment)
            && entry_form(e@, 5int, "max_handles"@, x.max_handles)
            && entry_form(e@, 6int, "max_out_of_line"@, x.max_out_of_line)
    }

    open spec fn encodable(x: XUnion) -> bool {
        <Vec<Spanned<Attribute>> as Wire>::encodable(x.attributes)
            && <Spanned<DeclPath> as Wire>::encodable(x.name)
            && <Vec<Spanned<XUnionMember>> as Wire>::encodable(x.members)
            && <SerOption<u32> as Wire>::encodable(x.size)
            && <SerOption<u32> as Wire>::encodable(x.alignment)
            && <SerOption<u32> as Wire>::encodable(x.max_handles)
            && <SerOption<u32> as Wire>::encodable(x.max_out_of_line)
    }

    open spec fn same_content(x: XUnion, y: XUnion) -> bool {
        <Vec<Spanned<Attribute>> as Wire>::same_content(x.attributes, y.attributes)
            && <Spanned<DeclPath> as Wire>::same_content(x.name, y.name)
            && <Vec<Spanned<XUnionMember>> as Wire>::same_content(x.members, y.members)
            && <SerOption<u32> as Wire>::same_content(x.size, y.size)
            && <SerOption<u32> as Wire>::same_content(x.alignment, y.alignment)
            && <SerOption<u32> as Wire>::same_content(x.max_handles, y.max_handles)
            && <SerOption<u32> as Wire>::same_content(x.max_out_of_line, y.max_out_of_line)
    }

    open spec fn readable(x: XUnion) -> bool {
        <Vec<Spanned<Attribute>> as Wire>::readable(x.attributes)
            && <Spanned<DeclPath> as Wire>::readable(x.name)
            && <Vec<Spanned<XUnionMember>> as Wire>::readable(x.members)
            && <SerOption<u32> as Wire>::readable(x.size)
            && <SerOption<u32> as Wire>::readable(x.alignment)
            && <SerOption<u32> as Wire>::readable(x.max_handles)
            && <SerOption<u32> as Wire>::readable(x.max_out_of_line)
    }

    open spec fn complete(x: XUnion) -> bool {
        <Vec<Spanned<Attribute>> as Wire>::complete(x.attributes)
            && <Spanned<DeclPath> as Wire>::complete(x.name)
            && <Vec<Spanned<XUnionMember>> as Wire>::complete(x.members)
            && <SerOption<u32> as Wire>::complete(x.size)
            && <SerOption<u32> as Wire>::complete(x.alignment)
            && <SerOption<u32> as Wire>::complete(x.max_handles)
            && <SerOption<u32> as Wire>::complete(x.max_out_of_line)
    }

    open spec fn fresh(x: XUnion) -> bool {
        <Vec<Spanned<Attribute>> as Wire>::fresh(x.attributes)
            && <Spanned<DeclPath> as Wire>::fresh(x.name)
            && <Vec<Spanned<XUnionMember>> as Wire>::fresh(x.members)
            && <SerOption<u32> as Wire>::fresh(x.size)
            && <SerOption<u32> as Wire>::fresh(x.alignment)
            && <SerOption<u32> as Wire>::fresh(x.max_handles)
            && <SerOption<u32> as Wire>::fresh(x.max_out_of_line)
    }

    fn encode(&self) -> (r: Result<Doc, CodecError>) {
        proof {
            reveal_strlit("alignment");
            reveal_strlit("attributes");
            reveal_strlit("max_handles");
            reveal_strlit("max_out_of_line");
            reveal_strlit("members");
            reveal_strlit("name");
            reveal_strlit("size");
            assert("alignment"@.len() == 9);
            assert("attributes"@.len() == 10);
            assert("max_handles"@.len() == 11);
            assert("max_out_of_line"@.len() == 15);
            assert("members"@.len() == 7);
            assert("name"@.len() == 4);
            assert("size"@.len() == 4);
            assert("name"@[0] == 'n');
            assert("size"@[0] == 's');
            assert("alignment"@ != "attributes"@);
            assert("alignment"@ != "max_handles"@);
            assert("alignment"@ != "max_out_of_line"@);
            assert("alignment"@ != "members"@);
            assert("alignment"@ != "name"@);
            assert("alignment"@ != "size"@);
            assert("attributes"@ != "max_handles"@);
            assert("attributes"@ != "max_out_of_line"@);
            assert("attributes"@ != "members"@);
            assert("attributes"@ != "name"@);
            assert("attributes"@ != "size"@);
            assert("max_handles"@ != "max_out_of_line"@);
            assert("max_handles"@ != "members"@);
            assert("max_handles"@ != "name"@);
            assert("max_handles"@ != "size"@);
            assert("max_out_of_line"@ != "members"@);
            assert("max_out_of_line"@ != "name"@);
            assert("max_out_of_line"@ != "size"@);
            assert("members"@ != "name"@);
            assert("members"@ != "size"@);
            assert("name"@ != "size"@);
        }
        let mut e: Vec<Entry> = Vec::new();
        put(&mut e, "attributes", &self.attributes)?;
        proof {
            assert(req(e@, "attributes"@, self.attributes));
        }
        put(&mut e, "name", &self.name)?;
        proof {
            assert(req(e@, "attributes"@, self.attributes));
            assert(req(e@, "name"@, self.name));
        }
        put(&mut e, "members", &self.members)?;
        proof {
            assert(req(e@, "attributes"@, self.attributes));
            assert(req(e@, "name"@, self.name));
            assert(req(e@, "members"@, self.members));
        }
        put(&mut e, "size", &self.size)?;
        proof {
            assert(req(e@, "attributes"@, self.attributes));
            assert(req(e@, "name"@, self.name));
            assert(req(e@, "members"@, self.members));
            assert(req(e@, "size"@, self.size));
        }
        put(&mut e, "alignment", &self.alignment)?;
        proof {
            assert(req(e@, "attributes"@, self.attributes));
            assert(req(e@, "name"@, self.name));
            assert(req(e@, "members"@, self.members));
            assert(req(e@, "size"@, self.size));
            assert(req(e@, "alignment"@, self.alignment));
        }
        put(&mut e, "max_handles", &self.max_handles)?;
        proof {
            assert(req(e@, "attributes"@, self.attributes));
            assert(req(e@, "name"@, self.name));
            assert(req(e@, "members"@, self.members));
            assert(req(e@, "size"@, self.size));
            assert(req(e@, "alignment"@, self.alignment));
            assert(req(e@, "max_handles"@, self.max_handles));
        }
        put(&mut e, "max_out_of_line", &self.max_out_of_line)?;
        proof {
            assert(req(e@, "attributes"@, self.attributes));
            assert(req(e@, "name"@, self.name));
            assert(req(e@, "members"@, self.members));
            assert(req(e@, "size"@, self.size));
            assert(req(e@, "alignment"@, self.alignment));
            assert(req(e@, "max_handles"@, self.max_handles));
            assert(req(e@, "max_out_of_line"@, self.max_out_of_line));
        }
        Ok(Doc::Obj(e))
    }

    fn decode(d: &Doc) -> (r: Result<XUnion, CodecError>) {
        match d {
            Doc::Obj(e) => {
                let attributes = get_req::<Vec<Spanned<Attribute>>>(e, "attributes");
                let name = get_req::<Spanned<DeclPath>>(e, "name");
                let members = get_req::<Vec<Spanned<XUnionMember>>>(e, "members");
                let size = get_req::<SerOption<u32>>(e, "size");
                let alignment = get_req::<SerOption<u32>>(e, "alignment");
                let max_handles = get_req::<SerOption<u32>>(e, "max_handles");
                let max_out_of_line = get_req::<SerOption<u32>>(e, "max_out_of_line");
                proof {
                    if exists|x: XUnion| #[trigger] Self::describes(*d, x) && Self::readable(x) {
                        let w = choose|x: XUnion| #[trigger] Self::describes(*d, x) && Self::readable(x);
                        assert(req(e@, "attributes"@, w.attributes));
                        assert(req(e@, "name"@, w.name));
                        assert(req(e@, "members"@, w.members));
                        assert(req(e@, "size"@, w.size));
                        assert(req(e@, "alignment"@, w.alignment));
                        assert(req(e@, "max_handles"@, w.max_handles));
                        assert(req(e@, "max_out_of_line"@, w.max_out_of_line));
                    }
                }
                let attributes = match attributes { Ok(v) => v, Err(er) => return Err(er) };
                let name = match name { Ok(v) => v, Err(er) => return Err(er) };
                let members = match members { Ok(v) => v, Err(er) => return Err(er) };
                let size = match size { Ok(v) => v, Err(er) => return Err(er) };
                let alignment = match alignment { Ok(v) => v, Err(er) => return Err(er) };
                let max_handles = match max_handles { Ok(v) => v, Err(er) => return Err(er) };
                let max_out_of_line = match max_out_of_line { Ok(v) => v, Err(er) => return Err(er) };
                Ok(XUnion { attributes, name, members, size, alignment, max_handles, max_out_of_line })
            },
            _ => Err(CodecError::InvalidType),
        }
    }

    proof fn lemma_unique(d: Doc, x: XUnion, y: XUnion) {
        let e = d->Obj_0@;
        lemma_req_unique(e, "attributes"@, x.attributes, y.attributes);
        lemma_req_unique(e, "name"@, x.name, y.name);
        lemma_req_unique(e, "members"@, x.members, y.members);
        lemma_req_unique(e, "size"@, x.size, y.size);
        lemma_req_unique(e, "alignment"@, x.alignment, y.alignment);
        lemma_req_unique(e, "max_handles"@, x.max_handles, y.max_handles);
        lemma_req_unique(e, "max_out_of_line"@, x.max_out_of_line, y.max_out_of_line);
    }

    proof fn lemma_described_encodable(d: Doc, x: XUnion) {
        let e = d->Obj_0@;
        lemma_req_encodable(e, "attributes"@, x.attributes);
        lemma_req_encodable(e, "name"@, x.name);
        lemma_req_encodable(e, "members"@, x.members);
        lemma_req_encodable(e, "size"@, x.size);
        lemma_req_encodable(e, "alignment"@, x.alignment);
        lemma_req_encodable(e, "max_handles"@, x.max_handles);
        lemma_req_encodable(e, "max_out_of_line"@, x.max_out_of_line);
    }

    proof fn lemma_not_null(d: Doc, x: XUnion) {
    }
}

/// A member of a struct.
#[derive(Debug, Clone)]
pub struct StructMember {
    pub attributes: Vec<Spanned<Attribute>>,
    pub type_: Spanned<Type>,
    pub name: Spanned<String>,
    pub offset: SerOption<u32>,
    pub maybe_default_value: Option<Spanned<Constant>>,
    pub max_handles: SerOption<u32>,
    pub max_out_of_line: SerOption<u32>,
}

impl Wire for StructMember {
    open spec fn describes(d: Doc, x: StructMember) -> bool {
        d matches Doc::Obj(e) && req(e@, "attributes"@, x.attributes)
            && req(e@, "type"@, x.type_)
            && req(e@, "name"@, x.name)
            && req(e@, "offset"@, x.offset)
            && opt(e@, "maybe_default_value"@, x.maybe_default_value)
            && req(e@, "max_handles"@, x.max_handles)
            && req(e@, "max_out_of_line"@, x.max_out_of_line)
    }

    open spec fn wire_form(d: Doc, x: StructMember) -> bool {
        d matches Doc::Obj(e) && e@.len() == 6int + (if x.maybe_default_value is Some { 1int } else { 0int })
            && entry_form(e@, 0int, "attributes"@, x.attributes)
            && entry_form(e@, 1int, "type"@, x.type_)
            && entry_form(e@, 2int, "name"@, x.name)
            && entry_form(e@, 3int, "offset"@, x.offset)
            && (x.maybe_default_value matches Some(v) ==> entry_form(e@, 4int, "maybe_default_value"@, v))
            && entry_form(e@, 4int + (if x.maybe_default_value is Some { 1int } else { 0int }), "max_handles"@, x.max_handles)
            && entry_form(e@, 5int + (if x.maybe_default_value is Some { 1int } else { 0int }), "max_out_of_line"@, x.max_out_of_line)
    }

    open spec fn encodable(x: StructMember) -> bool {
        <Vec<Spanned<Attribute>> as Wire>::encodable(x.attributes)
            && <Spanned<Type> as Wire>::encodable(x.type_)
            && <Spanned<String> as Wire>::encodable(x.name)
            && <SerOption<u32> as Wire>::encodable(x.offset)
            && opt_encodable(x.maybe_default_value)
            && <SerOption<u32> as Wire>::encodable(x.max_handles)
            && <SerOption<u32> as Wire>::encodable(x.max_out_of_line)
    }

    open spec fn same_content(x: StructMember, y: StructMember) -> bool {
        <Vec<Spanned<Attribute>> as Wire>::same_content(x.attributes, y.attributes)
            && <Spanned<Type> as Wire>::same_content(x.type_, y.type_)
            && <Spanned<String> as Wire>::same_content(x.name, y.name)
            && <SerOption<u32> as Wire>::same_content(x.offset, y.offset)
            && opt_same(x.maybe_default_value, y.maybe_default_value)
            && <SerOption<u32> as Wire>::same_content(x.max_handles, y.max_handles)
            && <SerOption<u32> as Wire>::same_content(x.max_out_of_line, y.max_out_of_line)
    }

    open spec fn readable(x: StructMember) -> bool {
        <Vec<Spanned<Attribute>> as Wire>::readable(x.attributes)
            && <Spanned<Type> as Wire>::readable(x.type_)
            && <Spanned<String> as Wire>::readable(x.name)
            && <SerOption<u32> as Wire>::readable(x.offset)
            && opt_readable(x.maybe_default_value)
            && <SerOption<u32> as Wire>::readable(x.max_handles)
            && <SerOption<u32> as Wire>::readable(x.max_out_of_line)
    }

    open spec fn complete(x: StructMember) -> bool {
        <Vec<Spanned<Attribute>> as Wire>::complete(x.attributes)
            && <Spanned<Type> as Wire>::complete(x.type_)
            && <Spanned<String> as Wire>::complete(x.name)
            && <SerOption<u32> as Wire>::complete(x.offset)
            && opt_complete(x.maybe_default_value)
            && <SerOption<u32> as Wire>::complete(x.max_handles)
            && <SerOption<u32> as Wire>::complete(x.max_out_of_line)
    }

    open spec fn fresh(x: StructMember) -> bool {
        <Vec<Spanned<Attribute>> as Wire>::fresh(x.attributes)
            && <Spanned<Type> as Wire>::fresh(x.type_)
            && <Spanned<String> as Wire>::fresh(x.name)
            && <SerOption<u32> as Wire>::fresh(x.offset)
            && opt_fresh(x.maybe_default_value)
            && <SerOption<u32> as Wire>::fresh(x.max_handles)
            && <SerOption<u32> as Wire>::fresh(x.max_out_of_line)
    }

    fn encode(&self) -> (r: Result<Doc, CodecError>) {
        proof {
            reveal_strlit("attributes");
            reveal_strlit("max_handles");
            reveal_strlit("max_out_of_line");
            reveal_strlit("maybe_default_value");
            reveal_strlit("name");
            reveal_strlit("offset");
            reveal_strlit("type");
            assert("attributes"@.len() == 10);
            assert("max_handles"@.len() == 11);
            assert("max_out_of_line"@.len() == 15);
            assert("maybe_default_value"@.len() == 19);
            assert("name"@.len() == 4);
            assert("offset"@.len() == 6);
            assert("type"@.len() == 4);
            assert("name"@[0] == 'n');
            assert("type"@[0] == 't');
            assert("attributes"@ != "max_handles"@);
            assert("attributes"@ != "max_out_of_line"@);
            assert("attributes"@ != "maybe_default_value"@);
            assert("attributes"@ != "name"@);
            assert("attributes"@ != "offset"@);
            assert("attributes"@ != "type"@);
            assert("max_handles"@ != "max_out_of_line"@);
            assert("max_handles"@ != "maybe_default_value"@);
            assert("max_handles"@ != "name"@);
            assert("max_handles"@ != "offset"@);
            assert("max_handles"@ != "type"@);
            assert("max_out_of_line"@ != "maybe_default_value"@);
            assert("max_out_of_line"@ != "name"@);
            assert("max_out_of_line"@ != "offset"@);
            assert("max_out_of_line"@ != "type"@);
            assert("maybe_default_value"@ != "name"@);
            assert("maybe_default_value"@ != "offset"@);
            assert("maybe_default_value"@ != "type"@);
            assert("name"@ != "offset"@);
            assert("name"@ != "type"@);
            assert("offset"@ != "type"@);
        }
        let mut e: Vec<Entry> = Vec::new();
        put(&mut e, "attributes", &self.attributes)?;
        proof {
            assert(req(e@, "attributes"@, self.attributes));
        }
        put(&mut e, "type", &self.type_)?;
        proof {
            assert(req(e@, "attributes"@, self.attributes));
            assert(req(e@, "type"@, self.type_));
        }
        put(&mut e, "name", &self.name)?;
        proof {
            assert(req(e@, "attributes"@, self.attributes));
            assert(req(e@, "type"@, self.type_));
            assert(req(e@, "name"@, self.name));
        }
        put(&mut e, "offset", &self.offset)?;
        proof {
            assert(req(e@, "attributes"@, self.attributes));
            assert(req(e@, "type"@, self.type_));
            assert(req(e@, "name"@, self.name));
            assert(req(e@, "offset"@, self.offset));
        }
        put_opt(&mut e, "maybe_default_value", &self.maybe_default_value)?;
        proof {
            assert(req(e@, "attributes"@, self.attributes));
            assert(req(e@, "type"@, self.type_));
            assert(req(e@, "name"@, self.name));
            assert(req(e@, "offset"@, self.offset));
            assert(opt(e@, "maybe_default_value"@, self.maybe_default_value));
        }
        put(&mut e, "max_handles", &self.max_handles)?;
        proof {
            assert(req(e@, "attributes"@, self.attributes));
            assert(req(e@, "type"@, self.type_));
            assert(req(e@, "name"@, self.name));
            assert(req(e@, "offset"@, self.offset));
            assert(opt(e@, "maybe_default_value"@, self.maybe_default_value));
            assert(req(e@, "max_handles"@, self.max_handles));
        }
        put(&mut e, "max_out_of_line", &self.max_out_of_line)?;
        proof {
            assert(req(e@, "attributes"@, self.attributes));
            assert(req(e@, "type"@, self.type_));
            assert(req(e@, "name"@, self.name));
            assert(req(e@, "offset"@, self.offset));
            assert(opt(e@, "maybe_default_value"@, self.maybe_default_value));
            assert(req(e@, "max_handles"@, self.max_handles));
            assert(req(e@, "max_out_of_line"@, self.max_out_of_line));
        }
        Ok(Doc::Obj(e))
    }

    fn decode(d: &Doc) -> (r: Result<StructMember, CodecError>) {
        match d {
            Doc::Obj(e) => {
                let attributes = get_req::<Vec<Spanned<Attribute>>>(e, "attributes");
                let type_ = get_req::<Spanned<Type>>(e, "type");
                let name = get_req::<Spanned<String>>(e, "name");
                let offset = get_req::<SerOption<u32>>(e, "offset");
                let maybe_default_value = get_opt::<Spanned<Constant>>(e, "maybe_default_value");
                let max_handles = get_req::<SerOption<u32>>(e, "max_handles");
                let max_out_of_line = get_req::<SerOption<u32>>(e, "max_out_of_line");
                proof {
                    if exists|x: StructMember| #[trigger] Self::describes(*d, x) && Self::readable(x) {
                        let w = choose|x: StructMember| #[trigger] Self::describes(*d, x) && Self::readable(x);
                        assert(req(e@, "attributes"@, w.attributes));
                        assert(req(e@, "type"@, w.type_));
                        assert(req(e@, "name"@, w.name));
                        assert(req(e@, "offset"@, w.offset));
                        assert(opt(e@, "maybe_default_value"@, w.maybe_default_value));
                        assert(req(e@, "max_handles"@, w.max_handles));
                        assert(req(e@, "max_out_of_line"@, w.max_out_of_line));
                    }
                }
                let attributes = match attributes { Ok(v) => v, Err(er) => return Err(er) };
                let type_ = match type_ { Ok(v) => v, Err(er) => return Err(er) };
                let name = match name { Ok(v) => v, Err(er) => return Err(er) };
                let offset = match offset { Ok(v) => v, Err(er) => return Err(er) };
                let maybe_default_value = match maybe_default_value { Ok(v) => v, Err(er) => return Err(er) };
                let max_handles = match max_handles { Ok(v) => v, Err(er) => return Err(er) };
                let max_out_of_line = match max_out_of_line { Ok(v) => v, Err(er) => return Err(er) };
                Ok(StructMember { attributes, type_, name, offset, maybe_default_value, max_handles, max_out_of_line })
            },
            _ => Err(CodecError::InvalidType),
        }
    }

    proof fn lemma_unique(d: Doc, x: StructMember, y: StructMember) {
        let e = d->Obj_0@;
        lemma_req_unique(e, "attributes"@, x.attributes, y.attributes);
        lemma_req_unique(e, "type"@, x.type_, y.type_);
        lemma_req_unique(e, "name"@, x.name, y.name);
        lemma_req_unique(e, "offset"@, x.offset, y.offset);
        lemma_opt_unique(e, "maybe_default_value"@, x.maybe_default_value, y.maybe_default_value);
        lemma_req_unique(e, "max_handles"@, x.max_handles, y.max_handles);
        lemma_req_unique(e, "max_out_of_line"@, x.max_out_of_line, y.max_out_of_line);
    }

    proof fn lemma_described_encodable(d: Doc, x: StructMember) {
        let e = d->Obj_0@;
        lemma_req_encodable(e, "attributes"@, x.attributes);
        lemma_req_encodable(e, "type"@, x.type_);
        lemma_req_encodable(e, "name"@, x.name);
        lemma_req_encodable(e, "offset"@, x.offset);
        lemma_opt_encodable(e, "maybe_default_value"@, x.maybe_default_value);
        lemma_req_encodable(e, "max_handles"@, x.max_handles);
        lemma_req_encodable(e, "max_out_of_line"@, x.max_out_of_line);
    }

    proof fn lemma_not_null(d: Doc, x: StructMember) {
    }
}

/// A struct declaration.
#[derive(Debug, Clone)]
pub struct Struct {
    pub attributes: Vec<Spanned<Attribute>>,
    pub name: Spanned<DeclPath>,
    pub members: Vec<Spanned<StructMember>>,
    pub size: SerOption<u32>,
    pub alignment: SerOption<u32>,
    pub max_handles: SerOption<u32>,
    pub max_out_of_line: SerOption<u32>,
}

impl Wire for Struct {
    open spec fn describes(d: Doc, x: Struct) -> bool {
        d matches Doc::Obj(e) && req(e@, "attributes"@, x.attributes)
            && req(e@, "name"@, x.name)
            && req(e@, "members"@, x.members)
            && req(e@, "size"@, x.size)
            && req(e@, "alignment"@, x.alignment)
            && req(e@, "max_handles"@, x.max_handles)
            && req(e@, "max_out_of_line"@, x.max_out_of_line)
    }

    open spec fn wire_form(d: Doc, x: Struct) -> bool {
        d matches Doc::Obj(e) && e@.len() == 7int
            && entry_form(e@, 0int, "attributes"@, x.attributes)
            && entry_form(e@, 1int, "name"@, x.name)
            && entry_form(e@, 2int, "members"@, x.members)
            && entry_form(e@, 3int, "size"@, x.size)
            && entry_form(e@, 4int, "alignment"@, x.alignment)
            && entry_form(e@, 5int, "max_handles"@, x.max_handles)
            && entry_form(e@, 6int, "max_out_of_line"@, x.max_out_of_line)
    }

    open spec fn encodable(x: Struct) -> bool {
        <Vec<Spanned<Attribute>> as Wire>::encodable(x.attributes)
            && <Spanned<DeclPath> as Wire>::encodable(x.name)
            && <Vec<Spanned<StructMember>> as Wire>::encodable(x.members)
            && <SerOption<u32> as Wire>::encodable(x.size)
            && <SerOption<u32> as Wire>::encodable(x.alignment)
            && <SerOption<u32> as Wire>::encodable(x.max_handles)
            && <SerOption<u32> as Wire>::encodable(x.max_out_of_line)
    }

    open spec fn same_content(x: Struct, y: Struct) -> bool {
        <Vec<Spanned<Attribute>> as Wire>::same_content(x.attributes, y.attributes)
            && <Spanned<DeclPath> as Wire>::same_content(x.name, y.name)
            && <Vec<Spanned<StructMember>> as Wire>::same_content(x.members, y.members)
            && <SerOption<u32> as Wire>::same_content(x.size, y.size)
            && <SerOption<u32> as Wire>::same_content(x.alignment, y.alignment)
            && <SerOption<u32> as Wire>::same_content(x.max_handles, y.max_handles)
            && <SerOption<u32> as Wire>::same_content(x.max_out_of_line, y.max_out_of_line)
    }

    open spec fn readable(x: Struct) -> bool {
        <Vec<Spanned<Attribute>> as Wire>::readable(x.attributes)
            && <Spanned<DeclPath> as Wire>::readable(x.name)
            && <Vec<Spanned<StructMember>> as Wire>::readable(x.members)
            && <SerOption<u32> as Wire>::readable(x.size)
            && <SerOption<u32> as Wire>::readable(x.alignment)
            && <SerOption<u32> as Wire>::readable(x.max_handles)
            && <SerOption<u32> as Wire>::readable(x.max_out_of_line)
    }

    open spec fn complete(x: Struct) -> bool {
        <Vec<Spanned<Attribute>> as Wire>::complete(x.attributes)
            && <Spanned<DeclPath> as Wire>::complete(x.name)
            && <Vec<Spanned<StructMember>> as Wire>::complete(x.members)
            && <SerOption<u32> as Wire>::complete(x.size)
            && <SerOption<u32> as Wire>::complete(x.alignment)
            && <SerOption<u32> as Wire>::complete(x.max_handles)
            && <SerOption<u32> as Wire>::complete(x.max_out_of_line)
    }

    open spec fn fresh(x: Struct) -> bool {
        <Vec<Spanned<Attribute>> as Wire>::fresh(x.attributes)
            && <Spanned<DeclPath> as Wire>::fresh(x.name)
            && <Vec<Spanned<StructMember>> as Wire>::fresh(x.members)
            && <SerOption<u32> as Wire>::fresh(x.size)
            && <SerOption<u32> as Wire>::fresh(x.alignment)
            && <SerOption<u32> as Wire>::fresh(x.max_handles)
            && <SerOption<u32> as Wire>::fresh(x.max_out_of_line)
    }

    fn encode(&self) -> (r: Result<Doc, CodecError>) {
        proof {
            reveal_strlit("alignment");
            reveal_strlit("attributes");
            reveal_strlit("max_handles");
            reveal_strlit("max_out_of_line");
            reveal_strlit("members");
            reveal_strlit("name");
            reveal_strlit("size");
            assert("alignment"@.len() == 9);
            assert("attributes"@.len() == 10);
            assert("max_handles"@.len() == 11);
            assert("max_out_of_line"@.len() == 15);
            assert("members"@.len() == 7);
            assert("name"@.len() == 4);
            assert("size"@.len() == 4);
            assert("name"@[0] == 'n');
            assert("size"@[0] == 's');
            assert("alignment"@ != "attributes"@);
            assert("alignment"@ != "max_handles"@);
            assert("alignment"@ != "max_out_of_line"@);
            assert("alignment"@ != "members"@);
            assert("alignment"@ != "name"@);
            assert("alignment"@ != "size"@);
            assert("attributes"@ != "max_handles"@);
            assert("attributes"@ != "max_out_of_line"@);
            assert("attributes"@ != "members"@);
            assert("attributes"@ != "name"@);
            assert("attributes"@ != "size"@);
            assert("max_handles"@ != "max_out_of_line"@);
            assert("max_handles"@ != "members"@);
            assert("max_handles"@ != "name"@);
            assert("max_handles"@ != "size"@);
            assert("max_out_of_line"@ != "members"@);
            assert("max_out_of_line"@ != "name"@);
            assert("max_out_of_line"@ != "size"@);
            assert("members"@ != "name"@);
            assert("members"@ != "size"@);
            assert("name"@ != "size"@);
        }
        let mut e: Vec<Entry> = Vec::new();
        put(&mut e, "attributes", &self.attributes)?;
        proof {
            assert(req(e@, "attributes"@, self.attributes));
        }
        put(&mut e, "name", &self.name)?;
        proof {
            assert(req(e@, "attributes"@, self.attributes));
            assert(req(e@, "name"@, self.name));
        }
        put(&mut e, "members", &self.members)?;
        proof {
            assert(req(e@, "attributes"@, self.attributes));
            assert(req(e@, "name"@, self.name));
            assert(req(e@, "members"@, self.members));
        }
        put(&mut e, "size", &self.size)?;
        proof {
            assert(req(e@, "attributes"@, self.attributes));
            assert(req(e@, "name"@, self.name));
            assert(req(e@, "members"@, self.members));
            assert(req(e@, "size"@, self.size));
        }
        put(&mut e, "alignment", &self.alignment)?;
        proof {
            assert(req(e@, "attributes"@, self.attributes));
            assert(req(e@, "name"@, self.name));
            assert(req(e@, "members"@, self.members));
            assert(req(e@, "size"@, self.size));
            assert(req(e@, "alignment"@, self.alignment));
        }
        put(&mut e, "max_handles", &self.max_handles)?;
        proof {
            assert(req(e@, "attributes"@, self.attributes));
            assert(req(e@, "name"@, self.name));
            assert(req(e@, "members"@, self.members));
            assert(req(e@, "size"@, self.size));
            assert(req(e@, "alignment"@, self.alignment));
            assert(req(e@, "max_handles"@, self.max_handles));
        }
        put(&mut e, "max_out_of_line", &self.max_out_of_line)?;
        proof {
            assert(req(e@, "attributes"@, self.attributes));
            assert(req(e@, "name"@, self.name));
            assert(req(e@, "members"@, self.members));
            assert(req(e@, "size"@, self.size));
            assert(req(e@, "alignment"@, self.alignment));
            assert(req(e@, "max_handles"@, self.max_handles));
            assert(req(e@, "max_out_of_line"@, self.max_out_of_line));
        }
        Ok(Doc::Obj(e))
    }

    fn decode(d: &Doc) -> (r: Result<Struct, CodecError>) {
        match d {
            Doc::Obj(e) => {
                let attributes = get_req::<Vec<Spanned<Attribute>>>(e, "attributes");
                let name = get_req::<Spanned<DeclPath>>(e, "name");
                let members = get_req::<Vec<Spanned<StructMember>>>(e, "members");
                let size = get_req::<SerOption<u32>>(e, "size");
                let alignment = get_req::<SerOption<u32>>(e, "alignment");
                let max_handles = get_req::<SerOption<u32>>(e, "max_handles");
                let max_out_of_line = get_req::<SerOption<u32>>(e, "max_out_of_line");
                proof {
                    if exists|x: Struct| #[trigger] Self::describes(*d, x) && Self::readable(x) {
                        let w = choose|x: Struct| #[trigger] Self::describes(*d, x) && Self::readable(x);
                        assert(req(e@, "attributes"@, w.attributes));
                        assert(req(e@, "name"@, w.name));
                        assert(req(e@, "members"@, w.members));
                        assert(req(e@, "size"@, w.size));
                        assert(req(e@, "alignment"@, w.alignment));
                        assert(req(e@, "max_handles"@, w.max_handles));
                        assert(req(e@, "max_out_of_line"@, w.max_out_of_line));
                    }
                }
                let attributes = match attributes { Ok(v) => v, Err(er) => return Err(er) };
                let name = match name { Ok(v) => v, Err(er) => return Err(er) };
                let members = match members { Ok(v) => v, Err(er) => return Err(er) };
                let size = match size { Ok(v) => v, Err(er) => return Err(er) };
                let alignment = match alignment { Ok(v) => v, Err(er) => return Err(er) };
                let max_handles = match max_handles { Ok(v) => v, Err(er) => return Err(er) };
                let max_out_of_line = match max_out_of_line { Ok(v) => v, Err(er) => return Err(er) };
                Ok(Struct { attributes, name, members, size, alignment, max_handles, max_out_of_line })
            },
            _ => Err(CodecError::InvalidType),
        }
    }

    proof fn lemma_unique(d: Doc, x: Struct, y: Struct) {
        let e = d->Obj_0@;
        lemma_req_unique(e, "attributes"@, x.attributes, y.attributes);
        lemma_req_unique(e, "name"@, x.name, y.name);
        lemma_req_unique(e, "members"@, x.members, y.members);
        lemma_req_unique(e, "size"@, x.size, y.size);
        lemma_req_unique(e, "alignment"@, x.alignment, y.alignment);
        lemma_req_unique(e, "max_handles"@, x.max_handles, y.max_handles);
        lemma_req_unique(e, "max_out_of_line"@, x.max_out_of_line, y.max_out_of_line);
    }

    proof fn lemma_described_encodable(d: Doc, x: Struct) {
        let e = d->Obj_0@;
        lemma_req_encodable(e, "attributes"@, x.attributes);
        lemma_req_encodable(e, "name"@, x.name);
        lemma_req_encodable(e, "members"@, x.members);
        lemma_req_encodable(e, "size"@, x.size);
        lemma_req_encodable(e, "alignment"@, x.alignment);
        lemma_req_encodable(e, "max_handles"@, x.max_handles);
        lemma_req_encodable(e, "max_out_of_line"@, x.max_out_of_line);
    }

    proof fn lemma_not_null(d: Doc, x: Struct) {
    }
}

/// A member of an enumeration.
#[derive(Debug, Clone)]
pub struct EnumMember {
    pub attributes: Vec<Spanned<Attribute>>,
    pub name: Spanned<String>,
    pub value: SerOption<Spanned<Constant>>,
}

impl Wire for EnumMember {
    open spec fn describes(d: Doc, x: EnumMember) -> bool {
        d matches Doc::Obj(e) && req(e@, "attributes"@, x.attributes)
            && req(e@, "name"@, x.name)
            && req(e@, "value"@, x.value)
    }

    open spec fn wire_form(d: Doc, x: EnumMember) -> bool {
        d matches Doc::Obj(e) && e@.len() == 3int
            && entry_form(e@, 0int, "attributes"@, x.attributes)
            && entry_form(e@, 1int, "name"@, x.name)
            && entry_form(e@, 2int, "value"@, x.value)
    }

    open spec fn encodable(x: EnumMember) -> bool {
        <Vec<Spanned<Attribute>> as Wire>::encodable(x.attributes)
            && <Spanned<String> as Wire>::encodable(x.name)
            && <SerOption<Spanned<Constant>> as Wire>::encodable(x.value)
    }

    open spec fn same_content(x: EnumMember, y: EnumMember) -> bool {
        <Vec<Spanned<Attribute>> as Wire>::same_content(x.attributes, y.attributes)
            && <Spanned<String> as Wire>::same_content(x.name, y.name)
            && <SerOption<Spanned<Constant>> as Wire>::same_content(x.value, y.value)
    }

    open spec fn readable(x: EnumMember) -> bool {
        <Vec<Spanned<Attribute>> as Wire>::readable(x.attributes)
            && <Spanned<String> as Wire>::readable(x.name)
            && <SerOption<Spanned<Constant>> as Wire>::readable(x.value)
    }

    open spec fn complete(x: EnumMember) -> bool {
        <Vec<Spanned<Attribute>> as Wire>::complete(x.attributes)
            && <Spanned<String> as Wire>::complete(x.name)
            && <SerOption<Spanned<Constant>> as Wire>::complete(x.value)
    }

    open spec fn fresh(x: EnumMember) -> bool {
        <Vec<Spanned<Attribute>> as Wire>::fresh(x.attributes)
            && <Spanned<String> as Wire>::fresh(x.name)
            && <SerOption<Spanned<Constant>> as Wire>::fresh(x.value)
    }

    fn encode(&self) -> (r: Result<Doc, CodecError>) {
        proof {
            reveal_strlit("attributes");
            reveal_strlit("name");
            reveal_strlit("value");
            assert("attributes"@.len() == 10);
            assert("name"@.len() == 4);
            assert("value"@.len() == 5);
        }
        let mut e: Vec<Entry> = Vec::new();
        put(&mut e, "attributes", &self.attributes)?;
        put(&mut e, "name", &self.name)?;
        put(&mut e, "value", &self.value)?;
        Ok(Doc::Obj(e))
    }

    fn decode(d: &Doc) -> (r: Result<EnumMember, CodecError>) {
        match d {
            Doc::Obj(e) => {
                let attributes = get_req::<Vec<Spanned<Attribute>>>(e, "attributes");
                let name = get_req::<Spanned<String>>(e, "name");
                let value = get_req::<SerOption<Spanned<Constant>>>(e, "value");
                proof {
                    if exists|x: EnumMember| #[trigger] Self::describes(*d, x) && Self::readable(x) {
                        let w = choose|x: EnumMember| #[trigger] Self::describes(*d, x) && Self::readable(x);
                        assert(req(e@, "attributes"@, w.attributes));
                        assert(req(e@, "name"@, w.name));
                        assert(req(e@, "value"@, w.value));
                    }
                }
                let attributes = match attributes { Ok(v) => v, Err(er) => return Err(er) };
                let name = match name { Ok(v) => v, Err(er) => return Err(er) };
                let value = match value { Ok(v) => v, Err(er) => return Err(er) };
                Ok(EnumMember { attributes, name, value })
            },
            _ => Err(CodecError::InvalidType),
        }
    }

    proof fn lemma_unique(d: Doc, x: EnumMember, y: EnumMember) {
        let e = d->Obj_0@;
        lemma_req_unique(e, "attributes"@, x.attributes, y.attributes);
        lemma_req_unique(e, "name"@, x.name, y.name);
        lemma_req_unique(e, "value"@, x.value, y.value);
    }

    proof fn lemma_described_encodable(d: Doc, x: EnumMember) {
        let e = d->Obj_0@;
        lemma_req_encodable(e, "attributes"@, x.attributes);
        lemma_req_encodable(e, "name"@, x.name);
        lemma_req_encodable(e, "value"@, x.value);
    }

    proof fn lemma_not_null(d: Doc, x: EnumMember) {
    }
}

/// An enumeration declaration.
#[derive(Debug, Clone)]
pub struct Enum {
    pub attributes: Vec<Spanned<Attribute>>,
    pub type_: SerOption<Spanned<PrimitiveSubtype>>,
    pub name: Spanned<DeclPath>,
    pub members: Vec<Spanned<EnumMember>>,
    /// Only used before resolution; never written.
    pub unresolved_type: Option<Spanned<Type>>,
}

impl Wire for Enum {
    open spec fn describes(d: Doc, x: Enum) -> bool {
        d matches Doc::Obj(e) && req(e@, "attributes"@, x.attributes)
            && req(e@, "type"@, x.type_)
            && req(e@, "name"@, x.name)
            && req(e@, "members"@, x.members)
    }

    open spec fn wire_form(d: Doc, x: Enum) -> bool {
        d matches Doc::Obj(e) && e@.len() == 4int
            && entry_form(e@, 0int, "attributes"@, x.attributes)
            && entry_form(e@, 1int, "type"@, x.type_)
            && entry_form(e@, 2int, "name"@, x.name)
            && entry_form(e@, 3int, "members"@, x.members)
    }

    open spec fn encodable(x: Enum) -> bool {
        <Vec<Spanned<Attribute>> as Wire>::encodable(x.attributes)
            && <SerOption<Spanned<PrimitiveSubtype>> as Wire>::encodable(x.type_)
            && <Spanned<DeclPath> as Wire>::encodable(x.name)
            && <Vec<Spanned<EnumMember>> as Wire>::encodable(x.members)
    }

    open spec fn same_content(x: Enum, y: Enum) -> bool {
        <Vec<Spanned<Attribute>> as Wire>::same_content(x.attributes, y.attributes)
            && <SerOption<Spanned<PrimitiveSubtype>> as Wire>::same_content(x.type_, y.type_)
            && <Spanned<DeclPath> as Wire>::same_content(x.name, y.name)
            && <Vec<Spanned<EnumMember>> as Wire>::same_content(x.members, y.members)
    }

    open spec fn readable(x: Enum) -> bool {
        <Vec<Spanned<Attribute>> as Wire>::readable(x.attributes)
            && <SerOption<Spanned<PrimitiveSubtype>> as Wire>::readable(x.type_)
            && <Spanned<DeclPath> as Wire>::readable(x.name)
            && <Vec<Spanned<EnumMember>> as Wire>::readable(x.members)
    }

    open spec fn complete(x: Enum) -> bool {
        <Vec<Spanned<Attribute>> as Wire>::complete(x.attributes)
            && <SerOption<Spanned<PrimitiveSubtype>> as Wire>::complete(x.type_)
            && <Spanned<DeclPath> as Wire>::complete(x.name)
            && <Vec<Spanned<EnumMember>> as Wire>::complete(x.members)
    }

    open spec fn fresh(x: Enum) -> bool {
        <Vec<Spanned<Attribute>> as Wire>::fresh(x.attributes)
            && <SerOption<Spanned<PrimitiveSubtype>> as Wire>::fresh(x.type_)
            && <Spanned<DeclPath> as Wire>::fresh(x.name)
            && <Vec<Spanned<EnumMember>> as Wire>::fresh(x.members)
            && x.unresolved_type is None
    }

    fn encode(&self) -> (r: Result<Doc, CodecError>) {
        proof {
            reveal_strlit("attributes");
            reveal_strlit("members");
            reveal_strlit("name");
            reveal_strlit("type");
            assert("attributes"@.len() == 10);
            assert("members"@.len() == 7);
            assert("name"@.len() == 4);
            assert("type"@.len() == 4);
            assert("name"@[0] == 'n');
            assert("type"@[0] == 't');
        }
        let mut e: Vec<Entry> = Vec::new();
        put(&mut e, "attributes", &self.attributes)?;
        proof {
            assert(req(e@, "attributes"@, self.attributes));
        }
        put(&mut e, "type", &self.type_)?;
        proof {
            assert(req(e@, "attributes"@, self.attributes));
            assert(req(e@, "type"@, self.type_));
        }
        put(&mut e, "name", &self.name)?;
        proof {
            assert(req(e@, "attributes"@, self.attributes));
            assert(req(e@, "type"@, self.type_));
            assert(req(e@, "name"@, self.name));
        }
        put(&mut e, "members", &self.members)?;
        proof {
            assert(req(e@, "attributes"@, self.attributes));
            assert(req(e@, "type"@, self.type_));
            assert(req(e@, "name"@, self.name));
            assert(req(e@, "members"@, self.members));
        }
        Ok(Doc::Obj(e))
    }

    fn decode(d: &Doc) -> (r: Result<Enum, CodecError>) {
        match d {
            Doc::Obj(e) => {
                let attributes = get_req::<Vec<Spanned<Attribute>>>(e, "attributes");
                let type_ = get_req::<SerOption<Spanned<PrimitiveSubtype>>>(e, "type");
                let name = get_req::<Spanned<DeclPath>>(e, "name");
                let members = get_req::<Vec<Spanned<EnumMember>>>(e, "members");
                proof {
                    if exists|x: Enum| #[trigger] Self::describes(*d, x) && Self::readable(x) {
                        let w = choose|x: Enum| #[trigger] Self::describes(*d, x) && Self::readable(x);
                        assert(req(e@, "attributes"@, w.attributes));
                        assert(req(e@, "type"@, w.type_));
                        assert(req(e@, "name"@, w.name));
                        assert(req(e@, "members"@, w.members));
                    }
                }
                let attributes = match attributes { Ok(v) => v, Err(er) => return Err(er) };
                let type_ = match type_ { Ok(v) => v, Err(er) => return Err(er) };
                let name = match name { Ok(v) => v, Err(er) => return Err(er) };
                let members = match members { Ok(v) => v, Err(er) => return Err(er) };
                Ok(Enum { attributes, type_, name, members, unresolved_type: None })
            },
            _ => Err(CodecError::InvalidType),
        }
    }

    proof fn lemma_unique(d: Doc, x: Enum, y: Enum) {
        let e = d->Obj_0@;
        lemma_req_unique(e, "attributes"@, x.attributes, y.attributes);
        lemma_req_unique(e, "type"@, x.type_, y.type_);
        lemma_req_unique(e, "name"@, x.name, y.name);
        lemma_req_unique(e, "members"@, x.members, y.members);
    }

    proof fn lemma_described_encodable(d: Doc, x: Enum) {
        let e = d->Obj_0@;
        lemma_req_encodable(e, "attributes"@, x.attributes);
        lemma_req_encodable(e, "type"@, x.type_);
        lemma_req_encodable(e, "name"@, x.name);
        lemma_req_encodable(e, "members"@, x.members);
    }

    proof fn lemma_not_null(d: Doc, x: Enum) {
    }
}

/// A member of a bit set.
#[derive(Debug, Clone)]
pub struct BitsMember {
    pub attributes: Vec<Spanned<Attribute>>,
    pub name: Spanned<String>,
    pub value: SerOption<Spanned<Constant>>,
}

impl Wire for BitsMember {
    open spec fn describes(d: Doc, x: BitsMember) -> bool {
        d matches Doc::Obj(e) && req(e@, "attributes"@, x.attributes)
            && req(e@, "name"@, x.name)
            && req(e@, "value"@, x.value)
    }

    open spec fn wire_form(d: Doc, x: BitsMember) -> bool {
        d matches Doc::Obj(e) && e@.len() == 3int
            && entry_form(e@, 0int, "attributes"@, x.attributes)
            && entry_form(e@, 1int, "name"@, x.name)
            && entry_form(e@, 2int, "value"@, x.value)
    }

    open spec fn encodable(x: BitsMember) -> bool {
        <Vec<Spanned<Attribute>> as Wire>::encodable(x.attributes)
            && <Spanned<String> as Wire>::encodable(x.name)
            && <SerOption<Spanned<Constant>> as Wire>::encodable(x.value)
    }

    open spec fn same_content(x: BitsMember, y: BitsMember) -> bool {
        <Vec<Spanned<Attribute>> as Wire>::same_content(x.attributes, y.attributes)
            && <Spanned<String> as Wire>::same_content(x.name, y.name)
            && <SerOption<Spanned<Constant>> as Wire>::same_content(x.value, y.value)
    }

    open spec fn readable(x: BitsMember) -> bool {
        <Vec<Spanned<Attribute>> as Wire>::readable(x.attributes)
            && <Spanned<String> as Wire>::readable(x.name)
            && <SerOption<Spanned<Constant>> as Wire>::readable(x.value)
    }

    open spec fn complete(x: BitsMember) -> bool {
        <Vec<Spanned<Attribute>> as Wire>::complete(x.attributes)
            && <Spanned<String> as Wire>::complete(x.name)
            && <SerOption<Spanned<Constant>> as Wire>::complete(x.value)
    }

    open spec fn fresh(x: BitsMember) -> bool {
        <Vec<Spanned<Attribute>> as Wire>::fresh(x.attributes)
            && <Spanned<String> as Wire>::fresh(x.name)
            && <SerOption<Spanned<Constant>> as Wire>::fresh(x.value)
    }

    fn encode(&self) -> (r: Result<Doc, CodecError>) {
        proof {
            reveal_strlit("attributes");
            reveal_strlit("name");
            reveal_strlit("value");
            assert("attributes"@.len() == 10);
            assert("name"@.len() == 4);
            assert("value"@.len() == 5);
        }
        let mut e: Vec<Entry> = Vec::new();
        put(&mut e, "attributes", &self.attributes)?;
        put(&mut e, "name", &self.name)?;
        put(&mut e, "value", &self.value)?;
        Ok(Doc::Obj(e))
    }

    fn decode(d: &Doc) -> (r: Result<BitsMember, CodecError>) {
        match d {
            Doc::Obj(e) => {
                let attributes = get_req::<Vec<Spanned<Attribute>>>(e, "attributes");
                let name = get_req::<Spanned<String>>(e, "name");
                let value = get_req::<SerOption<Spanned<Constant>>>(e, "value");
                proof {
                    if exists|x: BitsMember| #[trigger] Self::describes(*d, x) && Self::readable(x) {
                        let w = choose|x: BitsMember| #[trigger] Self::describes(*d, x) && Self::readable(x);
                        assert(req(e@, "attributes"@, w.attributes));
                        assert(req(e@, "name"@, w.name));
                        assert(req(e@, "value"@, w.value));
                    }
                }
                let attributes = match attributes { Ok(v) => v, Err(er) => return Err(er) };
                let name = match name { Ok(v) => v, Err(er) => return Err(er) };
                let value = match value { Ok(v) => v, Err(er) => return Err(er) };
                Ok(BitsMember { attributes, name, value })
            },
            _ => Err(CodecError::InvalidType),
        }
    }

    proof fn lemma_unique(d: Doc, x: BitsMember, y: BitsMember) {
        let e = d->Obj_0@;
        lemma_req_unique(e, "attributes"@, x.attributes, y.attributes);
        lemma_req_unique(e, "name"@, x.name, y.name);
        lemma_req_unique(e, "value"@, x.value, y.value);
    }

    proof fn lemma_described_encodable(d: Doc, x: BitsMember) {
        let e = d->Obj_0@;
        lemma_req_encodable(e, "attributes"@, x.attributes);
        lemma_req_encodable(e, "name"@, x.name);
        lemma_req_encodable(e, "value"@, x.value);
    }

    proof fn lemma_not_null(d: Doc, x: BitsMember) {
    }
}

/// A bit-set declaration.
#[derive(Debug, Clone)]
pub struct Bits {
    pub attributes: Vec<Spanned<Attribute>>,
    pub type_: SerOption<Spanned<Type>>,
    pub name: Spanned<DeclPath>,
    pub members: Vec<Spanned<BitsMember>>,
}

impl Wire for Bits {
    open spec fn describes(d: Doc, x: Bits) -> bool {
        d matches Doc::Obj(e) && req(e@, "attributes"@, x.attributes)
            && req(e@, "type"@, x.type_)
            && req(e@, "name"@, x.name)
            && req(e@, "members"@, x.members)
    }

    open spec fn wire_form(d: Doc, x: Bits) -> bool {
        d matches Doc::Obj(e) && e@.len() == 4int
            && entry_form(e@, 0int, "attributes"@, x.attributes)
            && entry_form(e@, 1int, "type"@, x.type_)
            && entry_form(e@, 2int, "name"@, x.name)
            && entry_form(e@, 3int, "members"@, x.members)
    }

    open spec fn encodable(x: Bits) -> bool {
        <Vec<Spanned<Attribute>> as Wire>::encodable(x.attributes)
            && <SerOption<Spanned<Type>> as Wire>::encodable(x.type_)
            && <Spanned<DeclPath> as Wire>::encodable(x.name)
            && <Vec<Spanned<BitsMember>> as Wire>::encodable(x.members)
    }

    open spec fn same_content(x: Bits, y: Bits) -> bool {
        <Vec<Spanned<Attribute>> as Wire>::same_content(x.attributes, y.attributes)
            && <SerOption<Spanned<Type>> as Wire>::same_content(x.type_, y.type_)
            && <Spanned<DeclPath> as Wire>::same_content(x.name, y.name)
            && <Vec<Spanned<BitsMember>> as Wire>::same_content(x.members, y.members)
    }

    open spec fn readable(x: Bits) -> bool {
        <Vec<Spanned<Attribute>> as Wire>::readable(x.attributes)
            && <SerOption<Spanned<Type>> as Wire>::readable(x.type_)
            && <Spanned<DeclPath> as Wire>::readable(x.name)
            && <Vec<Spanned<BitsMember>> as Wire>::readable(x.members)
    }

    open spec fn complete(x: Bits) -> bool {
        <Vec<Spanned<Attribute>> as Wire>::complete(x.attributes)
            && <SerOption<Spanned<Type>> as Wire>::complete(x.type_)
            && <Spanned<DeclPath> as Wire>::complete(x.name)
            && <Vec<Spanned<BitsMember>> as Wire>::complete(x.members)
    }

    open spec fn fresh(x: Bits) -> bool {
        <Vec<Spanned<Attribute>> as Wire>::fresh(x.attributes)
            && <SerOption<Spanned<Type>> as Wire>::fresh(x.type_)
            && <Spanned<DeclPath> as Wire>::fresh(x.name)
            && <Vec<Spanned<BitsMember>> as Wire>::fresh(x.members)
    }

    fn encode(&self) -> (r: Result<Doc, CodecError>) {
        proof {
            reveal_strlit("attributes");
            reveal_strlit("members");
            reveal_strlit("name");
            reveal_strlit("type");
            assert("attributes"@.len() == 10);
            assert("members"@.len() == 7);
            assert("name"@.len() == 4);
            assert("type"@.len() == 4);
            assert("name"@[0] == 'n');
            assert("type"@[0] == 't');
        }
        let mut e: Vec<Entry> = Vec::new();
        put(&mut e, "attributes", &self.attributes)?;
        proof {
            assert(req(e@, "attributes"@, self.attributes));
        }
        put(&mut e, "type", &self.type_)?;
        proof {
            assert(req(e@, "attributes"@, self.attributes));
            assert(req(e@, "type"@, self.type_));
        }
        put(&mut e, "name", &self.name)?;
        proof {
            assert(req(e@, "attributes"@, self.attributes));
            assert(req(e@, "type"@, self.type_));
            assert(req(e@, "name"@, self.name));
        }
        put(&mut e, "members", &self.members)?;
        proof {
            assert(req(e@, "attributes"@, self.attributes));
            assert(req(e@, "type"@, self.type_));
            assert(req(e@, "name"@, self.name));
            assert(req(e@, "members"@, self.members));
        }
        Ok(Doc::Obj(e))
    }

    fn decode(d: &Doc) -> (r: Result<Bits, CodecError>) {
        match d {
            Doc::Obj(e) => {
                let attributes = get_req::<Vec<Spanned<Attribute>>>(e, "attributes");
                let type_ = get_req::<SerOption<Spanned<Type>>>(e, "type");
                let name = get_req::<Spanned<DeclPath>>(e, "name");
                let members = get_req::<Vec<Spanned<BitsMember>>>(e, "members");
                proof {
                    if exists|x: Bits| #[trigger] Self::describes(*d, x) && Self::readable(x) {
                        let w = choose|x: Bits| #[trigger] Self::describes(*d, x) && Self::readable(x);
                        assert(req(e@, "attributes"@, w.attributes));
                        assert(req(e@, "type"@, w.type_));
                        assert(req(e@, "name"@, w.name));
                        assert(req(e@, "members"@, w.members));
                    }
                }
                let attributes = match attributes { Ok(v) => v, Err(er) => return Err(er) };
                let type_ = match type_ { Ok(v) => v, Err(er) => return Err(er) };
                let name = match name { Ok(v) => v, Err(er) => return Err(er) };
                let members = match members { Ok(v) => v, Err(er) => return Err(er) };
                Ok(Bits { attributes, type_, name, members })
            },
            _ => Err(CodecError::InvalidType),
        }
    }

    proof fn lemma_unique(d: Doc, x: Bits, y: Bits) {
        let e = d->Obj_0@;
        lemma_req_unique(e, "attributes"@, x.attributes, y.attributes);
        lemma_req_unique(e, "type"@, x.type_, y.type_);
        lemma_req_unique(e, "name"@, x.name, y.name);
        lemma_req_unique(e, "members"@, x.members, y.members);
    }

    proof fn lemma_described_encodable(d: Doc, x: Bits) {
        let e = d->Obj_0@;
        lemma_req_encodable(e, "attributes"@, x.attributes);
        lemma_req_encodable(e, "type"@, x.type_);
        lemma_req_encodable(e, "name"@, x.name);
        lemma_req_encodable(e, "members"@, x.members);
    }

    proof fn lemma_not_null(d: Doc, x: Bits) {
    }
}

/// A constant declaration.
#[derive(Debug, Clone)]
pub struct Const {
    pub attributes: Vec<Spanned<Attribute>>,
    pub type_: Spanned<Type>,
    pub name: Spanned<DeclPath>,
    pub value: Spanned<Constant>,
}

impl Wire for Const {
    open spec fn describes(d: Doc, x: Const) -> bool {
        d matches Doc::Obj(e) && req(e@, "attributes"@, x.attributes)
            && req(e@, "type"@, x.type_)
            && req(e@, "name"@, x.name)
            && req(e@, "value"@, x.value)
    }

    open spec fn wire_form(d: Doc, x: Const) -> bool {
        d matches Doc::Obj(e) && e@.len() == 4int
            && entry_form(e@, 0int, "attributes"@, x.attributes)
            && entry_form(e@, 1int, "type"@, x.type_)
            && entry_form(e@, 2int, "name"@, x.name)
            && entry_form(e@, 3int, "value"@, x.value)
    }

    open spec fn encodable(x: Const) -> bool {
        <Vec<Spanned<Attribute>> as Wire>::encodable(x.attributes)
            && <Spanned<Type> as Wire>::encodable(x.type_)
            && <Spanned<DeclPath> as Wire>::encodable(x.name)
            && <Spanned<Constant> as Wire>::encodable(x.value)
    }

    open spec fn same_content(x: Const, y: Const) -> bool {
        <Vec<Spanned<Attribute>> as Wire>::same_content(x.attributes, y.attributes)
            && <Spanned<Type> as Wire>::same_content(x.type_, y.type_)
            && <Spanned<DeclPath> as Wire>::same_content(x.name, y.name)
            && <Spanned<Constant> as Wire>::same_content(x.value, y.value)
    }

    open spec fn readable(x: Const) -> bool {
        <Vec<Spanned<Attribute>> as Wire>::readable(x.attributes)
            && <Spanned<Type> as Wire>::readable(x.type_)
            && <Spanned<DeclPath> as Wire>::readable(x.name)
            && <Spanned<Constant> as Wire>::readable(x.value)
    }

    open spec fn complete(x: Const) -> bool {
        <Vec<Spanned<Attribute>> as Wire>::complete(x.attributes)
            && <Spanned<Type> as Wire>::complete(x.type_)
            && <Spanned<DeclPath> as Wire>::complete(x.name)
            && <Spanned<Constant> as Wire>::complete(x.value)
    }

    open spec fn fresh(x: Const) -> bool {
        <Vec<Spanned<Attribute>> as Wire>::fresh(x.attributes)
            && <Spanned<Type> as Wire>::fresh(x.type_)
            && <Spanned<DeclPath> as Wire>::fresh(x.name)
            && <Spanned<Constant> as Wire>::fresh(x.value)
    }

    fn encode(&self) -> (r: Result<Doc, CodecError>) {
        proof {
            reveal_strlit("attributes");
            reveal_strlit("name");
            reveal_strlit("type");
            reveal_strlit("value");
            assert("attributes"@.len() == 10);
            assert("name"@.len() == 4);
            assert("type"@.len() == 4);
            assert("value"@.len() == 5);
            assert("name"@[0] == 'n');
            assert("type"@[0] == 't');
        }
        let mut e: Vec<Entry> = Vec::new();
        put(&mut e, "attributes", &self.attributes)?;
        proof {
            assert(req(e@, "attributes"@, self.attributes));
        }
        put(&mut e, "type", &self.type_)?;
        proof {
            assert(req(e@, "attributes"@, self.attributes));
            assert(req(e@, "type"@, self.type_));
        }
        put(&mut e, "name", &self.name)?;
        proof {
            assert(req(e@, "attributes"@, self.attributes));
            assert(req(e@, "type"@, self.type_));
            assert(req(e@, "name"@, self.name));
        }
        put(&mut e, "value", &self.value)?;
        proof {
            assert(req(e@, "attributes"@, self.attributes));
            assert(req(e@, "type"@, self.type_));
            assert(req(e@, "name"@, self.name));
            assert(req(e@, "value"@, self.value));
        }
        Ok(Doc::Obj(e))
    }

    fn decode(d: &Doc) -> (r: Result<Const, CodecError>) {
        match d {
            Doc::Obj(e) => {
                let attributes = get_req::<Vec<Spanned<Attribute>>>(e, "attributes");
                let type_ = get_req::<Spanned<Type>>(e, "type");
                let name = get_req::<Spanned<DeclPath>>(e, "name");
                let value = get_req::<Spanned<Constant>>(e, "value");
                proof {
                    if exists|x: Const| #[trigger] Self::describes(*d, x) && Self::readable(x) {
                        let w = choose|x: Const| #[trigger] Self::describes(*d, x) && Self::readable(x);
                        assert(req(e@, "attributes"@, w.attributes));
                        assert(req(e@, "type"@, w.type_));
                        assert(req(e@, "name"@, w.name));
                        assert(req(e@, "value"@, w.value));
                    }
                }
                let attributes = match attributes { Ok(v) => v, Err(er) => return Err(er) };
                let type_ = match type_ { Ok(v) => v, Err(er) => return Err(er) };
                let name = match name { Ok(v) => v, Err(er) => return Err(er) };
                let value = match value { Ok(v) => v, Err(er) => return Err(er) };
                Ok(Const { attributes, type_, name, value })
            },
            _ => Err(CodecError::InvalidType),
        }
    }

    proof fn lemma_unique(d: Doc, x: Const, y: Const) {
        let e = d->Obj_0@;
        lemma_req_unique(e, "attributes"@, x.attributes, y.attributes);
        lemma_req_unique(e, "type"@, x.type_, y.type_);
        lemma_req_unique(e, "name"@, x.name, y.name);
        lemma_req_unique(e, "value"@, x.value, y.value);
    }

    proof fn lemma_described_encodable(d: Doc, x: Const) {
        let e = d->Obj_0@;
        lemma_req_encodable(e, "attributes"@, x.attributes);
        lemma_req_encodable(e, "type"@, x.type_);
        lemma_req_encodable(e, "name"@, x.name);
        lemma_req_encodable(e, "value"@, x.value);
    }

    proof fn lemma_not_null(d: Doc, x: Const) {
    }
}

/// A parameter of a method request or response.
#[derive(Debug, Clone)]
pub struct Parameter {
    pub type_: Spanned<Type>,
    pub name: Spanned<String>,
    pub offset: SerOption<u32>,
    pub max_handles: SerOption<u32>,
    pub max_out_of_line: SerOption<u32>,
}

impl Wire for Parameter {
    open spec fn describes(d: Doc, x: Parameter) -> bool {
        d matches Doc::Obj(e) && req(e@, "type"@, x.type_)
            && req(e@, "name"@, x.name)
            && req(e@, "offset"@, x.offset)
            && req(e@, "max_handles"@, x.max_handles)
            && req(e@, "max_out_of_line"@, x.max_out_of_line)
    }

    open spec fn wire_form(d: Doc, x: Parameter) -> bool {
        d matches Doc::Obj(e) && e@.len() == 5int
            && entry_form(e@, 0int, "type"@, x.type_)
            && entry_form(e@, 1int, "name"@, x.name)
            && entry_form(e@, 2int, "offset"@, x.offset)
            && entry_form(e@, 3int, "max_handles"@, x.max_handles)
            && entry_form(e@, 4int, "max_out_of_line"@, x.max_out_of_line)
    }

    open spec fn encodable(x: Parameter) -> bool {
        <Spanned<Type> as Wire>::encodable(x.type_)
            && <Spanned<String> as Wire>::encodable(x.name)
            && <SerOption<u32> as Wire>::encodable(x.offset)
            && <SerOption<u32> as Wire>::encodable(x.max_handles)
            && <SerOption<u32> as Wire>::encodable(x.max_out_of_line)
    }

    open spec fn same_content(x: Parameter, y: Parameter) -> bool {
        <Spanned<Type> as Wire>::same_content(x.type_, y.type_)
            && <Spanned<String> as Wire>::same_content(x.name, y.name)
            && <SerOption<u32> as Wire>::same_content(x.offset, y.offset)
            && <SerOption<u32> as Wire>::same_content(x.max_handles, y.max_handles)
            && <SerOption<u32> as Wire>::same_content(x.max_out_of_line, y.max_out_of_line)
    }

    open spec fn readable(x: Parameter) -> bool {
        <Spanned<Type> as Wire>::readable(x.type_)
            && <Spanned<String> as Wire>::readable(x.name)
            && <SerOption<u32> as Wire>::readable(x.offset)
            && <SerOption<u32> as Wire>::readable(x.max_handles)
            && <SerOption<u32> as Wire>::readable(x.max_out_of_line)
    }

    open spec fn complete(x: Parameter) -> bool {
        <Spanned<Type> as Wire>::complete(x.type_)
            && <Spanned<String> as Wire>::complete(x.name)
            && <SerOption<u32> as Wire>::complete(x.offset)
            && <SerOption<u32> as Wire>::complete(x.max_handles)
            && <SerOption<u32> as Wire>::complete(x.max_out_of_line)
    }

    open spec fn fresh(x: Parameter) -> bool {
        <Spanned<Type> as Wire>::fresh(x.type_)
            && <Spanned<String> as Wire>::fresh(x.name)
            && <SerOption<u32> as Wire>::fresh(x.offset)
            && <SerOption<u32> as Wire>::fresh(x.max_handles)
            && <SerOption<u32> as Wire>::fresh(x.max_out_of_line)
    }

    fn encode(&self) -> (r: Result<Doc, CodecError>) {
        proof {
            reveal_strlit("max_handles");
            reveal_strlit("max_out_of_line");
            reveal_strlit("name");
            reveal_strlit("offset");
            reveal_strlit("type");
            assert("max_handles"@.len() == 11);
            assert("max_out_of_line"@.len() == 15);
            assert("name"@.len() == 4);
            assert("offset"@.len() == 6);
            assert("type"@.len() == 4);
            assert("name"@[0] == 'n');
            assert("type"@[0] == 't');
        }
        let mut e: Vec<Entry> = Vec::new();
        put(&mut e, "type", &self.type_)?;
        proof {
            assert(req(e@, "type"@, self.type_));
        }
        put(&mut e, "name", &self.name)?;
        proof {
            assert(req(e@, "type"@, self.type_));
            assert(req(e@, "name"@, self.name));
        }
        put(&mut e, "offset", &self.offset)?;
        proof {
            assert(req(e@, "type"@, self.type_));
            assert(req(e@, "name"@, self.name));
            assert(req(e@, "offset"@, self.offset));
        }
        put(&mut e, "max_handles", &self.max_handles)?;
        proof {
            assert(req(e@, "type"@, self.type_));
            assert(req(e@, "name"@, self.name));
            assert(req(e@, "offset"@, self.offset));
            assert(req(e@, "max_handles"@, self.max_handles));
        }
        put(&mut e, "max_out_of_line", &self.max_out_of_line)?;
        proof {
            assert(req(e@, "type"@, self.type_));
            assert(req(e@, "name"@, self.name));
            assert(req(e@, "offset"@, self.offset));
            assert(req(e@, "max_handles"@, self.max_handles));
            assert(req(e@, "max_out_of_line"@, self.max_out_of_line));
        }
        Ok(Doc::Obj(e))
    }

    fn decode(d: &Doc) -> (r: Result<Parameter, CodecError>) {
        match d {
            Doc::Obj(e) => {
                let type_ = get_req::<Spanned<Type>>(e, "type");
                let name = get_req::<Spanned<String>>(e, "name");
                let offset = get_req::<SerOption<u32>>(e, "offset");
                let max_handles = get_req::<SerOption<u32>>(e, "max_handles");
                let max_out_of_line = get_req::<SerOption<u32>>(e, "max_out_of_line");
                proof {
                    if exists|x: Parameter| #[trigger] Self::describes(*d, x) && Self::readable(x) {
                        let w = choose|x: Parameter| #[trigger] Self::describes(*d, x) && Self::readable(x);
                        assert(req(e@, "type"@, w.type_));
                        assert(req(e@, "name"@, w.name));
                        assert(req(e@, "offset"@, w.offset));
                        assert(req(e@, "max_handles"@, w.max_handles));
                        assert(req(e@, "max_out_of_line"@, w.max_out_of_line));
                    }
                }
                let type_ = match type_ { Ok(v) => v, Err(er) => return Err(er) };
                let name = match name { Ok(v) => v, Err(er) => return Err(er) };
                let offset = match offset { Ok(v) => v, Err(er) => return Err(er) };
                let max_handles = match max_handles { Ok(v) => v, Err(er) => return Err(er) };
                let max_out_of_line = match max_out_of_line { Ok(v) => v, Err(er) => return Err(er) };
                Ok(Parameter { type_, name, offset, max_handles, max_out_of_line })
            },
            _ => Err(CodecError::InvalidType),
        }
    }

    proof fn lemma_unique(d: Doc, x: Parameter, y: Parameter) {
        let e = d->Obj_0@;
        lemma_req_unique(e, "type"@, x.type_, y.type_);
        lemma_req_unique(e, "name"@, x.name, y.name);
        lemma_req_unique(e, "offset"@, x.offset, y.offset);
        lemma_req_unique(e, "max_handles"@, x.max_handles, y.max_handles);
        lemma_req_unique(e, "max_out_of_line"@, x.max_out_of_line, y.max_out_of_line);
    }

    proof fn lemma_described_encodable(d: Doc, x: Parameter) {
        let e = d->Obj_0@;
        lemma_req_encodable(e, "type"@, x.type_);
        lemma_req_encodable(e, "name"@, x.name);
        lemma_req_encodable(e, "offset"@, x.offset);
        lemma_req_encodable(e, "max_handles"@, x.max_handles);
        lemma_req_encodable(e, "max_out_of_line"@, x.max_out_of_line);
    }

    proof fn lemma_not_null(d: Doc, x: Parameter) {
    }
}

/// A member of a table: an ordinal and a slot.
#[derive(Debug, Clone)]
pub struct TableMember {
    pub attributes: Vec<Spanned<Attribute>>,
    pub ordinal: SerOption<Spanned<u64>>,
    pub member_type: TableMemberType,
    /// Only used before resolution; never written.
    pub unresolved_ordinal: Option<Spanned<Constant>>,
}

impl Wire for TableMember {
    open spec fn describes(d: Doc, x: TableMember) -> bool {
        d matches Doc::Obj(e) && req(e@, "attributes"@, x.attributes)
            && req(e@, "ordinal"@, x.ordinal)
            && member_in(e@, x.member_type)
    }

    open spec fn wire_form(d: Doc, x: TableMember) -> bool {
        d matches Doc::Obj(e) && e@.len() == 2int + member_len(x.member_type)
            && entry_form(e@, 0int, "attributes"@, x.attributes)
            && entry_form(e@, 1int, "ordinal"@, x.ordinal)
            && member_form(e@, 2int, x.member_type)
    }

    open spec fn encodable(x: TableMember) -> bool {
        <Vec<Spanned<Attribute>> as Wire>::encodable(x.attributes)
            && <SerOption<Spanned<u64>> as Wire>::encodable(x.ordinal)
            && member_encodable(x.member_type)
    }

    open spec fn same_content(x: TableMember, y: TableMember) -> bool {
        <Vec<Spanned<Attribute>> as Wire>::same_content(x.attributes, y.attributes)
            && <SerOption<Spanned<u64>> as Wire>::same_content(x.ordinal, y.ordinal)
            && member_same(x.member_type, y.member_type)
    }

    open spec fn readable(x: TableMember) -> bool {
        <Vec<Spanned<Attribute>> as Wire>::readable(x.attributes)
            && <SerOption<Spanned<u64>> as Wire>::readable(x.ordinal)
            && member_readable(x.member_type)
    }

    open spec fn complete(x: TableMember) -> bool {
        <Vec<Spanned<Attribute>> as Wire>::complete(x.attributes)
            && <SerOption<Spanned<u64>> as Wire>::complete(x.ordinal)
            && member_complete(x.member_type)
    }

    open spec fn fresh(x: TableMember) -> bool {
        <Vec<Spanned<Attribute>> as Wire>::fresh(x.attributes)
            && <SerOption<Spanned<u64>> as Wire>::fresh(x.ordinal)
            && member_fresh(x.member_type)
            && x.unresolved_ordinal is None
    }

    fn encode(&self) -> (r: Result<Doc, CodecError>) {
        proof {
            reveal_strlit("attributes");
            reveal_strlit("maybe_default_value");
            reveal_strlit("name");
            reveal_strlit("ordinal");
            reveal_strlit("reserved");
            reveal_strlit("type");
            assert("attributes"@.len() == 10);
            assert("maybe_default_value"@.len() == 19);
            assert("name"@.len() == 4);
            assert("ordinal"@.len() == 7);
            assert("reserved"@.len() == 8);
            assert("type"@.len() == 4);
            assert("name"@[0] == 'n');
            assert("type"@[0] == 't');
        }
        let mut e: Vec<Entry> = Vec::new();
        put(&mut e, "attributes", &self.attributes)?;
        put(&mut e, "ordinal", &self.ordinal)?;
        let ghost before = e@;
        encode_member(&self.member_type, &mut e)?;
        proof {
            assert forall|j: int| 0 <= j < before.len() implies #[trigger] e@[j] == before[j] by {
                assert(e@.take(before.len() as int)[j] == e@[j]);
            }
        }
        Ok(Doc::Obj(e))
    }

    fn decode(d: &Doc) -> (r: Result<TableMember, CodecError>) {
        match d {
            Doc::Obj(e) => {
                let attributes = get_req::<Vec<Spanned<Attribute>>>(e, "attributes");
                let ordinal = get_req::<SerOption<Spanned<u64>>>(e, "ordinal");
                let member_type = decode_member(e);
                proof {
                    if exists|x: TableMember| #[trigger] Self::describes(*d, x) && Self::readable(x) {
                        let w = choose|x: TableMember| #[trigger] Self::describes(*d, x) && Self::readable(x);
                        assert(req(e@, "attributes"@, w.attributes));
                        assert(req(e@, "ordinal"@, w.ordinal));
                        assert(member_in(e@, w.member_type));
                    }
                }
                let attributes = match attributes { Ok(v) => v, Err(er) => return Err(er) };
                let ordinal = match ordinal { Ok(v) => v, Err(er) => return Err(er) };
                let member_type = match member_type { Ok(v) => v, Err(er) => return Err(er) };
                Ok(TableMember { attributes, ordinal, member_type, unresolved_ordinal: None })
            },
            _ => Err(CodecError::InvalidType),
        }
    }

    proof fn lemma_unique(d: Doc, x: TableMember, y: TableMember) {
        let e = d->Obj_0@;
        lemma_req_unique(e, "attributes"@, x.attributes, y.attributes);
        lemma_req_unique(e, "ordinal"@, x.ordinal, y.ordinal);
        lemma_member_unique(e, x.member_type, y.member_type);
    }

    proof fn lemma_described_encodable(d: Doc, x: TableMember) {
        let e = d->Obj_0@;
        lemma_req_encodable(e, "attributes"@, x.attributes);
        lemma_req_encodable(e, "ordinal"@, x.ordinal);
        lemma_member_encodable(e, x.member_type);
    }

    proof fn lemma_not_null(d: Doc, x: TableMember) {
    }
}

/// A table declaration.
#[derive(Debug, Clone)]
pub struct Table {
    pub attributes: Vec<Spanned<Attribute>>,
    pub name: Spanned<DeclPath>,
    pub members: Vec<Spanned<TableMember>>,
    pub size: SerOption<u32>,
    pub alignment: SerOption<u32>,
    pub max_handles: SerOption<u32>,
    pub max_out_of_line: SerOption<u32>,
}

impl Wire for Table {
    open spec fn describes(d: Doc, x: Table) -> bool {
        d matches Doc::Obj(e) && req(e@, "attributes"@, x.attributes)
            && req(e@, "name"@, x.name)
            && req(e@, "members"@, x.members)
            && req(e@, "size"@, x.size)
            && req(e@, "alignment"@, x.alignment)
            && req(e@, "max_handles"@, x.max_handles)
            && req(e@, "max_out_of_line"@, x.max_out_of_line)
    }

    open spec fn wire_form(d: Doc, x: Table) -> bool {
        d matches Doc::Obj(e) && e@.len() == 7int
            && entry_form(e@, 0int, "attributes"@, x.attributes)
            && entry_form(e@, 1int, "name"@, x.name)
            && entry_form(e@, 2int, "members"@, x.members)
            && entry_form(e@, 3int, "size"@, x.size)
            && entry_form(e@, 4int, "alignment"@, x.alignment)
            && entry_form(e@, 5int, "max_handles"@, x.max_handles)
            && entry_form(e@, 6int, "max_out_of_line"@, x.max_out_of_line)
    }

    open spec fn encodable(x: Table) -> bool {
        <Vec<Spanned<Attribute>> as Wire>::encodable(x.attributes)
            && <Spanned<DeclPath> as Wire>::encodable(x.name)
            && <Vec<Spanned<TableMember>> as Wire>::encodable(x.members)
            && <SerOption<u32> as Wire>::encodable(x.size)
            && <SerOption<u32> as Wire>::encodable(x.alignment)
            && <SerOption<u32> as Wire>::encodable(x.max_handles)
            && <SerOption<u32> as Wire>::encodable(x.max_out_of_line)
    }

    open spec fn same_content(x: Table, y: Table) -> bool {
        <Vec<Spanned<Attribute>> as Wire>::same_content(x.attributes, y.attributes)
            && <Spanned<DeclPath> as Wire>::same_content(x.name, y.name)
            && <Vec<Spanned<TableMember>> as Wire>::same_content(x.members, y.members)
            && <SerOption<u32> as Wire>::same_content(x.size, y.size)
            && <SerOption<u32> as Wire>::same_content(x.alignment, y.alignment)
            && <SerOption<u32> as Wire>::same_content(x.max_handles, y.max_handles)
            && <SerOption<u32> as Wire>::same_content(x.max_out_of_line, y.max_out_of_line)
    }

    open spec fn readable(x: Table) -> bool {
        <Vec<Spanned<Attribute>> as Wire>::readable(x.attributes)
            && <Spanned<DeclPath> as Wire>::readable(x.name)
            && <Vec<Spanned<TableMember>> as Wire>::readable(x.members)
            && <SerOption<u32> as Wire>::readable(x.size)
            && <SerOption<u32> as Wire>::readable(x.alignment)
            && <SerOption<u32> as Wire>::readable(x.max_handles)
            && <SerOption<u32> as Wire>::readable(x.max_out_of_line)
    }

    open spec fn complete(x: Table) -> bool {
        <Vec<Spanned<Attribute>> as Wire>::complete(x.attributes)
            && <Spanned<DeclPath> as Wire>::complete(x.name)
            && <Vec<Spanned<TableMember>> as Wire>::complete(x.members)
            && <SerOption<u32> as Wire>::complete(x.size)
            && <SerOption<u32> as Wire>::complete(x.alignment)
            && <SerOption<u32> as Wire>::complete(x.max_handles)
            && <SerOption<u32> as Wire>::complete(x.max_out_of_line)
    }

    open spec fn fresh(x: Table) -> bool {
        <Vec<Spanned<Attribute>> as Wire>::fresh(x.attributes)
            && <Spanned<DeclPath> as Wire>::fresh(x.name)
            && <Vec<Spanned<TableMember>> as Wire>::fresh(x.members)
            && <SerOption<u32> as Wire>::fresh(x.size)
            && <SerOption<u32> as Wire>::fresh(x.alignment)
            && <SerOption<u32> as Wire>::fresh(x.max_handles)
            && <SerOption<u32> as Wire>::fresh(x.max_out_of_line)
    }

    fn encode(&self) -> (r: Result<Doc, CodecError>) {
        proof {
            reveal_strlit("alignment");
            reveal_strlit("attributes");
            reveal_strlit("max_handles");
            reveal_strlit("max_out_of_line");
            reveal_strlit("members");
            reveal_strlit("name");
            reveal_strlit("size");
            assert("alignment"@.len() == 9);
            assert("attributes"@.len() == 10);
            assert("max_handles"@.len() == 11);
            assert("max_out_of_line"@.len() == 15);
            assert("members"@.len() == 7);
            assert("name"@.len() == 4);
            assert("size"@.len() == 4);
            assert("name"@[0] == 'n');
            assert("size"@[0] == 's');
            assert("alignment"@ != "attributes"@);
            assert("alignment"@ != "max_handles"@);
            assert("alignment"@ != "max_out_of_line"@);
            assert("alignment"@ != "members"@);
            assert("alignment"@ != "name"@);
            assert("alignment"@ != "size"@);
            assert("attributes"@ != "max_handles"@);
            assert("attributes"@ != "max_out_of_line"@);
            assert("attributes"@ != "members"@);
            assert("attributes"@ != "name"@);
            assert("attributes"@ != "size"@);
            assert("max_handles"@ != "max_out_of_line"@);
            assert("max_handles"@ != "members"@);
            assert("max_handles"@ != "name"@);
            assert("max_handles"@ != "size"@);
            assert("max_out_of_line"@ != "members"@);
            assert("max_out_of_line"@ != "name"@);
            assert("max_out_of_line"@ != "size"@);
            assert("members"@ != "name"@);
            assert("members"@ != "size"@);
            assert("name"@ != "size"@);
        }
        let mut e: Vec<Entry> = Vec::new();
        put(&mut e, "attributes", &self.attributes)?;
        proof {
            assert(req(e@, "attributes"@, self.attributes));
        }
        put(&mut e, "name", &self.name)?;
        proof {
            assert(req(e@, "attributes"@, self.attributes));
            assert(req(e@, "name"@, self.name));
        }
        put(&mut e, "members", &self.members)?;
        proof {
            assert(req(e@, "attributes"@, self.attributes));
            assert(req(e@, "name"@, self.name));
            assert(req(e@, "members"@, self.members));
        }
        put(&mut e, "size", &self.size)?;
        proof {
            assert(req(e@, "attributes"@, self.attributes));
            assert(req(e@, "name"@, self.name));
            assert(req(e@, "members"@, self.members));
            assert(req(e@, "size"@, self.size));
        }
        put(&mut e, "alignment", &self.alignment)?;
        proof {
            assert(req(e@, "attributes"@, self.attributes));
            assert(req(e@, "name"@, self.name));
            assert(req(e@, "members"@, self.members));
            assert(req(e@, "size"@, self.size));
            assert(req(e@, "alignment"@, self.alignment));
        }
        put(&mut e, "max_handles", &self.max_handles)?;
        proof {
            assert(req(e@, "attributes"@, self.attributes));
            assert(req(e@, "name"@, self.name));
            assert(req(e@, "members"@, self.members));
            assert(req(e@, "size"@, self.size));
            assert(req(e@, "alignment"@, self.alignment));
            assert(req(e@, "max_handles"@, self.max_handles));
        }
        put(&mut e, "max_out_of_line", &self.max_out_of_line)?;
        proof {
            assert(req(e@, "attributes"@, self.attributes));
            assert(req(e@, "name"@, self.name));
            assert(req(e@, "members"@, self.members));
            assert(req(e@, "size"@, self.size));
            assert(req(e@, "alignment"@, self.alignment));
            assert(req(e@, "max_handles"@, self.max_handles));
            assert(req(e@, "max_out_of_line"@, self.max_out_of_line));
        }
        Ok(Doc::Obj(e))
    }

    fn decode(d: &Doc) -> (r: Result<Table, CodecError>) {
        match d {
            Doc::Obj(e) => {
                let attributes = get_req::<Vec<Spanned<Attribute>>>(e, "attributes");
                let name = get_req::<Spanned<DeclPath>>(e, "name");
                let members = get_req::<Vec<Spanned<TableMember>>>(e, "members");
                let size = get_req::<SerOption<u32>>(e, "size");
                let alignment = get_req::<SerOption<u32>>(e, "alignment");
                let max_handles = get_req::<SerOption<u32>>(e, "max_handles");
                let max_out_of_line = get_req::<SerOption<u32>>(e, "max_out_of_line");
                proof {
                    if exists|x: Table| #[trigger] Self::describes(*d, x) && Self::readable(x) {
                        let w = choose|x: Table| #[trigger] Self::describes(*d, x) && Self::readable(x);
                        assert(req(e@, "attributes"@, w.attributes));
                        assert(req(e@, "name"@, w.name));
                        assert(req(e@, "members"@, w.members));
                        assert(req(e@, "size"@, w.size));
                        assert(req(e@, "alignment"@, w.alignment));
                        assert(req(e@, "max_handles"@, w.max_handles));
                        assert(req(e@, "max_out_of_line"@, w.max_out_of_line));
                    }
                }
                let attributes = match attributes { Ok(v) => v, Err(er) => return Err(er) };
                let name = match name { Ok(v) => v, Err(er) => return Err(er) };
                let members = match members { Ok(v) => v, Err(er) => return Err(er) };
                let size = match size { Ok(v) => v, Err(er) => return Err(er) };
                let alignment = match alignment { Ok(v) => v, Err(er) => return Err(er) };
                let max_handles = match max_handles { Ok(v) => v, Err(er) => return Err(er) };
                let max_out_of_line = match max_out_of_line { Ok(v) => v, Err(er) => return Err(er) };
                Ok(Table { attributes, name, members, size, alignment, max_handles, max_out_of_line })
            },
            _ => Err(CodecError::InvalidType),
        }
    }

    proof fn lemma_unique(d: Doc, x: Table, y: Table) {
        let e = d->Obj_0@;
        lemma_req_unique(e, "attributes"@, x.attributes, y.attributes);
        lemma_req_unique(e, "name"@, x.name, y.name);
        lemma_req_unique(e, "members"@, x.members, y.members);
        lemma_req_unique(e, "size"@, x.size, y.size);
        lemma_req_unique(e, "alignment"@, x.alignment, y.alignment);
        lemma_req_unique(e, "max_handles"@, x.max_handles, y.max_handles);
        lemma_req_unique(e, "max_out_of_line"@, x.max_out_of_line, y.max_out_of_line);
    }

    proof fn lemma_described_encodable(d: Doc, x: Table) {
        let e = d->Obj_0@;
        lemma_req_encodable(e, "attributes"@, x.attributes);
        lemma_req_encodable(e, "name"@, x.name);
        lemma_req_encodable(e, "members"@, x.members);
        lemma_req_encodable(e, "size"@, x.size);
        lemma_req_encodable(e, "alignment"@, x.alignment);
        lemma_req_encodable(e, "max_handles"@, x.max_handles);
        lemma_req_encodable(e, "max_out_of_line"@, x.max_out_of_line);
    }

    proof fn lemma_not_null(d: Doc, x: Table) {
    }
}

/// A method of a protocol.
#[derive(Debug, Clone)]
pub struct Method {
    pub attributes: Vec<Spanned<Attribute>>,
    pub ordinal: SerOption<u64>,
    pub generated_ordinal: SerOption<u64>,
    pub name: Spanned<String>,
    pub request: Option<Spanned<MethodReqRes>>,
    pub response: Option<Spanned<MethodReqRes>>,
    /// Only used before resolution; never written.
    pub unresolved_response_error_type: Option<Spanned<Type>>,
}

impl Wire for Method {
    open spec fn describes(d: Doc, x: Method) -> bool {
        d matches Doc::Obj(e) && req(e@, "attributes"@, x.attributes)
            && req(e@, "ordinal"@, x.ordinal)
            && req(e@, "generated_ordinal"@, x.generated_ordinal)
            && req(e@, "name"@, x.name)
            && group_in(e@, "has_request"@, "maybe_request"@, "maybe_request_size"@, unspan(x.request))
            && group_in(e@, "has_response"@, "maybe_response"@, "maybe_response_size"@, unspan(x.response))
    }

    open spec fn wire_form(d: Doc, x: Method) -> bool {
        d matches Doc::Obj(e) && e@.len() == 4int + group_len(unspan(x.request)) + group_len(unspan(x.response))
            && group_form(e@, 0int, "has_request"@, "maybe_request"@, "maybe_request_size"@, unspan(x.request))
            && group_form(e@, 0int + group_len(unspan(x.request)), "has_response"@, "maybe_response"@, "maybe_response_size"@, unspan(x.response))
            && entry_form(e@, 0int + group_len(unspan(x.request)) + group_len(unspan(x.response)), "attributes"@, x.attributes)
            && entry_form(e@, 1int + group_len(unspan(x.request)) + group_len(unspan(x.response)), "ordinal"@, x.ordinal)
            && entry_form(e@, 2int + group_len(unspan(x.request)) + group_len(unspan(x.response)), "generated_ordinal"@, x.generated_ordinal)
            && entry_form(e@, 3int + group_len(unspan(x.request)) + group_len(unspan(x.response)), "name"@, x.name)
    }

    open spec fn encodable(x: Method) -> bool {
        <Vec<Spanned<Attribute>> as Wire>::encodable(x.attributes)
            && <SerOption<u64> as Wire>::encodable(x.ordinal)
            && <SerOption<u64> as Wire>::encodable(x.generated_ordinal)
            && <Spanned<String> as Wire>::encodable(x.name)
            && group_encodable(unspan(x.request))
            && group_encodable(unspan(x.response))
    }

    open spec fn same_content(x: Method, y: Method) -> bool {
        <Vec<Spanned<Attribute>> as Wire>::same_content(x.attributes, y.attributes)
            && <SerOption<u64> as Wire>::same_content(x.ordinal, y.ordinal)
            && <SerOption<u64> as Wire>::same_content(x.generated_ordinal, y.generated_ordinal)
            && <Spanned<String> as Wire>::same_content(x.name, y.name)
            && group_same(unspan(x.request), unspan(y.request))
            && group_same(unspan(x.response), unspan(y.response))
    }

    open spec fn readable(x: Method) -> bool {
        <Vec<Spanned<Attribute>> as Wire>::readable(x.attributes)
            && <SerOption<u64> as Wire>::readable(x.ordinal)
            && <SerOption<u64> as Wire>::readable(x.generated_ordinal)
            && <Spanned<String> as Wire>::readable(x.name)
            && group_readable(unspan(x.request))
            && group_readable(unspan(x.response))
    }

    open spec fn complete(x: Method) -> bool {
        <Vec<Spanned<Attribute>> as Wire>::complete(x.attributes)
            && <SerOption<u64> as Wire>::complete(x.ordinal)
            && <SerOption<u64> as Wire>::complete(x.generated_ordinal)
            && <Spanned<String> as Wire>::complete(x.name)
            && group_complete(unspan(x.request))
            && group_complete(unspan(x.response))
    }

    open spec fn fresh(x: Method) -> bool {
        <Vec<Spanned<Attribute>> as Wire>::fresh(x.attributes)
            && <SerOption<u64> as Wire>::fresh(x.ordinal)
            && <SerOption<u64> as Wire>::fresh(x.generated_ordinal)
            && <Spanned<String> as Wire>::fresh(x.name)
            && group_fresh_spanned(x.request)
            && group_fresh_spanned(x.response)
            && x.unresolved_response_error_type is None
    }

    fn encode(&self) -> (r: Result<Doc, CodecError>) {
        proof {
            reveal_strlit("attributes");
            reveal_strlit("generated_ordinal");
            reveal_strlit("has_request");
            reveal_strlit("has_response");
            reveal_strlit("maybe_request");
            reveal_strlit("maybe_request_size");
            reveal_strlit("maybe_response");
            reveal_strlit("maybe_response_size");
            reveal_strlit("name");
            reveal_strlit("ordinal");
            assert("attributes"@.len() == 10);
            assert("generated_ordinal"@.len() == 17);
            assert("has_request"@.len() == 11);
            assert("has_response"@.len() == 12);
            assert("maybe_request"@.len() == 13);
            assert("maybe_request_size"@.len() == 18);
            assert("maybe_response"@.len() == 14);
            assert("maybe_response_size"@.len() == 19);
            assert("name"@.len() == 4);
            assert("ordinal"@.len() == 7);
            assert("attributes"@ != "generated_ordinal"@);
            assert("attributes"@ != "has_request"@);
            assert("attributes"@ != "has_response"@);
            assert("attributes"@ != "maybe_request"@);
            assert("attributes"@ != "maybe_request_size"@);
            assert("attributes"@ != "maybe_response"@);
            assert("attributes"@ != "maybe_response_size"@);
            assert("attributes"@ != "name"@);
            assert("attributes"@ != "ordinal"@);
            assert("generated_ordinal"@ != "has_request"@);
            assert("generated_ordinal"@ != "has_response"@);
            assert("generated_ordinal"@ != "maybe_request"@);
            assert("generated_ordinal"@ != "maybe_request_size"@);
            assert("generated_ordinal"@ != "maybe_response"@);
            assert("generated_ordinal"@ != "maybe_response_size"@);
            assert("generated_ordinal"@ != "name"@);
            assert("generated_ordinal"@ != "ordinal"@);
            assert("has_request"@ != "has_response"@);
            assert("has_request"@ != "maybe_request"@);
            assert("has_request"@ != "maybe_request_size"@);
            assert("has_request"@ != "maybe_response"@);
            assert("has_request"@ != "maybe_response_size"@);
            assert("has_request"@ != "name"@);
            assert("has_request"@ != "ordinal"@);
            assert("has_response"@ != "maybe_request"@);
            assert("has_response"@ != "maybe_request_size"@);
            assert("has_response"@ != "maybe_response"@);
            assert("has_response"@ != "maybe_response_size"@);
            assert("has_response"@ != "name"@);
            assert("has_response"@ != "ordinal"@);
            assert("maybe_request"@ != "maybe_request_size"@);
            assert("maybe_request"@ != "maybe_response"@);
            assert("maybe_request"@ != "maybe_response_size"@);
            assert("maybe_request"@ != "name"@);
            assert("maybe_request"@ != "ordinal"@);
            assert("maybe_request_size"@ != "maybe_response"@);
            assert("maybe_request_size"@ != "maybe_response_size"@);
            assert("maybe_request_size"@ != "name"@);
            assert("maybe_request_size"@ != "ordinal"@);
            assert("maybe_response"@ != "maybe_response_size"@);
            assert("maybe_response"@ != "name"@);
            assert("maybe_response"@ != "ordinal"@);
            assert("maybe_response_size"@ != "name"@);
            assert("maybe_response_size"@ != "ordinal"@);
            assert("name"@ != "ordinal"@);
        }
        let mut e: Vec<Entry> = Vec::new();
        let ghost before = e@;
        encode_group("has_request", "maybe_request", "maybe_request_size", &self.request, &mut e)?;
        proof {
            assert forall|j: int| 0 <= j < before.len() implies #[trigger] e@[j] == before[j] by {
                assert(e@.take(before.len() as int)[j] == e@[j]);
            }
        }
        proof {
            assert(group_in(e@, "has_request"@, "maybe_request"@, "maybe_request_size"@, unspan(self.request)));
        }
        let ghost before = e@;
        encode_group("has_response", "maybe_response", "maybe_response_size", &self.response, &mut e)?;
        proof {
            assert forall|j: int| 0 <= j < before.len() implies #[trigger] e@[j] == before[j] by {
                assert(e@.take(before.len() as int)[j] == e@[j]);
            }
        }
        proof {
            assert(key_count(e@, "has_request"@) == key_count(before, "has_request"@));
            assert(value_of(e@, "has_request"@) == value_of(before, "has_request"@));
            assert(key_count(e@, "maybe_request"@) == key_count(before, "maybe_request"@));
            assert(value_of(e@, "maybe_request"@) == value_of(before, "maybe_request"@));
            assert(key_count(e@, "maybe_request_size"@) == key_count(before, "maybe_request_size"@));
            assert(value_of(e@, "maybe_request_size"@) == value_of(before, "maybe_request_size"@));
            lemma_group_kept(before, e@, "has_request"@, "maybe_request"@, "maybe_request_size"@, unspan(self.request));
        }
        proof {
            assert(group_in(e@, "has_request"@, "maybe_request"@, "maybe_request_size"@, unspan(self.request)));
            assert(group_in(e@, "has_response"@, "maybe_response"@, "maybe_response_size"@, unspan(self.response)));
        }
        put(&mut e, "attributes", &self.attributes)?;
        proof {
            assert(group_in(e@, "has_request"@, "maybe_request"@, "maybe_request_size"@, unspan(self.request)));
            assert(group_in(e@, "has_response"@, "maybe_response"@, "maybe_response_size"@, unspan(self.response)));
            assert(req(e@, "attributes"@, self.attributes));
        }
        put(&mut e, "ordinal", &self.ordinal)?;
        proof {
            assert(group_in(e@, "has_request"@, "maybe_request"@, "maybe_request_size"@, unspan(self.request)));
            assert(group_in(e@, "has_response"@, "maybe_response"@, "maybe_response_size"@, unspan(self.response)));
            assert(req(e@, "attributes"@, self.attributes));
            assert(req(e@, "ordinal"@, self.ordinal));
        }
        put(&mut e, "generated_ordinal", &self.generated_ordinal)?;
        proof {
            assert(group_in(e@, "has_request"@, "maybe_request"@, "maybe_request_size"@, unspan(self.request)));
            assert(group_in(e@, "has_response"@, "maybe_response"@, "maybe_response_size"@, unspan(self.response)));
            assert(req(e@, "attributes"@, self.attributes));
            assert(req(e@, "ordinal"@, self.ordinal));
            assert(req(e@, "generated_ordinal"@, self.generated_ordinal));
        }
        put(&mut e, "name", &self.name)?;
        proof {
            assert(group_in(e@, "has_request"@, "maybe_request"@, "maybe_request_size"@, unspan(self.request)));
            assert(group_in(e@, "has_response"@, "maybe_response"@, "maybe_response_size"@, unspan(self.response)));
            assert(req(e@, "attributes"@, self.attributes));
            assert(req(e@, "ordinal"@, self.ordinal));
            assert(req(e@, "generated_ordinal"@, self.generated_ordinal));
            assert(req(e@, "name"@, self.name));
        }
        Ok(Doc::Obj(e))
    }

    fn decode(d: &Doc) -> (r: Result<Method, CodecError>) {
        proof {
            reveal_strlit("attributes");
            reveal_strlit("generated_ordinal");
            reveal_strlit("has_request");
            reveal_strlit("has_response");
            reveal_strlit("maybe_request");
            reveal_strlit("maybe_request_size");
            reveal_strlit("maybe_response");
            reveal_strlit("maybe_response_size");
            reveal_strlit("name");
            reveal_strlit("ordinal");
            assert("attributes"@.len() == 10);
            assert("generated_ordinal"@.len() == 17);
            assert("has_request"@.len() == 11);
            assert("has_response"@.len() == 12);
            assert("maybe_request"@.len() == 13);
            assert("maybe_request_size"@.len() == 18);
            assert("maybe_response"@.len() == 14);
            assert("maybe_response_size"@.len() == 19);
            assert("name"@.len() == 4);
            assert("ordinal"@.len() == 7);
            assert("attributes"@ != "generated_ordinal"@);
            assert("attributes"@ != "has_request"@);
            assert("attributes"@ != "has_response"@);
            assert("attributes"@ != "maybe_request"@);
            assert("attributes"@ != "maybe_request_size"@);
            assert("attributes"@ != "maybe_response"@);
            assert("attributes"@ != "maybe_response_size"@);
            assert("attributes"@ != "name"@);
            assert("attributes"@ != "ordinal"@);
            assert("generated_ordinal"@ != "has_request"@);
            assert("generated_ordinal"@ != "has_response"@);
            assert("generated_ordinal"@ != "maybe_request"@);
            assert("generated_ordinal"@ != "maybe_request_size"@);
            assert("generated_ordinal"@ != "maybe_response"@);
            assert("generated_ordinal"@ != "maybe_response_size"@);
            assert("generated_ordinal"@ != "name"@);
            assert("generated_ordinal"@ != "ordinal"@);
            assert("has_request"@ != "has_response"@);
            assert("has_request"@ != "maybe_request"@);
            assert("has_request"@ != "maybe_request_size"@);
            assert("has_request"@ != "maybe_response"@);
            assert("has_request"@ != "maybe_response_size"@);
            assert("has_request"@ != "name"@);
            assert("has_request"@ != "ordinal"@);
            assert("has_response"@ != "maybe_request"@);
            assert("has_response"@ != "maybe_request_size"@);
            assert("has_response"@ != "maybe_response"@);
            assert("has_response"@ != "maybe_response_size"@);
            assert("has_response"@ != "name"@);
            assert("has_response"@ != "ordinal"@);
            assert("maybe_request"@ != "maybe_request_size"@);
            assert("maybe_request"@ != "maybe_response"@);
            assert("maybe_request"@ != "maybe_response_size"@);
            assert("maybe_request"@ != "name"@);
            assert("maybe_request"@ != "ordinal"@);
            assert("maybe_request_size"@ != "maybe_response"@);
            assert("maybe_request_size"@ != "maybe_response_size"@);
            assert("maybe_request_size"@ != "name"@);
            assert("maybe_request_size"@ != "ordinal"@);
            assert("maybe_response"@ != "maybe_response_size"@);
            assert("maybe_response"@ != "name"@);
            assert("maybe_response"@ != "ordinal"@);
            assert("maybe_response_size"@ != "name"@);
            assert("maybe_response_size"@ != "ordinal"@);
            assert("name"@ != "ordinal"@);
        }
        match d {
            Doc::Obj(e) => {
                let attributes = get_req::<Vec<Spanned<Attribute>>>(e, "attributes");
                let ordinal = get_req::<SerOption<u64>>(e, "ordinal");
                let generated_ordinal = get_req::<SerOption<u64>>(e, "generated_ordinal");
                let name = get_req::<Spanned<String>>(e, "name");
                let request = decode_group("has_request", "maybe_request", "maybe_request_size", e);
                let response = decode_group("has_response", "maybe_response", "maybe_response_size", e);
                proof {
                    if exists|x: Method| #[trigger] Self::describes(*d, x) && Self::readable(x) {
                        let w = choose|x: Method| #[trigger] Self::describes(*d, x) && Self::readable(x);
                        assert(req(e@, "attributes"@, w.attributes));
                        assert(req(e@, "ordinal"@, w.ordinal));
                        assert(req(e@, "generated_ordinal"@, w.generated_ordinal));
                        assert(req(e@, "name"@, w.name));
                        assert(group_in(e@, "has_request"@, "maybe_request"@, "maybe_request_size"@, unspan(w.request)));
                        assert(group_in(e@, "has_response"@, "maybe_response"@, "maybe_response_size"@, unspan(w.response)));
                    }
                }
                let attributes = match attributes { Ok(v) => v, Err(er) => return Err(er) };
                let ordinal = match ordinal { Ok(v) => v, Err(er) => return Err(er) };
                let generated_ordinal = match generated_ordinal { Ok(v) => v, Err(er) => return Err(er) };
                let name = match name { Ok(v) => v, Err(er) => return Err(er) };
                let request = match request { Ok(Some(v)) => Some(Spanned::without_span(v)), Ok(None) => None, Err(er) => return Err(er) };
                let response = match response { Ok(Some(v)) => Some(Spanned::without_span(v)), Ok(None) => None, Err(er) => return Err(er) };
                Ok(Method { attributes, ordinal, generated_ordinal, name, request, response, unresolved_response_error_type: None })
            },
            _ => Err(CodecError::InvalidType),
        }
    }

    proof fn lemma_unique(d: Doc, x: Method, y: Method) {
        let e = d->Obj_0@;
        lemma_req_unique(e, "attributes"@, x.attributes, y.attributes);
        lemma_req_unique(e, "ordinal"@, x.ordinal, y.ordinal);
        lemma_req_unique(e, "generated_ordinal"@, x.generated_ordinal, y.generated_ordinal);
        lemma_req_unique(e, "name"@, x.name, y.name);
        lemma_group_unique(e, "has_request"@, "maybe_request"@, "maybe_request_size"@, unspan(x.request), unspan(y.request));
        lemma_group_unique(e, "has_response"@, "maybe_response"@, "maybe_response_size"@, unspan(x.response), unspan(y.response));
    }

    proof fn lemma_described_encodable(d: Doc, x: Method) {
        let e = d->Obj_0@;
        lemma_req_encodable(e, "attributes"@, x.attributes);
        lemma_req_encodable(e, "ordinal"@, x.ordinal);
        lemma_req_encodable(e, "generated_ordinal"@, x.generated_ordinal);
        lemma_req_encodable(e, "name"@, x.name);
        lemma_group_encodable(e, "has_request"@, "maybe_request"@, "maybe_request_size"@, unspan(x.request));
        lemma_group_encodable(e, "has_response"@, "maybe_response"@, "maybe_response_size"@, unspan(x.response));
    }

    proof fn lemma_not_null(d: Doc, x: Method) {
    }
}

/// A protocol composed into another, before resolution. Never written.
#[derive(Debug, Clone)]
pub struct ProtocolCompose {
    pub name: Spanned<DeclPath>,
    pub methods: Option<Vec<Spanned<Method>>>,
}

/// A protocol declaration; its wire name is `interface`.
#[derive(Debug, Clone)]
pub struct Protocol {
    pub name: Spanned<DeclPath>,
    pub attributes: Vec<Spanned<Attribute>>,
    pub methods: Vec<Spanned<Method>>,
    /// Only used before resolution; never written.
    pub unresolved_composed: Option<Vec<Spanned<ProtocolCompose>>>,
}

impl Wire for Protocol {
    open spec fn describes(d: Doc, x: Protocol) -> bool {
        d matches Doc::Obj(e) && req(e@, "name"@, x.name)
            && req(e@, "attributes"@, x.attributes)
            && req(e@, "methods"@, x.methods)
    }

    open spec fn wire_form(d: Doc, x: Protocol) -> bool {
        d matches Doc::Obj(e) && e@.len() == 3int
            && entry_form(e@, 0int, "name"@, x.name)
            && entry_form(e@, 1int, "attributes"@, x.attributes)
            && entry_form(e@, 2int, "methods"@, x.methods)
    }

    open spec fn encodable(x: Protocol) -> bool {
        <Spanned<DeclPath> as Wire>::encodable(x.name)
            && <Vec<Spanned<Attribute>> as Wire>::encodable(x.attributes)
            && <Vec<Spanned<Method>> as Wire>::encodable(x.methods)
    }

    open spec fn same_content(x: Protocol, y: Protocol) -> bool {
        <Spanned<DeclPath> as Wire>::same_content(x.name, y.name)
            && <Vec<Spanned<Attribute>> as Wire>::same_content(x.attributes, y.attributes)
            && <Vec<Spanned<Method>> as Wire>::same_content(x.methods, y.methods)
    }

    open spec fn readable(x: Protocol) -> bool {
        <Spanned<DeclPath> as Wire>::readable(x.name)
            && <Vec<Spanned<Attribute>> as Wire>::readable(x.attributes)
            && <Vec<Spanned<Method>> as Wire>::readable(x.methods)
    }

    open spec fn complete(x: Protocol) -> bool {
        <Spanned<DeclPath> as Wire>::complete(x.name)
            && <Vec<Spanned<Attribute>> as Wire>::complete(x.attributes)
            && <Vec<Spanned<Method>> as Wire>::complete(x.methods)
    }

    open spec fn fresh(x: Protocol) -> bool {
        <Spanned<DeclPath> as Wire>::fresh(x.name)
            && <Vec<Spanned<Attribute>> as Wire>::fresh(x.attributes)
            && <Vec<Spanned<Method>> as Wire>::fresh(x.methods)
            && x.unresolved_composed is None
    }

    fn encode(&self) -> (r: Result<Doc, CodecError>) {
        proof {
            reveal_strlit("attributes");
            reveal_strlit("methods");
            reveal_strlit("name");
            assert("attributes"@.len() == 10);
            assert("methods"@.len() == 7);
            assert("name"@.len() == 4);
        }
        let mut e: Vec<Entry> = Vec::new();
        put(&mut e, "name", &self.name)?;
        put(&mut e, "attributes", &self.attributes)?;
        put(&mut e, "methods", &self.methods)?;
        Ok(Doc::Obj(e))
    }

    fn decode(d: &Doc) -> (r: Result<Protocol, CodecError>) {
        match d {
            Doc::Obj(e) => {
                let name = get_req::<Spanned<DeclPath>>(e, "name");
                let attributes = get_req::<Vec<Spanned<Attribute>>>(e, "attributes");
                let methods = get_req::<Vec<Spanned<Method>>>(e, "methods");
                proof {
                    if exists|x: Protocol| #[trigger] Self::describes(*d, x) && Self::readable(x) {
                        let w = choose|x: Protocol| #[trigger] Self::describes(*d, x) && Self::readable(x);
                        assert(req(e@, "name"@, w.name));
                        assert(req(e@, "attributes"@, w.attributes));
                        assert(req(e@, "methods"@, w.methods));
                    }
                }
                let name = match name { Ok(v) => v, Err(er) => return Err(er) };
                let attributes = match attributes { Ok(v) => v, Err(er) => return Err(er) };
                let methods = match methods { Ok(v) => v, Err(er) => return Err(er) };
                Ok(Protocol { name, attributes, methods, unresolved_composed: None })
            },
            _ => Err(CodecError::InvalidType),
        }
    }

    proof fn lemma_unique(d: Doc, x: Protocol, y: Protocol) {
        let e = d->Obj_0@;
        lemma_req_unique(e, "name"@, x.name, y.name);
        lemma_req_unique(e, "attributes"@, x.attributes, y.attributes);
        lemma_req_unique(e, "methods"@, x.methods, y.methods);
    }

    proof fn lemma_described_encodable(d: Doc, x: Protocol) {
        let e = d->Obj_0@;
        lemma_req_encodable(e, "name"@, x.name);
        lemma_req_encodable(e, "attributes"@, x.attributes);
        lemma_req_encodable(e, "methods"@, x.methods);
    }

    proof fn lemma_not_null(d: Doc, x: Protocol) {
    }
}

/// An import or alias, before resolution. Never written.
#[derive(Debug, Clone)]
pub enum Using {
    AliasOnly { name: Spanned<String>, type_: Spanned<Type> },
    Import { name: Spanned<String>, alias: Option<Spanned<String>> },
}

/// A library that this one depends on, with its declarations once resolved.
#[derive(Debug)]
pub struct LibraryDep {
    pub name: String,
    pub declarations: SerOption<DeclMap>,
}

impl Wire for LibraryDep {
    open spec fn describes(d: Doc, x: LibraryDep) -> bool {
        d matches Doc::Obj(e) && req(e@, "name"@, x.name)
            && req(e@, "declarations"@, x.declarations)
    }

    open spec fn wire_form(d: Doc, x: LibraryDep) -> bool {
        d matches Doc::Obj(e) && e@.len() == 2int
            && entry_form(e@, 0int, "name"@, x.name)
            && entry_form(e@, 1int, "declarations"@, x.declarations)
    }

    open spec fn encodable(x: LibraryDep) -> bool {
        <String as Wire>::encodable(x.name)
            && <SerOption<DeclMap> as Wire>::encodable(x.declarations)
    }

    open spec fn same_content(x: LibraryDep, y: LibraryDep) -> bool {
        <String as Wire>::same_content(x.name, y.name)
            && <SerOption<DeclMap> as Wire>::same_content(x.declarations, y.declarations)
    }

    open spec fn readable(x: LibraryDep) -> bool {
        <String as Wire>::readable(x.name)
            && <SerOption<DeclMap> as Wire>::readable(x.declarations)
    }

    open spec fn complete(x: LibraryDep) -> bool {
        <String as Wire>::complete(x.name)
            && <SerOption<DeclMap> as Wire>::complete(x.declarations)
    }

    open spec fn fresh(x: LibraryDep) -> bool {
        <String as Wire>::fresh(x.name)
            && <SerOption<DeclMap> as Wire>::fresh(x.declarations)
    }

    fn encode(&self) -> (r: Result<Doc, CodecError>) {
        proof {
            reveal_strlit("declarations");
            reveal_strlit("name");
            assert("declarations"@.len() == 12);
            assert("name"@.len() == 4);
        }
        let mut e: Vec<Entry> = Vec::new();
        put(&mut e, "name", &self.name)?;
        put(&mut e, "declarations", &self.declarations)?;
        Ok(Doc::Obj(e))
    }

    fn decode(d: &Doc) -> (r: Result<LibraryDep, CodecError>) {
        match d {
            Doc::Obj(e) => {
                let name = get_req::<String>(e, "name");
                let declarations = get_req::<SerOption<DeclMap>>(e, "declarations");
                proof {
                    if exists|x: LibraryDep| #[trigger] Self::describes(*d, x) && Self::readable(x) {
                        let w = choose|x: LibraryDep| #[trigger] Self::describes(*d, x) && Self::readable(x);
                        assert(req(e@, "name"@, w.name));
                        assert(req(e@, "declarations"@, w.declarations));
                    }
                }
                let name = match name { Ok(v) => v, Err(er) => return Err(er) };
                let declarations = match declarations { Ok(v) => v, Err(er) => return Err(er) };
                Ok(LibraryDep { name, declarations })
            },
            _ => Err(CodecError::InvalidType),
        }
    }

    proof fn lemma_unique(d: Doc, x: LibraryDep, y: LibraryDep) {
        let e = d->Obj_0@;
        lemma_req_unique(e, "name"@, x.name, y.name);
        lemma_req_unique(e, "declarations"@, x.declarations, y.declarations);
    }

    proof fn lemma_described_encodable(d: Doc, x: LibraryDep) {
        let e = d->Obj_0@;
        lemma_req_encodable(e, "name"@, x.name);
        lemma_req_encodable(e, "declarations"@, x.declarations);
    }

    proof fn lemma_not_null(d: Doc, x: LibraryDep) {
    }
}

/// A compiled library: the root of the IR.
#[derive(Debug)]
pub struct Library {
    pub name: Spanned<String>,
    /// Only used before resolution; never written.
    pub attributes: Vec<Spanned<Attribute>>,
    pub consts: Vec<Spanned<Const>>,
    pub bits: Vec<Spanned<Bits>>,
    pub enums: Vec<Spanned<Enum>>,
    pub protocols: Vec<Spanned<Protocol>>,
    pub structs: Vec<Spanned<Struct>>,
    pub tables: Vec<Spanned<Table>>,
    pub unions: Vec<Spanned<Union>>,
    pub xunions: Vec<Spanned<XUnion>>,
    pub declaration_order: Vec<String>,
    pub declarations: DeclMap,
    pub library_dependencies: Vec<LibraryDep>,
    /// Only used before resolution; never written.
    pub usings: Vec<Spanned<Using>>,
}

impl Wire for Library {
    open spec fn describes(d: Doc, x: Library) -> bool {
        d matches Doc::Obj(e) && req(e@, "name"@, x.name)
            && req(e@, "const_declarations"@, x.consts)
            && req(e@, "bits_declarations"@, x.bits)
            && req(e@, "enum_declarations"@, x.enums)
            && req(e@, "interface_declarations"@, x.protocols)
            && req(e@, "struct_declarations"@, x.structs)
            && req(e@, "table_declarations"@, x.tables)
            && req(e@, "union_declarations"@, x.unions)
            && req(e@, "xunion_declarations"@, x.xunions)
            && req(e@, "declaration_order"@, x.declaration_order)
            && req(e@, "declarations"@, x.declarations)
            && req(e@, "library_dependencies"@, x.library_dependencies)
    }

    open spec fn wire_form(d: Doc, x: Library) -> bool {
        d matches Doc::Obj(e) && e@.len() == 12int
            && entry_form(e@, 0int, "name"@, x.name)
            && entry_form(e@, 1int, "const_declarations"@, x.consts)
            && entry_form(e@, 2int, "bits_declarations"@, x.bits)
            && entry_form(e@, 3int, "enum_declarations"@, x.enums)
            && entry_form(e@, 4int, "interface_declarations"@, x.protocols)
            && entry_form(e@, 5int, "struct_declarations"@, x.structs)
            && entry_form(e@, 6int, "table_declarations"@, x.tables)
            && entry_form(e@, 7int, "union_declarations"@, x.unions)
            && entry_form(e@, 8int, "xunion_declarations"@, x.xunions)
            && entry_form(e@, 9int, "declaration_order"@, x.declaration_order)
            && entry_form(e@, 10int, "declarations"@, x.declarations)
            && entry_form(e@, 11int, "library_dependencies"@, x.library_dependencies)
    }

    open spec fn encodable(x: Library) -> bool {
        <Spanned<String> as Wire>::encodable(x.name)
            && <Vec<Spanned<Const>> as Wire>::encodable(x.consts)
            && <Vec<Spanned<Bits>> as Wire>::encodable(x.bits)
            && <Vec<Spanned<Enum>> as Wire>::encodable(x.enums)
            && <Vec<Spanned<Protocol>> as Wire>::encodable(x.protocols)
            && <Vec<Spanned<Struct>> as Wire>::encodable(x.structs)
            && <Vec<Spanned<Table>> as Wire>::encodable(x.tables)
            && <Vec<Spanned<Union>> as Wire>::encodable(x.unions)
            && <Vec<Spanned<XUnion>> as Wire>::encodable(x.xunions)
            && <Vec<String> as Wire>::encodable(x.declaration_order)
            && <DeclMap as Wire>::encodable(x.declarations)
            && <Vec<LibraryDep> as Wire>::encodable(x.library_dependencies)
    }

    open spec fn same_content(x: Library, y: Library) -> bool {
        <Spanned<String> as Wire>::same_content(x.name, y.name)
            && <Vec<Spanned<Const>> as Wire>::same_content(x.consts, y.consts)
            && <Vec<Spanned<Bits>> as Wire>::same_content(x.bits, y.bits)
            && <Vec<Spanned<Enum>> as Wire>::same_content(x.enums, y.enums)
            && <Vec<Spanned<Protocol>> as Wire>::same_content(x.protocols, y.protocols)
            && <Vec<Spanned<Struct>> as Wire>::same_content(x.structs, y.structs)
            && <Vec<Spanned<Table>> as Wire>::same_content(x.tables, y.tables)
            && <Vec<Spanned<Union>> as Wire>::same_content(x.unions, y.unions)
            && <Vec<Spanned<XUnion>> as Wire>::same_content(x.xunions, y.xunions)
            && <Vec<String> as Wire>::same_content(x.declaration_order, y.declaration_order)
            && <DeclMap as Wire>::same_content(x.declarations, y.declarations)
            && <Vec<LibraryDep> as Wire>::same_content(x.library_dependencies, y.library_dependencies)
    }

    open spec fn readable(x: Library) -> bool {
        <Spanned<String> as Wire>::readable(x.name)
            && <Vec<Spanned<Const>> as Wire>::readable(x.consts)
            && <Vec<Spanned<Bits>> as Wire>::readable(x.bits)
            && <Vec<Spanned<Enum>> as Wire>::readable(x.enums)
            && <Vec<Spanned<Protocol>> as Wire>::readable(x.protocols)
            && <Vec<Spanned<Struct>> as Wire>::readable(x.structs)
            && <Vec<Spanned<Table>> as Wire>::readable(x.tables)
            && <Vec<Spanned<Union>> as Wire>::readable(x.unions)
            && <Vec<Spanned<XUnion>> as Wire>::readable(x.xunions)
            && <Vec<String> as Wire>::readable(x.declaration_order)
            && <DeclMap as Wire>::readable(x.declarations)
            && <Vec<LibraryDep> as Wire>::readable(x.library_dependencies)
    }

    open spec fn complete(x: Library) -> bool {
        <Spanned<String> as Wire>::complete(x.name)
            && <Vec<Spanned<Const>> as Wire>::complete(x.consts)
            && <Vec<Spanned<Bits>> as Wire>::complete(x.bits)
            && <Vec<Spanned<Enum>> as Wire>::complete(x.enums)
            && <Vec<Spanned<Protocol>> as Wire>::complete(x.protocols)
            && <Vec<Spanned<Struct>> as Wire>::complete(x.structs)
            && <Vec<Spanned<Table>> as Wire>::complete(x.tables)
            && <Vec<Spanned<Union>> as Wire>::complete(x.unions)
            && <Vec<Spanned<XUnion>> as Wire>::complete(x.xunions)
            && <Vec<String> as Wire>::complete(x.declaration_order)
            && <DeclMap as Wire>::complete(x.declarations)
            && <Vec<LibraryDep> as Wire>::complete(x.library_dependencies)
    }

    open spec fn fresh(x: Library) -> bool {
        <Spanned<String> as Wire>::fresh(x.name)
            && <Vec<Spanned<Const>> as Wire>::fresh(x.consts)
            && <Vec<Spanned<Bits>> as Wire>::fresh(x.bits)
            && <Vec<Spanned<Enum>> as Wire>::fresh(x.enums)
            && <Vec<Spanned<Protocol>> as Wire>::fresh(x.protocols)
            && <Vec<Spanned<Struct>> as Wire>::fresh(x.structs)
            && <Vec<Spanned<Table>> as Wire>::fresh(x.tables)
            && <Vec<Spanned<Union>> as Wire>::fresh(x.unions)
            && <Vec<Spanned<XUnion>> as Wire>::fresh(x.xunions)
            && <Vec<String> as Wire>::fresh(x.declaration_order)
            && <DeclMap as Wire>::fresh(x.declarations)
            && <Vec<LibraryDep> as Wire>::fresh(x.library_dependencies)
            && x.attributes@.len() == 0
            && x.usings@.len() == 0
    }

    fn encode(&self) -> (r: Result<Doc, CodecError>) {
        proof {
            reveal_strlit("bits_declarations");
            reveal_strlit("const_declarations");
            reveal_strlit("declaration_order");
            reveal_strlit("declarations");
            reveal_strlit("enum_declarations");
            reveal_strlit("interface_declarations");
            reveal_strlit("library_dependencies");
            reveal_strlit("name");
            reveal_strlit("struct_declarations");
            reveal_strlit("table_declarations");
            reveal_strlit("union_declarations");
            reveal_strlit("xunion_declarations");
            assert("bits_declarations"@.len() == 17);
            assert("const_declarations"@.len() == 18);
            assert("declaration_order"@.len() == 17);
            assert("declarations"@.len() == 12);
            assert("enum_declarations"@.len() == 17);
            assert("interface_declarations"@.len() == 22);
            assert("library_dependencies"@.len() == 20);
            assert("name"@.len() == 4);
            assert("struct_declarations"@.len() == 19);
            assert("table_declarations"@.len() == 18);
            assert("union_declarations"@.len() == 18);
            assert("xunion_declarations"@.len() == 19);
            assert("bits_declarations"@[0] == 'b');
            assert("declaration_order"@[0] == 'd');
            assert("enum_declarations"@[0] == 'e');
            assert("const_declarations"@[0] == 'c');
            assert("table_declarations"@[0] == 't');
            assert("union_declarations"@[0] == 'u');
            assert("struct_declarations"@[0] == 's');
            assert("xunion_declarations"@[0] == 'x');
            assert("bits_declarations"@ != "const_declarations"@);
            assert("bits_declarations"@ != "declaration_order"@);
            assert("bits_declarations"@ != "declarations"@);
            assert("bits_declarations"@ != "enum_declarations"@);
            assert("bits_declarations"@ != "interface_declarations"@);
            assert("bits_declarations"@ != "library_dependencies"@);
            assert("bits_declarations"@ != "name"@);
            assert("bits_declarations"@ != "struct_declarations"@);
            assert("bits_declarations"@ != "table_declarations"@);
            assert("bits_declarations"@ != "union_declarations"@);
            assert("bits_declarations"@ != "xunion_declarations"@);
            assert("const_declarations"@ != "declaration_order"@);
            assert("const_declarations"@ != "declarations"@);
            assert("const_declarations"@ != "enum_declarations"@);
            assert("const_declarations"@ != "interface_declarations"@);
            assert("const_declarations"@ != "library_dependencies"@);
            assert("const_declarations"@ != "name"@);
            assert("const_declarations"@ != "struct_declarations"@);
            assert("const_declarations"@ != "table_declarations"@);
            assert("const_declarations"@ != "union_declarations"@);
            assert("const_declarations"@ != "xunion_declarations"@);
            assert("declaration_order"@ != "declarations"@);
            assert("declaration_order"@ != "enum_declarations"@);
            assert("declaration_order"@ != "interface_declarations"@);
            assert("declaration_order"@ != "library_dependencies"@);
            assert("declaration_order"@ != "name"@);
            assert("declaration_order"@ != "struct_declarations"@);
            assert("declaration_order"@ != "table_declarations"@);
            assert("declaration_order"@ != "union_declarations"@);
            assert("declaration_order"@ != "xunion_declarations"@);
            assert("declarations"@ != "enum_declarations"@);
            assert("declarations"@ != "interface_declarations"@);
            assert("declarations"@ != "library_dependencies"@);
            assert("declarations"@ != "name"@);
            assert("declarations"@ != "struct_declarations"@);
            assert("declarations"@ != "table_declarations"@);
            assert("declarations"@ != "union_declarations"@);
            assert("declarations"@ != "xunion_declarations"@);
            assert("enum_declarations"@ != "interface_declarations"@);
            assert("enum_declarations"@ != "library_dependencies"@);
            assert("enum_declarations"@ != "name"@);
            assert("enum_declarations"@ != "struct_declarations"@);
            assert("enum_declarations"@ != "table_declarations"@);
            assert("enum_declarations"@ != "union_declarations"@);
            assert("enum_declarations"@ != "xunion_declarations"@);
            assert("interface_declarations"@ != "library_dependencies"@);
            assert("interface_declarations"@ != "name"@);
            assert("interface_declarations"@ != "struct_declarations"@);
            assert("interface_declarations"@ != "table_declarations"@);
            assert("interface_declarations"@ != "union_declarations"@);
            assert("interface_declarations"@ != "xunion_declarations"@);
            assert("library_dependencies"@ != "name"@);
            assert("library_dependencies"@ != "struct_declarations"@);
            assert("library_dependencies"@ != "table_declarations"@);
            assert("library_dependencies"@ != "union_declarations"@);
            assert("library_dependencies"@ != "xunion_declarations"@);
            assert("name"@ != "struct_declarations"@);
            assert("name"@ != "table_declarations"@);
            assert("name"@ != "union_declarations"@);
            assert("name"@ != "xunion_declarations"@);
            assert("struct_declarations"@ != "table_declarations"@);
            assert("struct_declarations"@ != "union_declarations"@);
            assert("struct_declarations"@ != "xunion_declarations"@);
            assert("table_declarations"@ != "union_declarations"@);
            assert("table_declarations"@ != "xunion_declarations"@);
            assert("union_declarations"@ != "xunion_declarations"@);
        }
        let mut e: Vec<Entry> = Vec::new();
        put(&mut e, "name", &self.name)?;
        proof {
            assert(req(e@, "name"@, self.name));
        }
        put(&mut e, "const_declarations", &self.consts)?;
        proof {
            assert(req(e@, "name"@, self.name));
            assert(req(e@, "const_declarations"@, self.consts));
        }
        put(&mut e, "bits_declarations", &self.bits)?;
        proof {
            assert(req(e@, "name"@, self.name));
            assert(req(e@, "const_declarations"@, self.consts));
            assert(req(e@, "bits_declarations"@, self.bits));
        }
        put(&mut e, "enum_declarations", &self.enums)?;
        proof {
            assert(req(e@, "name"@, self.name));
            assert(req(e@, "const_declarations"@, self.consts));
            assert(req(e@, "bits_declarations"@, self.bits));
            assert(req(e@, "enum_declarations"@, self.enums));
        }
        put(&mut e, "interface_declarations", &self.protocols)?;
        proof {
            assert(req(e@, "name"@, self.name));
            assert(req(e@, "const_declarations"@, self.consts));
            assert(req(e@, "bits_declarations"@, self.bits));
            assert(req(e@, "enum_declarations"@, self.enums));
            assert(req(e@, "interface_declarations"@, self.protocols));
        }
        put(&mut e, "struct_declarations", &self.structs)?;
        proof {
            assert(req(e@, "name"@, self.name));
            assert(req(e@, "const_declarations"@, self.consts));
            assert(req(e@, "bits_declarations"@, self.bits));
            assert(req(e@, "enum_declarations"@, self.enums));
            assert(req(e@, "interface_declarations"@, self.protocols));
            assert(req(e@, "struct_declarations"@, self.structs));
        }
        put(&mut e, "table_declarations", &self.tables)?;
        proof {
            assert(req(e@, "name"@, self.name));
            assert(req(e@, "const_declarations"@, self.consts));
            assert(req(e@, "bits_declarations"@, self.bits));
            assert(req(e@, "enum_declarations"@, self.enums));
            assert(req(e@, "interface_declarations"@, self.protocols));
            assert(req(e@, "struct_declarations"@, self.structs));
            assert(req(e@, "table_declarations"@, self.tables));
        }
        put(&mut e, "union_declarations", &self.unions)?;
        proof {
            assert(req(e@, "name"@, self.name));
            assert(req(e@, "const_declarations"@, self.consts));
            assert(req(e@, "bits_declarations"@, self.bits));
            assert(req(e@, "enum_declarations"@, self.enums));
            assert(req(e@, "interface_declarations"@, self.protocols));
            assert(req(e@, "struct_declarations"@, self.structs));
            assert(req(e@, "table_declarations"@, self.tables));
            assert(req(e@, "union_declarations"@, self.unions));
        }
        put(&mut e, "xunion_declarations", &self.xunions)?;
        proof {
            assert(req(e@, "name"@, self.name));
            assert(req(e@, "const_declarations"@, self.consts));
            assert(req(e@, "bits_declarations"@, self.bits));
            assert(req(e@, "enum_declarations"@, self.enums));
            assert(req(e@, "interface_declarations"@, self.protocols));
            assert(req(e@, "struct_declarations"@, self.structs));
            assert(req(e@, "table_declarations"@, self.tables));
            assert(req(e@, "union_declarations"@, self.unions));
            assert(req(e@, "xunion_declarations"@, self.xunions));
        }
        put(&mut e, "declaration_order", &self.declaration_order)?;
        proof {
            assert(req(e@, "name"@, self.name));
            assert(req(e@, "const_declarations"@, self.consts));
            assert(req(e@, "bits_declarations"@, self.bits));
            assert(req(e@, "enum_declarations"@, self.enums));
            assert(req(e@, "interface_declarations"@, self.protocols));
            assert(req(e@, "struct_declarations"@, self.structs));
            assert(req(e@, "table_declarations"@, self.tables));
            assert(req(e@, "union_declarations"@, self.unions));
            assert(req(e@, "xunion_declarations"@, self.xunions));
            assert(req(e@, "declaration_order"@, self.declaration_order));
        }
        put(&mut e, "declarations", &self.declarations)?;
        proof {
            assert(req(e@, "name"@, self.name));
            assert(req(e@, "const_declarations"@, self.consts));
            assert(req(e@, "bits_declarations"@, self.bits));
            assert(req(e@, "enum_declarations"@, self.enums));
            assert(req(e@, "interface_declarations"@, self.protocols));
            assert(req(e@, "struct_declarations"@, self.structs));
            assert(req(e@, "table_declarations"@, self.tables));
            assert(req(e@, "union_declarations"@, self.unions));
            assert(req(e@, "xunion_declarations"@, self.xunions));
            assert(req(e@, "declaration_order"@, self.declaration_order));
            assert(req(e@, "declarations"@, self.declarations));
        }
        put(&mut e, "library_dependencies", &self.library_dependencies)?;
        proof {
            assert(req(e@, "name"@, self.name));
            assert(req(e@, "const_declarations"@, self.consts));
            assert(req(e@, "bits_declarations"@, self.bits));
            assert(req(e@, "enum_declarations"@, self.enums));
            assert(req(e@, "interface_declarations"@, self.protocols));
            assert(req(e@, "struct_declarations"@, self.structs));
            assert(req(e@, "table_declarations"@, self.tables));
            assert(req(e@, "union_declarations"@, self.unions));
            assert(req(e@, "xunion_declarations"@, self.xunions));
            assert(req(e@, "declaration_order"@, self.declaration_order));
            assert(req(e@, "declarations"@, self.declarations));
            assert(req(e@, "library_dependencies"@, self.library_dependencies));
        }
        Ok(Doc::Obj(e))
    }

    fn decode(d: &Doc) -> (r: Result<Library, CodecError>) {
        match d {
            Doc::Obj(e) => {
                let name = get_req::<Spanned<String>>(e, "name");
                let consts = get_req::<Vec<Spanned<Const>>>(e, "const_declarations");
                let bits = get_req::<Vec<Spanned<Bits>>>(e, "bits_declarations");
                let enums = get_req::<Vec<Spanned<Enum>>>(e, "enum_declarations");
                let protocols = get_req::<Vec<Spanned<Protocol>>>(e, "interface_declarations");
                let structs = get_req::<Vec<Spanned<Struct>>>(e, "struct_declarations");
                let tables = get_req::<Vec<Spanned<Table>>>(e, "table_declarations");
                let unions = get_req::<Vec<Spanned<Union>>>(e, "union_declarations");
                let xunions = get_req::<Vec<Spanned<XUnion>>>(e, "xunion_declarations");
                let declaration_order = get_req::<Vec<String>>(e, "declaration_order");
                let declarations = get_req::<DeclMap>(e, "declarations");
                let library_dependencies = get_req::<Vec<LibraryDep>>(e, "library_dependencies");
                proof {
                    if exists|x: Library| #[trigger] Self::describes(*d, x) && Self::readable(x) {
                        let w = choose|x: Library| #[trigger] Self::describes(*d, x) && Self::readable(x);
                        assert(req(e@, "name"@, w.name));
                        assert(req(e@, "const_declarations"@, w.consts));
                        assert(req(e@, "bits_declarations"@, w.bits));
                        assert(req(e@, "enum_declarations"@, w.enums));
                        assert(req(e@, "interface_declarations"@, w.protocols));
                        assert(req(e@, "struct_declarations"@, w.structs));
                        assert(req(e@, "table_declarations"@, w.tables));
                        assert(req(e@, "union_declarations"@, w.unions));
                        assert(req(e@, "xunion_declarations"@, w.xunions));
                        assert(req(e@, "declaration_order"@, w.declaration_order));
                        assert(req(e@, "declarations"@, w.declarations));
                        assert(req(e@, "library_dependencies"@, w.library_dependencies));
                    }
                }
                let name = match name { Ok(v) => v, Err(er) => return Err(er) };
                let consts = match consts { Ok(v) => v, Err(er) => return Err(er) };
                let bits = match bits { Ok(v) => v, Err(er) => return Err(er) };
                let enums = match enums { Ok(v) => v, Err(er) => return Err(er) };
                let protocols = match protocols { Ok(v) => v, Err(er) => return Err(er) };
                let structs = match structs { Ok(v) => v, Err(er) => return Err(er) };
                let tables = match tables { Ok(v) => v, Err(er) => return Err(er) };
                let unions = match unions { Ok(v) => v, Err(er) => return Err(er) };
                let xunions = match xunions { Ok(v) => v, Err(er) => return Err(er) };
                let declaration_order = match declaration_order { Ok(v) => v, Err(er) => return Err(er) };
                let declarations = match declarations { Ok(v) => v, Err(er) => return Err(er) };
                let library_dependencies = match library_dependencies { Ok(v) => v, Err(er) => return Err(er) };
                Ok(Library { name, attributes: Vec::new(), consts, bits, enums, protocols, structs, tables, unions, xunions, declaration_order, declarations, library_dependencies, usings: Vec::new() })
            },
            _ => Err(CodecError::InvalidType),
        }
    }

    proof fn lemma_unique(d: Doc, x: Library, y: Library) {
        let e = d->Obj_0@;
        lemma_req_unique(e, "name"@, x.name, y.name);
        lemma_req_unique(e, "const_declarations"@, x.consts, y.consts);
        lemma_req_unique(e, "bits_declarations"@, x.bits, y.bits);
        lemma_req_unique(e, "enum_declarations"@, x.enums, y.enums);
        lemma_req_unique(e, "interface_declarations"@, x.protocols, y.protocols);
        lemma_req_unique(e, "struct_declarations"@, x.structs, y.structs);
        lemma_req_unique(e, "table_declarations"@, x.tables, y.tables);
        lemma_req_unique(e, "union_declarations"@, x.unions, y.unions);
        lemma_req_unique(e, "xunion_declarations"@, x.xunions, y.xunions);
        lemma_req_unique(e, "declaration_order"@, x.declaration_order, y.declaration_order);
        lemma_req_unique(e, "declarations"@, x.declarations, y.declarations);
        lemma_req_unique(e, "library_dependencies"@, x.library_dependencies, y.library_dependencies);
    }

    proof fn lemma_described_encodable(d: Doc, x: Library) {
        let e = d->Obj_0@;
        lemma_req_encodable(e, "name"@, x.name);
        lemma_req_encodable(e, "const_declarations"@, x.consts);
        lemma_req_encodable(e, "bits_declarations"@, x.bits);
        lemma_req_encodable(e, "enum_declarations"@, x.enums);
        lemma_req_encodable(e, "interface_declarations"@, x.protocols);
        lemma_req_encodable(e, "struct_declarations"@, x.structs);
        lemma_req_encodable(e, "table_declarations"@, x.tables);
        lemma_req_encodable(e, "union_declarations"@, x.unions);
        lemma_req_encodable(e, "xunion_declarations"@, x.xunions);
        lemma_req_encodable(e, "declaration_order"@, x.declaration_order);
        lemma_req_encodable(e, "declarations"@, x.declarations);
        lemma_req_encodable(e, "library_dependencies"@, x.library_dependencies);
    }

    proof fn lemma_not_null(d: Doc, x: Library) {
    }
}

} // verus!
