//! The declaration map: declaration kinds by path, in insertion order.

use vstd::prelude::*;
use indexmap::IndexMap;
use crate::doc::{CodecError, Doc, Entry, field, lemma_key_count_single, lemma_key_count_two};
use crate::span::Spanned;
use crate::decl_path::{DeclPath, path_text, slash_count, lemma_path_parts_of_text, lemma_path_text_of_parts};
use crate::ir::DeclType;
use crate::wire::Wire;

verus! {

#[verifier::external_type_specification]
#[verifier::external_body]
#[verifier::reject_recursive_types(K)]
#[verifier::reject_recursive_types(V)]
#[verifier::reject_recursive_types(S)]
pub struct ExIndexMap<K, V, S>(IndexMap<K, V, S>);

/// The declarations of a library by path, in the order they were added.
pub type DeclMap = IndexMap<Spanned<DeclPath>, DeclType>;

/// The entries of a declaration map in order: library name, declaration name
/// and kind.
pub uninterp spec fn decl_map_entries(m: IndexMap<Spanned<DeclPath>, DeclType>) -> Seq<(Seq<char>, Seq<char>, DeclType)>;

/// No two entries share a path.
pub open spec fn unique_paths(s: Seq<(Seq<char>, Seq<char>, DeclType)>) -> bool {
    forall|i: int, j: int|
        0 <= i < j < s.len() ==> #[trigger] s[i].0 != #[trigger] s[j].0 || s[i].1 != s[j].1
}

/// Relies on `IndexMap::new`: a new map is empty.
#[verifier::external_body]
fn map_new() -> (m: DeclMap)
    ensures
        decl_map_entries(m) == Seq::<(Seq<char>, Seq<char>, DeclType)>::empty(),
{
    IndexMap::new()
}

/// Relies on `IndexMap::len`: the number of entries.
#[verifier::external_body]
fn map_len(m: &DeclMap) -> (n: usize)
    ensures
        n == decl_map_entries(*m).len(),
{
    m.len()
}

/// Relies on `IndexMap::get_index`: the entry at position `i` in insertion
/// order, if `i` is below the length.
#[verifier::external_body]
fn map_get_index(m: &DeclMap, i: usize) -> (r: Option<(&Spanned<DeclPath>, &DeclType)>)
    ensures
        (i < decl_map_entries(*m).len()) == r is Some,
        r matches Some((k, v)) ==> decl_map_entries(*m)[i as int] == (k.inner.library_name@, k.inner.decl_name@, *v),
{
    m.get_index(i)
}

/// Relies on `IndexMap::insert`: when it finds no equal key, the new entry
/// goes last and `None` comes back; when it finds one, that entry takes the
/// new value in its place, no key moves or changes, and `Some` comes back.
/// Keys compare and hash by their path alone, not their span.
#[verifier::external_body]
fn map_insert(m: &mut DeclMap, k: Spanned<DeclPath>, v: DeclType) -> (r: Option<DeclType>)
    ensures
        r is None ==> decl_map_entries(*final(m)) == decl_map_entries(*old(m)).push(
            (k.inner.library_name@, k.inner.decl_name@, v),
        ),
        r is Some ==> (exists|i: int| 0 <= i < decl_map_entries(*old(m)).len() && #[trigger] decl_map_entries(*old(m))[i].0
            == k.inner.library_name@ && decl_map_entries(*old(m))[i].1 == k.inner.decl_name@),
        r is Some ==> decl_map_entries(*final(m)).len() == decl_map_entries(*old(m)).len(),
{
    m.insert(k, v)
}

/// Written as an object from path text to kind, in the map's order.
impl Wire for IndexMap<Spanned<DeclPath>, DeclType> {
    open spec fn describes(d: Doc, x: DeclMap) -> bool {
        let s = decl_map_entries(x);
        &&& d matches Doc::Obj(e) && e@.len() == s.len() && forall|i: int| 0 <= i < s.len()
            ==> #[trigger] e@[i].key@ == path_text(s[i].0, s[i].1) && DeclType::describes(e@[i].value, s[i].2)
    }

    open spec fn wire_form(d: Doc, x: DeclMap) -> bool {
        Self::describes(d, x)
    }

    open spec fn encodable(x: DeclMap) -> bool {
        true
    }

    open spec fn same_content(x: DeclMap, y: DeclMap) -> bool {
        let s = decl_map_entries(x);
        let t = decl_map_entries(y);
        s.len() == t.len() && forall|i: int| 0 <= i < s.len() ==> #[trigger] s[i].0 == t[i].0 && s[i].1 == t[i].1
            && s[i].2.wire_name() == t[i].2.wire_name()
    }

    /// No path holds the separator inside a part, and no two entries share a
    /// path (safe code can break the latter through `get_index_mut`).
    open spec fn readable(x: DeclMap) -> bool {
        let s = decl_map_entries(x);
        &&& forall|i: int| 0 <= i < s.len() ==> slash_count(#[trigger] s[i].0) == 0 && slash_count(s[i].1) == 0
        &&& unique_paths(s)
    }

    open spec fn complete(x: DeclMap) -> bool {
        true
    }

    /// The spans of the keys are not part of the entries' reading.
    open spec fn fresh(x: DeclMap) -> bool {
        true
    }

    fn encode(&self) -> (r: Result<Doc, CodecError>) {
        let ghost s = decl_map_entries(*self);
        let n = map_len(self);
        let mut out: Vec<Entry> = Vec::new();
        let mut i: usize = 0;
        while i < n
            invariant
                s == decl_map_entries(*self),
                n == s.len(),
                i <= n,
                out@.len() == i,
                forall|j: int| 0 <= j < i ==> #[trigger] out@[j].key@ == path_text(s[j].0, s[j].1)
                    && DeclType::describes(out@[j].value, s[j].2),
            decreases n - i,
        {
            let (k, v) = match map_get_index(self, i) {
                Some(kv) => kv,
                None => return Err(CodecError::UnresolvedValue),
            };
            let value = match v.encode() {
                Ok(d) => d,
                Err(er) => return Err(er),
            };
            out.push(Entry { key: k.inner.to_text(), value });
            i = i + 1;
        }
        Ok(Doc::Obj(out))
    }

    fn decode(d: &Doc) -> (r: Result<DeclMap, CodecError>) {
        match d {
            Doc::Obj(e) => {
                let mut m = map_new();
                let mut i: usize = 0;
                while i < e.len()
                    invariant
                        *d == Doc::Obj(*e),
                        i <= e@.len(),
                        decl_map_entries(m).len() == i,
                        unique_paths(decl_map_entries(m)),
                        forall|j: int| 0 <= j < i ==> #[trigger] e@[j].key@ == path_text(
                            decl_map_entries(m)[j].0,
                            decl_map_entries(m)[j].1,
                        ) && DeclType::describes(e@[j].value, decl_map_entries(m)[j].2),
                        forall|j: int| 0 <= j < i ==> slash_count(#[trigger] decl_map_entries(m)[j].0) == 0
                            && slash_count(decl_map_entries(m)[j].1) == 0,
                    decreases e@.len() - i,
                {
                    let ghost before = decl_map_entries(m);
                    let repeated = field(e, e[i].key.as_str());
                    let k = DeclPath::from_text(e[i].key.as_str());
                    let v = DeclType::decode(&e[i].value);
                    proof {
                        lemma_path_text_of_parts(e@[i as int].key@);
                        if exists|x: DeclMap| #[trigger] Self::describes(*d, x) && Self::readable(x) {
                            let w = choose|x: DeclMap| #[trigger] Self::describes(*d, x) && Self::readable(x);
                            let ws = decl_map_entries(w);
                            assert(e@[i as int].key@ == path_text(ws[i as int].0, ws[i as int].1));
                            lemma_path_parts_of_text(ws[i as int].0, ws[i as int].1);
                            assert(DeclType::describes(e@[i as int].value, ws[i as int].2));
                            assert forall|j: int| 0 <= j < e@.len() && j != i implies #[trigger] e@[j].key@ != e@[i as int].key@ by {
                                assert(e@[j].key@ == path_text(ws[j].0, ws[j].1));
                                lemma_path_parts_of_text(ws[j].0, ws[j].1);
                                if j < i {
                                    assert(ws[j].0 != ws[i as int].0 || ws[j].1 != ws[i as int].1);
                                } else {
                                    assert(ws[i as int].0 != ws[j].0 || ws[i as int].1 != ws[j].1);
                                }
                            }
                            lemma_key_count_single(e@, i as int, e@[i as int].key@);
                        }
                    }
                    match repeated {
                        Err(er) => return Err(er),
                        Ok(_) => {},
                    }
                    let k = match k { Ok(k) => k, Err(er) => return Err(er) };
                    let v = match v { Ok(v) => v, Err(er) => return Err(er) };
                    let ghost kv = (k.library_name@, k.decl_name@);
                    proof {
                        assert forall|j: int| 0 <= j < i implies #[trigger] before[j].0 != kv.0 || before[j].1 != kv.1 by {
                            if e@[j].key@ == e@[i as int].key@ {
                                lemma_key_count_two(e@, j, i as int, e@[i as int].key@);
                            }
                        }
                    }
                    match map_insert(&mut m, Spanned::without_span(k), v) {
                        Some(_) => {
                            return Err(CodecError::DuplicateField(e[i].key.clone()));
                        },
                        None => {},
                    }
                    proof {
                        let after = decl_map_entries(m);
                        assert forall|a: int, b: int| 0 <= a < b < after.len() implies #[trigger] after[a].0 != #[trigger] after[b].0
                            || after[a].1 != after[b].1 by {
                            if b == i {
                                assert(after[a] == before[a]);
                            } else {
                                assert(after[a] == before[a] && after[b] == before[b]);
                            }
                        }
                    }
                    i = i + 1;
                }
                Ok(m)
            },
            _ => Err(CodecError::InvalidType),
        }
    }

    proof fn lemma_unique(d: Doc, x: DeclMap, y: DeclMap) {
        let e = d->Obj_0@;
        let s = decl_map_entries(x);
        let t = decl_map_entries(y);
        assert forall|i: int| 0 <= i < s.len() implies #[trigger] s[i].0 == t[i].0 && s[i].1 == t[i].1
            && s[i].2.wire_name() == t[i].2.wire_name() by {
            assert(e[i].key@ == path_text(s[i].0, s[i].1));
            assert(e[i].key@ == path_text(t[i].0, t[i].1));
            lemma_path_parts_of_text(s[i].0, s[i].1);
            lemma_path_parts_of_text(t[i].0, t[i].1);
        }
    }

    proof fn lemma_described_encodable(d: Doc, x: DeclMap) {
    }

    proof fn lemma_not_null(d: Doc, x: DeclMap) {
    }
}

} // verus!
