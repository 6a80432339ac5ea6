//! The wire document model, and lookups of keys in its objects.

use vstd::prelude::*;

verus! {

/// A keyed wire document: the JSON-like shape that the IR is encoded to.
///
/// Objects are kept as a list of entries in the order they were written; the
/// decoders read them order-independently and reject repeated keys.
#[derive(Debug, PartialEq)]
pub enum Doc {
    Null,
    Bool(bool),
    Num(u64),
    Str(String),
    Arr(Vec<Doc>),
    Obj(Vec<Entry>),
}

/// One key and its value in an object.
#[derive(Debug, PartialEq)]
pub struct Entry {
    pub key: String,
    pub value: Doc,
}

/// The ways in which encoding or decoding can fail.
#[derive(Debug, Clone, PartialEq, Eq)]
pub enum CodecError {
    /// An identifier path without exactly one separator.
    MalformedPath,
    /// A required key is absent.
    MissingField(String),
    /// A key occurs more than once.
    DuplicateField(String),
    /// A key that the group does not know.
    UnknownField(String),
    /// A presence flag or discriminant contradicts the sibling fields.
    InconsistentGroup,
    /// A value that must be resolved before encoding is still unset.
    UnresolvedValue,
    /// A value of the wrong shape (a string where a number belongs, ...).
    InvalidType,
}

/// Number of entries of `e` whose key reads `k`.
pub open spec fn key_count(e: Seq<Entry>, k: Seq<char>) -> nat
    decreases e.len(),
{
    if e.len() == 0 {
        0
    } else {
        key_count(e.drop_last(), k) + if e.last().key@ == k { 1nat } else { 0nat }
    }
}

/// The value of the last entry of `e` whose key reads `k`.
pub open spec fn value_of(e: Seq<Entry>, k: Seq<char>) -> Doc
    decreases e.len(),
{
    if e.len() == 0 {
        Doc::Null
    } else if e.last().key@ == k {
        e.last().value
    } else {
        value_of(e.drop_last(), k)
    }
}

/// `k` occurs once in `e` and `pred` holds of its value.
pub open spec fn has_field(e: Seq<Entry>, k: Seq<char>, pred: spec_fn(Doc) -> bool) -> bool {
    key_count(e, k) == 1 && pred(value_of(e, k))
}

/// The error for a duplicate key `k`.
pub open spec fn is_duplicate_of(err: CodecError, k: Seq<char>) -> bool {
    err matches CodecError::DuplicateField(f) && f@ == k
}

/// The error for a missing key `k`.
pub open spec fn is_missing_of(err: CodecError, k: Seq<char>) -> bool {
    err matches CodecError::MissingField(f) && f@ == k
}

proof fn lemma_key_count_push(e: Seq<Entry>, x: Entry, k: Seq<char>)
    ensures
        key_count(e.push(x), k) == key_count(e, k) + if x.key@ == k { 1nat } else { 0nat },
        x.key@ == k ==> value_of(e.push(x), k) == x.value,
        x.key@ != k ==> value_of(e.push(x), k) == value_of(e, k),
{
    assert(e.push(x).drop_last() =~= e);
}

/// Looks `k` up in the entries `e`: absent, present once, or repeated.
pub fn field<'a>(e: &'a Vec<Entry>, k: &str) -> (r: Result<Option<&'a Doc>, CodecError>)
    ensures
        key_count(e@, k@) == 0 ==> r == Ok::<Option<&Doc>, CodecError>(None),
        key_count(e@, k@) == 1 ==> r == Ok::<Option<&Doc>, CodecError>(Some(&value_of(e@, k@))),
        key_count(e@, k@) > 1 ==> r is Err && is_duplicate_of(r->Err_0, k@),
{
    let key = k.to_owned();
    let mut found: Option<&'a Doc> = None;
    let mut i: usize = 0;
    while i < e.len()
        invariant
            i <= e@.len(),
            key@ == k@,
            key_count(e@.take(i as int), k@) <= 1,
            key_count(e@.take(i as int), k@) == 0 ==> found is None,
            key_count(e@.take(i as int), k@) == 1 ==> found == Some(&value_of(e@.take(i as int), k@)),
        decreases e@.len() - i,
    {
        proof {
            lemma_key_count_push(e@.take(i as int), e@[i as int], k@);
            assert(e@.take(i as int).push(e@[i as int]) =~= e@.take(i + 1));
        }
        if e[i].key == key {
            if found.is_some() {
                proof {
                    lemma_key_count_prefix(e@, (i + 1) as int, k@);
                }
                return Err(CodecError::DuplicateField(key));
            }
            found = Some(&e[i].value);
        }
        i = i + 1;
    }
    assert(e@.take(i as int) =~= e@);
    Ok(found)
}

proof fn lemma_key_count_prefix(e: Seq<Entry>, n: int, k: Seq<char>)
    requires
        0 <= n <= e.len(),
    ensures
        key_count(e.take(n), k) <= key_count(e, k),
    decreases e.len() - n,
{
    if n < e.len() {
        lemma_key_count_prefix(e, n + 1, k);
        lemma_key_count_push(e.take(n), e[n], k);
        assert(e.take(n).push(e[n]) =~= e.take(n + 1));
    } else {
        assert(e.take(n) =~= e);
    }
}

/// The value that `value_of` picks is the value of some entry.
pub proof fn lemma_value_of_entry(e: Seq<Entry>, k: Seq<char>) -> (i: int)
    requires
        key_count(e, k) > 0,
    ensures
        0 <= i < e.len(),
        e[i].value == value_of(e, k),
    decreases e.len(),
{
    if e.last().key@ == k {
        e.len() - 1
    } else {
        lemma_value_of_entry(e.drop_last(), k)
    }
}

/// Two entries with the key `k` make `k` repeated.
pub proof fn lemma_key_count_two(e: Seq<Entry>, a: int, b: int, k: Seq<char>)
    requires
        0 <= a < e.len(),
        0 <= b < e.len(),
        a != b,
        e[a].key@ == k,
        e[b].key@ == k,
    ensures
        key_count(e, k) >= 2,
    decreases e.len(),
{
    let n = e.len() - 1;
    if a == n {
        lemma_key_count_one(e.drop_last(), b, k);
    } else if b == n {
        lemma_key_count_one(e.drop_last(), a, k);
    } else {
        lemma_key_count_two(e.drop_last(), a, b, k);
    }
}

/// An entry with the key `k` makes `k` present.
pub proof fn lemma_key_count_one(e: Seq<Entry>, a: int, k: Seq<char>)
    requires
        0 <= a < e.len(),
        e[a].key@ == k,
    ensures
        key_count(e, k) >= 1,
    decreases e.len(),
{
    if a < e.len() - 1 {
        lemma_key_count_one(e.drop_last(), a, k);
    }
}

/// Where only the entry at `a` has the key `k`, `k` occurs once.
pub proof fn lemma_key_count_single(e: Seq<Entry>, a: int, k: Seq<char>)
    requires
        0 <= a < e.len(),
        e[a].key@ == k,
        forall|j: int| 0 <= j < e.len() && j != a ==> #[trigger] e[j].key@ != k,
    ensures
        key_count(e, k) == 1,
    decreases e.len(),
{
    if a < e.len() - 1 {
        lemma_key_count_single(e.drop_last(), a, k);
    } else {
        lemma_key_count_none(e.drop_last(), k);
    }
}

/// Where no entry has the key `k`, `k` is absent.
pub proof fn lemma_key_count_none(e: Seq<Entry>, k: Seq<char>)
    requires
        forall|j: int| 0 <= j < e.len() ==> #[trigger] e[j].key@ != k,
    ensures
        key_count(e, k) == 0,
    decreases e.len(),
{
    if e.len() > 0 {
        lemma_key_count_none(e.drop_last(), k);
    }
}

} // verus!
