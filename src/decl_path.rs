//! Identifier paths and their `<library>/<decl>` text.

use vstd::prelude::*;
use vstd::string::*;

verus! {

/// A declaration's identifier across a compilation: library and name.
#[derive(Debug, Clone, Hash, PartialEq, Eq)]
pub struct DeclPath {
    pub library_name: String,
    pub decl_name: String,
}

/// Number of separators in `s`.
pub open spec fn slash_count(s: Seq<char>) -> nat
    decreases s.len(),
{
    if s.len() == 0 {
        0
    } else {
        slash_count(s.drop_last()) + if s.last() == '/' { 1nat } else { 0nat }
    }
}

/// The wire text of the path (`lib`, `decl`).
pub open spec fn path_text(lib: Seq<char>, decl: Seq<char>) -> Seq<char> {
    lib + seq!['/'] + decl
}

/// The library and declaration parts of `s`, where `s` holds exactly one
/// separator.
pub open spec fn path_parts(s: Seq<char>) -> Option<(Seq<char>, Seq<char>)> {
    if slash_count(s) == 1 {
        let i = choose|i: int| 0 <= i < s.len() && s[i] == '/';
        Some((s.take(i), s.skip(i + 1)))
    } else {
        None
    }
}

proof fn lemma_slash_count_concat(a: Seq<char>, b: Seq<char>)
    ensures
        slash_count(a + b) == slash_count(a) + slash_count(b),
    decreases b.len(),
{
    if b.len() == 0 {
        assert(a + b =~= a);
    } else {
        assert((a + b).drop_last() =~= a + b.drop_last());
        lemma_slash_count_concat(a, b.drop_last());
    }
}

proof fn lemma_slash_found(s: Seq<char>, j: int)
    requires
        0 <= j < s.len(),
        s[j] == '/',
    ensures
        slash_count(s) >= 1,
    decreases s.len(),
{
    if j < s.len() - 1 {
        lemma_slash_found(s.drop_last(), j);
    }
}

/// Splits `s` around the separator at `i`.
proof fn lemma_split_at(s: Seq<char>, i: int)
    requires
        0 <= i < s.len(),
        s[i] == '/',
    ensures
        s == path_text(s.take(i), s.skip(i + 1)),
        slash_count(s) == slash_count(s.take(i)) + 1 + slash_count(s.skip(i + 1)),
{
    assert(s =~= path_text(s.take(i), s.skip(i + 1)));
    lemma_slash_count_concat(s.take(i) + seq!['/'], s.skip(i + 1));
    lemma_slash_count_concat(s.take(i), seq!['/']);
    assert(seq!['/'].drop_last() =~= Seq::<char>::empty());
    assert(slash_count(Seq::<char>::empty()) == 0);
    assert(slash_count(seq!['/']) == 1);
}

/// Where `s` holds one separator, `i` is its only position.
proof fn lemma_single_slash(s: Seq<char>, i: int)
    requires
        0 <= i < s.len(),
        s[i] == '/',
        slash_count(s) == 1,
    ensures
        path_parts(s) == Some((s.take(i), s.skip(i + 1))),
        slash_count(s.take(i)) == 0,
        slash_count(s.skip(i + 1)) == 0,
{
    lemma_split_at(s, i);
    let k = choose|k: int| 0 <= k < s.len() && s[k] == '/';
    if k < i {
        lemma_slash_found(s.take(i), k);
    } else if k > i {
        lemma_slash_found(s.skip(i + 1), k - i - 1);
    }
}

/// Encoding a path and decoding the text gives the path back, where neither
/// part holds a separator.
pub proof fn lemma_path_parts_of_text(lib: Seq<char>, decl: Seq<char>)
    requires
        slash_count(lib) == 0,
        slash_count(decl) == 0,
    ensures
        path_parts(path_text(lib, decl)) == Some((lib, decl)),
{
    let s = path_text(lib, decl);
    let i = lib.len() as int;
    assert(s[i] == '/');
    lemma_split_at(s, i);
    assert(s.take(i) =~= lib);
    assert(s.skip(i + 1) =~= decl);
    lemma_single_slash(s, i);
}

/// Decoding a text with exactly one separator and encoding the parts gives the
/// text back; a text with none or several has no parts.
pub proof fn lemma_path_text_of_parts(s: Seq<char>)
    ensures
        slash_count(s) == 1 <==> path_parts(s) is Some,
        path_parts(s) matches Some((lib, decl)) ==> path_text(lib, decl) == s,
{
    if slash_count(s) == 1 {
        let i = choose|i: int| 0 <= i < s.len() && s[i] == '/';
        if !(0 <= i < s.len() && s[i] == '/') {
            assert forall|j: int| 0 <= j < s.len() implies s[j] != '/' by {
                if s[j] == '/' {
                    assert(0 <= j < s.len() && s[j] == '/');
                }
            }
            lemma_no_slash(s);
        }
        lemma_split_at(s, i);
    }
}

proof fn lemma_no_slash(s: Seq<char>)
    requires
        forall|j: int| 0 <= j < s.len() ==> s[j] != '/',
    ensures
        slash_count(s) == 0,
    decreases s.len(),
{
    if s.len() > 0 {
        lemma_no_slash(s.drop_last());
    }
}

impl DeclPath {
    /// The wire text `"<library>/<decl>"`.
    pub fn to_text(&self) -> (r: String)
        ensures
            r@ == path_text(self.library_name@, self.decl_name@),
    {
        let mut t = self.library_name.clone();
        proof {
            reveal_strlit("/");
        }
        t.append("/");
        t.append(self.decl_name.as_str());
        t
    }

    /// Reads the wire text: fails unless it holds exactly one separator.
    pub fn from_text(s: &str) -> (r: Result<DeclPath, crate::doc::CodecError>)
        ensures
            path_parts(s@) is None ==> r == Err::<DeclPath, _>(crate::doc::CodecError::MalformedPath),
            path_parts(s@) matches Some((lib, decl)) ==> r matches Ok(p) && p.library_name@ == lib
                && p.decl_name@ == decl,
            r matches Ok(p) ==> slash_count(p.library_name@) == 0 && slash_count(p.decl_name@) == 0,
    {
        let n = s.unicode_len();
        let mut count: usize = 0;
        let mut at: usize = 0;
        let mut i: usize = 0;
        while i < n
            invariant
                n == s@.len(),
                i <= n,
                count <= i,
                count == slash_count(s@.take(i as int)),
                count >= 1 ==> at < i && s@[at as int] == '/',
            decreases n - i,
        {
            assert(s@.take(i + 1).drop_last() =~= s@.take(i as int));
            let c = s.get_char(i);
            if c == '/' {
                if count == 0 {
                    at = i;
                }
                count = count + 1;
            }
            i = i + 1;
        }
        assert(s@.take(n as int) =~= s@);
        if count != 1 {
            return Err(crate::doc::CodecError::MalformedPath);
        }
        proof {
            lemma_single_slash(s@, at as int);
        }
        let lib = s.substring_char(0, at).to_owned();
        let decl = s.substring_char(at + 1, n).to_owned();
        proof {
            assert(lib@ =~= s@.take(at as int));
            assert(decl@ =~= s@.skip(at + 1));
        }
        Ok(DeclPath { library_name: lib, decl_name: decl })
    }
}

} // verus!
