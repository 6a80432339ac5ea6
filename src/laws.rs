//! Round-trip laws of the codec.

use vstd::prelude::*;
use crate::doc::Doc;
use crate::ser_option::SerOption;
use crate::span::Spanned;
use crate::wire::Wire;

verus! {

/// Encoding then decoding keeps the content: where `d` is the document that
/// encoding the writable value `x` gives, and no path in `x` holds the
/// separator inside a part, some value decodes from `d`, and every value that
/// decoding can give (a readable one that `d` describes) has the content of
/// `x`. Decoding leaves every span unset.
pub proof fn lemma_encode_then_decode<T: Wire>(x: T, d: Doc)
    requires
        T::encodable(x),
        T::readable(x),
        T::describes(d, x),
    ensures
        exists|y: T| #[trigger] T::describes(d, y) && T::readable(y),
        forall|y: T| #[trigger] T::describes(d, y) && T::readable(y) ==> T::same_content(x, y),
{
    assert(T::describes(d, x) && T::readable(x));
    assert forall|y: T| #[trigger] T::describes(d, y) && T::readable(y) implies T::same_content(x, y) by {
        T::lemma_unique(d, x, y);
    }
}

/// Decoding, encoding and decoding again gives the same value: where `x` is
/// what decoding `d` gave (so it describes `d` and is readable) and every
/// present request or response group in it carries its size, `x` can be
/// written, and where `d2` is the document that encoding `x` gives, every
/// value that decoding `d2` can give has the content of `x`.
pub proof fn lemma_decode_then_encode<T: Wire>(d: Doc, x: T, d2: Doc)
    requires
        T::describes(d, x),
        T::readable(x),
        T::complete(x),
        T::describes(d2, x),
    ensures
        T::encodable(x),
        exists|y: T| #[trigger] T::describes(d2, y) && T::readable(y),
        forall|y: T| #[trigger] T::describes(d2, y) && T::readable(y) ==> T::same_content(x, y),
{
    T::lemma_described_encodable(d, x);
    lemma_encode_then_decode(x, d2);
}

/// A set placeholder is written as its bare value: a document describes the
/// placeholder exactly when it describes the value inside.
pub proof fn lemma_placeholder_is_bare<T: Wire>(d: Doc, v: T)
    ensures
        SerOption::<T>::describes(d, SerOption(Some(v))) == T::describes(d, v),
        !SerOption::<T>::encodable(SerOption(None)),
{
}

/// A span never reaches the wire: two spanned values with the same inner
/// value have the same wire forms.
pub proof fn lemma_span_not_on_wire<T: Wire>(d: Doc, a: Spanned<T>, b: Spanned<T>)
    requires
        a.inner == b.inner,
    ensures
        Spanned::<T>::describes(d, a) == Spanned::<T>::describes(d, b),
        Spanned::<T>::encodable(a) == Spanned::<T>::encodable(b),
{
}

} // verus!
