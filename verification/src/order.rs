//! The order of texts: lexicographic by the values of their bytes.

use vstd::prelude::*;
use vstd::utf8::encode_utf8;

verus! {

/// `a` stands before `b` or equals it, compared byte by byte; a proper prefix
/// stands before what it is a prefix of.
pub open spec fn bytes_le(a: Seq<u8>, b: Seq<u8>) -> bool
    decreases a.len(),
{
    if a.len() == 0 {
        true
    } else if b.len() == 0 {
        false
    } else if a[0] != b[0] {
        a[0] < b[0]
    } else {
        bytes_le(a.drop_first(), b.drop_first())
    }
}

/// `a` stands before `b` or equals it, as texts.
pub open spec fn text_le(a: Seq<char>, b: Seq<char>) -> bool {
    bytes_le(encode_utf8(a), encode_utf8(b))
}

pub proof fn lemma_bytes_total(a: Seq<u8>, b: Seq<u8>)
    ensures
        bytes_le(a, b) || bytes_le(b, a),
    decreases a.len(),
{
    if a.len() > 0 && b.len() > 0 {
        lemma_bytes_total(a.drop_first(), b.drop_first());
    }
}

pub proof fn lemma_bytes_transitive(a: Seq<u8>, b: Seq<u8>, c: Seq<u8>)
    requires
        bytes_le(a, b),
        bytes_le(b, c),
    ensures
        bytes_le(a, c),
    decreases a.len(),
{
    if a.len() > 0 && b.len() > 0 && c.len() > 0 && a[0] == b[0] && b[0] == c[0] {
        lemma_bytes_transitive(a.drop_first(), b.drop_first(), c.drop_first());
    }
}

pub proof fn lemma_bytes_antisymmetric(a: Seq<u8>, b: Seq<u8>)
    requires
        bytes_le(a, b),
        bytes_le(b, a),
    ensures
        a == b,
    decreases a.len(),
{
    if a.len() > 0 && b.len() > 0 {
        lemma_bytes_antisymmetric(a.drop_first(), b.drop_first());
        assert(a =~= seq![a[0]] + a.drop_first());
        assert(b =~= seq![b[0]] + b.drop_first());
    } else {
        assert(a =~= b);
    }
}

/// Decides whether `a` stands before `b` or equals it.
pub fn text_precedes(a: &str, b: &str) -> (yes: bool)
    ensures
        yes == text_le(a@, b@),
{
    let x = a.as_bytes();
    let y = b.as_bytes();
    let mut i: usize = 0;
    assert(x@.skip(0) =~= x@);
    assert(y@.skip(0) =~= y@);
    while i < x.len() && i < y.len()
        invariant
            x@ == encode_utf8(a@),
            y@ == encode_utf8(b@),
            i <= x@.len(),
            i <= y@.len(),
            bytes_le(x@, y@) == bytes_le(x@.skip(i as int), y@.skip(i as int)),
        decreases x@.len() - i,
    {
        if x[i] != y[i] {
            return x[i] < y[i];
        }
        assert(x@.skip(i as int).drop_first() =~= x@.skip(i + 1));
        assert(y@.skip(i as int).drop_first() =~= y@.skip(i + 1));
        i += 1;
    }
    i == x.len()
}

proof fn lemma_bytes_first_difference(a: Seq<u8>, b: Seq<u8>, at: int)
    requires
        0 <= at < a.len(),
        at < b.len(),
        forall|k: int| 0 <= k < at ==> a[k] == b[k],
        a[at] != b[at],
    ensures
        bytes_le(a, b) <==> a[at] < b[at],
    decreases at,
{
    if at > 0 {
        let x = a.drop_first();
        let y = b.drop_first();
        assert(a[0] == b[0]);
        assert forall|k: int| 0 <= k < at - 1 implies x[k] == y[k] by {
            assert(a[k + 1] == b[k + 1]);
        }
        lemma_bytes_first_difference(x, y, at - 1);
    }
}

proof fn lemma_bytes_beginning(a: Seq<u8>, b: Seq<u8>)
    requires
        a.len() <= b.len(),
        forall|k: int| 0 <= k < a.len() ==> a[k] == b[k],
    ensures
        bytes_le(a, b),
        a.len() < b.len() ==> !bytes_le(b, a),
    decreases a.len(),
{
    if a.len() > 0 {
        let x = a.drop_first();
        let y = b.drop_first();
        assert(a[0] == b[0]);
        assert forall|k: int| 0 <= k < x.len() implies x[k] == y[k] by {
            assert(a[k + 1] == b[k + 1]);
        }
        lemma_bytes_beginning(x, y);
    }
}

/// Of two texts that differ in a byte, the one with the smaller byte at the first
/// such place stands first, and only that one may.
pub proof fn law_first_difference_decides(a: &str, b: &str, precedes: bool, at: int)
    requires
        call_ensures(text_precedes, (a, b), precedes),
        0 <= at < encode_utf8(a@).len(),
        at < encode_utf8(b@).len(),
        forall|k: int| 0 <= k < at ==> encode_utf8(a@)[k] == encode_utf8(b@)[k],
        encode_utf8(a@)[at] != encode_utf8(b@)[at],
    ensures
        precedes <==> encode_utf8(a@)[at] < encode_utf8(b@)[at],
{
    lemma_bytes_first_difference(encode_utf8(a@), encode_utf8(b@), at);
}

/// Where the bytes of one text are a beginning of those of another, the shorter one
/// stands first. A text may stand before itself.
pub proof fn law_beginning_stands_first(a: &str, b: &str, precedes: bool, follows: bool)
    requires
        call_ensures(text_precedes, (a, b), precedes),
        call_ensures(text_precedes, (b, a), follows),
        encode_utf8(a@).len() <= encode_utf8(b@).len(),
        forall|k: int|
            0 <= k < encode_utf8(a@).len() ==> encode_utf8(a@)[k] == encode_utf8(b@)[k],
    ensures
        precedes,
        encode_utf8(a@).len() < encode_utf8(b@).len() ==> !follows,
{
    lemma_bytes_beginning(encode_utf8(a@), encode_utf8(b@));
}

/// The order of texts is decided in this one way wherever it is spoken of.
pub proof fn law_texts_are_ordered_by_their_bytes(a: Seq<char>, b: Seq<char>, at: int)
    requires
        0 <= at <= encode_utf8(a).len(),
        at <= encode_utf8(b).len(),
        forall|k: int| 0 <= k < at ==> encode_utf8(a)[k] == encode_utf8(b)[k],
    ensures
        at == encode_utf8(a).len() ==> text_le(a, b),
        at == encode_utf8(b).len() && at < encode_utf8(a).len() ==> !text_le(a, b),
        at < encode_utf8(a).len() && at < encode_utf8(b).len() && encode_utf8(a)[at] != encode_utf8(
            b,
        )[at] ==> (text_le(a, b) <==> encode_utf8(a)[at] < encode_utf8(b)[at]),
{
    let x = encode_utf8(a);
    let y = encode_utf8(b);
    if at == x.len() {
        lemma_bytes_beginning(x, y);
    } else if at == y.len() {
        lemma_bytes_beginning(y, x);
    } else if x[at] != y[at] {
        lemma_bytes_first_difference(x, y, at);
    }
}

} // verus!
