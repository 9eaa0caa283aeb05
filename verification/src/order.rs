//! The order in which names are listed: that of their texts, byte by byte,
//! as the standard library orders strings.

use vstd::prelude::*;

verus! {

/// The order of byte strings by their first difference; a proper prefix
/// comes first.
pub open spec fn lex_le(a: Seq<u8>, b: Seq<u8>) -> bool
    decreases a.len(),
{
    if a.len() == 0 {
        true
    } else if b.len() == 0 {
        false
    } else if a[0] != b[0] {
        a[0] < b[0]
    } else {
        lex_le(a.drop_first(), b.drop_first())
    }
}

/// The order of texts: that of their UTF-8 encodings, byte by byte.
pub open spec fn text_le(a: Seq<char>, b: Seq<char>) -> bool {
    lex_le(vstd::utf8::encode_utf8(a), vstd::utf8::encode_utf8(b))
}

/// Of two byte strings, one comes before the other or they are in either
/// order.
pub proof fn lemma_lex_le_total(a: Seq<u8>, b: Seq<u8>)
    ensures
        lex_le(a, b) || lex_le(b, a),
    decreases a.len(),
{
    if a.len() > 0 && b.len() > 0 && a[0] == b[0] {
        lemma_lex_le_total(a.drop_first(), b.drop_first());
    }
}

/// The order of byte strings is transitive.
pub proof fn lemma_lex_le_transitive(a: Seq<u8>, b: Seq<u8>, c: Seq<u8>)
    requires
        lex_le(a, b),
        lex_le(b, c),
    ensures
        lex_le(a, c),
    decreases a.len(),
{
    if a.len() > 0 && b.len() > 0 && c.len() > 0 && a[0] == b[0] && b[0] == c[0] {
        lemma_lex_le_transitive(a.drop_first(), b.drop_first(), c.drop_first());
    }
}

/// Whether `a` comes before `b`, or is equal to it, in the order of texts.
pub fn precedes(a: &str, b: &str) -> (le: bool)
    ensures
        le == text_le(a@, b@),
{
    let x = a.as_bytes();
    let y = b.as_bytes();
    let mut i: usize = 0;
    assert(x@.skip(0) =~= x@);
    assert(y@.skip(0) =~= y@);
    while i < x.len() && i < y.len()
        invariant
            i <= x.len(),
            i <= y.len(),
            x@ == vstd::utf8::encode_utf8(a@),
            y@ == vstd::utf8::encode_utf8(b@),
            lex_le(x@, y@) == lex_le(x@.skip(i as int), y@.skip(i as int)),
        decreases x.len() - i,
    {
        assert(x@.skip(i as int).drop_first() =~= x@.skip(i as int + 1));
        assert(y@.skip(i as int).drop_first() =~= y@.skip(i as int + 1));
        assert(x@.skip(i as int)[0] == x@[i as int]);
        assert(y@.skip(i as int)[0] == y@[i as int]);
        if x[i] != y[i] {
            return x[i] < y[i];
        }
        i += 1;
    }
    i == x.len()
}

/// Inserting an entry adds it to the entries that a sequence holds.
pub proof fn lemma_insert_to_multiset<T>(s: Seq<T>, i: int, item: T)
    requires
        0 <= i <= s.len(),
    ensures
        s.insert(i, item).to_multiset() == s.to_multiset().insert(item),
{
    broadcast use vstd::seq_lib::group_to_multiset_ensures;

    let out = s.insert(i, item);
    assert(out.remove(i) =~= s);
    assert(out[i] == item);
    assert(out.remove(i).to_multiset() =~= out.to_multiset().remove(item));
    assert(out.to_multiset().count(item) > 0) by {
        assert(out.contains(item));
    }
    assert(out.to_multiset() =~= s.to_multiset().insert(item));
}

/// What is listed under a name.
pub trait Named {
    /// The name under which the entry is listed.
    spec fn name(&self) -> Seq<char>;

    /// The name under which the entry is listed.
    fn name_text(&self) -> (text: &str)
        ensures
            text@ == self.name(),
    ;
}

/// Whether `list` is in the order of the names.
pub open spec fn in_name_order<T: Named>(list: Seq<T>) -> bool {
    forall|i: int, j: int|
        0 <= i < j < list.len() ==> text_le((#[trigger] list[i]).name(), (#[trigger] list[j]).name())
}

/// Puts `item` into `list` behind the last entry whose name does not come
/// after its own, and returns the place. A list in the order of the names
/// stays in that order.
pub fn insert_by_name<T: Named>(list: &mut Vec<T>, item: T) -> (place: usize)
    ensures
        place <= old(list)@.len(),
        final(list)@ == old(list)@.insert(place as int, item),
        in_name_order(old(list)@) ==> in_name_order(final(list)@),
{
    let ghost before = list@;
    let mut p: usize = list.len();
    let mut placed = false;
    while p > 0 && !placed
        invariant
            p <= list.len(),
            before == list@,
            forall|q: int|
                p <= q < before.len() ==> !text_le((#[trigger] before[q]).name(), item.name()),
            placed ==> p > 0 && text_le(before[p - 1].name(), item.name()),
        decreases p + (if placed { 0int } else { 1int }),
    {
        if precedes(list[p - 1].name_text(), item.name_text()) {
            placed = true;
        } else {
            p -= 1;
        }
    }
    proof {
        if in_name_order(before) {
            let grown = before.insert(p as int, item);
            assert forall|i: int, j: int| 0 <= i < j < grown.len() implies text_le(
                (#[trigger] grown[i]).name(),
                (#[trigger] grown[j]).name(),
            ) by {
                let a = vstd::utf8::encode_utf8(grown[i].name());
                let b = vstd::utf8::encode_utf8(grown[j].name());
                if j < p {
                    assert(text_le(before[i].name(), before[j].name()));
                } else if j == p {
                    assert(placed);
                    if i < p - 1 {
                        assert(text_le(before[i].name(), before[p - 1].name()));
                        lemma_lex_le_transitive(
                            a,
                            vstd::utf8::encode_utf8(before[p - 1].name()),
                            b,
                        );
                    }
                } else if i == p {
                    assert(!text_le(before[j - 1].name(), item.name()));
                    lemma_lex_le_total(a, b);
                } else if i < p {
                    assert(text_le(before[i].name(), before[j - 1].name()));
                } else {
                    assert(text_le(before[i - 1].name(), before[j - 1].name()));
                }
            }
        }
    }
    list.insert(p, item);
    p
}

} // verus!
