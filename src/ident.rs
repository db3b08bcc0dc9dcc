//! Player identifiers and their normalized form.
use vstd::prelude::*;

use crate::text::push_char;

verus! {

/// The character that may separate the groups of an identifier.
pub open spec fn is_separator(c: char) -> bool {
    c == '-'
}

/// An identifier with every separator character removed, the other
/// characters kept in their order.
pub open spec fn normalized(s: Seq<char>) -> Seq<char>
    decreases s.len(),
{
    if s.len() == 0 {
        Seq::empty()
    } else {
        let rest = normalized(s.drop_last());
        if is_separator(s.last()) {
            rest
        } else {
            rest.push(s.last())
        }
    }
}

/// Normalizing twice gives what normalizing once gives.
pub proof fn lemma_normalize_idempotent(s: Seq<char>)
    ensures
        normalized(normalized(s)) == normalized(s),
    decreases s.len(),
{
    if s.len() > 0 {
        lemma_normalize_idempotent(s.drop_last());
        let r = normalized(s.drop_last());
        if !is_separator(s.last()) {
            assert(r.push(s.last()).drop_last() =~= r);
        }
    }
}

/// Normalization keeps the order of the characters it keeps: normalizing a
/// concatenation concatenates the normalized parts.
pub proof fn lemma_normalize_concat(a: Seq<char>, b: Seq<char>)
    ensures
        normalized(a + b) == normalized(a) + normalized(b),
    decreases b.len(),
{
    if b.len() == 0 {
        assert(a + b =~= a);
        assert(normalized(a) + normalized(b) =~= normalized(a));
    } else {
        lemma_normalize_concat(a, b.drop_last());
        assert((a + b).drop_last() =~= a + b.drop_last());
        assert((a + b).last() == b.last());
        if !is_separator(b.last()) {
            assert(normalized(a) + normalized(b.drop_last()).push(b.last())
                =~= (normalized(a) + normalized(b.drop_last())).push(b.last()));
        }
    }
}

/// A character that is no separator is kept as it is.
pub proof fn lemma_normalize_keeps(c: char)
    requires
        !is_separator(c),
    ensures
        normalized(seq![c]) == seq![c],
{
    assert(seq![c].drop_last() =~= Seq::<char>::empty());
    assert(seq![c].last() == c);
    assert(normalized(Seq::<char>::empty()) == Seq::<char>::empty());
    assert(Seq::<char>::empty().push(c) =~= seq![c]);
}

/// Two forms of one identifier that differ by a separator inserted anywhere
/// normalize to the same text.
pub proof fn lemma_normalize_ignores_separator(s: Seq<char>, i: int, c: char)
    requires
        0 <= i <= s.len(),
        is_separator(c),
    ensures
        normalized(s.insert(i, c)) == normalized(s),
{
    let a = s.take(i);
    let b = s.skip(i);
    assert(s.insert(i, c) =~= a + seq![c] + b);
    assert(s =~= a + b);
    lemma_normalize_concat(a + seq![c], b);
    lemma_normalize_concat(a, seq![c]);
    lemma_normalize_concat(a, b);
    assert(seq![c].drop_last() =~= Seq::<char>::empty());
    assert(seq![c].last() == c);
    assert(normalized(Seq::<char>::empty()) == Seq::<char>::empty());
    assert(normalized(seq![c]) == Seq::<char>::empty());
    assert(normalized(a) + normalized(seq![c]) =~= normalized(a));
}

/// Strips every separator character from `id`, so that two textual forms of
/// one identifier compare equal.
pub fn normalize(id: &str) -> (r: String)
    ensures
        r@ == normalized(id@),
{
    let mut out = String::new();
    proof {
        broadcast use vstd::string::axiom_spec_iter;
    }
    for c in it: id.chars()
        invariant
            it.seq() == id@,
            out@ == normalized(it.seq().take(it.index() as int)),
    {
        proof {
            let k = it.index() as int;
            assert(it.seq().take(k + 1).drop_last() == it.seq().take(k));
        }
        if c != '-' {
            push_char(&mut out, c);
        }
    }
    proof {
        assert(id@.take(id@.len() as int) == id@);
    }
    out
}

} // verus!
