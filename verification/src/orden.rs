//! The order in which Rust compares `String`s: lexicographic over the
//! characters, each compared by its code point (UTF-8 keeps that order in
//! its bytes).

use vstd::prelude::*;
use crate::texto::chars_de;

verus! {

/// `a` comes strictly before `b`.
pub open spec fn menor_lex(a: Seq<char>, b: Seq<char>) -> bool
    decreases a.len(),
{
    if a.len() == 0 {
        b.len() > 0
    } else if b.len() == 0 {
        false
    } else if a[0] == b[0] {
        menor_lex(a.drop_first(), b.drop_first())
    } else {
        (a[0] as int) < (b[0] as int)
    }
}

/// No text comes before itself, and of two texts at most one comes first.
pub proof fn lema_menor_asimetrico(a: Seq<char>, b: Seq<char>)
    ensures
        !(menor_lex(a, b) && menor_lex(b, a)),
        !menor_lex(a, a),
    decreases a.len(),
{
    if a.len() > 0 && b.len() > 0 && a[0] == b[0] {
        lema_menor_asimetrico(a.drop_first(), b.drop_first());
    }
    if a.len() > 0 {
        lema_menor_asimetrico(a.drop_first(), a.drop_first());
    }
}

/// Of two different texts, one comes first.
pub proof fn lema_menor_total(a: Seq<char>, b: Seq<char>)
    ensures
        a == b || menor_lex(a, b) || menor_lex(b, a),
    decreases a.len(),
{
    if a.len() > 0 && b.len() > 0 {
        if a[0] == b[0] {
            lema_menor_total(a.drop_first(), b.drop_first());
            if a.drop_first() == b.drop_first() {
                assert(a =~= seq![a[0]] + a.drop_first());
                assert(b =~= seq![b[0]] + b.drop_first());
            }
        } else {
            assert((a[0] as int) != (b[0] as int));
        }
    } else if a.len() == 0 && b.len() == 0 {
        assert(a =~= b);
    }
}

/// The order is transitive.
pub proof fn lema_menor_transitivo(a: Seq<char>, b: Seq<char>, c: Seq<char>)
    requires
        menor_lex(a, b),
        menor_lex(b, c),
    ensures
        menor_lex(a, c),
    decreases a.len(),
{
    if a.len() > 0 && b.len() > 0 && c.len() > 0 && a[0] == b[0] && b[0] == c[0] {
        lema_menor_transitivo(a.drop_first(), b.drop_first(), c.drop_first());
    }
}

/// Whether `a` comes strictly before `b`.
pub fn menor_lex_exec(a: &str, b: &str) -> (r: bool)
    ensures
        r == menor_lex(a@, b@),
{
    let va = chars_de(a);
    let vb = chars_de(b);
    let mut i: usize = 0;
    assert(a@.skip(0) =~= a@);
    assert(b@.skip(0) =~= b@);
    while i < va.len() && i < vb.len()
        invariant
            va@ == a@,
            vb@ == b@,
            i <= va.len(),
            i <= vb.len(),
            menor_lex(a@, b@) == menor_lex(a@.skip(i as int), b@.skip(i as int)),
        decreases va.len() - i,
    {
        let x = va[i];
        let y = vb[i];
        if x != y {
            return x < y;
        }
        assert(a@.skip(i as int).drop_first() =~= a@.skip(i + 1));
        assert(b@.skip(i as int).drop_first() =~= b@.skip(i + 1));
        i = i + 1;
    }
    i < vb.len()
}

} // verus!
