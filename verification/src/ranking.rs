//! The order in which usage breakdowns are listed: most tokens first,
//! ties by name, and the choice of the first three in that order.

use vstd::prelude::*;

verus! {

/// Whether name `a` sorts before name `b`: the first differing character
/// decides by its code point, and a proper prefix sorts first. This is the
/// order of `String`'s `Ord` (UTF-8 bytes sort as code points do).
pub open spec fn name_lt(a: Seq<char>, b: Seq<char>) -> bool
    decreases a.len(),
{
    if a.len() == 0 {
        b.len() > 0
    } else if b.len() == 0 {
        false
    } else if a[0] != b[0] {
        (a[0] as int) < (b[0] as int)
    } else {
        name_lt(a.drop_first(), b.drop_first())
    }
}

pub proof fn lemma_name_lt_irreflexive(a: Seq<char>)
    ensures
        !name_lt(a, a),
    decreases a.len(),
{
    if a.len() > 0 {
        lemma_name_lt_irreflexive(a.drop_first());
    }
}

pub proof fn lemma_name_lt_asymmetric(a: Seq<char>, b: Seq<char>)
    ensures
        name_lt(a, b) ==> !name_lt(b, a),
    decreases a.len(),
{
    if a.len() > 0 && b.len() > 0 && a[0] == b[0] {
        lemma_name_lt_asymmetric(a.drop_first(), b.drop_first());
    }
}

pub proof fn lemma_name_lt_total(a: Seq<char>, b: Seq<char>)
    ensures
        a != b ==> name_lt(a, b) || name_lt(b, a),
    decreases a.len(),
{
    if a.len() > 0 && b.len() > 0 && a[0] == b[0] {
        lemma_name_lt_total(a.drop_first(), b.drop_first());
        if a.drop_first() == b.drop_first() {
            assert(a =~= seq![a[0]] + a.drop_first());
            assert(b =~= seq![b[0]] + b.drop_first());
        }
    } else if a.len() == 0 && b.len() == 0 {
        assert(a =~= b);
    } else if a.len() > 0 && b.len() > 0 {
        let x = a[0] as int;
        let y = b[0] as int;
        assert(x != y) by {
            if x == y {
                assert(a[0] == b[0]);
            }
        }
    }
}

pub proof fn lemma_name_lt_transitive(a: Seq<char>, b: Seq<char>, c: Seq<char>)
    ensures
        name_lt(a, b) && name_lt(b, c) ==> name_lt(a, c),
    decreases a.len(),
{
    if a.len() > 0 && b.len() > 0 && c.len() > 0 {
        lemma_name_lt_transitive(a.drop_first(), b.drop_first(), c.drop_first());
        if name_lt(a, b) && name_lt(b, c) && a[0] == c[0] {
            let x = a[0] as int;
            let y = b[0] as int;
            let z = c[0] as int;
            assert(x == z);
            if a[0] != b[0] {
                assert(x < y);
                assert(b[0] != c[0]);
                assert(y < z);
            }
        }
    }
}

/// The code point of `c`.
pub fn char_code(c: char) -> (r: u32)
    ensures
        r as int == c as int,
{
    c as u32
}

/// Decides `name_lt`.
pub fn name_before(a: &Vec<char>, b: &Vec<char>) -> (r: bool)
    ensures
        r == name_lt(a@, b@),
{
    let mut k: usize = 0;
    assert(a@.skip(0) =~= a@);
    assert(b@.skip(0) =~= b@);
    while k < a.len() && k < b.len() && a[k] == b[k]
        invariant
            k <= a@.len(),
            k <= b@.len(),
            name_lt(a@, b@) == name_lt(a@.skip(k as int), b@.skip(k as int)),
        decreases a@.len() - k,
    {
        assert(a@.skip(k as int).drop_first() =~= a@.skip(k + 1));
        assert(b@.skip(k as int).drop_first() =~= b@.skip(k + 1));
        k = k + 1;
    }
    if k == a.len() {
        k < b.len()
    } else if k == b.len() {
        false
    } else {
        assert(a@.skip(k as int)[0] == a@[k as int]);
        assert(b@.skip(k as int)[0] == b@[k as int]);
        char_code(a[k]) < char_code(b[k])
    }
}

/// Whether the entry (tokens `t1`, name `n1`) is listed before the entry
/// (`t2`, `n2`): more tokens first, then by name.
pub open spec fn ranks_before(t1: int, n1: Seq<char>, t2: int, n2: Seq<char>) -> bool {
    t1 > t2 || (t1 == t2 && name_lt(n1, n2))
}

pub proof fn lemma_ranks_before_strict(t1: int, n1: Seq<char>, t2: int, n2: Seq<char>)
    ensures
        ranks_before(t1, n1, t2, n2) ==> !ranks_before(t2, n2, t1, n1),
        !ranks_before(t1, n1, t1, n1),
        n1 != n2 ==> ranks_before(t1, n1, t2, n2) || ranks_before(t2, n2, t1, n1),
{
    lemma_name_lt_asymmetric(n1, n2);
    lemma_name_lt_irreflexive(n1);
    lemma_name_lt_total(n1, n2);
}

pub proof fn lemma_ranks_before_transitive(
    t1: int,
    n1: Seq<char>,
    t2: int,
    n2: Seq<char>,
    t3: int,
    n3: Seq<char>,
)
    ensures
        ranks_before(t1, n1, t2, n2) && ranks_before(t2, n2, t3, n3) ==> ranks_before(
            t1,
            n1,
            t3,
            n3,
        ),
{
    lemma_name_lt_transitive(n1, n2, n3);
}

} // verus!
