use vstd::prelude::*;

use crate::identity::{chars_of, FactId};

verus! {

/// Lexicographic order of character sequences by code point, the order of
/// `str` comparison.
pub open spec fn lex_less(a: Seq<char>, b: Seq<char>) -> bool
    decreases a.len(),
{
    if a.len() == 0 {
        b.len() > 0
    } else if b.len() == 0 {
        false
    } else if a[0] != b[0] {
        (a[0] as int) < (b[0] as int)
    } else {
        lex_less(a.drop_first(), b.drop_first())
    }
}

/// Strictly increasing in lexicographic order, so without repetition.
pub open spec fn strictly_sorted(s: Seq<Seq<char>>) -> bool {
    forall|i: int, j: int| 0 <= i < j < s.len() ==> lex_less(#[trigger] s[i], #[trigger] s[j])
}

/// No sequence precedes itself.
pub proof fn lemma_lex_irreflexive(a: Seq<char>)
    ensures
        !lex_less(a, a),
    decreases a.len(),
{
    if a.len() > 0 {
        lemma_lex_irreflexive(a.drop_first());
    }
}

/// The order is transitive.
pub proof fn lemma_lex_transitive(a: Seq<char>, b: Seq<char>, c: Seq<char>)
    requires
        lex_less(a, b),
        lex_less(b, c),
    ensures
        lex_less(a, c),
    decreases a.len(),
{
    if a.len() > 0 && b.len() > 0 && c.len() > 0 && a[0] == b[0] && b[0] == c[0] {
        lemma_lex_transitive(a.drop_first(), b.drop_first(), c.drop_first());
    }
}

/// Of two sequences, one precedes the other or they are equal.
pub proof fn lemma_lex_total(a: Seq<char>, b: Seq<char>)
    ensures
        a == b || lex_less(a, b) || lex_less(b, a),
    decreases a.len(),
{
    if a.len() > 0 && b.len() > 0 && a[0] == b[0] {
        lemma_lex_total(a.drop_first(), b.drop_first());
        if a.drop_first() == b.drop_first() {
            assert(a =~= seq![a[0]] + a.drop_first());
            assert(b =~= seq![b[0]] + b.drop_first());
        }
    } else if a.len() == 0 && b.len() == 0 {
        assert(a =~= b);
    } else if a.len() > 0 && b.len() > 0 {
        assert((a[0] as int) != (b[0] as int));
    }
}

proof fn lemma_char_code(c: char)
    ensures
        (c as u32) as int == c as int,
{
}

proof fn lemma_lex_skip(a: Seq<char>, b: Seq<char>, i: int)
    requires
        0 <= i <= a.len(),
        i <= b.len(),
        forall|k: int| 0 <= k < i ==> a[k] == b[k],
    ensures
        lex_less(a, b) == lex_less(a.skip(i), b.skip(i)),
    decreases i,
{
    if i > 0 {
        lemma_lex_skip(a.drop_first(), b.drop_first(), i - 1);
        assert(a.drop_first().skip(i - 1) =~= a.skip(i));
        assert(b.drop_first().skip(i - 1) =~= b.skip(i));
    } else {
        assert(a.skip(0) =~= a);
        assert(b.skip(0) =~= b);
    }
}

/// Whether `a` precedes `b` in lexicographic order.
pub fn str_less(a: &str, b: &str) -> (r: bool)
    ensures
        r == lex_less(a@, b@),
{
    let x = chars_of(a);
    let y = chars_of(b);
    let mut i: usize = 0;
    while i < x.len() && i < y.len() && x[i] == y[i]
        invariant
            x@ == a@,
            y@ == b@,
            i <= x@.len(),
            i <= y@.len(),
            forall|k: int| 0 <= k < i ==> x@[k] == y@[k],
        decreases x@.len() - i,
    {
        i = i + 1;
    }
    proof {
        lemma_lex_skip(a@, b@, i as int);
    }
    if i == x.len() {
        i < y.len()
    } else if i == y.len() {
        false
    } else {
        let cx = x[i];
        let cy = y[i];
        proof {
            assert(a@.skip(i as int)[0] == cx);
            assert(b@.skip(i as int)[0] == cy);
            lemma_char_code(cx);
            lemma_char_code(cy);
        }
        (cx as u32) < (cy as u32)
    }
}

/// Whether two strings hold the same characters.
pub fn str_eq(a: &str, b: &str) -> (r: bool)
    ensures
        r == (a@ == b@),
{
    let x = chars_of(a);
    let y = chars_of(b);
    if x.len() != y.len() {
        return false;
    }
    let mut i: usize = 0;
    while i < x.len()
        invariant
            x@ == a@,
            y@ == b@,
            x@.len() == y@.len(),
            i <= x@.len(),
            forall|k: int| 0 <= k < i ==> x@[k] == y@[k],
        decreases x@.len() - i,
    {
        if x[i] != y[i] {
            return false;
        }
        i = i + 1;
    }
    assert(a@ =~= b@);
    true
}

/// Inserts a fact into a strictly sorted list unless an equal one is there.
pub(crate) fn insert_sorted(v: &mut Vec<FactId>, f: &FactId)
    requires
        strictly_sorted(old(v).deep_view()),
    ensures
        strictly_sorted(final(v).deep_view()),
        final(v).deep_view().to_set() == old(v).deep_view().to_set().insert(f@),
{
    let ghost s = v.deep_view();
    let mut j: usize = 0;
    while j < v.len() && str_less(v[j].as_str(), f.as_str())
        invariant
            j <= v@.len(),
            v.deep_view() == s,
            strictly_sorted(s),
            forall|k: int| 0 <= k < j ==> lex_less(#[trigger] s[k], f@),
        decreases v@.len() - j,
    {
        j = j + 1;
    }
    if j < v.len() && v[j].same(f) {
        assert(s.to_set().insert(f@) =~= s.to_set()) by {
            assert(s[j as int] == f@);
        }
        return;
    }
    proof {
        if j < s.len() {
            lemma_lex_total(s[j as int], f@);
        }
    }
    let ghost before = v@;
    let g = f.duplicate();
    v.insert(j, g);
    proof {
        let t = v.deep_view();
        assert(t.len() == s.len() + 1);
        assert forall|k: int| 0 <= k < t.len() implies #[trigger] t[k] == (if k < j {
            s[k]
        } else if k == j {
            f@
        } else {
            s[k - 1]
        }) by {
            assert(v@ == before.insert(j as int, g));
            before.insert_ensures(j as int, g);
        }
        assert forall|a: int, b: int| 0 <= a < b < t.len() implies lex_less(
            #[trigger] t[a],
            #[trigger] t[b],
        ) by {
            if a == j && b - 1 > j {
                lemma_lex_transitive(f@, s[j as int], s[b - 1]);
            }
        }
        assert forall|x: Seq<char>| t.to_set().contains(x) == s.to_set().insert(f@).contains(x) by {
            if t.contains(x) {
                let k = choose|k: int| 0 <= k < t.len() && t[k] == x;
                if k < j {
                    assert(s[k] == x);
                } else if k > j {
                    assert(s[k - 1] == x);
                }
            }
            if s.contains(x) {
                let k = choose|k: int| 0 <= k < s.len() && s[k] == x;
                if k < j {
                    assert(t[k] == x);
                } else {
                    assert(t[k + 1] == x);
                }
            }
            if x == f@ {
                assert(t[j as int] == x);
            }
        }
        assert(t.to_set() =~= s.to_set().insert(f@));
    }
}

} // verus!
