//! The order in which definitions are reported: by kind, then by name, then
//! by identity. Kinds and names are ordered as UTF-8 byte strings, identities
//! by their crate's two words and then by index.

use vstd::prelude::*;
use crate::defs::{AbsDef, AbsItemId, CrateDisambiguator, DefView};
use crate::text::{
    compare_text, lemma_lex_lt_asymmetric, lemma_lex_lt_total, lemma_lex_lt_transitive,
    lemma_utf8_injective, text_lt, utf8, Sign,
};

verus! {

/// `a` comes before `b` among identities.
pub open spec fn id_lt(a: AbsItemId, b: AbsItemId) -> bool {
    ||| a.krate.0 < b.krate.0
    ||| a.krate.0 == b.krate.0 && a.krate.1 < b.krate.1
    ||| a.krate.0 == b.krate.0 && a.krate.1 == b.krate.1 && a.index < b.index
}

/// `a` is reported before `b`.
pub open spec fn def_lt(a: DefView<CrateDisambiguator>, b: DefView<CrateDisambiguator>) -> bool {
    ||| text_lt(a.kind, b.kind)
    ||| a.kind == b.kind && text_lt(a.name, b.name)
    ||| a.kind == b.kind && a.name == b.name && id_lt(a.id, b.id)
}

/// `a` and `b` have the same place in the order: the same kind, name and
/// identity.
pub open spec fn def_same_rank(
    a: DefView<CrateDisambiguator>,
    b: DefView<CrateDisambiguator>,
) -> bool {
    a.kind == b.kind && a.name == b.name && a.id == b.id
}

/// Each definition is reported before the ones that follow it.
pub open spec fn sorted(s: Seq<DefView<CrateDisambiguator>>) -> bool {
    forall|i: int, j: int| 0 <= i < j < s.len() ==> def_lt(s[i], s[j])
}

/// The views of the definitions of a list.
pub open spec fn def_views(s: Seq<&AbsDef>) -> Seq<DefView<CrateDisambiguator>> {
    s.map_values(|d: &AbsDef| d@)
}

/// No definition is reported before itself.
pub proof fn lemma_def_lt_irreflexive(a: DefView<CrateDisambiguator>)
    ensures
        !def_lt(a, a),
{
}

/// Of two definitions, at most one is reported before the other, and then they
/// differ in rank.
pub proof fn lemma_def_lt_asymmetric(
    a: DefView<CrateDisambiguator>,
    b: DefView<CrateDisambiguator>,
)
    requires
        def_lt(a, b),
    ensures
        !def_lt(b, a),
        !def_same_rank(a, b),
{
    if text_lt(a.kind, b.kind) {
        lemma_lex_lt_asymmetric(utf8(a.kind), utf8(b.kind));
    }
    if text_lt(b.kind, a.kind) {
        lemma_lex_lt_asymmetric(utf8(b.kind), utf8(a.kind));
    }
    if text_lt(a.name, b.name) {
        lemma_lex_lt_asymmetric(utf8(a.name), utf8(b.name));
    }
    if text_lt(b.name, a.name) {
        lemma_lex_lt_asymmetric(utf8(b.name), utf8(a.name));
    }
}

/// The order is transitive.
pub proof fn lemma_def_lt_transitive(
    a: DefView<CrateDisambiguator>,
    b: DefView<CrateDisambiguator>,
    c: DefView<CrateDisambiguator>,
)
    requires
        def_lt(a, b),
        def_lt(b, c),
    ensures
        def_lt(a, c),
{
    if text_lt(a.kind, b.kind) && text_lt(b.kind, c.kind) {
        lemma_lex_lt_transitive(utf8(a.kind), utf8(b.kind), utf8(c.kind));
    }
    if text_lt(a.name, b.name) && text_lt(b.name, c.name) {
        lemma_lex_lt_transitive(utf8(a.name), utf8(b.name), utf8(c.name));
    }
}

/// The order is total: two definitions of different rank are ordered.
pub proof fn lemma_def_lt_total(a: DefView<CrateDisambiguator>, b: DefView<CrateDisambiguator>)
    ensures
        def_lt(a, b) || def_lt(b, a) || def_same_rank(a, b),
{
    lemma_lex_lt_total(utf8(a.kind), utf8(b.kind));
    lemma_lex_lt_total(utf8(a.name), utf8(b.name));
    if utf8(a.kind) == utf8(b.kind) {
        lemma_utf8_injective(a.kind, b.kind);
    }
    if utf8(a.name) == utf8(b.name) {
        lemma_utf8_injective(a.name, b.name);
    }
    assert(a.id == b.id || id_lt(a.id, b.id) || id_lt(b.id, a.id)) by {
        if a.id.krate.0 == b.id.krate.0 && a.id.krate.1 == b.id.krate.1 && a.id.index
            == b.id.index {
            assert(a.id.krate == b.id.krate);
        }
    }
}

/// A sorted list holds no definition twice, nor two of the same rank.
pub proof fn lemma_sorted_distinct(s: Seq<DefView<CrateDisambiguator>>)
    requires
        sorted(s),
    ensures
        forall|i: int, j: int| 0 <= i < j < s.len() ==> !def_same_rank(s[i], s[j]),
        s.no_duplicates(),
{
    assert forall|i: int, j: int| 0 <= i < j < s.len() implies !def_same_rank(s[i], s[j]) by {
        lemma_def_lt_asymmetric(s[i], s[j]);
    }
    assert forall|i: int, j: int| 0 <= i < s.len() && 0 <= j < s.len() && i != j implies s[i]
        != s[j] by {
        if i < j {
            lemma_def_lt_asymmetric(s[i], s[j]);
        } else {
            lemma_def_lt_asymmetric(s[j], s[i]);
        }
    }
}

/// Two sorted lists of the same definitions are the same list: what a sorted
/// list holds decides it.
pub proof fn lemma_sorted_unique(
    s: Seq<DefView<CrateDisambiguator>>,
    t: Seq<DefView<CrateDisambiguator>>,
)
    requires
        sorted(s),
        sorted(t),
        forall|d: DefView<CrateDisambiguator>| s.contains(d) <==> t.contains(d),
    ensures
        s == t,
    decreases s.len(),
{
    if s.len() == 0 {
        if t.len() > 0 {
            assert(t.contains(t[0]));
        }
        assert(s =~= t);
    } else if t.len() == 0 {
        assert(s.contains(s[0]));
    } else {
        // The first of each list is the least of what both hold.
        let a = s[0];
        let b = t[0];
        assert(s.contains(a));
        assert(t.contains(b));
        let i = choose|i: int| 0 <= i < t.len() && t[i] == a;
        let j = choose|j: int| 0 <= j < s.len() && s[j] == b;
        if i != 0 {
            if j != 0 {
                lemma_def_lt_asymmetric(a, b);
            }
        }
        assert(a == b);
        let s1 = s.drop_first();
        let t1 = t.drop_first();
        lemma_sorted_distinct(s);
        lemma_sorted_distinct(t);
        assert forall|d: DefView<CrateDisambiguator>| s1.contains(d) <==> t1.contains(d) by {
            if s1.contains(d) {
                let k = choose|k: int| 0 <= k < s1.len() && s1[k] == d;
                assert(s[k + 1] == d);
                assert(s.contains(d));
                let m = choose|m: int| 0 <= m < t.len() && t[m] == d;
                assert(m != 0);
                assert(t1[m - 1] == d);
            }
            if t1.contains(d) {
                let k = choose|k: int| 0 <= k < t1.len() && t1[k] == d;
                assert(t[k + 1] == d);
                assert(t.contains(d));
                let m = choose|m: int| 0 <= m < s.len() && s[m] == d;
                assert(m != 0);
                assert(s1[m - 1] == d);
            }
        }
        assert(sorted(s1)) by {
            assert forall|x: int, y: int| 0 <= x < y < s1.len() implies def_lt(s1[x], s1[y]) by {
                assert(def_lt(s[x + 1], s[y + 1]));
            }
        }
        assert(sorted(t1)) by {
            assert forall|x: int, y: int| 0 <= x < y < t1.len() implies def_lt(t1[x], t1[y]) by {
                assert(def_lt(t[x + 1], t[y + 1]));
            }
        }
        lemma_sorted_unique(s1, t1);
        assert(s =~= seq![a] + s1);
        assert(t =~= seq![b] + t1);
    }
}

/// Compares two identities.
pub fn compare_ids(a: &AbsItemId, b: &AbsItemId) -> (r: Sign)
    ensures
        r is Less <==> id_lt(*a, *b),
        r is Equal <==> *a == *b,
        r is Greater <==> id_lt(*b, *a),
{
    if a.krate.0 < b.krate.0 {
        Sign::Less
    } else if a.krate.0 > b.krate.0 {
        Sign::Greater
    } else if a.krate.1 < b.krate.1 {
        Sign::Less
    } else if a.krate.1 > b.krate.1 {
        Sign::Greater
    } else if a.index < b.index {
        Sign::Less
    } else if a.index > b.index {
        Sign::Greater
    } else {
        assert(a.krate == b.krate);
        Sign::Equal
    }
}

/// Compares two definitions in the order in which they are reported.
pub fn compare_defs(a: &AbsDef, b: &AbsDef) -> (r: Sign)
    ensures
        r is Less <==> def_lt(a@, b@),
        r is Equal <==> def_same_rank(a@, b@),
        r is Greater <==> def_lt(b@, a@),
{
    proof {
        lemma_def_lt_total(a@, b@);
        if def_lt(a@, b@) {
            lemma_def_lt_asymmetric(a@, b@);
        }
        if def_lt(b@, a@) {
            lemma_def_lt_asymmetric(b@, a@);
        }
    }
    match compare_text(a.kind.as_str(), b.kind.as_str()) {
        Sign::Less => Sign::Less,
        Sign::Greater => Sign::Greater,
        Sign::Equal => match compare_text(a.name.as_str(), b.name.as_str()) {
            Sign::Less => Sign::Less,
            Sign::Greater => Sign::Greater,
            Sign::Equal => compare_ids(&a.id, &b.id),
        },
    }
}

/// Puts `d` into a sorted list at its place.
///
/// The list must hold no definition of the rank of `d`. The place is found by
/// halving, so the number of comparisons grows with the logarithm of the
/// length.
pub fn insert_sorted<'a>(out: &mut Vec<&'a AbsDef>, d: &'a AbsDef) -> (at: usize)
    requires
        sorted(def_views(old(out)@)),
        forall|i: int| 0 <= i < old(out)@.len() ==> !def_same_rank(old(out)@[i]@, d@),
    ensures
        at <= old(out)@.len(),
        final(out)@ == old(out)@.insert(at as int, d),
        sorted(def_views(final(out)@)),
{
    let ghost before = def_views(out@);
    let mut lo: usize = 0;
    let mut hi: usize = out.len();
    while lo < hi
        invariant
            lo <= hi <= out@.len(),
            *out == *old(out),
            before == def_views(out@),
            sorted(before),
            forall|i: int| 0 <= i < out@.len() ==> !def_same_rank(out@[i]@, d@),
            forall|i: int| 0 <= i < lo ==> def_lt(before[i], d@),
            forall|i: int| hi <= i < before.len() ==> def_lt(d@, before[i]),
        decreases hi - lo,
    {
        let mid: usize = lo + (hi - lo) / 2;
        let ghost m = before[mid as int];
        assert(m == out@[mid as int]@);
        match compare_defs(out[mid], d) {
            Sign::Less => {
                proof {
                    assert forall|i: int| 0 <= i < mid + 1 implies def_lt(before[i], d@) by {
                        if i < mid {
                            lemma_def_lt_transitive(before[i], m, d@);
                        }
                    }
                }
                lo = mid + 1;
            },
            _ => {
                proof {
                    assert(def_lt(d@, m));
                    assert forall|i: int| mid <= i < before.len() implies def_lt(d@, before[i]) by {
                        if mid < i {
                            lemma_def_lt_transitive(d@, m, before[i]);
                        }
                    }
                }
                hi = mid;
            },
        }
    }
    out.insert(lo, d);
    proof {
        let after = def_views(out@);
        assert forall|i: int, j: int| 0 <= i < j < after.len() implies def_lt(
            after[i],
            after[j],
        ) by {
            let x = if i < lo { i } else { i - 1 };
            let y = if j < lo { j } else { j - 1 };
            if i != lo {
                assert(after[i] == before[x]);
            }
            if j != lo {
                assert(after[j] == before[y]);
            }
        }
    }
    lo
}

} // verus!
