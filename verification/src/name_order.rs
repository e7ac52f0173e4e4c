//! The order in which alias names are listed: code point by code point,
//! a proper prefix before any of its extensions.

use vstd::prelude::*;

verus! {

/// `a` and `b` agree on their first `k` characters, and at position `k`
/// either `a` ends while `b` goes on, or `a` holds the smaller character.
pub open spec fn precedes_at(a: Seq<char>, b: Seq<char>, k: int) -> bool {
    &&& 0 <= k <= a.len()
    &&& k < b.len()
    &&& forall|j: int| 0 <= j < k ==> a[j] == b[j]
    &&& (k == a.len() || (a[k] as u32) < (b[k] as u32))
}

/// `a` stands strictly before `b` in the listing order.
pub open spec fn precedes(a: Seq<char>, b: Seq<char>) -> bool {
    exists|k: int| precedes_at(a, b, k)
}

/// Every name of `s` stands strictly before each later one.
pub open spec fn ascending(s: Seq<Seq<char>>) -> bool {
    forall|i: int, j: int| 0 <= i < j < s.len() ==> precedes(s[i], s[j])
}

/// No name stands before itself.
pub proof fn lemma_precedes_irreflexive(a: Seq<char>)
    ensures
        !precedes(a, a),
{
}

/// The listing order is transitive.
pub proof fn lemma_precedes_transitive(a: Seq<char>, b: Seq<char>, c: Seq<char>)
    requires
        precedes(a, b),
        precedes(b, c),
    ensures
        precedes(a, c),
{
    let k1 = choose|k: int| precedes_at(a, b, k);
    let k2 = choose|k: int| precedes_at(b, c, k);
    let k = if k1 <= k2 { k1 } else { k2 };
    assert(precedes_at(a, c, k));
}

/// Of two names, one stands before the other only if it does not stand after it.
pub proof fn lemma_precedes_asymmetric(a: Seq<char>, b: Seq<char>)
    requires
        precedes(a, b),
    ensures
        !precedes(b, a),
        a != b,
{
    if precedes(b, a) {
        lemma_precedes_transitive(a, b, a);
    }
}

/// How one name stands to another in the listing order.
#[derive(Clone, Copy, Debug, PartialEq, Eq)]
pub enum NameOrder {
    Before,
    Same,
    After,
}

/// What `order_names` answers for two names.
pub open spec fn order_of(a: Seq<char>, b: Seq<char>) -> NameOrder {
    if a == b {
        NameOrder::Same
    } else if precedes(a, b) {
        NameOrder::Before
    } else {
        NameOrder::After
    }
}

/// Compares two names character by character.
pub fn order_names(a: &str, b: &str) -> (r: NameOrder)
    ensures
        r == order_of(a@, b@),
        r == NameOrder::Before <==> precedes(a@, b@),
        r == NameOrder::Same <==> a@ == b@,
        r == NameOrder::After <==> precedes(b@, a@),
{
    let la: usize = a.unicode_len();
    let lb: usize = b.unicode_len();
    let mut i: usize = 0;
    while i < la && i < lb
        invariant
            i <= la,
            i <= lb,
            la == a@.len(),
            lb == b@.len(),
            forall|j: int| 0 <= j < i ==> a@[j] == b@[j],
        decreases la - i,
    {
        let ca: char = a.get_char(i);
        let cb: char = b.get_char(i);
        if ca != cb {
            if (ca as u32) < (cb as u32) {
                proof {
                    assert(precedes_at(a@, b@, i as int));
                    lemma_precedes_asymmetric(a@, b@);
                }
                return NameOrder::Before;
            } else {
                proof {
                    assert(precedes_at(b@, a@, i as int));
                    lemma_precedes_asymmetric(b@, a@);
                }
                return NameOrder::After;
            }
        }
        i += 1;
    }
    if i == la && i == lb {
        proof {
            assert(a@ =~= b@);
            lemma_precedes_irreflexive(a@);
        }
        NameOrder::Same
    } else if i == la {
        proof {
            assert(precedes_at(a@, b@, i as int));
            lemma_precedes_asymmetric(a@, b@);
        }
        NameOrder::Before
    } else {
        proof {
            assert(precedes_at(b@, a@, i as int));
            lemma_precedes_asymmetric(b@, a@);
        }
        NameOrder::After
    }
}

} // verus!
