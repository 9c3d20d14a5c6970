//! Matching a configured key chord against an incoming binding event.

use vstd::prelude::*;
use crate::events::BindType;
use crate::events::BindingData;
use vstd::set_lib::lemma_len_subset;

verus! {

/// Two optional symbols denote the same key (both absent, or equal text).
pub open spec fn opt_str_eq(a: Option<String>, b: Option<String>) -> bool {
    match (a, b) {
        (Option::None, Option::None) => true,
        (Option::Some(x), Option::Some(y)) => x@ == y@,
        _ => false,
    }
}

/// `x` occurs among the modifier names `m`.
pub open spec fn mask_contains(m: Seq<String>, x: Seq<char>) -> bool {
    exists|j: int| 0 <= j < m.len() && #[trigger] m[j]@ == x
}

/// A configured chord: modifier names, optional symbol, input class.
pub struct KeyBinding {
    pub event_state_mask: Vec<String>,
    pub symbol: Option<String>,
    pub input_type: BindType,
}

/// A chord matches an observed binding event exactly when the symbols are
/// equal (or both absent), the input classes are equal, and the modifier
/// sets have the same cardinality with every observed modifier configured.
pub open spec fn matches_spec(kb: &KeyBinding, other: &BindingData) -> bool {
    &&& opt_str_eq(kb.symbol, other.binding.symbol)
    &&& kb.input_type == other.binding.input_type
    &&& kb.event_state_mask@.len() == other.binding.event_state_mask@.len()
    &&& forall|i: int|
        0 <= i < other.binding.event_state_mask@.len() ==> mask_contains(
            kb.event_state_mask@,
            #[trigger] other.binding.event_state_mask@[i]@,
        )
}

impl KeyBinding {
    /// Decide whether this configured chord matches an incoming binding
    /// event, per `matches_spec`.
    pub fn matches(&self, other: &BindingData) -> (r: bool)
        ensures
            r == matches_spec(self, other),
    {
        let sym_eq = match (&self.symbol, &other.binding.symbol) {
            (Option::None, Option::None) => true,
            (Option::Some(a), Option::Some(b)) => *a == *b,
            _ => false,
        };
        if !sym_eq {
            return false;
        }
        if self.input_type != other.binding.input_type {
            return false;
        }
        if self.event_state_mask.len() != other.binding.event_state_mask.len() {
            return false;
        }
        let n = other.binding.event_state_mask.len();
        let mut i: usize = 0;
        while i < n
            invariant
                n == other.binding.event_state_mask@.len(),
                i <= n,
                forall|k: int|
                    0 <= k < i ==> mask_contains(
                        self.event_state_mask@,
                        #[trigger] other.binding.event_state_mask@[k]@,
                    ),
            decreases n - i,
        {
            let needle = &other.binding.event_state_mask[i];
            let m = self.event_state_mask.len();
            let mut j: usize = 0;
            let mut found = false;
            while j < m && !found
                invariant
                    m == self.event_state_mask@.len(),
                    j <= m,
                    found ==> mask_contains(self.event_state_mask@, needle@),
                    !found ==> forall|k: int|
                        0 <= k < j ==> #[trigger] self.event_state_mask@[k]@ != needle@,
                decreases m - j + (if found {
                    0int
                } else {
                    1int
                }),
            {
                if self.event_state_mask[j] == *needle {
                    found = true;
                } else {
                    j += 1;
                }
            }
            if !found {
                assert(!mask_contains(self.event_state_mask@, needle@));
                return false;
            }
            i += 1;
        }
        true
    }
}

/// The set of modifier names a list denotes.
pub open spec fn mask_set(m: Seq<String>) -> Set<Seq<char>> {
    Set::new(|x: Seq<char>| mask_contains(m, x))
}

/// No modifier name occurs twice.
pub open spec fn distinct_mods(m: Seq<String>) -> bool {
    forall|i: int, j: int| 0 <= i < j < m.len() ==> (#[trigger] m[i])@ != (#[trigger] m[j])@
}

proof fn lemma_mask_set_card(m: Seq<String>)
    requires
        distinct_mods(m),
    ensures
        mask_set(m).finite(),
        mask_set(m).len() == m.len(),
    decreases m.len(),
{
    if m.len() == 0 {
        assert(mask_set(m) =~= Set::<Seq<char>>::empty());
    } else {
        let m0 = m.drop_last();
        assert(distinct_mods(m0)) by {
            assert forall|i: int, j: int| 0 <= i < j < m0.len() implies (#[trigger] m0[i])@ != (
            #[trigger] m0[j])@ by {
                assert(m0[i] == m[i]);
                assert(m0[j] == m[j]);
            }
        }
        lemma_mask_set_card(m0);
        let last = m.last()@;
        assert forall|x: Seq<char>| true implies mask_contains(m, x) == (mask_contains(m0, x) || x
            == last) by {
            if mask_contains(m, x) {
                let j = choose|j: int| 0 <= j < m.len() && (#[trigger] m[j])@ == x;
                if j < m.len() - 1 {
                    assert(m0[j] == m[j]);
                    assert(mask_contains(m0, x));
                }
            }
            if mask_contains(m0, x) {
                let j = choose|j: int| 0 <= j < m0.len() && (#[trigger] m0[j])@ == x;
                assert(m[j] == m0[j]);
                assert(mask_contains(m, x));
            }
            if x == last {
                assert(m[m.len() - 1]@ == x);
                assert(mask_contains(m, x));
            }
        }
        assert(mask_set(m) =~= mask_set(m0).insert(last));
        assert(!mask_set(m0).contains(last)) by {
            if mask_contains(m0, last) {
                let j = choose|j: int| 0 <= j < m0.len() && (#[trigger] m0[j])@ == last;
                assert(m[j]@ == m[m.len() - 1]@);
            }
        }
    }
}

/// Law: for duplicate-free modifier lists, the matcher decides exactly
/// this: the symbols are equal (or both absent), the input classes are
/// equal, and the two modifier sets are equal — same cardinality and
/// full containment both ways.
pub proof fn lemma_matches_is_set_equality(kb: &KeyBinding, bd: &BindingData)
    requires
        distinct_mods(kb.event_state_mask@),
        distinct_mods(bd.binding.event_state_mask@),
    ensures
        matches_spec(kb, bd) <==> (opt_str_eq(kb.symbol, bd.binding.symbol) && kb.input_type
            == bd.binding.input_type && mask_set(kb.event_state_mask@) == mask_set(
            bd.binding.event_state_mask@,
        )),
{
    let a = kb.event_state_mask@;
    let b = bd.binding.event_state_mask@;
    lemma_mask_set_card(a);
    lemma_mask_set_card(b);
    if matches_spec(kb, bd) {
        assert(mask_set(b).subset_of(mask_set(a))) by {
            assert forall|x: Seq<char>| mask_set(b).contains(x) implies mask_set(a).contains(
                x,
            ) by {
                let j = choose|j: int| 0 <= j < b.len() && (#[trigger] b[j])@ == x;
                assert(mask_contains(a, b[j]@));
            }
        }
        if mask_set(a) != mask_set(b) {
            assert(!(mask_set(a) =~= mask_set(b)));
            let x = choose|x: Seq<char>|
                mask_set(a).contains(x) != #[trigger] mask_set(b).contains(x);
            assert(mask_set(a).contains(x) && !mask_set(b).contains(x));
            let smaller = mask_set(a).remove(x);
            assert(mask_set(b).subset_of(smaller));
            lemma_len_subset(mask_set(b), smaller);
            assert(smaller.len() == mask_set(a).len() - 1);
            assert(false);
        }
    }
    if opt_str_eq(kb.symbol, bd.binding.symbol) && kb.input_type == bd.binding.input_type
        && mask_set(a) == mask_set(b) {
        assert(a.len() == b.len());
        assert forall|i: int| 0 <= i < b.len() implies mask_contains(
            a,
            (#[trigger] b[i])@,
        ) by {
            assert(mask_set(b).contains(b[i]@));
            assert(mask_set(a).contains(b[i]@));
        }
        assert(matches_spec(kb, bd));
    }
}

} // verus!
