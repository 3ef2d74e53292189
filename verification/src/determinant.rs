//! Slater determinants as bit patterns and the elementary
//! creation/annihilation transition rule, phase included.

use vstd::prelude::*;

verus! {

/// An elementary second-quantized operator: create or annihilate a
/// particle in one single-particle state. Positions must lie below the
/// bit width of the determinant word (64).
#[derive(Clone, Copy, Debug, PartialEq, Eq, Structural)]
pub enum AC {
    /// Create a particle in the given single-particle state.
    Create(u64),
    /// Annihilate the particle in the given single-particle state.
    Annihilate(u64),
}

/// The single-particle state an elementary operator acts on.
pub open spec fn ac_pos(op: AC) -> u64 {
    match op {
        AC::Create(j) => j,
        AC::Annihilate(j) => j,
    }
}

/// True iff bit `j` of `d` is set, i.e. single-particle state `j` is
/// occupied in the determinant with bit pattern `d`.
pub open spec fn occ(d: u64, j: u64) -> bool {
    d & (1u64 << j) != 0
}

/// Number of occupied single-particle states strictly below position
/// `j` in the bit pattern `d`.
pub open spec fn count_below(d: u64, j: u64) -> nat
    decreases j,
{
    if j == 0 {
        0
    } else {
        count_below(d, (j - 1) as u64) + if occ(d, (j - 1) as u64) {
            1nat
        } else {
            0nat
        }
    }
}

/// The fermionic anticommutation phase picked up when an elementary
/// operator acts at position `j` of `d`: +1 when the number of occupied
/// states strictly below `j` is even, -1 when it is odd.
pub open spec fn sign_below(d: u64, j: u64) -> int {
    if count_below(d, j) % 2 == 0 {
        1
    } else {
        -1
    }
}

/// What applying one elementary operator to the determinant with bit
/// pattern `d` yields: `None` for the physical null result (creating in
/// an occupied state or annihilating an empty one), otherwise the phase
/// and the resulting bit pattern.
pub open spec fn elem_result(d: u64, op: AC) -> Option<(int, u64)> {
    match op {
        AC::Create(j) => if occ(d, j) {
            None
        } else {
            Some((sign_below(d, j), d | (1u64 << j)))
        },
        AC::Annihilate(j) => if !occ(d, j) {
            None
        } else {
            Some((sign_below(d, j), d & !(1u64 << j)))
        },
    }
}

/// The mathematical reading of an executable transition result: the
/// phase widened to `int` and the determinant replaced by its bit
/// pattern.
pub open spec fn result_model(r: Option<(i32, Slater)>) -> Option<(int, u64)> {
    match r {
        None => None,
        Some((s, d)) => Some((s as int, d.index)),
    }
}

/// Creating in an occupied state and annihilating an empty one are the
/// physical null results, for every determinant and every position.
pub proof fn lemma_null_result(d: u64, j: u64)
    ensures
        occ(d, j) ==> elem_result(d, AC::Create(j)) is None,
        !occ(d, j) ==> elem_result(d, AC::Annihilate(j)) is None,
{
}

/// Testing one bit by shifting agrees with the occupation predicate.
proof fn lemma_bit_test(d: u64, i: u64)
    by (bit_vector)
    requires
        i < 64,
    ensures
        ((d >> i) & 1u64 == 1u64) <==> occ(d, i),
{
}

/// The all-zero pattern has no occupied state.
proof fn lemma_zero_bit(j: u64)
    by (bit_vector)
    requires
        j < 64,
    ensures
        !occ(0u64, j),
{
}

/// Setting bit `i` leaves every other bit alone and sets bit `i`.
pub proof fn lemma_set_bit(d: u64, i: u64, j: u64)
    by (bit_vector)
    requires
        i < 64,
        j < 64,
    ensures
        occ(d | (1u64 << i), j) <==> (occ(d, j) || j == i),
{
}

/// Two patterns that agree on every bit below `j` have the same count
/// of occupied states below `j`.
pub proof fn lemma_count_below_agree(d1: u64, d2: u64, j: u64)
    requires
        j <= 64,
        forall|i: u64| i < j ==> occ(d1, i) == occ(d2, i),
    ensures
        count_below(d1, j) == count_below(d2, j),
    decreases j,
{
    if j > 0 {
        lemma_count_below_agree(d1, d2, (j - 1) as u64);
    }
}

/// A single, unique Slater determinant: bit `j` of `index` set means
/// single-particle state `j` is occupied.
#[derive(Clone, Copy, Debug, PartialEq, Eq, Hash, Structural)]
pub struct Slater {
    /// The unique index (occupation bit pattern) of the determinant.
    pub index: u64,
}

/// Computes the parity of the number of occupied states strictly below
/// position `j`: true exactly when that count is odd.
fn parity_below(d: u64, j: u64) -> (odd: bool)
    requires
        j < 64,
    ensures
        odd == (count_below(d, j) % 2 == 1),
{
    let mut odd: bool = false;
    let mut i: u64 = 0;
    while i < j
        invariant
            i <= j,
            j < 64,
            odd == (count_below(d, i) % 2 == 1),
        decreases j - i,
    {
        proof {
            lemma_bit_test(d, i);
        }
        if (d >> i) & 1 == 1 {
            odd = !odd;
        }
        i = i + 1;
    }
    odd
}

impl Slater {
    /// Returns the Slater determinant with the supplied index.
    pub fn new(index: u64) -> (r: Self)
        ensures
            r.index == index,
    {
        Self { index }
    }

    /// Returns the Slater determinant in which exactly the supplied
    /// single-particle states are occupied, or an error if the list
    /// contains the same state twice.
    pub fn from_vec(arr: Vec<u64>) -> (r: Result<Self, &'static str>)
        requires
            forall|k: int| 0 <= k < arr@.len() ==> arr@[k] < 64,
        ensures
            (r is Ok) <==> arr@.no_duplicates(),
            r matches Ok(d) ==> forall|j: u64|
                j < 64 ==> (occ(d.index, j) <==> arr@.contains(j)),
            r matches Err(m) ==> m@ == "State array contains repeated index!"@,
    {
        let mut index: u64 = 0;
        let mut n: usize = 0;
        proof {
            assert forall|j: u64| j < 64 implies !occ(0u64, j) by {
                lemma_zero_bit(j);
            }
        }
        while n < arr.len()
            invariant
                n <= arr@.len(),
                forall|k: int| 0 <= k < arr@.len() ==> arr@[k] < 64,
                arr@.take(n as int).no_duplicates(),
                forall|j: u64|
                    j < 64 ==> (occ(index, j) <==> arr@.take(n as int).contains(j)),
            decreases arr@.len() - n,
        {
            let i = arr[n];
            if index & (1u64 << i) != 0 {
                proof {
                    let t = arr@.take(n as int);
                    assert(occ(index, i));
                    assert(t.contains(i));
                    let k = choose|k: int| 0 <= k < t.len() && t[k] == i;
                    assert(arr@[k] == arr@[n as int]);
                }
                return Err("State array contains repeated index!");
            }
            let new_index = index | (1u64 << i);
            proof {
                let t = arr@.take(n as int);
                let t1 = arr@.take(n as int + 1);
                assert forall|j: u64|
                    j < 64 implies (occ(new_index, j) <==> t1.contains(j)) by {
                    lemma_set_bit(index, i, j);
                    if t1.contains(j) {
                        let k = choose|k: int| 0 <= k < t1.len() && t1[k] == j;
                        if k < n as int {
                            assert(t[k] == j);
                            assert(t.contains(j));
                        } else {
                            assert(j == i);
                        }
                        assert(occ(new_index, j));
                    }
                    if occ(new_index, j) {
                        if j == i {
                            assert(t1[n as int] == j);
                            assert(t1.contains(j));
                        } else {
                            assert(occ(index, j));
                            assert(t.contains(j));
                            let k = choose|k: int| 0 <= k < t.len() && t[k] == j;
                            assert(t1[k] == j);
                            assert(t1.contains(j));
                        }
                    }
                }
                assert(!occ(index, i));
                assert(!t.contains(i));
                assert(t1.no_duplicates()) by {
                    assert forall|a: int, b: int|
                        0 <= a < t1.len() && 0 <= b < t1.len() && a != b implies t1[a]
                        != t1[b] by {
                        if a < n as int && b < n as int {
                            assert(t[a] == t1[a] && t[b] == t1[b]);
                        } else if a == n as int && b < n as int {
                            assert(t[b] == t1[b]);
                            assert(t.contains(t1[b]) ==> t1[b] != i) by {
                                if t[b] == i {
                                    assert(t.contains(i));
                                }
                            }
                        } else {
                            assert(t[a] == t1[a]);
                            if t[a] == i {
                                assert(t.contains(i));
                            }
                        }
                    }
                }
            }
            index = new_index;
            n = n + 1;
        }
        proof {
            assert(arr@.take(arr@.len() as int) =~= arr@);
        }
        Ok(Self { index })
    }

    /// Returns the determinant obtained by creating a particle in state
    /// `j`, ignoring phase factors, or `None` if `j` is already
    /// occupied (Pauli exclusion: the physical null result).
    pub fn create(self, j: &u64) -> (r: Option<Self>)
        requires
            *j < 64,
        ensures
            (r is Some) <==> !occ(self.index, *j),
            r matches Some(d) ==> d.index == self.index | (1u64 << *j),
    {
        if self.index & (1u64 << *j) == 0 {
            Some(Self { index: self.index | (1u64 << *j) })
        } else {
            None
        }
    }

    /// Returns the determinant obtained by annihilating the particle in
    /// state `j`, ignoring phase factors, or `None` if `j` is empty
    /// (the physical null result).
    pub fn annihilate(self, j: &u64) -> (r: Option<Self>)
        requires
            *j < 64,
        ensures
            (r is Some) <==> occ(self.index, *j),
            r matches Some(d) ==> d.index == self.index & !(1u64 << *j),
    {
        if self.index & (1u64 << *j) == 0 {
            None
        } else {
            Some(Self { index: self.index & !(1u64 << *j) })
        }
    }

    /// Applies the elementary operator `op` to this determinant, phase
    /// factor included: `None` is the physical null result, otherwise
    /// the fermionic sign and the new determinant are returned exactly
    /// as `elem_result` describes them.
    pub fn apply(&self, op: &AC) -> (r: Option<(i32, Self)>)
        requires
            ac_pos(*op) < 64,
        ensures
            result_model(r) == elem_result(self.index, *op),
    {
        match op {
            AC::Create(pos) => {
                match (*self).create(pos) {
                    Some(new_state) => {
                        if !parity_below(self.index, *pos) {
                            Some((1i32, new_state))
                        } else {
                            Some((-1i32, new_state))
                        }
                    },
                    None => None,
                }
            },
            AC::Annihilate(pos) => {
                match (*self).annihilate(pos) {
                    Some(new_state) => {
                        if !parity_below(self.index, *pos) {
                            Some((1i32, new_state))
                        } else {
                            Some((-1i32, new_state))
                        }
                    },
                    None => None,
                }
            },
        }
    }
}

} // verus!
