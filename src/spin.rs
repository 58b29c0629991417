use vstd::prelude::*;
use crate::scalar::Sign;
use crate::params::SolveError;

verus! {

/// The spin that a final position of the given sign encodes.
pub open spec fn spin_of(s: Sign) -> i8 {
    if s == Sign::Positive {
        1i8
    } else {
        -1i8
    }
}

/// True when no oscillator stayed exactly at the origin.
pub open spec fn all_decided(signs: Seq<Sign>) -> bool {
    forall|i: int| 0 <= i < signs.len() ==> signs[i] != Sign::Zero
}

/// The first index whose sign is `Zero`.
pub open spec fn is_first_undecided(signs: Seq<Sign>, k: int) -> bool {
    &&& 0 <= k < signs.len()
    &&& signs[k] == Sign::Zero
    &&& forall|i: int| 0 <= i < k ==> signs[i] != Sign::Zero
}

/// `r` is the result of reading spins from `signs`: `Ok` exactly when no sign
/// is `Zero`, with one spin per sign; otherwise the first undecided index.
pub open spec fn spins_match(signs: Seq<Sign>, r: Result<Vec<i8>, SolveError>) -> bool {
    &&& all_decided(signs) <==> r is Ok
    &&& r matches Ok(spins) ==> spins@ == signs.map_values(|s: Sign| spin_of(s))
    &&& r matches Err(e) ==> (e matches SolveError::UndecidedOscillator { index }
        && is_first_undecided(signs, index as int))
}

/// The spin of one decided oscillator.
pub fn spin_value(s: Sign) -> (r: i8)
    ensures
        r == spin_of(s),
{
    match s {
        Sign::Positive => 1,
        _ => -1,
    }
}

/// Turns the signs of the final positions into a spin vector.
///
/// Succeeds exactly when no position is zero; otherwise reports the first
/// index that stayed at the origin.
pub fn spins_from_signs(signs: &Vec<Sign>) -> (r: Result<Vec<i8>, SolveError>)
    ensures
        spins_match(signs@, r),
{
    let mut spins: Vec<i8> = Vec::with_capacity(signs.len());
    let mut i: usize = 0;
    while i < signs.len()
        invariant
            i <= signs@.len(),
            spins@ == signs@.subrange(0, i as int).map_values(|s: Sign| spin_of(s)),
            forall|k: int| 0 <= k < i ==> signs@[k] != Sign::Zero,
        decreases signs@.len() - i,
    {
        if signs[i] == Sign::Zero {
            return Err(SolveError::UndecidedOscillator { index: i });
        }
        spins.push(spin_value(signs[i]));
        i = i + 1;
        assert(spins@ =~= signs@.subrange(0, i as int).map_values(|s: Sign| spin_of(s)));
    }
    assert(signs@.subrange(0, i as int) =~= signs@);
    Ok(spins)
}

/// Every spin vector that extraction produces has one entry per oscillator,
/// and each entry is exactly -1 or +1.
pub proof fn lemma_spins_shape_and_domain(signs: Seq<Sign>, spins: Seq<i8>)
    requires
        spins == signs.map_values(|s: Sign| spin_of(s)),
    ensures
        spins.len() == signs.len(),
        forall|i: int| 0 <= i < spins.len() ==> spins[i] == 1 || spins[i] == -1,
{
}

/// Reading spins from one sequence of signs has one outcome: two results that
/// both match it are the same spins or the same error.
pub proof fn lemma_spins_match_unique(signs: Seq<Sign>, r1: Result<Vec<i8>, SolveError>, r2: Result<Vec<i8>, SolveError>)
    requires
        spins_match(signs, r1),
        spins_match(signs, r2),
    ensures
        r1 is Ok <==> r2 is Ok,
        r1 is Ok ==> r1->Ok_0@ == r2->Ok_0@,
        r1 is Err ==> r1->Err_0 == r2->Err_0,
{
    if r1 is Err {
        let i1 = r1->Err_0->UndecidedOscillator_index as int;
        let i2 = r2->Err_0->UndecidedOscillator_index as int;
        assert(!(i1 < i2) && !(i2 < i1));
    }
}

} // verus!
