use vstd::arithmetic::power2::{lemma2_to64, lemma_pow2_strictly_increases, pow2};
use vstd::prelude::*;

use crate::check::{verify_lookups, LookupFailure};
use crate::circuit::{synthesis_outcome, ConstraintSystem, SimpleLookupCircuit};
use crate::laws::lemma_synthesized_lookups_hold;
use crate::layout::{Assignment, SynthesisError, MAX_K};

verus! {

/// Why the lookup circuit could not be laid out and checked.
#[derive(Clone, Copy, Debug, PartialEq, Eq, Structural)]
pub enum CircuitError {
    Synthesis(SynthesisError),
    Lookup(LookupFailure),
}

/// Configures the lookup circuit over the integers modulo `modulus`, synthesizes it
/// into `2^k` rows and checks its lookup on every row: this succeeds exactly when
/// the sixteen rows of the witness region fit.
pub fn check_circuit(modulus: u64, k: u32) -> (r: Result<(), CircuitError>)
    requires
        modulus >= 2,
        k <= MAX_K,
    ensures
        r is Ok <==> k >= 4,
        r is Err ==> r == Err::<(), CircuitError>(CircuitError::Synthesis(SynthesisError::NotEnoughRows)),
{
    let mut cs = ConstraintSystem::new(modulus);
    let circuit = SimpleLookupCircuit;
    let config = SimpleLookupCircuit::configure(&mut cs);
    let mut asg = Assignment::new(&cs, k);
    let ghost before: Assignment = asg;
    proof {
        lemma2_to64();
        if k >= 4 {
            lemma_pow2_strictly_increases(3, k as nat);
        } else if k >= 3 {
            assert(pow2(k as nat) == 8);
        }
        assert(cs.lookups@ =~= seq![cs.lookups@[0]]);
    }
    let synthesis = circuit.synthesize(config, &mut asg);
    if let Err(e) = synthesis {
        assert(synthesis_outcome(config, &before) == Err::<(), SynthesisError>(e));
        return Err(CircuitError::Synthesis(e));
    }
    proof {
        lemma_synthesized_lookups_hold(&cs, config, &before, &asg);
    }
    match verify_lookups(&cs, &asg) {
        Ok(()) => Ok(()),
        Err(f) => Err(CircuitError::Lookup(f)),
    }
}

} // verus!
