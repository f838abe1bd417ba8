//! Who may call what, and why a call is abandoned.

use vstd::prelude::*;

verus! {

/// Why an operation was abandoned. The component's state is then unchanged.
#[derive(Clone, Copy, Debug, PartialEq, Eq, Structural)]
pub enum Fault {
    /// The identity that has to agree to the operation gave no proof of intent.
    Unauthorized,
    /// The component has not been initialized.
    NotInitialized,
    /// A counter, an amount or a date would leave its machine range.
    Overflow,
    /// The funding goal is negative: no total could stay within it.
    InvalidGoal,
}

/// Whether `signers`, the identities whose proof of intent came with a call,
/// include `who`.
pub open spec fn holds_proof(signers: Seq<String>, who: String) -> bool {
    exists|i: int| 0 <= i < signers.len() && (#[trigger] signers[i])@ == who@
}

/// Decides `holds_proof` by looking at each signer in turn.
pub fn has_proof(signers: &Vec<String>, who: &String) -> (found: bool)
    ensures
        found == holds_proof(signers@, *who),
{
    let mut i: usize = 0;
    while i < signers.len()
        invariant
            i <= signers.len(),
            forall|k: int| 0 <= k < i ==> (#[trigger] signers@[k])@ != who@,
        decreases signers.len() - i,
    {
        if signers[i] == *who {
            return true;
        }
        i += 1;
    }
    false
}

} // verus!
