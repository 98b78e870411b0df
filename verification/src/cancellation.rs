//! The cancellation signal of the driver, as far as a run looks at it.

use crate::run::GenerationRun;
use tokio_util::sync::CancellationToken;
use vstd::prelude::*;

verus! {

/// `tokio_util::sync::CancellationToken`, the signal that the driver and
/// its tasks share. Verus sees nothing inside one.
#[verifier::external_type_specification]
#[verifier::external_body]
pub struct ExCancellationToken(CancellationToken);

/// `CancellationToken::is_cancelled`. Another thread may set the signal
/// at any moment: nothing is claimed of the answer.
#[verifier::external_body]
fn signal_is_set(token: &CancellationToken) -> (set: bool) {
    token.is_cancelled()
}

/// Looks at the signal, and cancels the run if it is set. Says whether it
/// was.
pub fn observe_cancellation(run: &mut GenerationRun, token: &CancellationToken) -> (seen: bool)
    ensures
        final(run)@ == old(run)@.signalled(seen),
        final(run)@.sound(),
{
    let set: bool = signal_is_set(token);
    run.on_signal(set)
}

} // verus!
