use crate::container::AttrModel;
use crate::container::ModuleContainer;
use crate::diagnostic::Diagnostic;
use vstd::prelude::*;

verus! {

/// The registration bridge: delegates unconditionally to the runtime
/// provider's registration entry point, passing the container through
/// unchanged, and propagates the provider's outcome verbatim.
///
/// The postcondition says that the returned container and status are exactly
/// a possible outcome of invoking the provider directly on the supplied
/// container: the bridge performs no transformation, filtering or validation
/// of what the provider registers, writes nothing to the container itself,
/// and introduces no error states of its own.
pub fn initialize<F: FnOnce(ModuleContainer) -> (ModuleContainer, Result<(), Diagnostic>)>(
    container: ModuleContainer,
    provider: F,
) -> (outcome: (ModuleContainer, Result<(), Diagnostic>))
    requires
        call_requires(provider, (container,)),
    ensures
        call_ensures(provider, (container,), outcome),
{
    provider(container)
}

/// Pass-through fidelity: when every outcome the provider can produce on
/// `container` carries the status `verdict`, any outcome the bridge can
/// return for `container` carries exactly that status — the bridge succeeds
/// if and only if the provider succeeds, and fails with the provider's
/// diagnostic if and only if the provider fails with it.
pub proof fn lemma_pass_through_fidelity<
    F: FnOnce(ModuleContainer) -> (ModuleContainer, Result<(), Diagnostic>),
>(
    provider: F,
    container: ModuleContainer,
    outcome: (ModuleContainer, Result<(), Diagnostic>),
    verdict: Result<(), Diagnostic>,
)
    requires
        call_ensures(provider, (container,), outcome),
        forall|out: (ModuleContainer, Result<(), Diagnostic>)|
            #[trigger] call_ensures(provider, (container,), out) ==> out.1 == verdict,
    ensures
        outcome.1 == verdict,
        outcome.1 is Ok <==> verdict is Ok,
        verdict is Err ==> outcome.1 is Err && outcome.1->Err_0@ == verdict->Err_0@,
{
}

/// No extraneous mutation: the bridge writes nothing to the container
/// itself. When every outcome the provider can produce on `container` leaves
/// the container's attribute mapping at `populated`, any outcome the bridge
/// can return holds exactly that mapping — what a direct invocation of the
/// provider would have produced.
pub proof fn lemma_no_extraneous_mutation<
    F: FnOnce(ModuleContainer) -> (ModuleContainer, Result<(), Diagnostic>),
>(
    provider: F,
    container: ModuleContainer,
    outcome: (ModuleContainer, Result<(), Diagnostic>),
    populated: Map<Seq<char>, AttrModel>,
)
    requires
        call_ensures(provider, (container,), outcome),
        forall|out: (ModuleContainer, Result<(), Diagnostic>)|
            #[trigger] call_ensures(provider, (container,), out) ==> out.0@ == populated,
    ensures
        outcome.0@ == populated,
{
}

/// Single invocation, no residual state: the bridge is stateless, so two
/// sequential bridge calls on two fresh containers, each with a provider
/// that always succeeds and always populates the mapping `populated`,
/// produce two independently, identically populated containers — nothing
/// leaks from the first call into the second.
pub proof fn lemma_independent_runs<
    F1: FnOnce(ModuleContainer) -> (ModuleContainer, Result<(), Diagnostic>),
    F2: FnOnce(ModuleContainer) -> (ModuleContainer, Result<(), Diagnostic>),
>(
    first_provider: F1,
    second_provider: F2,
    first_container: ModuleContainer,
    second_container: ModuleContainer,
    first_outcome: (ModuleContainer, Result<(), Diagnostic>),
    second_outcome: (ModuleContainer, Result<(), Diagnostic>),
    populated: Map<Seq<char>, AttrModel>,
)
    requires
        call_ensures(first_provider, (first_container,), first_outcome),
        call_ensures(second_provider, (second_container,), second_outcome),
        forall|out: (ModuleContainer, Result<(), Diagnostic>)|
            #[trigger] call_ensures(first_provider, (first_container,), out) ==> out.0@
                == populated && out.1 is Ok,
        forall|out: (ModuleContainer, Result<(), Diagnostic>)|
            #[trigger] call_ensures(second_provider, (second_container,), out) ==> out.0@
                == populated && out.1 is Ok,
    ensures
        first_outcome.0@ == second_outcome.0@,
        first_outcome.1 is Ok,
        second_outcome.1 is Ok,
{
}

/// Diagnostic passthrough: when every outcome the provider can produce on
/// `container` fails with the diagnostic message `message`, any outcome the
/// bridge can return reports that message verbatim.
pub proof fn lemma_diagnostic_passthrough<
    F: FnOnce(ModuleContainer) -> (ModuleContainer, Result<(), Diagnostic>),
>(
    provider: F,
    container: ModuleContainer,
    outcome: (ModuleContainer, Result<(), Diagnostic>),
    message: Seq<char>,
)
    requires
        call_ensures(provider, (container,), outcome),
        forall|out: (ModuleContainer, Result<(), Diagnostic>)|
            #[trigger] call_ensures(provider, (container,), out) ==> out.1 is Err
                && out.1->Err_0@ == message,
    ensures
        outcome.1 is Err,
        outcome.1->Err_0@ == message,
{
}

} // verus!
