//! The ordered-fallback command router. A dispatch first passes an
//! authorization gate: callers other than the configured owner receive a
//! fixed denial and no provider ever sees the command. Authorized commands
//! are offered to providers in registration order until one claims them;
//! a claimed failure surfaces a category message, and a command no provider
//! claims gets a fixed unknown-command reply. The router is a step machine:
//! the caller performs each provider call and feeds the outcome back.

use vstd::prelude::*;
use crate::errors::PluginError;

verus! {

/// What one provider did with a command.
pub enum ProviderOutcome {
    /// The provider claimed and answered the command.
    Handled,
    /// The provider does not own this command; try the next one.
    NotHandled,
    /// The provider claimed the command but failed.
    Failed(PluginError),
}

/// What the dispatcher asks its driver to do next.
pub enum DispatchAction {
    /// Send the fixed denial to the unauthorized caller and stop.
    RespondDenied,
    /// Call the provider at this index and feed back its outcome.
    Invoke(usize),
    /// Surface this error's category message to the user and stop.
    RespondError(PluginError),
    /// Send the fixed unknown-command reply and stop.
    RespondUnknown,
    /// A provider already answered; nothing is left to do.
    Finished,
}

/// The fixed reply for unauthorized callers.
pub fn denial_message() -> (r: &'static str)
    ensures
        r@ == "You are not authorized to use this bot."@,
{
    "You are not authorized to use this bot."
}

/// The fixed reply for commands no provider claims.
pub fn unknown_command_message() -> (r: &'static str)
    ensures
        r@ == "Unknown command."@,
{
    "Unknown command."
}

/// An in-flight dispatch: which provider is asked next, if any.
pub struct Dispatch {
    next: usize,
    done: bool,
}

impl Dispatch {
    /// No further provider will be invoked.
    pub closed spec fn is_done(&self) -> bool {
        self.done
    }

    /// The index of the provider to invoke next.
    pub closed spec fn next_index(&self) -> int {
        self.next as int
    }
}

/// The action the authorization check decides on, before any provider runs.
pub open spec fn spec_begin_action(owner_id: u64, provider_count: int, caller: u64)
    -> DispatchAction {
    if caller != owner_id {
        DispatchAction::RespondDenied
    } else if provider_count == 0 {
        DispatchAction::RespondUnknown
    } else {
        DispatchAction::Invoke(0usize)
    }
}

/// The command router: one authorized caller, a fixed number of providers.
pub struct Router {
    owner_id: u64,
    provider_count: usize,
}

impl Router {
    /// The configured authorized caller.
    pub closed spec fn owner(&self) -> u64 {
        self.owner_id
    }

    /// How many providers are registered.
    pub closed spec fn count(&self) -> int {
        self.provider_count as int
    }

    /// A router for a fixed, ordered provider list.
    pub fn new(owner_id: u64, provider_count: usize) -> (r: Router)
        ensures
            r.owner() == owner_id,
            r.count() == provider_count as int,
    {
        Router { owner_id, provider_count }
    }

    /// Whether a caller is the configured owner.
    pub fn is_owner(&self, user_id: u64) -> (r: bool)
        ensures
            r == (user_id == self.owner()),
    {
        user_id == self.owner_id
    }

    /// Open a dispatch for a command from `caller`: unauthorized callers are
    /// denied before any provider is involved; otherwise the first provider
    /// is invoked, or the command is unknown when there are none.
    pub fn begin(&self, caller: u64) -> (r: (Dispatch, DispatchAction))
        ensures
            r.1 == spec_begin_action(self.owner(), self.count(), caller),
            r.1 matches DispatchAction::Invoke(_) <==> !r.0.is_done(),
            !r.0.is_done() ==> r.0.next_index() == 0 && self.count() > 0,
    {
        if caller != self.owner_id {
            (Dispatch { next: 0, done: true }, DispatchAction::RespondDenied)
        } else if self.provider_count == 0 {
            (Dispatch { next: 0, done: true }, DispatchAction::RespondUnknown)
        } else {
            (Dispatch { next: 0, done: false }, DispatchAction::Invoke(0))
        }
    }

    /// Feed back the outcome of the provider just invoked: a claim ends the
    /// dispatch (successfully or with an error to surface), a pass moves on
    /// to the next provider in order, and running out of providers yields
    /// the unknown-command reply.
    pub fn next(&self, d: &mut Dispatch, outcome: ProviderOutcome) -> (a: DispatchAction)
        requires
            !old(d).is_done(),
            0 <= old(d).next_index() < self.count(),
        ensures
            outcome matches ProviderOutcome::Handled ==> a matches DispatchAction::Finished
                && final(d).is_done(),
            outcome matches ProviderOutcome::Failed(e) ==> (a matches DispatchAction::RespondError(
                e2,
            ) && e2 == e) && final(d).is_done(),
            outcome matches ProviderOutcome::NotHandled ==> {
                if old(d).next_index() + 1 < self.count() {
                    &&& a matches DispatchAction::Invoke(i) && i as int == old(d).next_index() + 1
                    &&& !final(d).is_done()
                    &&& final(d).next_index() == old(d).next_index() + 1
                } else {
                    a matches DispatchAction::RespondUnknown && final(d).is_done()
                }
            },
    {
        match outcome {
            ProviderOutcome::Handled => {
                d.done = true;
                DispatchAction::Finished
            },
            ProviderOutcome::Failed(e) => {
                d.done = true;
                DispatchAction::RespondError(e)
            },
            ProviderOutcome::NotHandled => {
                if d.next + 1 < self.provider_count {
                    d.next = d.next + 1;
                    DispatchAction::Invoke(d.next)
                } else {
                    d.done = true;
                    DispatchAction::RespondUnknown
                }
            },
        }
    }
}

/// A provider either claims a command (answering or failing) or passes.
pub open spec fn outcome_claims(o: ProviderOutcome) -> bool {
    !(o is NotHandled)
}

/// How many providers an authorized dispatch invokes, when provider `i`
/// would answer with `outcomes[i]`: each is invoked in order until one
/// claims the command.
pub open spec fn spec_invoked_count(outcomes: Seq<ProviderOutcome>) -> int
    decreases outcomes.len(),
{
    if outcomes.len() == 0 {
        0
    } else if outcome_claims(outcomes.first()) {
        1
    } else {
        1 + spec_invoked_count(outcomes.drop_first())
    }
}

/// Router fallback order: when the providers before `j` all pass and
/// provider `j` claims the command, exactly the providers `0..=j` are
/// invoked, in order — those after `j` never see the command.
pub proof fn lemma_fallback_order(outcomes: Seq<ProviderOutcome>, j: int)
    requires
        0 <= j < outcomes.len(),
        outcome_claims(outcomes[j]),
        forall|k: int| 0 <= k < j ==> !outcome_claims(outcomes[k]),
    ensures
        spec_invoked_count(outcomes) == j + 1,
    decreases j,
{
    if j == 0 {
    } else {
        lemma_fallback_order(outcomes.drop_first(), j - 1);
    }
}

/// Unauthorized short-circuit: a dispatch from a caller other than the
/// owner is denied outright — the opening action is never an invocation,
/// whatever providers are registered.
pub proof fn lemma_unauthorized_short_circuit(owner_id: u64, provider_count: int, caller: u64)
    requires
        caller != owner_id,
    ensures
        spec_begin_action(owner_id, provider_count, caller) == DispatchAction::RespondDenied,
        forall|i: usize|
            spec_begin_action(owner_id, provider_count, caller) != DispatchAction::Invoke(i),
{
}

} // verus!
