//! The gradient actor: its messages, its state and what it does with each
//! message, and the registry that starts it once and hands it out.

use vstd::prelude::*;

verus! {

/// The actor that runs tensor gradient computations on request.
pub struct GradientActor;

/// The messages the gradient actor accepts.
#[derive(Debug, Clone, Copy, PartialEq, Eq, Structural)]
pub enum ActorMessage {
    /// Run one tensor gradient computation.
    ComputeTensorGradients,
}

/// The gradient actor's state: how many computations it has run.
#[derive(Debug, Clone, Copy, PartialEq, Eq, Structural)]
pub struct GradientActorState {
    pub processed_count: u64,
}

/// What the actor does in answer to a message.
#[derive(Debug, Clone, Copy, PartialEq, Eq, Structural)]
pub enum ActorJob {
    /// Run the tensor gradient computation; `run` is its number, counted from 1.
    RunTensorGradients { run: u64 },
}

/// The state the actor starts with: nothing processed.
pub open spec fn is_start_state(s: GradientActorState) -> bool {
    s.processed_count == 0
}

/// One message handled, from state `before` to state `after`: the count goes
/// up by one and the computation asked for is numbered with the new count.
pub open spec fn handled_one(
    before: GradientActorState,
    after: GradientActorState,
    job: ActorJob,
) -> bool {
    &&& after.processed_count == before.processed_count + 1
    &&& job == ActorJob::RunTensorGradients { run: after.processed_count }
}

/// Along any run of the actor, from its start state through handled
/// messages, the count is the number of messages handled so far, and the
/// `i`-th message asks for computation number `i + 1`.
pub proof fn law_count_is_messages_handled(
    states: Seq<GradientActorState>,
    jobs: Seq<ActorJob>,
)
    requires
        states.len() == jobs.len() + 1,
        is_start_state(states[0]),
        forall|i: int|
            0 <= i < jobs.len() ==> handled_one(states[i], states[i + 1], #[trigger] jobs[i]),
    ensures
        forall|i: int| 0 <= i < states.len() ==> #[trigger] states[i].processed_count == i,
        forall|i: int|
            0 <= i < jobs.len() ==> #[trigger] jobs[i] == (ActorJob::RunTensorGradients {
                run: (i + 1) as u64,
            }),
    decreases jobs.len(),
{
    if jobs.len() > 0 {
        let n = jobs.len() - 1;
        law_count_is_messages_handled(states.take(n + 1), jobs.take(n));
        assert forall|i: int| 0 <= i < states.len() implies #[trigger] states[i].processed_count
            == i by {
            if i <= n {
                assert(states.take(n + 1)[i] == states[i]);
            } else {
                assert(states.take(n + 1)[n] == states[n]);
                assert(handled_one(states[n], states[n + 1], jobs[n]));
            }
        }
        assert forall|i: int| 0 <= i < jobs.len() implies #[trigger] jobs[i] == (
        ActorJob::RunTensorGradients { run: (i + 1) as u64 }) by {
            assert(handled_one(states[i], states[i + 1], jobs[i]));
            assert(states[i + 1].processed_count == i + 1);
        }
    }
}

impl GradientActor {
    /// The state the actor starts with: nothing processed yet.
    pub fn pre_start(&self) -> (res: GradientActorState)
        ensures
            is_start_state(res),
    {
        GradientActorState { processed_count: 0 }
    }

    /// Handles one message: counts it and asks for the computation, numbered
    /// with the new count. The count must have room for one more.
    pub fn handle(&self, message: ActorMessage, state: &mut GradientActorState) -> (res: ActorJob)
        requires
            old(state).processed_count < u64::MAX,
        ensures
            handled_one(*old(state), *final(state), res),
    {
        match message {
            ActorMessage::ComputeTensorGradients => {
                state.processed_count = state.processed_count + 1;
                ActorJob::RunTensorGradients { run: state.processed_count }
            },
        }
    }
}

/// Why the registry could not do what was asked.
#[derive(Debug, Clone, Copy, PartialEq, Eq, Structural)]
pub enum RegistryError {
    /// An actor reference was already stored.
    AlreadyStored,
    /// No actor has been stored.
    NotAvailable,
}

impl RegistryError {
    /// The error text that callers report.
    pub fn message(&self) -> (res: String)
        ensures
            res@ == registry_error_text(*self),
    {
        match self {
            RegistryError::AlreadyStored => String::from_str("Failed to store gradient actor reference"),
            RegistryError::NotAvailable => String::from_str("Gradient actor not available"),
        }
    }
}

/// The error text of each registry error.
pub open spec fn registry_error_text(e: RegistryError) -> Seq<char> {
    match e {
        RegistryError::AlreadyStored => "Failed to store gradient actor reference"@,
        RegistryError::NotAvailable => "Gradient actor not available"@,
    }
}

/// The registry of the gradient actor: it remembers whether initialization
/// finished and holds the reference of the spawned actor.
pub struct ActorRegistry<R> {
    initialized: bool,
    actor: Option<R>,
}

impl<R> ActorRegistry<R> {
    /// Initialization finishes only together with storing the actor.
    #[verifier::type_invariant]
    spec fn initialized_has_actor(self) -> bool {
        self.initialized ==> self.actor is Some
    }

    /// Whether initialization has finished.
    pub closed spec fn spec_initialized(self) -> bool {
        self.initialized
    }

    /// The stored actor reference, if any.
    pub closed spec fn spec_actor(self) -> Option<R> {
        self.actor
    }

    /// A registry before initialization: no actor stored.
    pub fn new() -> (res: Self)
        ensures
            !res.spec_initialized(),
            res.spec_actor() is None,
    {
        ActorRegistry { initialized: false, actor: None }
    }

    /// Whether initialization has already finished, in which case starting
    /// it again does nothing.
    pub fn is_initialized(&self) -> (res: bool)
        ensures
            res == self.spec_initialized(),
            res ==> self.spec_actor() is Some,
    {
        proof {
            use_type_invariant(self);
        }
        self.initialized
    }

    /// Whether an actor still has to be started before one can be used.
    pub fn needs_initialization(&self) -> (res: bool)
        ensures
            res == (self.spec_actor() is None),
    {
        self.actor.is_none()
    }

    /// Stores the reference of the freshly spawned actor and marks the
    /// registry initialized; a second reference is refused and changes nothing.
    pub fn store_actor(&mut self, actor: R) -> (res: Result<(), RegistryError>)
        ensures
            old(self).spec_actor() is None ==> res is Ok && final(self).spec_initialized()
                && final(self).spec_actor() == Some(actor),
            old(self).spec_actor() is Some ==> res == Err::<(), RegistryError>(
                RegistryError::AlreadyStored,
            ) && final(self).spec_initialized() == old(self).spec_initialized()
                && final(self).spec_actor() == old(self).spec_actor(),
    {
        if self.actor.is_some() {
            return Err(RegistryError::AlreadyStored);
        }
        self.actor = Some(actor);
        self.initialized = true;
        Ok(())
    }

    /// The actor to send work to, or `NotAvailable` when none is stored.
    pub fn actor(&self) -> (res: Result<&R, RegistryError>)
        ensures
            match self.spec_actor() {
                Some(a) => res == Ok::<&R, RegistryError>(&a),
                None => res == Err::<&R, RegistryError>(RegistryError::NotAvailable),
            },
    {
        match &self.actor {
            Some(a) => Ok(a),
            None => Err(RegistryError::NotAvailable),
        }
    }
}

} // verus!
