use burn_gradient_demo_app::actors::{
    ActorJob, ActorMessage, ActorRegistry, GradientActor, GradientActorState, RegistryError,
};

#[test]
fn actor_starts_with_nothing_processed() {
    let actor = GradientActor;
    let state = actor.pre_start();
    assert_eq!(state.processed_count, 0);
}

#[test]
fn each_message_is_counted_and_numbered() {
    let actor = GradientActor;
    let mut state = actor.pre_start();
    let job = actor.handle(ActorMessage::ComputeTensorGradients, &mut state);
    assert_eq!(job, ActorJob::RunTensorGradients { run: 1 });
    let job = actor.handle(ActorMessage::ComputeTensorGradients, &mut state);
    assert_eq!(job, ActorJob::RunTensorGradients { run: 2 });
    assert_eq!(state, GradientActorState { processed_count: 2 });
}

#[test]
fn registry_before_initialization_has_no_actor() {
    let reg: ActorRegistry<u32> = ActorRegistry::new();
    assert!(!reg.is_initialized());
    assert!(reg.needs_initialization());
    assert_eq!(reg.actor().err(), Some(RegistryError::NotAvailable));
    assert_eq!(RegistryError::NotAvailable.message(), "Gradient actor not available");
}

#[test]
fn stored_actor_is_handed_out() {
    let mut reg: ActorRegistry<u32> = ActorRegistry::new();
    assert_eq!(reg.store_actor(7), Ok(()));
    assert!(reg.is_initialized());
    assert!(!reg.needs_initialization());
    assert_eq!(reg.actor(), Ok(&7));
}

#[test]
fn second_actor_is_refused() {
    let mut reg: ActorRegistry<u32> = ActorRegistry::new();
    assert_eq!(reg.store_actor(7), Ok(()));
    assert_eq!(reg.store_actor(8), Err(RegistryError::AlreadyStored));
    assert_eq!(reg.actor(), Ok(&7));
    assert_eq!(
        RegistryError::AlreadyStored.message(),
        "Failed to store gradient actor reference"
    );
}

#[test]
fn count_equals_messages_handled() {
    let actor = GradientActor;
    let mut state = actor.pre_start();
    for n in 1..=50u64 {
        let job = actor.handle(ActorMessage::ComputeTensorGradients, &mut state);
        assert_eq!(job, ActorJob::RunTensorGradients { run: n });
        assert_eq!(state.processed_count, n);
    }
}
