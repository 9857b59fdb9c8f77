use evno::{Chain, Conveyor, Identity, Processor, WithProcessor, WithStep};

#[derive(Debug, Clone, PartialEq)]
struct UserStep {
    user_id: u32,
}

#[derive(Debug, Clone, PartialEq)]
struct RequestStep {
    first_id: u64,
}

#[test]
fn identity_hands_events_on_unchanged() {
    assert_eq!(Identity.process("hello".to_string()), "hello");
    assert_eq!(Identity.process(42u8), 42);
}

#[test]
fn prepending_wraps_the_whole_chain() {
    let bus = "bus";
    let chain = Chain::from_emitter(bus)
        .prepend(UserStep { user_id: 123 })
        .prepend(RequestStep { first_id: 1 });
    // The last step prepended is the first one an event meets.
    assert_eq!(*chain.step(), RequestStep { first_id: 1 });
    let inner = chain.emitter();
    assert_eq!(*inner.step(), UserStep { user_id: 123 });
    assert_eq!(*inner.emitter().emitter(), "bus");
    let innermost = chain.into_emitter().into_emitter();
    assert_eq!(innermost.into_emitter(), "bus");
}

#[test]
fn typed_senders_keep_their_step_and_target() {
    let sender: WithStep<String, &str, UserStep> = WithStep::new("publisher", UserStep { user_id: 456 });
    let copy = sender.clone();
    assert_eq!(*copy.emitter(), "publisher");
    assert_eq!(*copy.step(), UserStep { user_id: 456 });

    let conveyed: WithProcessor<String, &str, (u64,)> = WithProcessor::new("publisher", (7,));
    let copy = conveyed.clone();
    assert_eq!(*copy.publisher(), "publisher");
    assert_eq!(*copy.processor(), (7,));
}

#[test]
fn conveyors_hand_out_their_state_and_emitter() {
    let pair = (String::from("ctx"), 5u8);
    assert_eq!(*pair.emit(), 5);
    assert_eq!(pair.processor(), (String::from("ctx"),));
    let triple = (1u32, String::from("two"), "emitter");
    assert_eq!(*triple.emit(), "emitter");
    assert_eq!(triple.processor(), (1u32, String::from("two")));
}

#[test]
fn tuple_processors_inject_their_state_before_the_event() {
    use_processor();
}

fn use_processor() {
    let one = (String::from("ctx"),);
    assert_eq!(Processor::<u8>::process(one, 9), (String::from("ctx"), 9));
    let two = (1u32, String::from("two"));
    assert_eq!(Processor::<&str>::process(two, "e"), (1u32, String::from("two"), "e"));
}
