use rockboxd::fw_bus::{broker_action, run_on_broker, BrokerAction, FirmwareCall, FwBus, FwCmd};

type Cmd = FwCmd<u8, &'static str>;

#[test]
fn commands_before_init_are_dropped() {
    let mut bus: FwBus<u8, &'static str> = FwBus::new();
    assert!(!bus.take_receiver());
    bus.send(Cmd::Pause { reply: None });
    bus.init();
    bus.init();
    assert!(bus.take_receiver());
    assert!(!bus.take_receiver(), "only one broker takes the receiver");
    assert!(bus.drain().is_empty());
}

#[test]
fn commands_are_drained_in_order() {
    let mut bus: FwBus<u8, &'static str> = FwBus::new();
    bus.init();
    bus.send(Cmd::Play { elapsed: 5, offset: 6, reply: Some(1) });
    bus.send(Cmd::Custom("job"));
    bus.send(Cmd::Stop { reply: None });
    assert!(bus.take_receiver());
    let drained = bus.drain();
    assert_eq!(drained.len(), 3);
    let actions: Vec<_> = drained.into_iter().map(broker_action).collect();
    assert!(matches!(actions[0], BrokerAction::Call(FirmwareCall::Play { elapsed: 5, offset: 6 }, Some(1))));
    assert!(matches!(actions[1], BrokerAction::Run("job")));
    assert!(matches!(actions[2], BrokerAction::Call(FirmwareCall::HardStop, None)));
    assert!(bus.drain().is_empty());
}

#[test]
fn timed_out_jobs_give_the_default() {
    assert_eq!(run_on_broker(Some(7), 0), 7);
    assert_eq!(run_on_broker(None, 0), 0);
}
