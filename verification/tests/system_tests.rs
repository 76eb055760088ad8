//! Tests of the event log and of whole tick cycles across the bridge
//! channels, with the real channel crates linked.

use input_bridge::Binding;
use input_bridge::PhysicalInput;
use input_bridge::SemanticInputEvent;
use input_bridge::WireActionRecord;
use input_bridge::bindings::BindingTable;
use input_bridge::codec::decode_batch;
use input_bridge::codec::WIRE_PRESS;
use input_bridge::codec::WIRE_RELEASE;
use input_bridge::log::EventLog;
use input_bridge::tick::InputSystem;
use input_bridge::tick::TickError;
use input_bridge::tick::DEFAULT_DELTA_MS;

fn action_table(entries: &[(u32, u32)]) -> BindingTable {
    let mut t = BindingTable::new();
    for (code, action) in entries {
        t.bind(*code, Binding::Action { action: *action });
    }
    t
}

fn log_contents(log: &EventLog) -> Vec<SemanticInputEvent> {
    let mut out = Vec::new();
    let mut i = 0;
    while i < log.len() {
        out.push(log.get(i));
        i += 1;
    }
    out
}

#[test]
fn event_log_cursor_reads_whats_new() {
    let mut log = EventLog::new();
    let mut cursor = log.register_reader();
    log.publish(SemanticInputEvent::ActionPressed { action: 1 });
    log.publish(SemanticInputEvent::ActionReleased { action: 1 });
    let read = log.read_new(&mut cursor);
    assert_eq!(
        read,
        vec![
            SemanticInputEvent::ActionPressed { action: 1 },
            SemanticInputEvent::ActionReleased { action: 1 },
        ]
    );
    assert_eq!(log.read_new(&mut cursor), vec![]);
    log.publish(SemanticInputEvent::ActionPressed { action: 2 });
    assert_eq!(log.read_new(&mut cursor), vec![SemanticInputEvent::ActionPressed { action: 2 }]);
}

#[test]
fn scenario_press_is_mapped_and_encoded() {
    // physical code 13 is bound to the logical "move up" action, id 13
    let move_up: u32 = 13;
    let mut system = InputSystem::new(Some(action_table(&[(13, move_up)])));
    let mut log = EventLog::new();
    let (tx, mut net_rx) = futures::channel::mpsc::unbounded::<SemanticInputEvent>();

    let outcome = system
        .run_tick(&vec![PhysicalInput::Pressed { code: 13 }], None, Some(&tx), &mut log)
        .unwrap();

    assert_eq!(
        log_contents(&log),
        vec![SemanticInputEvent::ActionPressed { action: move_up }]
    );
    assert_eq!(outcome.sent, 1);
    let sent = net_rx.try_next().unwrap().unwrap();
    assert_eq!(sent, SemanticInputEvent::ActionPressed { action: move_up });
    // what the network domain would put on the wire
    let rec = input_bridge::codec::encode(&sent, 0).unwrap();
    assert_eq!(rec, WireActionRecord { player: 0, code: 13, action: WIRE_PRESS });
}

#[test]
fn scenario_inbound_batch_publishes_exactly_one_event() {
    let batch = vec![WireActionRecord { player: 0, code: 1, action: WIRE_RELEASE }];
    let decoded = decode_batch(&batch);
    assert_eq!(decoded, vec![SemanticInputEvent::ActionReleased { action: 1 }]);

    let (tx, rx) = std::sync::mpsc::channel::<Vec<SemanticInputEvent>>();
    tx.send(decoded).unwrap();

    let mut system = InputSystem::new(None);
    let mut log = EventLog::new();
    let outcome = system.run_tick(&vec![], Some(&rx), None, &mut log).unwrap();

    assert_eq!(outcome.remote_events, vec![SemanticInputEvent::ActionReleased { action: 1 }]);
    assert_eq!(log_contents(&log), vec![SemanticInputEvent::ActionReleased { action: 1 }]);
}

#[test]
fn scenario_unchanged_axis_across_two_ticks() {
    let mut t = BindingTable::new();
    t.bind(4, Binding::Axis { axis: 2 });
    let mut system = InputSystem::new(Some(t));
    let mut log = EventLog::new();

    system
        .run_tick(&vec![PhysicalInput::Analog { code: 4, value: 10 }], None, None, &mut log)
        .unwrap();
    assert_eq!(
        log_contents(&log),
        vec![SemanticInputEvent::AxisChanged { axis: 2, value: 10 }]
    );

    system
        .run_tick(&vec![PhysicalInput::Analog { code: 4, value: 10 }], None, None, &mut log)
        .unwrap();
    // no second AxisChanged for the unchanged value
    assert_eq!(
        log_contents(&log),
        vec![SemanticInputEvent::AxisChanged { axis: 2, value: 10 }]
    );
}

#[test]
fn publish_order_is_remote_then_local() {
    // local events [A, B], remote batch [C, D] in the same tick
    let a = SemanticInputEvent::ActionPressed { action: 1 };
    let b = SemanticInputEvent::ActionPressed { action: 2 };
    let c = SemanticInputEvent::ActionPressed { action: 3 };
    let d = SemanticInputEvent::ActionReleased { action: 3 };

    let (tx, rx) = std::sync::mpsc::channel::<Vec<SemanticInputEvent>>();
    tx.send(vec![c, d]).unwrap();

    let mut system = InputSystem::new(Some(action_table(&[(1, 1), (2, 2)])));
    let mut log = EventLog::new();
    system
        .run_tick(
            &vec![PhysicalInput::Pressed { code: 1 }, PhysicalInput::Pressed { code: 2 }],
            Some(&rx),
            None,
            &mut log,
        )
        .unwrap();

    assert_eq!(log_contents(&log), vec![c, d, a, b]);
}

#[test]
fn batch_order_is_preserved_across_frames() {
    let c = SemanticInputEvent::ActionPressed { action: 3 };
    let d = SemanticInputEvent::ActionReleased { action: 3 };
    let e = SemanticInputEvent::ActionPressed { action: 4 };

    let (tx, rx) = std::sync::mpsc::channel::<Vec<SemanticInputEvent>>();
    tx.send(vec![c, d]).unwrap();
    tx.send(vec![e]).unwrap();

    let mut system = InputSystem::new(None);
    let mut log = EventLog::new();
    let outcome = system.run_tick(&vec![], Some(&rx), None, &mut log).unwrap();
    assert_eq!(outcome.remote_events, vec![c, d, e]);
    assert_eq!(log_contents(&log), vec![c, d, e]);
}

#[test]
fn empty_inbound_channel_does_not_stall_the_tick() {
    let (_tx, rx) = std::sync::mpsc::channel::<Vec<SemanticInputEvent>>();
    let mut system = InputSystem::new(Some(action_table(&[(1, 1)])));
    let mut log = EventLog::new();
    let outcome = system
        .run_tick(&vec![PhysicalInput::Pressed { code: 1 }], Some(&rx), None, &mut log)
        .unwrap();
    assert_eq!(outcome.remote_events, vec![]);
    assert!(!outcome.inbound_closed);
    assert_eq!(log_contents(&log), vec![SemanticInputEvent::ActionPressed { action: 1 }]);
}

#[test]
fn closed_inbound_channel_is_degraded_mode() {
    let (tx, rx) = std::sync::mpsc::channel::<Vec<SemanticInputEvent>>();
    drop(tx);
    let mut system = InputSystem::new(None);
    let mut log = EventLog::new();
    let outcome = system.run_tick(&vec![], Some(&rx), None, &mut log).unwrap();
    assert!(outcome.inbound_closed);
    assert_eq!(outcome.remote_events, vec![]);
}

#[test]
fn closed_inbound_channel_is_fatal_when_network_required() {
    let (tx, rx) = std::sync::mpsc::channel::<Vec<SemanticInputEvent>>();
    drop(tx);
    let mut system = InputSystem::new(None);
    system.require_network = true;
    let mut log = EventLog::new();
    let r = system.run_tick(&vec![], Some(&rx), None, &mut log);
    assert_eq!(r.err(), Some(TickError::ChannelClosed));
    assert_eq!(log_contents(&log), vec![]);
}

#[test]
fn missing_backend_fails_fast_when_network_required() {
    let mut system = InputSystem::new(None);
    system.require_network = true;
    assert_eq!(system.setup(None, false).err(), Some(TickError::MissingNetworkBackend));
    assert!(system.setup(None, true).is_ok());
    let mut log = EventLog::new();
    let r = system.run_tick(&vec![], None, None, &mut log);
    assert_eq!(r.err(), Some(TickError::MissingNetworkBackend));
}

#[test]
fn setup_installs_bindings_wholesale() {
    let mut system = InputSystem::new(None);
    assert!(system.setup(Some(action_table(&[(2, 5)])), false).is_ok());
    let mut log = EventLog::new();
    system.run_tick(&vec![PhysicalInput::Pressed { code: 2 }], None, None, &mut log).unwrap();
    assert_eq!(log_contents(&log), vec![SemanticInputEvent::ActionPressed { action: 5 }]);
}

#[test]
fn only_transmittable_events_go_outbound() {
    let mut t = BindingTable::new();
    t.bind(1, Binding::Action { action: 1 });
    t.bind(4, Binding::Axis { axis: 2 });
    let mut system = InputSystem::new(Some(t));
    let mut log = EventLog::new();
    let (tx, mut net_rx) = futures::channel::mpsc::unbounded::<SemanticInputEvent>();

    let outcome = system
        .run_tick(
            &vec![
                PhysicalInput::Analog { code: 4, value: 9 },
                PhysicalInput::Pressed { code: 1 },
            ],
            None,
            Some(&tx),
            &mut log,
        )
        .unwrap();

    // both events were applied locally, only the action crossed the bridge
    assert_eq!(log.len(), 2);
    assert_eq!(outcome.sent, 1);
    assert_eq!(
        net_rx.try_next().unwrap().unwrap(),
        SemanticInputEvent::ActionPressed { action: 1 }
    );
    assert!(net_rx.try_next().is_err());
}

#[test]
fn closed_outbound_receiver_is_not_fatal() {
    let (tx, net_rx) = futures::channel::mpsc::unbounded::<SemanticInputEvent>();
    drop(net_rx);
    let mut system = InputSystem::new(Some(action_table(&[(1, 1)])));
    let mut log = EventLog::new();
    let outcome = system
        .run_tick(&vec![PhysicalInput::Pressed { code: 1 }], None, Some(&tx), &mut log)
        .unwrap();
    // the event is still applied locally; nothing was accepted outbound
    assert_eq!(outcome.sent, 0);
    assert_eq!(log_contents(&log), vec![SemanticInputEvent::ActionPressed { action: 1 }]);
}

#[test]
fn tick_advances_the_fixed_simulated_delta() {
    let mut system = InputSystem::new(None);
    let mut log = EventLog::new();
    assert_eq!(system.clock.elapsed_ms, 0);
    system.run_tick(&vec![], None, None, &mut log).unwrap();
    assert_eq!(system.clock.elapsed_ms, DEFAULT_DELTA_MS);
    system.run_tick(&vec![], None, None, &mut log).unwrap();
    assert_eq!(system.clock.elapsed_ms, 2 * DEFAULT_DELTA_MS);
}
