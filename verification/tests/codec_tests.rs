//! Tests of the protocol codec and the binding table.

use input_bridge::codec::decode;
use input_bridge::codec::decode_batch;
use input_bridge::codec::encode;
use input_bridge::codec::is_transmittable;
use input_bridge::codec::MAX_WIRE_CODE;
use input_bridge::codec::WIRE_PRESS;
use input_bridge::codec::WIRE_RELEASE;
use input_bridge::Binding;
use input_bridge::SemanticInputEvent;
use input_bridge::WireActionRecord;
use input_bridge::bindings::BindingTable;

#[test]
fn round_trip_action_pressed() {
    let e = SemanticInputEvent::ActionPressed { action: 5 };
    let rec = encode(&e, 0).unwrap();
    assert_eq!(rec, WireActionRecord { player: 0, code: 5, action: WIRE_PRESS });
    assert_eq!(decode(&rec), Some(e));
}

#[test]
fn round_trip_action_released() {
    let e = SemanticInputEvent::ActionReleased { action: 9 };
    let rec = encode(&e, 3).unwrap();
    assert_eq!(rec, WireActionRecord { player: 3, code: 9, action: WIRE_RELEASE });
    assert_eq!(decode(&rec), Some(e));
}

#[test]
fn round_trip_vocabulary_bounds() {
    let e = SemanticInputEvent::ActionPressed { action: MAX_WIRE_CODE };
    let rec = encode(&e, 1).unwrap();
    assert_eq!(decode(&rec), Some(e));
    let too_big = SemanticInputEvent::ActionPressed { action: MAX_WIRE_CODE + 1 };
    assert_eq!(encode(&too_big, 1), None);
}

#[test]
fn untransmittable_events_encode_to_none() {
    assert_eq!(encode(&SemanticInputEvent::CursorMoved { x: 1, y: 2 }, 0), None);
    assert_eq!(encode(&SemanticInputEvent::MouseWheel { dx: 0, dy: -1 }, 0), None);
    assert_eq!(encode(&SemanticInputEvent::AxisChanged { axis: 1, value: 7 }, 0), None);
    assert_eq!(encode(&SemanticInputEvent::KeyPressed { code: 4 }, 0), None);
    assert!(!is_transmittable(&SemanticInputEvent::CursorMoved { x: 1, y: 2 }));
    assert!(is_transmittable(&SemanticInputEvent::ActionReleased { action: 0 }));
}

#[test]
fn decode_unrecognized_record_none() {
    let bad_code = WireActionRecord { player: 0, code: MAX_WIRE_CODE + 1, action: WIRE_PRESS };
    assert_eq!(decode(&bad_code), None);
    let bad_kind = WireActionRecord { player: 0, code: 3, action: 7 };
    assert_eq!(decode(&bad_kind), None);
}

#[test]
fn decode_batch_drops_unrecognized_keeps_order() {
    let batch = vec![
        WireActionRecord { player: 0, code: 2, action: WIRE_PRESS },
        WireActionRecord { player: 0, code: 9, action: 9 },
        WireActionRecord { player: 0, code: 2, action: WIRE_RELEASE },
    ];
    let events = decode_batch(&batch);
    assert_eq!(
        events,
        vec![
            SemanticInputEvent::ActionPressed { action: 2 },
            SemanticInputEvent::ActionReleased { action: 2 },
        ]
    );
}

#[test]
fn binding_table_bind_is_idempotent() {
    let mut t = BindingTable::new();
    t.bind(13, Binding::Action { action: 13 });
    t.bind(13, Binding::Action { action: 13 });
    assert_eq!(t.len(), 1);
    assert_eq!(t.bindings_for(13), vec![Binding::Action { action: 13 }]);
}

#[test]
fn binding_table_fan_out_order() {
    let mut t = BindingTable::new();
    t.bind(4, Binding::Action { action: 1 });
    t.bind(4, Binding::Axis { axis: 2 });
    t.bind(4, Binding::Action { action: 3 });
    t.bind(5, Binding::Action { action: 9 });
    assert_eq!(
        t.bindings_for(4),
        vec![
            Binding::Action { action: 1 },
            Binding::Axis { axis: 2 },
            Binding::Action { action: 3 },
        ]
    );
    assert_eq!(t.bindings_for(6), vec![]);
}
