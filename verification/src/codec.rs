//! The protocol codec: a pure, stateless bidirectional mapping between
//! semantic input events and wire action records.
//!
//! The wire vocabulary covers exactly the discrete action events whose logical
//! action id fits the protocol's numeric code space (`0 ..= MAX_WIRE_CODE`).
//! Every other event kind has no wire representation: encoding it yields
//! `None`, which callers treat as "not transmittable", never as an error.
//! Decoding an unrecognized numeric code or action kind likewise yields
//! `None` and the record is dropped.

use vstd::prelude::*;
use crate::events::SemanticInputEvent;
use crate::events::WireActionRecord;

verus! {

/// Wire action kind for a press.
pub const WIRE_PRESS: u8 = 0;

/// Wire action kind for a release.
pub const WIRE_RELEASE: u8 = 1;

/// The largest numeric code of the wire vocabulary.
pub const MAX_WIRE_CODE: u32 = 0xFFFF;

/// Whether an event has an entry in the wire vocabulary, i.e. whether
/// `encode` returns a record for it.
pub open spec fn in_wire_vocabulary(e: SemanticInputEvent) -> bool {
    match e {
        SemanticInputEvent::ActionPressed { action } => action <= MAX_WIRE_CODE,
        SemanticInputEvent::ActionReleased { action } => action <= MAX_WIRE_CODE,
        _ => false,
    }
}

/// What `encode` returns: a record for the two transmittable event kinds,
/// `None` for everything the protocol does not represent.
pub open spec fn encode_spec(e: SemanticInputEvent, player: u32) -> Option<WireActionRecord> {
    match e {
        SemanticInputEvent::ActionPressed { action } => if action <= MAX_WIRE_CODE {
            Some(WireActionRecord { player, code: action, action: WIRE_PRESS })
        } else {
            None
        },
        SemanticInputEvent::ActionReleased { action } => if action <= MAX_WIRE_CODE {
            Some(WireActionRecord { player, code: action, action: WIRE_RELEASE })
        } else {
            None
        },
        _ => None,
    }
}

/// What `decode` returns: the semantic event of a recognized record, `None`
/// for an unrecognized numeric code or action kind.
pub open spec fn decode_spec(r: WireActionRecord) -> Option<SemanticInputEvent> {
    if r.code <= MAX_WIRE_CODE {
        if r.action == WIRE_PRESS {
            Some(SemanticInputEvent::ActionPressed { action: r.code })
        } else if r.action == WIRE_RELEASE {
            Some(SemanticInputEvent::ActionReleased { action: r.code })
        } else {
            None
        }
    } else {
        None
    }
}

/// Encodes a semantic event as a wire record for the given player, or `None`
/// when the event kind has no wire representation (an untransmittable event,
/// to be dropped silently from outbound traffic, not an error).
pub fn encode(e: &SemanticInputEvent, player: u32) -> (r: Option<WireActionRecord>)
    ensures
        r == encode_spec(*e, player),
        r is Some <==> in_wire_vocabulary(*e),
{
    match e {
        SemanticInputEvent::ActionPressed { action } => if *action <= MAX_WIRE_CODE {
            Some(WireActionRecord { player, code: *action, action: WIRE_PRESS })
        } else {
            None
        },
        SemanticInputEvent::ActionReleased { action } => if *action <= MAX_WIRE_CODE {
            Some(WireActionRecord { player, code: *action, action: WIRE_RELEASE })
        } else {
            None
        },
        _ => None,
    }
}

/// Decodes a wire record back into a semantic event, or `None` when the
/// numeric code or the action kind is not in the vocabulary (the record is
/// dropped, not an error).
pub fn decode(r: &WireActionRecord) -> (e: Option<SemanticInputEvent>)
    ensures
        e == decode_spec(*r),
        e is Some ==> in_wire_vocabulary(e->0),
{
    if r.code <= MAX_WIRE_CODE {
        if r.action == WIRE_PRESS {
            Some(SemanticInputEvent::ActionPressed { action: r.code })
        } else if r.action == WIRE_RELEASE {
            Some(SemanticInputEvent::ActionReleased { action: r.code })
        } else {
            None
        }
    } else {
        None
    }
}

/// The codec round-trips: every event of the wire vocabulary survives
/// encoding followed by decoding unchanged, for any player id.
pub proof fn lemma_codec_round_trip(e: SemanticInputEvent, player: u32)
    requires
        in_wire_vocabulary(e),
    ensures
        encode_spec(e, player) is Some,
        decode_spec(encode_spec(e, player)->0) == Some(e),
{
}

/// The codec round-trips in the other direction: every record that decodes
/// at all is reproduced exactly by encoding the decoded event for the same
/// player.
pub proof fn lemma_codec_decode_encode(r: WireActionRecord)
    requires
        decode_spec(r) is Some,
    ensures
        encode_spec(decode_spec(r)->0, r.player) == Some(r),
{
}

/// Whether an event is eligible for transmission, i.e. whether the wire
/// vocabulary represents it.
pub fn is_transmittable(e: &SemanticInputEvent) -> (r: bool)
    ensures
        r == in_wire_vocabulary(*e),
{
    match e {
        SemanticInputEvent::ActionPressed { action } => *action <= MAX_WIRE_CODE,
        SemanticInputEvent::ActionReleased { action } => *action <= MAX_WIRE_CODE,
        _ => false,
    }
}

/// The transmittable part of an event sequence, in order: what the tick
/// forwards to the outbound bridge; everything else is applied locally only.
pub open spec fn transmittable(es: Seq<SemanticInputEvent>) -> Seq<SemanticInputEvent>
    decreases es.len(),
{
    if es.len() == 0 {
        Seq::empty()
    } else {
        let rest = transmittable(es.drop_last());
        if in_wire_vocabulary(es.last()) {
            rest.push(es.last())
        } else {
            rest
        }
    }
}

/// What remains of a received batch after decoding: the semantic events of
/// the recognized records, in batch order, unrecognized records dropped.
pub open spec fn decode_batch_spec(rs: Seq<WireActionRecord>) -> Seq<SemanticInputEvent>
    decreases rs.len(),
{
    if rs.len() == 0 {
        Seq::empty()
    } else {
        let rest = decode_batch_spec(rs.drop_last());
        match decode_spec(rs.last()) {
            Some(e) => rest.push(e),
            None => rest,
        }
    }
}

/// Decodes a whole received batch, preserving record order and silently
/// dropping unrecognized records.
pub fn decode_batch(rs: &Vec<WireActionRecord>) -> (es: Vec<SemanticInputEvent>)
    ensures
        es@ == decode_batch_spec(rs@),
{
    let mut es: Vec<SemanticInputEvent> = Vec::new();
    let mut i: usize = 0;
    while i < rs.len()
        invariant
            i <= rs.len(),
            es@ == decode_batch_spec(rs@.take(i as int)),
        decreases rs.len() - i,
    {
        proof {
            assert(rs@.take(i + 1 as int).drop_last() =~= rs@.take(i as int));
            assert(rs@.take(i + 1 as int).last() == rs@[i as int]);
        }
        match decode(&rs[i]) {
            Some(e) => { es.push(e); },
            None => {},
        }
        i = i + 1;
    }
    proof {
        assert(rs@.take(rs@.len() as int) =~= rs@);
    }
    es
}

} // verus!
