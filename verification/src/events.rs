//! The value types that cross every boundary of the bridge: raw physical
//! occurrences, logical bindings, semantic input events, and the wire-level
//! action record exchanged with the remote protocol.

use vstd::prelude::*;

verus! {

/// A raw hardware occurrence, already reduced to plain values: the physical
/// code of the key or button, and what happened to it. Analog positions are
/// carried as fixed-point integer units chosen by the input source.
#[derive(Clone, Copy, PartialEq, Eq, Structural, Debug)]
pub enum PhysicalInput {
    /// The physical code went down.
    Pressed { code: u32 },
    /// The physical code went up.
    Released { code: u32 },
    /// An analog control moved to a new absolute position.
    Analog { code: u32, value: i64 },
}

impl PhysicalInput {
    /// The physical code this occurrence is about.
    pub open spec fn code_spec(self) -> u32 {
        match self {
            PhysicalInput::Pressed { code } => code,
            PhysicalInput::Released { code } => code,
            PhysicalInput::Analog { code, .. } => code,
        }
    }

    /// Returns the physical code of the occurrence.
    pub fn code(&self) -> (c: u32)
        ensures
            c == self.code_spec(),
    {
        match self {
            PhysicalInput::Pressed { code } => *code,
            PhysicalInput::Released { code } => *code,
            PhysicalInput::Analog { code, .. } => *code,
        }
    }
}

/// What a physical code resolves to in the binding table: a continuous
/// logical axis or a discrete logical action.
#[derive(Clone, Copy, PartialEq, Eq, Structural, Debug)]
pub enum Binding {
    /// A continuous logical axis.
    Axis { axis: u32 },
    /// A discrete logical action.
    Action { action: u32 },
}

/// The unified event type consumed by the simulation, published by the input
/// handler, and exchanged with the network domain. Axis positions and cursor
/// coordinates are fixed-point integer units.
#[derive(Clone, Copy, PartialEq, Eq, Structural, Debug)]
pub enum SemanticInputEvent {
    /// A physical key went down.
    KeyPressed { code: u32 },
    /// A physical key went up.
    KeyReleased { code: u32 },
    /// A physical button went down.
    ButtonPressed { code: u32 },
    /// A physical button went up.
    ButtonReleased { code: u32 },
    /// A logical axis took a new value.
    AxisChanged { axis: u32, value: i64 },
    /// A logical action was engaged.
    ActionPressed { action: u32 },
    /// A logical action was disengaged.
    ActionReleased { action: u32 },
    /// The cursor moved to a new position.
    CursorMoved { x: i64, y: i64 },
    /// The mouse wheel turned.
    MouseWheel { dx: i64, dy: i64 },
}

/// The protocol-level representation of a semantic event: the remote player
/// it belongs to, a numeric code from the protocol's fixed vocabulary, and an
/// action kind (press or release).
#[derive(Clone, Copy, PartialEq, Eq, Structural, Debug)]
pub struct WireActionRecord {
    /// The remote player the record belongs to.
    pub player: u32,
    /// The numeric code from the wire vocabulary.
    pub code: u32,
    /// The action kind: `WIRE_PRESS` or `WIRE_RELEASE`.
    pub action: u8,
}

} // verus!
