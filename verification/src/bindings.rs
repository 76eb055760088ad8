//! The binding table: the loaded mapping from physical input codes to logical
//! axes and actions.
//!
//! A physical code may be bound to several logical ids (the handler then fans
//! one occurrence out to one semantic event per binding), but never twice to
//! the same one. The table is a plain value: it is built once from
//! configuration and installed wholesale, so readers always see a complete
//! table.

use vstd::prelude::*;
use crate::events::Binding;

verus! {

/// All bindings of `code` in `table`, in table order.
pub open spec fn bindings_of(table: Seq<(u32, Binding)>, code: u32) -> Seq<Binding>
    decreases table.len(),
{
    if table.len() == 0 {
        Seq::empty()
    } else {
        let rest = bindings_of(table.drop_last(), code);
        if table.last().0 == code {
            rest.push(table.last().1)
        } else {
            rest
        }
    }
}

/// A table is well formed when no (code, binding) pair occurs twice.
pub open spec fn table_wf(table: Seq<(u32, Binding)>) -> bool {
    forall|i: int, j: int| 0 <= i < j < table.len() ==> table[i] != table[j]
}

/// The mapping from physical input codes to logical axes and actions,
/// viewed as the sequence of its (code, binding) entries in insertion order.
pub struct BindingTable {
    entries: Vec<(u32, Binding)>,
}

impl View for BindingTable {
    type V = Seq<(u32, Binding)>;

    closed spec fn view(&self) -> Seq<(u32, Binding)> {
        self.entries@
    }
}

impl BindingTable {
    /// Creates an empty table: every physical code is unbound.
    pub fn new() -> (t: BindingTable)
        ensures
            t@ =~= Seq::<(u32, Binding)>::empty(),
            table_wf(t@),
    {
        BindingTable { entries: Vec::new() }
    }

    /// Whether the exact (code, binding) entry is already present.
    pub fn contains(&self, code: u32, binding: Binding) -> (r: bool)
        ensures
            r == self@.contains((code, binding)),
    {
        let mut i: usize = 0;
        while i < self.entries.len()
            invariant
                i <= self.entries.len(),
                forall|j: int| 0 <= j < i ==> self.entries@[j] != (code, binding),
            decreases self.entries.len() - i,
        {
            let (c, b) = self.entries[i];
            if c == code && b == binding {
                return true;
            }
            i = i + 1;
        }
        false
    }

    /// Adds a binding for a physical code. Binding the same pair twice is
    /// idempotent, so a well-formed table stays well formed and the handler
    /// never emits two events for one logical binding.
    pub fn bind(&mut self, code: u32, binding: Binding)
        ensures
            final(self)@ == if old(self)@.contains((code, binding)) {
                old(self)@
            } else {
                old(self)@.push((code, binding))
            },
            table_wf(old(self)@) ==> table_wf(final(self)@),
    {
        if !self.contains(code, binding) {
            self.entries.push((code, binding));
        }
    }

    /// Returns every binding of the physical code, in table order. An unbound
    /// code yields the empty sequence: it is not an error.
    pub fn bindings_for(&self, code: u32) -> (bs: Vec<Binding>)
        ensures
            bs@ == bindings_of(self@, code),
    {
        let mut bs: Vec<Binding> = Vec::new();
        let mut i: usize = 0;
        while i < self.entries.len()
            invariant
                i <= self.entries.len(),
                bs@ == bindings_of(self.entries@.take(i as int), code),
            decreases self.entries.len() - i,
        {
            proof {
                assert(self.entries@.take(i + 1 as int).drop_last() =~= self.entries@.take(
                    i as int,
                ));
                assert(self.entries@.take(i + 1 as int).last() == self.entries@[i as int]);
            }
            let (c, b) = self.entries[i];
            if c == code {
                bs.push(b);
            }
            i = i + 1;
        }
        proof {
            assert(self.entries@.take(self.entries@.len() as int) =~= self.entries@);
        }
        bs
    }

    /// The number of entries in the table.
    pub fn len(&self) -> (n: usize)
        ensures
            n == self@.len(),
    {
        self.entries.len()
    }
}

/// An unbound physical code has no bindings: looking it up in any table
/// whose entries never carry that code yields the empty sequence.
pub proof fn lemma_unbound_code_no_bindings(table: Seq<(u32, Binding)>, code: u32)
    requires
        forall|i: int| 0 <= i < table.len() ==> (#[trigger] table[i]).0 != code,
    ensures
        bindings_of(table, code) =~= Seq::<Binding>::empty(),
    decreases table.len(),
{
    if table.len() > 0 {
        assert(table.last() == table[table.len() - 1]);
        lemma_unbound_code_no_bindings(table.drop_last(), code);
    }
}

} // verus!
