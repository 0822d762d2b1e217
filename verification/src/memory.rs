//! The 256-cell store and the two hooks that can intercept its reads and writes.
//!
//! A hook is a function of the host. Nothing is assumed of what it answers:
//! the contracts say which answers it may give (`call_ensures`) and what the
//! memory does with each of them.

use crate::common::Byte;
use vstd::prelude::*;

verus! {

/// The value that a read returns: the hook's substitute where it gave one,
/// the stored cell where it declined.
pub open spec fn served(answer: Option<Byte>, cell: Byte) -> Byte {
    match answer {
        Some(substitute) => substitute,
        None => cell,
    }
}

/// The cells after a write of `value` to `adr`: unchanged where the hook
/// consumed the write, updated at `adr` where it declined.
pub open spec fn stored(cells: Seq<Byte>, adr: Byte, value: Byte, answer: Option<()>) -> Seq<Byte> {
    match answer {
        Some(_) => cells,
        None => cells.update(adr as int, value),
    }
}

/// A read at `adr` may return `b`: the input hook has an answer for `adr`
/// that serves `b` over these cells.
pub open spec fn may_read<I: Fn(Byte) -> Option<Byte>>(
    input: I,
    cells: Seq<Byte>,
    adr: Byte,
    b: Byte,
) -> bool {
    exists|answer: Option<Byte>| #[trigger]
        call_ensures(input, (adr,), answer) && b == served(answer, cells[adr as int])
}

/// A write of `value` to `adr` may turn `cells` into `after`: the output hook
/// has an answer for `(adr, value)` that stores `after`.
pub open spec fn may_write<O: Fn(Byte, Byte) -> Option<()>>(
    output: O,
    cells: Seq<Byte>,
    adr: Byte,
    value: Byte,
    after: Seq<Byte>,
) -> bool {
    exists|answer: Option<()>| #[trigger]
        call_ensures(output, (adr, value), answer) && after == stored(cells, adr, value, answer)
}

/// The input hook intercepts every read at `adr`.
pub open spec fn input_active<I: Fn(Byte) -> Option<Byte>>(input: I, adr: Byte) -> bool {
    forall|answer: Option<Byte>| #[trigger] call_ensures(input, (adr,), answer) ==> answer is Some
}

/// The output hook intercepts every write at `adr`.
pub open spec fn output_active<O: Fn(Byte, Byte) -> Option<()>>(output: O, adr: Byte) -> bool {
    forall|value: Byte, answer: Option<()>| #[trigger]
        call_ensures(output, (adr, value), answer) ==> answer is Some
}

/// The output hook intercepts no write at `adr`.
pub open spec fn output_quiet<O: Fn(Byte, Byte) -> Option<()>>(output: O, adr: Byte) -> bool {
    forall|value: Byte, answer: Option<()>| #[trigger]
        call_ensures(output, (adr, value), answer) ==> answer is None
}

/// 256 cells of one byte each, behind an input hook and an output hook.
pub struct Memory<I: Fn(Byte) -> Option<Byte>, O: Fn(Byte, Byte) -> Option<()>> {
    data: [Byte; 256],
    input_mapping: I,
    output_mapping: O,
}

impl<I: Fn(Byte) -> Option<Byte>, O: Fn(Byte, Byte) -> Option<()>> Memory<I, O> {
    /// Both hooks can be called on every address and value.
    #[verifier::type_invariant]
    spec fn hooks_total(&self) -> bool {
        &&& forall|adr: Byte| #[trigger] call_requires(self.input_mapping, (adr,))
        &&& forall|adr: Byte, value: Byte| #[trigger]
            call_requires(self.output_mapping, (adr, value))
    }

    /// The stored cells, by address.
    pub closed spec fn view(&self) -> Seq<Byte> {
        self.data@
    }

    /// The hook that reads go through.
    pub closed spec fn input_hook(&self) -> I {
        self.input_mapping
    }

    /// The hook that writes go through.
    pub closed spec fn output_hook(&self) -> O {
        self.output_mapping
    }

    /// There are exactly 256 cells.
    pub proof fn lemma_size(&self)
        ensures
            self@.len() == 256,
    {
    }

    /// A memory of zeroes behind the two hooks.
    pub fn new(input_mapping: I, output_mapping: O) -> (memory: Self)
        requires
            forall|adr: Byte| #[trigger] call_requires(input_mapping, (adr,)),
            forall|adr: Byte, value: Byte| #[trigger] call_requires(output_mapping, (adr, value)),
        ensures
            memory@ == Seq::new(256, |adr: int| 0u8),
            memory.input_hook() == input_mapping,
            memory.output_hook() == output_mapping,
    {
        let memory = Memory { data: [0u8; 256], input_mapping, output_mapping };
        memory
    }

    /// Finishes a read at `adr` once the input hook has answered.
    pub fn complete_read(&self, adr: Byte, answer: Option<Byte>) -> (b: Byte)
        ensures
            b == served(answer, self@[adr as int]),
    {
        match answer {
            Some(substitute) => substitute,
            None => self.data[adr as usize],
        }
    }

    /// Finishes a write to `adr` once the output hook has answered.
    pub fn complete_write(&mut self, adr: Byte, value: Byte, answer: Option<()>)
        ensures
            final(self)@ == stored(old(self)@, adr, value, answer),
            final(self).input_hook() == old(self).input_hook(),
            final(self).output_hook() == old(self).output_hook(),
    {
        proof {
            use_type_invariant(&*self);
        }
        match answer {
            Some(_) => {},
            None => {
                self.data[adr as usize] = value;
            },
        }
    }

    /// Reads through the input hook: the hook is asked about `adr`, and the
    /// stored cell is returned only where it declines.
    pub fn read(&self, adr: Byte) -> (b: Byte)
        ensures
            may_read(self.input_hook(), self@, adr, b),
    {
        proof {
            use_type_invariant(self);
        }
        let answer = (self.input_mapping)(adr);
        self.complete_read(adr, answer)
    }

    /// Writes through the output hook: the hook is told `(adr, value)`, and
    /// the cell is written only where it declines.
    pub fn write(&mut self, adr: Byte, value: Byte)
        ensures
            may_write(old(self).output_hook(), old(self)@, adr, value, final(self)@),
            final(self).input_hook() == old(self).input_hook(),
            final(self).output_hook() == old(self).output_hook(),
    {
        proof {
            use_type_invariant(&*self);
        }
        let answer = (self.output_mapping)(adr, value);
        self.complete_write(adr, value, answer);
    }
}

/// A read that the input hook intercepts does not depend on the stored cells:
/// whatever was written before, it returns what the hook substitutes.
pub proof fn lemma_intercepted_read_ignores_cells<I: Fn(Byte) -> Option<Byte>>(
    input: I,
    adr: Byte,
    cells: Seq<Byte>,
    other: Seq<Byte>,
    b: Byte,
)
    requires
        input_active(input, adr),
    ensures
        may_read(input, cells, adr, b) <==> call_ensures(input, (adr,), Some(b)),
        may_read(input, cells, adr, b) <==> may_read(input, other, adr, b),
{
    // an active hook answers `Some`, so the cell never enters what is served
    assert forall|cs: Seq<Byte>| may_read(input, cs, adr, b) implies call_ensures(
        input,
        (adr,),
        Some(b),
    ) by {
        let answer = choose|answer: Option<Byte>| #[trigger]
            call_ensures(input, (adr,), answer) && b == served(answer, cs[adr as int]);
        assert(answer == Some(b));
    }
}

/// A read that the input hook declines returns the stored cell.
pub proof fn lemma_declined_read_is_cell<I: Fn(Byte) -> Option<Byte>>(
    input: I,
    adr: Byte,
    cells: Seq<Byte>,
    b: Byte,
)
    requires
        forall|answer: Option<Byte>| #[trigger] call_ensures(input, (adr,), answer) ==> answer is None,
        may_read(input, cells, adr, b),
    ensures
        b == cells[adr as int],
{
}

/// A write that the output hook intercepts leaves every cell as it was, and
/// the hook was handed exactly `(adr, value)`.
pub proof fn lemma_intercepted_write_keeps_cells<O: Fn(Byte, Byte) -> Option<()>>(
    output: O,
    cells: Seq<Byte>,
    adr: Byte,
    value: Byte,
    after: Seq<Byte>,
)
    requires
        output_active(output, adr),
        may_write(output, cells, adr, value, after),
    ensures
        after == cells,
        call_ensures(output, (adr, value), Some(())),
{
    let answer = choose|answer: Option<()>| #[trigger]
        call_ensures(output, (adr, value), answer) && after == stored(cells, adr, value, answer);
    assert(answer == Some(()));
}

/// A write that the output hook declines stores the value at `adr` and
/// touches no other cell.
pub proof fn lemma_declined_write_updates_cell<O: Fn(Byte, Byte) -> Option<()>>(
    output: O,
    cells: Seq<Byte>,
    adr: Byte,
    value: Byte,
    after: Seq<Byte>,
)
    requires
        output_quiet(output, adr),
        may_write(output, cells, adr, value, after),
    ensures
        after == cells.update(adr as int, value),
{
}

} // verus!
