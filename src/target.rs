use vstd::prelude::*;

verus! {

/// A cell of the execution trace.
#[derive(Clone, Copy, Debug, PartialEq, Eq, Hash, PartialOrd, Ord, Structural)]
pub struct Wire {
    pub row: usize,
    pub column: usize,
}

/// A cell of the witness: a wire, or a virtual target not placed on a wire.
#[derive(Clone, Copy, Debug, PartialEq, Eq, Hash, PartialOrd, Ord, Structural)]
pub enum Target {
    Wire(Wire),
    VirtualTarget { index: usize },
}

impl Target {
    pub fn wire(row: usize, column: usize) -> (r: Target)
        ensures
            r == (Target::Wire(Wire { row, column })),
    {
        Target::Wire(Wire { row, column })
    }

    pub fn virtual_target(index: usize) -> (r: Target)
        ensures
            r == (Target::VirtualTarget { index }),
    {
        Target::VirtualTarget { index }
    }

    /// The position of a target in the witness: wires first, row by row, then virtual targets.
    pub open spec fn index_spec(&self, num_wires: nat, degree: nat) -> nat {
        match *self {
            Target::Wire(w) => w.row as nat * num_wires + w.column as nat,
            Target::VirtualTarget { index } => degree * num_wires + index as nat,
        }
    }

    pub fn index(&self, num_wires: usize, degree: usize) -> (r: usize)
        requires
            self.index_spec(num_wires as nat, degree as nat) <= usize::MAX,
            (degree as nat) * (num_wires as nat) <= usize::MAX,
        ensures
            r == self.index_spec(num_wires as nat, degree as nat),
    {
        match *self {
            Target::Wire(w) => {
                proof {
                    assert(w.row as nat * num_wires as nat <= w.row as nat * num_wires as nat
                        + w.column as nat) by (nonlinear_arith);
                }
                w.row * num_wires + w.column
            },
            Target::VirtualTarget { index } => degree * num_wires + index,
        }
    }
}

/// The `D` targets holding the components of an extension-field element.
#[derive(Clone, Copy, Debug)]
pub struct ExtensionTarget<const D: usize>(pub [Target; D]);

} // verus!
