//! Constants and plain data types shared by every module.

use vstd::prelude::*;

verus! {

/// Number of energy variables held by a cell.
pub const VARS: usize = 5;

/// Number of forces through which each variable is expressed.
pub const FORCES: usize = 4;

/// Number of `(variable, force)` channels of a cell.
pub const N_FLATTENED: usize = VARS * FORCES;

/// Position of a cell in the lattice.
#[derive(Clone, Copy, Debug, PartialEq, Eq, Hash, Structural)]
pub struct LatticeCoord {
    pub x: usize,
    pub y: usize,
    pub z: usize,
}

impl Default for LatticeCoord {
    fn default() -> (c: LatticeCoord)
        ensures
            c == (LatticeCoord { x: 0, y: 0, z: 0 }),
    {
        LatticeCoord { x: 0, y: 0, z: 0 }
    }
}

/// One of the six axis-aligned directions of the lattice.
#[derive(Clone, Copy, Debug, PartialEq, Eq, Hash, Structural)]
pub enum Direction {
    PosX,
    NegX,
    PosY,
    NegY,
    PosZ,
    NegZ,
}

impl Direction {
    /// The six directions in their canonical order.
    pub open spec fn all_spec() -> Seq<Direction> {
        seq![
            Direction::PosX,
            Direction::NegX,
            Direction::PosY,
            Direction::NegY,
            Direction::PosZ,
            Direction::NegZ,
        ]
    }

    /// Unit step of this direction, as mathematical integers.
    pub open spec fn offset_spec(self) -> (int, int, int) {
        match self {
            Direction::PosX => (1, 0, 0),
            Direction::NegX => (-1, 0, 0),
            Direction::PosY => (0, 1, 0),
            Direction::NegY => (0, -1, 0),
            Direction::PosZ => (0, 0, 1),
            Direction::NegZ => (0, 0, -1),
        }
    }

    /// Position of this direction in the canonical order.
    pub open spec fn ordinal_spec(self) -> int {
        match self {
            Direction::PosX => 0,
            Direction::NegX => 1,
            Direction::PosY => 2,
            Direction::NegY => 3,
            Direction::PosZ => 4,
            Direction::NegZ => 5,
        }
    }

    /// The six directions in their canonical order.
    pub fn all() -> (dirs: [Direction; 6])
        ensures
            dirs@ == Direction::all_spec(),
    {
        [
            Direction::PosX,
            Direction::NegX,
            Direction::PosY,
            Direction::NegY,
            Direction::PosZ,
            Direction::NegZ,
        ]
    }

    /// Unit step of this direction along `(x, y, z)`.
    pub fn offset(self) -> (d: (isize, isize, isize))
        ensures
            (d.0 as int, d.1 as int, d.2 as int) == self.offset_spec(),
    {
        match self {
            Direction::PosX => (1, 0, 0),
            Direction::NegX => (-1, 0, 0),
            Direction::PosY => (0, 1, 0),
            Direction::NegY => (0, -1, 0),
            Direction::PosZ => (0, 0, 1),
            Direction::NegZ => (0, 0, -1),
        }
    }

    /// Position of this direction in the canonical order, usable as an
    /// index into a per-direction array.
    pub fn ordinal(self) -> (i: usize)
        ensures
            i == self.ordinal_spec(),
            i < 6,
            Direction::all_spec()[i as int] == self,
    {
        match self {
            Direction::PosX => 0,
            Direction::NegX => 1,
            Direction::PosY => 2,
            Direction::NegY => 3,
            Direction::PosZ => 4,
            Direction::NegZ => 5,
        }
    }
}

impl Default for Direction {
    fn default() -> (d: Direction)
        ensures
            d == Direction::PosX,
    {
        Direction::PosX
    }
}

/// Which channel-to-channel transfers a redistribution matrix may hold: a
/// transfer is allowed when both the pair of variables and the pair of forces
/// are.
#[derive(Clone, Copy, Debug)]
pub struct TransferMask {
    pub allow_var_to_var: [[bool; VARS]; VARS],
    pub allow_force_to_force: [[bool; FORCES]; FORCES],
}

impl Default for TransferMask {
    /// The mask that allows nothing.
    fn default() -> (mask: TransferMask)
        ensures
            forall|i: int, j: int|
                0 <= i < VARS && 0 <= j < VARS ==> !(#[trigger] mask.allow_var_to_var[i][j]),
            forall|i: int, j: int|
                0 <= i < FORCES && 0 <= j < FORCES ==> !(#[trigger] mask.allow_force_to_force[i][j]),
    {
        TransferMask {
            allow_var_to_var: [[false; VARS]; VARS],
            allow_force_to_force: [[false; FORCES]; FORCES],
        }
    }
}

/// What a neighbour query does with a coordinate that leaves the lattice.
#[derive(Clone, Copy, Debug, PartialEq, Eq, Hash, Structural)]
pub enum BoundaryPolicy {
    /// The coordinate wraps around: the lattice is a torus.
    Periodic,
    /// The coordinate is mirrored back onto the boundary cell.
    Reflecting,
    /// The coordinate is dropped: the lattice has edges.
    Open,
}

/// The energy variables of a cell, in the order of the rows of its matrix.
#[derive(Clone, Copy, Debug, PartialEq, Eq, Hash, Structural)]
pub enum VariableKind {
    EMRadiation,
    Baryons,
    Neutrinos,
    Unknown1,
    Unknown2,
}

impl VariableKind {
    /// The row of this variable in a cell's matrix.
    pub open spec fn index_spec(self) -> int {
        match self {
            VariableKind::EMRadiation => 0,
            VariableKind::Baryons => 1,
            VariableKind::Neutrinos => 2,
            VariableKind::Unknown1 => 3,
            VariableKind::Unknown2 => 4,
        }
    }

    /// The row of this variable in a cell's matrix.
    pub fn index(self) -> (row: usize)
        ensures
            row == self.index_spec(),
            row < VARS,
    {
        match self {
            VariableKind::EMRadiation => 0,
            VariableKind::Baryons => 1,
            VariableKind::Neutrinos => 2,
            VariableKind::Unknown1 => 3,
            VariableKind::Unknown2 => 4,
        }
    }

    /// The variable held in row `row`, or `None` when there is no such row.
    pub fn from_index(row: usize) -> (kind: Option<VariableKind>)
        ensures
            kind is Some <==> row < VARS,
            kind matches Some(k) ==> k.index_spec() == row,
    {
        match row {
            0 => Some(VariableKind::EMRadiation),
            1 => Some(VariableKind::Baryons),
            2 => Some(VariableKind::Neutrinos),
            3 => Some(VariableKind::Unknown1),
            4 => Some(VariableKind::Unknown2),
            _ => None,
        }
    }
}

impl Default for VariableKind {
    fn default() -> (kind: VariableKind)
        ensures
            kind == VariableKind::EMRadiation,
    {
        VariableKind::EMRadiation
    }
}

/// The forces through which a variable is expressed, in the order of the
/// columns of a cell's matrix.
#[derive(Clone, Copy, Debug, PartialEq, Eq, Hash, Structural)]
pub enum ForceKind {
    Gravity,
    Electromagnetism,
    Weak,
    Strong,
}

impl ForceKind {
    /// The column of this force in a cell's matrix.
    pub open spec fn index_spec(self) -> int {
        match self {
            ForceKind::Gravity => 0,
            ForceKind::Electromagnetism => 1,
            ForceKind::Weak => 2,
            ForceKind::Strong => 3,
        }
    }

    /// The column of this force in a cell's matrix.
    pub fn index(self) -> (column: usize)
        ensures
            column == self.index_spec(),
            column < FORCES,
    {
        match self {
            ForceKind::Gravity => 0,
            ForceKind::Electromagnetism => 1,
            ForceKind::Weak => 2,
            ForceKind::Strong => 3,
        }
    }

    /// The force held in column `column`, or `None` when there is no such
    /// column.
    pub fn from_index(column: usize) -> (kind: Option<ForceKind>)
        ensures
            kind is Some <==> column < FORCES,
            kind matches Some(k) ==> k.index_spec() == column,
    {
        match column {
            0 => Some(ForceKind::Gravity),
            1 => Some(ForceKind::Electromagnetism),
            2 => Some(ForceKind::Weak),
            3 => Some(ForceKind::Strong),
            _ => None,
        }
    }
}

impl Default for ForceKind {
    fn default() -> (kind: ForceKind)
        ensures
            kind == ForceKind::Gravity,
    {
        ForceKind::Gravity
    }
}

/// The kinds of energy that a cell of the flux model holds.
#[derive(Clone, Copy, Debug, PartialEq, Eq, Hash, Structural)]
pub enum EnergyGroupKind {
    Light,
    Matter,
    Neutrino,
    OppositeMatter,
    OppositeLight,
}

/// The interactions through which the energy of a group acts.
#[derive(Clone, Copy, Debug, PartialEq, Eq, Hash, Structural)]
pub enum Interaction {
    Electromagnetic,
    Strong,
    Weak,
    Gravitational,
    Expansion,
}

impl EnergyGroupKind {
    /// The five kinds in the order in which a cell holds its groups.
    pub open spec fn all_spec() -> Seq<EnergyGroupKind> {
        seq![
            EnergyGroupKind::Light,
            EnergyGroupKind::Matter,
            EnergyGroupKind::Neutrino,
            EnergyGroupKind::OppositeMatter,
            EnergyGroupKind::OppositeLight,
        ]
    }

    /// The interactions of a group of this kind, in the order of its
    /// subgroups.
    pub open spec fn interactions_spec(self) -> Seq<Interaction> {
        match self {
            EnergyGroupKind::Light => seq![Interaction::Electromagnetic],
            EnergyGroupKind::Matter => seq![
                Interaction::Strong,
                Interaction::Weak,
                Interaction::Gravitational,
            ],
            EnergyGroupKind::Neutrino => seq![Interaction::Weak, Interaction::Gravitational],
            EnergyGroupKind::OppositeMatter => seq![Interaction::Gravitational],
            EnergyGroupKind::OppositeLight => seq![Interaction::Expansion],
        }
    }

    /// The five kinds in the order in which a cell holds its groups.
    pub fn all() -> (kinds: [EnergyGroupKind; 5])
        ensures
            kinds@ == EnergyGroupKind::all_spec(),
    {
        [
            EnergyGroupKind::Light,
            EnergyGroupKind::Matter,
            EnergyGroupKind::Neutrino,
            EnergyGroupKind::OppositeMatter,
            EnergyGroupKind::OppositeLight,
        ]
    }

    /// The interactions of a group of this kind, in the order of its
    /// subgroups: a group has one subgroup per interaction.
    pub fn interactions(self) -> (list: Vec<Interaction>)
        ensures
            list@ == self.interactions_spec(),
    {
        let mut list: Vec<Interaction> = Vec::new();
        match self {
            EnergyGroupKind::Light => {
                list.push(Interaction::Electromagnetic);
            },
            EnergyGroupKind::Matter => {
                list.push(Interaction::Strong);
                list.push(Interaction::Weak);
                list.push(Interaction::Gravitational);
            },
            EnergyGroupKind::Neutrino => {
                list.push(Interaction::Weak);
                list.push(Interaction::Gravitational);
            },
            EnergyGroupKind::OppositeMatter => {
                list.push(Interaction::Gravitational);
            },
            EnergyGroupKind::OppositeLight => {
                list.push(Interaction::Expansion);
            },
        }
        list
    }
}

} // verus!
