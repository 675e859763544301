use vstd::prelude::*;

verus! {

/// The four Modbus data tables.
#[derive(Debug, Clone, Copy, PartialEq, Eq, PartialOrd, Ord, Hash, Structural)]
pub enum RegisterType {
    Holding,
    Input,
    Coil,
    Discrete,
}

/// A register of a given table, by address.
pub type RegisterCell = (RegisterType, u16);

/// A register together with the value read from it.
pub type RegisterCellValue = (RegisterCell, u16);

/// Position of a register type in the cycle Holding, Input, Coil, Discrete.
pub open spec fn type_rank(t: RegisterType) -> int {
    match t {
        RegisterType::Holding => 0,
        RegisterType::Input => 1,
        RegisterType::Coil => 2,
        RegisterType::Discrete => 3,
    }
}

/// The register type that follows `t` in the cycle.
pub open spec fn next_type(t: RegisterType) -> RegisterType {
    match t {
        RegisterType::Holding => RegisterType::Input,
        RegisterType::Input => RegisterType::Coil,
        RegisterType::Coil => RegisterType::Discrete,
        RegisterType::Discrete => RegisterType::Holding,
    }
}

pub open spec fn spec_type_name(t: RegisterType) -> Seq<char> {
    match t {
        RegisterType::Holding => "Holding"@,
        RegisterType::Input => "Input"@,
        RegisterType::Coil => "Coil"@,
        RegisterType::Discrete => "Discrete"@,
    }
}

pub open spec fn spec_type_marker(t: RegisterType) -> Seq<char> {
    match t {
        RegisterType::Holding => "H"@,
        RegisterType::Input => "I"@,
        RegisterType::Coil => "C"@,
        RegisterType::Discrete => "D"@,
    }
}

impl Default for RegisterType {
    fn default() -> (r: Self)
        ensures
            r == RegisterType::Holding,
    {
        RegisterType::Holding
    }
}

impl RegisterType {
    pub const ALL: [RegisterType; 4] = [
        RegisterType::Holding,
        RegisterType::Input,
        RegisterType::Coil,
        RegisterType::Discrete,
    ];

    /// Moves to the next register type, wrapping after Discrete.
    pub fn toggle(&mut self)
        ensures
            *final(self) == next_type(*old(self)),
    {
        *self = match *self {
            RegisterType::Holding => RegisterType::Input,
            RegisterType::Input => RegisterType::Coil,
            RegisterType::Coil => RegisterType::Discrete,
            RegisterType::Discrete => RegisterType::Holding,
        };
    }

    /// Coils and discrete inputs hold single bits.
    pub fn is_bit(self) -> (r: bool)
        ensures
            r <==> (self == RegisterType::Coil || self == RegisterType::Discrete),
    {
        matches!(self, RegisterType::Coil | RegisterType::Discrete)
    }

    /// Holding registers and coils can be written.
    pub fn is_writable(self) -> (r: bool)
        ensures
            r <==> (self == RegisterType::Holding || self == RegisterType::Coil),
    {
        matches!(self, RegisterType::Holding | RegisterType::Coil)
    }

    pub fn name(self) -> (r: &'static str)
        ensures
            r@ == spec_type_name(self),
    {
        match self {
            RegisterType::Holding => "Holding",
            RegisterType::Input => "Input",
            RegisterType::Coil => "Coil",
            RegisterType::Discrete => "Discrete",
        }
    }

    pub fn marker(self) -> (r: &'static str)
        ensures
            r@ == spec_type_marker(self),
    {
        match self {
            RegisterType::Holding => "H",
            RegisterType::Input => "I",
            RegisterType::Coil => "C",
            RegisterType::Discrete => "D",
        }
    }
}

/// Four toggles bring any register type back to itself, and each toggle
/// moves one step along the cycle.
pub proof fn lemma_toggle_cycles(t: RegisterType)
    ensures
        next_type(next_type(next_type(next_type(t)))) == t,
        type_rank(next_type(t)) == (type_rank(t) + 1) % 4,
{
}

/// Whether two registers are the same one.
pub fn same_cell(a: RegisterCell, b: RegisterCell) -> (r: bool)
    ensures
        r == (a == b),
{
    let (at, aa) = a;
    let (bt, ba) = b;
    at == bt && aa == ba
}

} // verus!
