//! TCP control flags.

use vstd::prelude::*;

verus! {

/// The eight TCP control flags.
#[derive(Clone, Copy, Debug, PartialEq, Eq, Structural)]
pub struct TcpFlags(u8);

impl TcpFlags {
    /// FIN flag.
    #[allow(non_snake_case)]
    pub fn FIN() -> (r: Self)
        ensures
            r.spec_raw() == 1,
    {
        Self(1)
    }
    /// SYN flag.
    #[allow(non_snake_case)]
    pub fn SYN() -> (r: Self)
        ensures
            r.spec_raw() == 2,
    {
        Self(2)
    }
    /// RST flag.
    #[allow(non_snake_case)]
    pub fn RST() -> (r: Self)
        ensures
            r.spec_raw() == 4,
    {
        Self(4)
    }
    /// PSH flag.
    #[allow(non_snake_case)]
    pub fn PSH() -> (r: Self)
        ensures
            r.spec_raw() == 8,
    {
        Self(8)
    }
    /// ACK flag.
    #[allow(non_snake_case)]
    pub fn ACK() -> (r: Self)
        ensures
            r.spec_raw() == 16,
    {
        Self(16)
    }
    /// URG flag.
    #[allow(non_snake_case)]
    pub fn URG() -> (r: Self)
        ensures
            r.spec_raw() == 32,
    {
        Self(32)
    }
    /// ECE flag.
    #[allow(non_snake_case)]
    pub fn ECE() -> (r: Self)
        ensures
            r.spec_raw() == 64,
    {
        Self(64)
    }
    /// CWR flag.
    #[allow(non_snake_case)]
    pub fn CWR() -> (r: Self)
        ensures
            r.spec_raw() == 128,
    {
        Self(128)
    }

    /// The wire value.
    pub closed spec fn spec_raw(self) -> u8 {
        self.0
    }

    /// Constructs flags from their wire value.
    pub fn new(raw: u8) -> (r: Self)
        ensures
            r.spec_raw() == raw,
    {
        Self(raw)
    }

    /// Returns the wire value.
    pub fn raw(self) -> (r: u8)
        ensures
            r == self.spec_raw(),
    {
        self.0
    }

    /// Returns whether all flags in `other` are set.
    pub fn contains(self, other: Self) -> (r: bool)
        ensures
            r == (self.spec_raw() & other.spec_raw() == other.spec_raw()),
    {
        self.0 & other.0 == other.0
    }

    /// Returns the union of two flag sets.
    pub fn union(self, other: Self) -> (r: Self)
        ensures
            r.spec_raw() == self.spec_raw() | other.spec_raw(),
    {
        Self(self.0 | other.0)
    }
}

impl core::ops::BitOr for TcpFlags {
    type Output = Self;

    fn bitor(self, rhs: Self) -> (r: Self)
        ensures
            r.spec_raw() == self.spec_raw() | rhs.spec_raw(),
    {
        self.union(rhs)
    }
}

impl vstd::std_specs::ops::BitOrSpecImpl for TcpFlags {
    open spec fn obeys_bitor_spec() -> bool {
        true
    }

    open spec fn bitor_req(self, rhs: Self) -> bool {
        true
    }

    closed spec fn bitor_spec(self, rhs: Self) -> Self {
        TcpFlags(self.0 | rhs.0)
    }
}

impl core::ops::BitOrAssign for TcpFlags {
    fn bitor_assign(&mut self, rhs: Self)
        ensures
            final(self).spec_raw() == old(self).spec_raw() | rhs.spec_raw(),
    {
        *self = self.union(rhs);
    }
}

/// A union contains both of its operands.
pub proof fn lemma_union_contains(a: TcpFlags, b: TcpFlags)
    ensures
        (a.spec_raw() | b.spec_raw()) & a.spec_raw() == a.spec_raw(),
        (a.spec_raw() | b.spec_raw()) & b.spec_raw() == b.spec_raw(),
{
    let x = a.spec_raw();
    let y = b.spec_raw();
    assert((x | y) & x == x && (x | y) & y == y) by (bit_vector);
}

} // verus!
