//! Pure predicates over the EC's status byte.
//!
//! The command port's two low bits carry the handshake flags: bit 0 is
//! OBF (output buffer full, a byte is ready to read), bit 1 is IBF
//! (input buffer full, the previous byte is not yet consumed).

use vstd::prelude::*;

verus! {

/// Bit 0 of a status byte: the EC has a byte ready to be read.
pub open spec fn obf_set(s: u8) -> bool {
    s & 0b01 == 0b01
}

/// Bit 1 of a status byte: the EC has not yet consumed the last byte.
pub open spec fn ibf_set(s: u8) -> bool {
    s & 0b10 == 0b10
}

/// A predicate over a raw status byte, evaluated without any state.
#[derive(Debug)]
pub enum Status {
    /// Both handshake bits are clear.
    Idle,
    /// Output buffer full: bit 0 is set.
    OBF,
    /// Input buffer full: bit 1 is set.
    IBF,
    /// Logical negation of the inner predicate.
    Not(Box<Status>),
}

impl Status {
    /// What `satisfied` returns for a given status byte.
    pub open spec fn sat(self, status: u8) -> bool
        decreases self,
    {
        match self {
            Status::Idle => status & 0b11 == 0b00,
            Status::OBF => status & 0b01 == 0b01,
            Status::IBF => status & 0b10 == 0b10,
            Status::Not(v) => !v.sat(status),
        }
    }

    /// Evaluate the predicate against a raw status byte.
    pub fn satisfied(&self, status: u8) -> (r: bool)
        ensures
            r == self.sat(status),
        decreases self,
    {
        match self {
            Status::Idle => (status & 0b11) == 0b00,
            Status::OBF => (status & 0b01) == 0b01,
            Status::IBF => (status & 0b10) == 0b10,
            Status::Not(v) => !v.satisfied(status),
        }
    }

    /// What the negation operator returns: a negation is unwrapped, any
    /// other predicate is wrapped, so double negation collapses at
    /// construction time.
    pub open spec fn not_spec(self) -> Status {
        match self {
            Status::Not(v) => *v,
            s => Status::Not(Box::new(s)),
        }
    }
}

impl core::ops::Not for Status {
    type Output = Status;

    /// Negate the predicate, collapsing a double negation.
    fn not(self) -> (r: Status) {
        match self {
            Status::Not(v) => *v,
            s => Status::Not(Box::new(s)),
        }
    }
}

impl vstd::std_specs::ops::NotSpecImpl for Status {
    open spec fn obeys_not_spec() -> bool {
        true
    }

    open spec fn not_req(self) -> bool {
        true
    }

    open spec fn not_spec(self) -> Status {
        self.not_spec()
    }
}

impl Status {
    /// What `describe` returns: the base predicate's name, negated when
    /// an odd number of negations wraps it.
    pub open spec fn desc_spec(self) -> Seq<char>
        decreases self,
    {
        match self {
            Status::Idle => "IDLE"@,
            Status::OBF => "OBF=1"@,
            Status::IBF => "IBF=1"@,
            Status::Not(v) => match *v {
                Status::Not(w) => w.desc_spec(),
                Status::Idle => "IBF=1 or OBF=1"@,
                Status::OBF => "OBF=0"@,
                Status::IBF => "IBF=0"@,
            },
        }
    }

    /// Render the predicate, collapsing double negations.
    pub fn describe(&self) -> (r: String)
        ensures
            r@ == self.desc_spec(),
        decreases self,
    {
        match self {
            Status::Idle => "IDLE".to_string(),
            Status::OBF => "OBF=1".to_string(),
            Status::IBF => "IBF=1".to_string(),
            Status::Not(v) => match &**v {
                Status::Not(w) => w.describe(),
                Status::Idle => "IBF=1 or OBF=1".to_string(),
                Status::OBF => "OBF=0".to_string(),
                Status::IBF => "IBF=0".to_string(),
            },
        }
    }
}

/// For every status byte, `Idle` holds exactly when both handshake bits
/// are clear, `OBF` exactly when bit 0 is set, and `IBF` exactly when
/// bit 1 is set.
pub proof fn lemma_status_predicates(s: u8)
    ensures
        Status::Idle.sat(s) <==> s & 0b11 == 0b00,
        Status::OBF.sat(s) <==> obf_set(s),
        Status::IBF.sat(s) <==> ibf_set(s),
{
}

/// Negating a negated predicate evaluates identically to the original
/// predicate, for every predicate and every status byte.
pub proof fn lemma_not_involution(p: Status, s: u8)
    ensures
        Status::Not(Box::new(Status::Not(Box::new(p)))).sat(s) == p.sat(s),
{
    reveal_with_fuel(Status::sat, 3);
}

/// The collapsing negation operator agrees with logical negation: the
/// value it returns evaluates to the opposite of its operand, for every
/// predicate and every status byte.
pub proof fn lemma_not_spec_negates(p: Status, s: u8)
    ensures
        p.not_spec().sat(s) == !p.sat(s),
{
}

} // verus!
