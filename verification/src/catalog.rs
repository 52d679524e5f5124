//! The protocol variants: the tags they are known by and how each is set up.

use vstd::prelude::*;

verus! {

/// A protocol variant.
#[derive(Clone, Copy, Debug, PartialEq, Eq)]
pub enum Protocol {
    /// Two bases on each side, basis-agreement discussion.
    BB84,
    /// Three bases on each side, basis-agreement discussion.
    SixState,
    /// Two non-orthogonal states, conclusive-measurement discussion.
    B92,
}

/// A transformation that a participant can use as a basis.
#[derive(Clone, Copy, Debug, PartialEq, Eq)]
pub enum Gate {
    /// Leaves the qubit as it is: the computational basis.
    Identity,
    /// The Hadamard transformation: the diagonal basis.
    Hadamard,
    /// The counterpart of the Hadamard transformation for the circular basis.
    HadamardY,
    /// The inverse of `HadamardY`.
    HadamardYInverse,
}

/// How the sender prepares a qubit.
#[derive(Clone, Copy, Debug, PartialEq, Eq)]
pub enum Preparation {
    /// The qubit stands for a bit drawn at random.
    RandomBit,
    /// The qubit always stands for zero; the basis carries the bit.
    AlwaysZero,
}

/// How the usable rounds are told apart in the public discussion.
#[derive(Clone, Copy, Debug, PartialEq, Eq)]
pub enum Reconciliation {
    /// A round is usable if sender and receiver used the same basis.
    BasisAgreement,
    /// A round is usable if the receiver's measurement was conclusive.
    ConclusiveMeasurement,
}

/// The participants of a protocol variant and its public discussion.
#[derive(Debug)]
pub struct Setup {
    /// Bases the sender encodes in.
    pub sender_bases: Vec<Gate>,
    /// Bases the receiver measures in.
    pub receiver_bases: Vec<Gate>,
    /// Bases the eavesdropper measures in.
    pub eavesdropper_bases: Vec<Gate>,
    /// How the sender prepares qubits.
    pub preparation: Preparation,
    /// How the public discussion tells the usable rounds apart.
    pub reconciliation: Reconciliation,
}

/// The bases of the sender in a variant.
pub open spec fn sender_bases_of(protocol: Protocol) -> Seq<Gate> {
    match protocol {
        Protocol::SixState => seq![Gate::Identity, Gate::Hadamard, Gate::HadamardY],
        _ => seq![Gate::Identity, Gate::Hadamard],
    }
}

/// The bases of the receiver in a variant, which are also those of the
/// eavesdropper.
pub open spec fn measuring_bases_of(protocol: Protocol) -> Seq<Gate> {
    match protocol {
        Protocol::SixState => seq![Gate::Identity, Gate::Hadamard, Gate::HadamardYInverse],
        _ => seq![Gate::Identity, Gate::Hadamard],
    }
}

/// The tag that names a variant.
pub open spec fn tag_of(protocol: Protocol) -> Seq<char> {
    match protocol {
        Protocol::BB84 => "BB84"@,
        Protocol::SixState => "SixState"@,
        Protocol::B92 => "B92"@,
    }
}

impl Protocol {
    /// The tag that names this variant.
    pub fn tag(&self) -> (tag: &'static str)
        ensures
            tag@ == tag_of(*self),
    {
        match self {
            Protocol::BB84 => "BB84",
            Protocol::SixState => "SixState",
            Protocol::B92 => "B92",
        }
    }

    /// The participants and the public discussion of this variant. Every
    /// participant has at least two bases, and the eavesdropper measures in
    /// the receiver's bases.
    pub fn setup(&self) -> (setup: Setup)
        ensures
            setup.sender_bases@ == sender_bases_of(*self),
            setup.receiver_bases@ == measuring_bases_of(*self),
            setup.eavesdropper_bases@ == measuring_bases_of(*self),
            setup.preparation == if *self == Protocol::B92 {
                Preparation::AlwaysZero
            } else {
                Preparation::RandomBit
            },
            setup.reconciliation == if *self == Protocol::B92 {
                Reconciliation::ConclusiveMeasurement
            } else {
                Reconciliation::BasisAgreement
            },
    {
        let mut sender_bases: Vec<Gate> = Vec::new();
        let mut receiver_bases: Vec<Gate> = Vec::new();
        let mut eavesdropper_bases: Vec<Gate> = Vec::new();
        sender_bases.push(Gate::Identity);
        sender_bases.push(Gate::Hadamard);
        receiver_bases.push(Gate::Identity);
        receiver_bases.push(Gate::Hadamard);
        eavesdropper_bases.push(Gate::Identity);
        eavesdropper_bases.push(Gate::Hadamard);
        let (preparation, reconciliation) = match self {
            Protocol::BB84 => (Preparation::RandomBit, Reconciliation::BasisAgreement),
            Protocol::SixState => {
                sender_bases.push(Gate::HadamardY);
                receiver_bases.push(Gate::HadamardYInverse);
                eavesdropper_bases.push(Gate::HadamardYInverse);
                (Preparation::RandomBit, Reconciliation::BasisAgreement)
            },
            Protocol::B92 => (Preparation::AlwaysZero, Reconciliation::ConclusiveMeasurement),
        };
        assert(sender_bases@ =~= sender_bases_of(*self));
        assert(receiver_bases@ =~= measuring_bases_of(*self));
        assert(eavesdropper_bases@ =~= measuring_bases_of(*self));
        Setup { sender_bases, receiver_bases, eavesdropper_bases, preparation, reconciliation }
    }
}

/// Reads a protocol tag. A string that is no variant's tag is handed back as
/// the error.
pub fn parse_protocol_tag(s: &str) -> (parsed: Result<Protocol, String>)
    ensures
        match parsed {
            Ok(protocol) => s@ == tag_of(protocol),
            Err(rejected) => rejected@ == s@ && forall|protocol: Protocol|
                s@ != #[trigger] tag_of(protocol),
        },
{
    let owned = s.to_owned();
    if owned == "BB84".to_owned() {
        Ok(Protocol::BB84)
    } else if owned == "SixState".to_owned() {
        Ok(Protocol::SixState)
    } else if owned == "B92".to_owned() {
        Ok(Protocol::B92)
    } else {
        Err(owned)
    }
}

/// No two variants share a tag, so a tag names at most one variant.
pub proof fn lemma_tags_are_distinct(first: Protocol, second: Protocol)
    requires
        tag_of(first) == tag_of(second),
    ensures
        first == second,
{
    reveal_strlit("BB84");
    reveal_strlit("SixState");
    reveal_strlit("B92");
    assert("BB84"@.len() == 4);
    assert("SixState"@.len() == 8);
    assert("B92"@.len() == 3);
}

} // verus!
