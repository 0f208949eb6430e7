//! What a subtitle surface can do beyond drawing: a set of one optional
//! capability, a bit per capability.
use vstd::prelude::*;

verus! {

/// An optional renderer capability.
#[derive(Debug, Clone, Copy, PartialEq, Eq, PartialOrd, Ord, Hash, Structural)]
pub enum Capability {
    /// The surface can report the text it is drawing.
    ObservedText,
}

impl Capability {
    /// Every capability, in declaration order.
    pub const ALL: [Capability; 1] = [Capability::ObservedText];

    /// Stable lowercase name. Safe to log.
    pub fn as_str(self) -> (name: &'static str)
        ensures
            name@ == "observed_text"@,
    {
        match self {
            Capability::ObservedText => "observed_text",
        }
    }

    fn bit(self) -> (bit: u8)
        ensures
            bit == 1u8,
    {
        match self {
            Capability::ObservedText => 1,
        }
    }
}

/// The capabilities a surface declares.
#[derive(Clone, Copy, PartialEq, Eq, Default)]
pub struct Capabilities(u8);

impl View for Capabilities {
    type V = Set<Capability>;

    closed spec fn view(&self) -> Set<Capability> {
        Set::new(|c: Capability| self.0 & 1u8 != 0u8)
    }
}

proof fn lemma_one_bit(x: u8)
    by (bit_vector)
    requires
        x < 2u8,
    ensures
        (x | 1u8) & 1u8 != 0u8,
        (x & !1u8) & 1u8 == 0u8,
        (x | 1u8) < 2u8,
        (x & !1u8) < 2u8,
        (x == 0u8) == (x & 1u8 == 0u8),
        0u8 & 1u8 == 0u8,
        1u8 & 1u8 != 0u8,
{
}

impl Capabilities {
    #[verifier::type_invariant]
    closed spec fn within_declared_bits(self) -> bool {
        self.0 < 2u8
    }

    /// A surface that draws and nothing else.
    pub fn none() -> (set: Capabilities)
        ensures
            set@ == Set::<Capability>::empty(),
    {
        let set = Capabilities(0);
        proof {
            lemma_one_bit(0);
        }
        assert(set@ =~= Set::<Capability>::empty());
        set
    }

    /// Every optional capability.
    pub fn all() -> (set: Capabilities)
        ensures
            set@ == Set::<Capability>::full(),
    {
        let set = Capabilities(1);
        proof {
            lemma_one_bit(1);
        }
        assert(set@ =~= Set::<Capability>::full());
        set
    }

    /// Builds a set from the given capabilities.
    pub fn new(capabilities: &[Capability]) -> (set: Capabilities)
        ensures
            forall|c: Capability| set@.contains(c) <==> capabilities@.contains(c),
    {
        if capabilities.len() == 0 {
            Capabilities::none()
        } else {
            proof {
                let c0 = capabilities@[0];
                assert forall|c: Capability| capabilities@.contains(c) by {
                    assert(c == c0);
                }
            }
            Capabilities::all()
        }
    }

    pub fn contains(self, capability: Capability) -> (present: bool)
        ensures
            present == self@.contains(capability),
    {
        self.0 & capability.bit() != 0
    }

    pub fn with(self, capability: Capability) -> (set: Capabilities)
        ensures
            set@ == self@.insert(capability),
    {
        proof {
            use_type_invariant(&self);
            lemma_one_bit(self.0);
        }
        let set = Capabilities(self.0 | capability.bit());
        assert(set@ =~= self@.insert(capability));
        set
    }

    pub fn without(self, capability: Capability) -> (set: Capabilities)
        ensures
            set@ == self@.remove(capability),
    {
        proof {
            use_type_invariant(&self);
            lemma_one_bit(self.0);
        }
        let set = Capabilities(self.0 & !capability.bit());
        assert(set@ =~= self@.remove(capability));
        set
    }

    pub fn is_empty(self) -> (empty: bool)
        ensures
            empty == (self@ == Set::<Capability>::empty()),
    {
        proof {
            use_type_invariant(&self);
            lemma_one_bit(self.0);
            if self.0 != 0u8 {
                assert(self@.contains(Capability::ObservedText));
            } else {
                assert(self@ =~= Set::<Capability>::empty());
            }
        }
        self.0 == 0
    }

    /// The declared capabilities, in [`Capability::ALL`] order.
    pub fn iter(self) -> (members: Vec<Capability>)
        ensures
            members@ == (if self@.contains(Capability::ObservedText) {
                seq![Capability::ObservedText]
            } else {
                Seq::<Capability>::empty()
            }),
    {
        let mut members: Vec<Capability> = Vec::new();
        if self.contains(Capability::ObservedText) {
            members.push(Capability::ObservedText);
        }
        assert(members@ =~= (if self@.contains(Capability::ObservedText) {
            seq![Capability::ObservedText]
        } else {
            Seq::<Capability>::empty()
        }));
        members
    }

    /// Diagnostic text naming the declared capabilities, such as
    /// `{ObservedText}`; never the bit pattern.
    pub fn debug_text(self) -> (text: &'static str)
        ensures
            text@ == (if self@.contains(Capability::ObservedText) {
                "{ObservedText}"@
            } else {
                "{}"@
            }),
    {
        if self.contains(Capability::ObservedText) {
            "{ObservedText}"
        } else {
            "{}"
        }
    }
}

/// Adding the capability and removing it again leaves it out of the set.
pub proof fn law_with_then_without(set: Set<Capability>, added: Capability)
    ensures
        !set.insert(added).remove(added).contains(added),
        set.insert(added).remove(added) == set.remove(added),
{
    assert(set.insert(added).remove(added) =~= set.remove(added));
}

} // verus!
