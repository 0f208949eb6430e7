//! What a playback engine can do beyond the mandatory base.
//!
//! A [`Capability`] names something that genuinely differs between engines;
//! the mandatory base is not represented here at all. The set is a small value
//! type, a bit per capability.
use vstd::prelude::*;

verus! {

/// An optional engine capability. Free of private data, so it may be logged.
#[derive(Debug, Clone, Copy, PartialEq, Eq, Hash, Structural)]
pub enum Capability {
    EmbeddedTextExtraction,
    ExternalSubtitleInjection,
    RenderedTextObservation,
    PlaybackRate,
    Volume,
}

/// The bit each capability occupies in a [`Capabilities`] set.
pub open spec fn capability_bit(capability: Capability) -> u8 {
    match capability {
        Capability::EmbeddedTextExtraction => 1u8,
        Capability::ExternalSubtitleInjection => 2u8,
        Capability::RenderedTextObservation => 4u8,
        Capability::PlaybackRate => 8u8,
        Capability::Volume => 16u8,
    }
}

/// The position of a capability in declaration order.
pub open spec fn capability_index(capability: Capability) -> int {
    match capability {
        Capability::EmbeddedTextExtraction => 0,
        Capability::ExternalSubtitleInjection => 1,
        Capability::RenderedTextObservation => 2,
        Capability::PlaybackRate => 3,
        Capability::Volume => 4,
    }
}

/// Every capability, in declaration order.
pub open spec fn all_capabilities() -> Seq<Capability> {
    seq![
        Capability::EmbeddedTextExtraction,
        Capability::ExternalSubtitleInjection,
        Capability::RenderedTextObservation,
        Capability::PlaybackRate,
        Capability::Volume,
    ]
}

/// The stable lowercase name of a capability.
pub open spec fn capability_name(capability: Capability) -> Seq<char> {
    match capability {
        Capability::EmbeddedTextExtraction => "embedded_text_extraction"@,
        Capability::ExternalSubtitleInjection => "external_subtitle_injection"@,
        Capability::RenderedTextObservation => "rendered_text_observation"@,
        Capability::PlaybackRate => "playback_rate"@,
        Capability::Volume => "volume"@,
    }
}

/// The name a capability is printed under in a set's diagnostic text.
pub open spec fn capability_variant_name(capability: Capability) -> Seq<char> {
    match capability {
        Capability::EmbeddedTextExtraction => "EmbeddedTextExtraction"@,
        Capability::ExternalSubtitleInjection => "ExternalSubtitleInjection"@,
        Capability::RenderedTextObservation => "RenderedTextObservation"@,
        Capability::PlaybackRate => "PlaybackRate"@,
        Capability::Volume => "Volume"@,
    }
}

impl Capability {
    /// Every capability, in declaration order.
    pub const ALL: [Capability; 5] = [
        Capability::EmbeddedTextExtraction,
        Capability::ExternalSubtitleInjection,
        Capability::RenderedTextObservation,
        Capability::PlaybackRate,
        Capability::Volume,
    ];

    /// Stable lowercase name. Safe to log.
    pub fn as_str(self) -> (name: &'static str)
        ensures
            name@ == capability_name(self),
    {
        match self {
            Capability::EmbeddedTextExtraction => "embedded_text_extraction",
            Capability::ExternalSubtitleInjection => "external_subtitle_injection",
            Capability::RenderedTextObservation => "rendered_text_observation",
            Capability::PlaybackRate => "playback_rate",
            Capability::Volume => "volume",
        }
    }

    /// The name under which the capability appears in a set's diagnostic text.
    pub fn variant_name(self) -> (name: &'static str)
        ensures
            name@ == capability_variant_name(self),
    {
        match self {
            Capability::EmbeddedTextExtraction => "EmbeddedTextExtraction",
            Capability::ExternalSubtitleInjection => "ExternalSubtitleInjection",
            Capability::RenderedTextObservation => "RenderedTextObservation",
            Capability::PlaybackRate => "PlaybackRate",
            Capability::Volume => "Volume",
        }
    }

    fn bit(self) -> (bit: u8)
        ensures
            bit == capability_bit(self),
    {
        match self {
            Capability::EmbeddedTextExtraction => 1,
            Capability::ExternalSubtitleInjection => 2,
            Capability::RenderedTextObservation => 4,
            Capability::PlaybackRate => 8,
            Capability::Volume => 16,
        }
    }
}

proof fn lemma_or_bit(x: u8, b: u8, d: u8)
    by (bit_vector)
    ensures
        ((x | b) & d != 0u8) == ((x & d != 0u8) || (b & d != 0u8)),
{
}

proof fn lemma_and_not_bit(x: u8, b: u8, d: u8)
    by (bit_vector)
    requires
        (b & d == 0u8) || b == d,
    ensures
        ((x & !b) & d != 0u8) == ((x & d != 0u8) && b != d),
        (x & !b) < 32u8 || x >= 32u8,
{
}

proof fn lemma_single_bits(a: u8, b: u8)
    by (bit_vector)
    requires
        a == 1u8 || a == 2u8 || a == 4u8 || a == 8u8 || a == 16u8,
        b == 1u8 || b == 2u8 || b == 4u8 || b == 8u8 || b == 16u8,
    ensures
        (a & b == 0u8) == (a != b),
        a & a != 0u8,
        a < 32u8,
{
}

proof fn lemma_small_set(x: u8, b: u8)
    by (bit_vector)
    requires
        x < 32u8,
        b < 32u8,
    ensures
        (x | b) < 32u8,
        (x & !b) < 32u8,
        (x == 0u8) == (x & 1u8 == 0u8 && x & 2u8 == 0u8 && x & 4u8 == 0u8 && x & 8u8 == 0u8
            && x & 16u8 == 0u8),
{
}

proof fn lemma_bits_distinct(c: Capability, d: Capability)
    ensures
        (capability_bit(c) & capability_bit(d) == 0u8) == (c != d),
        capability_bit(c) < 32u8,
{
    lemma_single_bits(capability_bit(c), capability_bit(d));
}

/// The set of capabilities an engine declares: a bit per capability.
#[derive(Clone, Copy, PartialEq, Eq, Default)]
pub struct Capabilities(u8);

/// The declared capabilities of a set that holds `members`, in declaration
/// order, considering the first `n` capabilities only.
pub open spec fn members_upto(members: Set<Capability>, n: nat) -> Seq<Capability>
    decreases n,
{
    if n == 0 {
        Seq::empty()
    } else {
        let c = all_capabilities()[n - 1];
        let earlier = members_upto(members, (n - 1) as nat);
        if members.contains(c) {
            earlier.push(c)
        } else {
            earlier
        }
    }
}

/// The declared capabilities in declaration order.
pub open spec fn ordered_members(members: Set<Capability>) -> Seq<Capability> {
    members_upto(members, 5)
}

/// The names of `caps`, separated by a comma and a space.
pub open spec fn joined_variant_names(caps: Seq<Capability>) -> Seq<char>
    decreases caps.len(),
{
    if caps.len() == 0 {
        Seq::empty()
    } else if caps.len() == 1 {
        capability_variant_name(caps[0])
    } else {
        joined_variant_names(caps.drop_last()) + ", "@ + capability_variant_name(caps.last())
    }
}

impl View for Capabilities {
    type V = Set<Capability>;

    closed spec fn view(&self) -> Set<Capability> {
        Set::new(|c: Capability| self.0 & capability_bit(c) != 0u8)
    }
}

impl Capabilities {
    #[verifier::type_invariant]
    closed spec fn within_declared_bits(self) -> bool {
        self.0 < 32u8
    }

    /// The empty set: an engine that provides the mandatory base and nothing else.
    pub fn none() -> (set: Capabilities)
        ensures
            set@ == Set::<Capability>::empty(),
    {
        let set = Capabilities(0);
        assert forall|c: Capability| !set@.contains(c) by {
            lemma_bits_distinct(c, c);
            assert(0u8 & capability_bit(c) == 0u8) by (bit_vector);
        }
        assert(set@ =~= Set::<Capability>::empty());
        set
    }

    /// Every optional capability.
    pub fn all() -> (set: Capabilities)
        ensures
            set@ == Set::<Capability>::full(),
    {
        let set = Capabilities(31);
        assert forall|c: Capability| set@.contains(c) by {
            let b = capability_bit(c);
            lemma_bits_distinct(c, c);
            assert(b == 1u8 || b == 2u8 || b == 4u8 || b == 8u8 || b == 16u8 ==> 31u8 & b != 0u8)
                by (bit_vector);
        }
        assert(set@ =~= Set::<Capability>::full());
        set
    }

    /// Builds a set from the given capabilities.
    pub fn new(capabilities: &[Capability]) -> (set: Capabilities)
        ensures
            forall|c: Capability| set@.contains(c) <==> capabilities@.contains(c),
    {
        let mut set = Capabilities::none();
        let mut i: usize = 0;
        while i < capabilities.len()
            invariant
                i <= capabilities@.len(),
                forall|c: Capability|
                    set@.contains(c) <==> (exists|k: int| 0 <= k < i && capabilities@[k] == c),
            decreases capabilities@.len() - i,
        {
            let added = capabilities[i];
            let next = set.with(added);
            assert forall|c: Capability|
                next@.contains(c) <==> (exists|k: int| 0 <= k < i + 1 && capabilities@[k] == c) by {
                if c == added {
                    assert(capabilities@[i as int] == c);
                }
                if exists|k: int| 0 <= k < i + 1 && capabilities@[k] == c {
                    let k = choose|k: int| 0 <= k < i + 1 && capabilities@[k] == c;
                    if k < i {
                        assert(set@.contains(c));
                    }
                }
            }
            set = next;
            i = i + 1;
        }
        set
    }

    pub fn contains(self, capability: Capability) -> (present: bool)
        ensures
            present == self@.contains(capability),
    {
        self.0 & capability.bit() != 0
    }

    pub fn with(self, capability: Capability) -> (set: Capabilities)
        ensures
            set@ == self@.insert(capability),
    {
        proof {
            use_type_invariant(&self);
            lemma_bits_distinct(capability, capability);
            lemma_small_set(self.0, capability_bit(capability));
        }
        let set = Capabilities(self.0 | capability.bit());
        assert forall|d: Capability| set@.contains(d) == self@.insert(capability).contains(d) by {
            lemma_or_bit(self.0, capability_bit(capability), capability_bit(d));
            lemma_bits_distinct(capability, d);
        }
        assert(set@ =~= self@.insert(capability));
        set
    }

    pub fn without(self, capability: Capability) -> (set: Capabilities)
        ensures
            set@ == self@.remove(capability),
    {
        proof {
            use_type_invariant(&self);
            lemma_bits_distinct(capability, capability);
            lemma_small_set(self.0, capability_bit(capability));
        }
        let set = Capabilities(self.0 & !capability.bit());
        assert forall|d: Capability| set@.contains(d) == self@.remove(capability).contains(d) by {
            lemma_bits_distinct(capability, d);
            lemma_and_not_bit(self.0, capability_bit(capability), capability_bit(d));
        }
        assert(set@ =~= self@.remove(capability));
        set
    }

    pub fn is_empty(self) -> (empty: bool)
        ensures
            empty == (self@ == Set::<Capability>::empty()),
    {
        proof {
            use_type_invariant(&self);
            lemma_small_set(self.0, 0u8);
            if self.0 != 0u8 {
                let witness = if self.0 & 1u8 != 0u8 {
                    Capability::EmbeddedTextExtraction
                } else if self.0 & 2u8 != 0u8 {
                    Capability::ExternalSubtitleInjection
                } else if self.0 & 4u8 != 0u8 {
                    Capability::RenderedTextObservation
                } else if self.0 & 8u8 != 0u8 {
                    Capability::PlaybackRate
                } else {
                    Capability::Volume
                };
                assert(self@.contains(witness));
            } else {
                assert forall|c: Capability| !self@.contains(c) by {
                    assert(0u8 & capability_bit(c) == 0u8) by (bit_vector);
                }
                assert(self@ =~= Set::<Capability>::empty());
            }
        }
        self.0 == 0
    }

    /// The declared capabilities, in [`Capability::ALL`] order.
    pub fn iter(self) -> (members: Vec<Capability>)
        ensures
            members@ == ordered_members(self@),
    {
        let all = [
            Capability::EmbeddedTextExtraction,
            Capability::ExternalSubtitleInjection,
            Capability::RenderedTextObservation,
            Capability::PlaybackRate,
            Capability::Volume,
        ];
        assert(all@ =~= all_capabilities());
        let mut members: Vec<Capability> = Vec::new();
        let mut i: usize = 0;
        while i < 5
            invariant
                i <= 5,
                all@ == all_capabilities(),
                members@ == members_upto(self@, i as nat),
            decreases 5 - i,
        {
            if self.contains(all[i]) {
                members.push(all[i]);
            }
            i = i + 1;
        }
        members
    }

    /// Diagnostic text naming the declared capabilities, such as
    /// `{PlaybackRate, Volume}`; never the bit pattern.
    pub fn debug_text(self) -> (text: String)
        ensures
            text@ == "{"@ + joined_variant_names(ordered_members(self@)) + "}"@,
    {
        let members = self.iter();
        let mut text = String::from_str("{");
        let mut i: usize = 0;
        while i < members.len()
            invariant
                i <= members@.len(),
                members@ == ordered_members(self@),
                text@ == "{"@ + joined_variant_names(members@.subrange(0, i as int)),
            decreases members@.len() - i,
        {
            let ghost before = members@.subrange(0, i as int);
            assert(members@.subrange(0, i + 1).drop_last() =~= before);
            if i > 0 {
                text.append(", ");
            }
            text.append(members[i].variant_name());
            i = i + 1;
        }
        assert(members@.subrange(0, members@.len() as int) =~= members@);
        text.append("}");
        text
    }
}

/// Adding a capability and then removing it again leaves that capability
/// out of the set, and every other capability as it was.
pub proof fn law_with_then_without(set: Capabilities, added: Capability)
    ensures
        set@.insert(added).remove(added) == set@.remove(added),
        !set@.insert(added).remove(added).contains(added),
{
    assert(set@.insert(added).remove(added) =~= set@.remove(added));
}

/// A set built from a single capability contains exactly that capability:
/// no two capabilities share a bit.
pub proof fn law_each_capability_has_its_own_bit(c: Capability, d: Capability)
    ensures
        (capability_bit(c) & capability_bit(d) != 0u8) == (c == d),
{
    lemma_bits_distinct(c, d);
}

proof fn lemma_members_upto(members: Set<Capability>, n: nat)
    requires
        n <= 5,
    ensures
        forall|c: Capability|
            members_upto(members, n).contains(c) <==> (members.contains(c) && capability_index(c)
                < n),
        forall|i: int|
            0 <= i < members_upto(members, n).len() ==> capability_index(
                #[trigger] members_upto(members, n)[i],
            ) < n,
        forall|i: int, j: int|
            0 <= i < j < members_upto(members, n).len() ==> capability_index(
                #[trigger] members_upto(members, n)[i],
            ) < capability_index(#[trigger] members_upto(members, n)[j]),
    decreases n,
{
    if n > 0 {
        lemma_members_upto(members, (n - 1) as nat);
        let c = all_capabilities()[n - 1];
        assert(capability_index(c) == n - 1);
        let earlier = members_upto(members, (n - 1) as nat);
        assert forall|d: Capability|
            members_upto(members, n).contains(d) <==> (members.contains(d) && capability_index(d)
                < n) by {
            if members.contains(c) {
                assert(earlier.push(c)[earlier.len() as int] == c);
                if earlier.push(c).contains(d) && d != c {
                    let k = choose|k: int| 0 <= k < earlier.push(c).len() && earlier.push(c)[k] == d;
                    assert(earlier[k] == d);
                }
                if earlier.contains(d) {
                    let k = choose|k: int| 0 <= k < earlier.len() && earlier[k] == d;
                    assert(earlier.push(c)[k] == d);
                }
            }
            if capability_index(d) == n - 1 {
                assert(d == c);
            }
        }
    }
}

/// Listing a set's members gives each declared capability exactly once, in
/// declaration order, and nothing else.
pub proof fn law_members_are_the_set(members: Set<Capability>)
    ensures
        forall|c: Capability| ordered_members(members).contains(c) <==> members.contains(c),
        forall|i: int, j: int|
            0 <= i < j < ordered_members(members).len() ==> capability_index(
                #[trigger] ordered_members(members)[i],
            ) < capability_index(#[trigger] ordered_members(members)[j]),
{
    lemma_members_upto(members, 5);
}

} // verus!
