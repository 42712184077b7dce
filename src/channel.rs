use vstd::prelude::*;

verus! {

/// A set of colour channels, as a 3-bit mask: R = 1, G = 2, B = 4.
#[derive(Debug, Clone, Copy, PartialEq, Eq, Structural)]
pub enum Channel {
    NoChannel,
    R,
    G,
    RG,
    B,
    RB,
    GB,
    RGB,
}

/// The selector whose mask is `v`; any value beyond the three channel bits
/// selects no channel.
pub open spec fn channel_of(v: u8) -> Channel {
    match v {
        1 => Channel::R,
        2 => Channel::G,
        3 => Channel::RG,
        4 => Channel::B,
        5 => Channel::RB,
        6 => Channel::GB,
        7 => Channel::RGB,
        _ => Channel::NoChannel,
    }
}

impl Channel {
    /// The selector's mask.
    pub open spec fn spec_bits(self) -> u8 {
        match self {
            Channel::NoChannel => 0,
            Channel::R => 1,
            Channel::G => 2,
            Channel::RG => 3,
            Channel::B => 4,
            Channel::RB => 5,
            Channel::GB => 6,
            Channel::RGB => 7,
        }
    }

    /// Whether `self` and `other` share a channel.
    pub open spec fn spec_has(self, other: Channel) -> bool {
        self.spec_bits() & other.spec_bits() != 0
    }

    /// One of the three single channels.
    pub open spec fn is_atomic(self) -> bool {
        self is R || self is G || self is B
    }

    /// The selector's mask.
    pub fn bits(self) -> (r: u8)
        ensures
            r == self.spec_bits(),
            r < 8,
    {
        match self {
            Channel::NoChannel => 0,
            Channel::R => 1,
            Channel::G => 2,
            Channel::RG => 3,
            Channel::B => 4,
            Channel::RB => 5,
            Channel::GB => 6,
            Channel::RGB => 7,
        }
    }

    /// Whether the selector includes any channel of `other`.
    pub fn has(self, other: Channel) -> (r: bool)
        ensures
            r == self.spec_has(other),
    {
        proof {
            lemma_mask_bounds(self.spec_bits(), other.spec_bits());
        }
        (self & other) != Channel::NoChannel
    }

    /// The channels in both selectors.
    pub fn intersect(self, other: Channel) -> (r: Channel)
        ensures
            r == channel_of(self.spec_bits() & other.spec_bits()),
    {
        self & other
    }

    /// The channels in either selector.
    pub fn union(self, other: Channel) -> (r: Channel)
        ensures
            r == channel_of(self.spec_bits() | other.spec_bits()),
    {
        self | other
    }
}

proof fn lemma_bits_of_channel(v: u8)
    requires
        v < 8,
    ensures
        channel_of(v).spec_bits() == v,
{
}

/// Membership among single channels: for two different single channels `x`
/// and `y`, their union includes both, `x` does not include `y`, and the
/// empty selector includes neither.
pub proof fn lemma_membership_algebra(x: Channel, y: Channel)
    requires
        x.is_atomic(),
        y.is_atomic(),
        x != y,
    ensures
        channel_of(x.spec_bits() | y.spec_bits()).spec_has(x),
        channel_of(x.spec_bits() | y.spec_bits()).spec_has(y),
        !x.spec_has(y),
        !Channel::NoChannel.spec_has(x),
        !Channel::NoChannel.spec_has(y),
{
    let a = x.spec_bits();
    let b = y.spec_bits();
    assert(a < 8 && b < 8 && (a == 1 || a == 2 || a == 4) && (b == 1 || b == 2 || b == 4) && a != b);
    assert((a | b) < 8 && (a | b) & a != 0 && (a | b) & b != 0 && a & b == 0 && 0u8 & a == 0 && 0u8
        & b == 0) by (bit_vector)
        requires
            a == 1 || a == 2 || a == 4,
            b == 1 || b == 2 || b == 4,
            a != b,
    ;
    lemma_bits_of_channel(a | b);
}

proof fn lemma_mask_bounds(a: u8, b: u8)
    requires
        a < 8,
        b < 8,
    ensures
        a & b < 8,
        a | b < 8,
{
    assert(a & b < 8 && a | b < 8) by (bit_vector)
        requires
            a < 8,
            b < 8,
    ;
}

impl From<u8> for Channel {
    fn from(v: u8) -> (r: Channel) {
        match v {
            1 => Channel::R,
            2 => Channel::G,
            3 => Channel::RG,
            4 => Channel::B,
            5 => Channel::RB,
            6 => Channel::GB,
            7 => Channel::RGB,
            _ => Channel::NoChannel,
        }
    }
}

impl vstd::std_specs::convert::FromSpecImpl<u8> for Channel {
    open spec fn obeys_from_spec() -> bool {
        true
    }

    open spec fn from_spec(v: u8) -> Channel {
        channel_of(v)
    }
}

impl std::ops::BitAnd<Channel> for Channel {
    type Output = Channel;

    fn bitand(self, rhs: Channel) -> (r: Channel) {
        Channel::from(self.bits() & rhs.bits())
    }
}

impl vstd::std_specs::ops::BitAndSpecImpl<Channel> for Channel {
    open spec fn obeys_bitand_spec() -> bool {
        true
    }

    open spec fn bitand_req(self, rhs: Channel) -> bool {
        true
    }

    open spec fn bitand_spec(self, rhs: Channel) -> Channel {
        channel_of(self.spec_bits() & rhs.spec_bits())
    }
}

impl std::ops::BitOr<Channel> for Channel {
    type Output = Channel;

    fn bitor(self, rhs: Channel) -> (r: Channel) {
        Channel::from(self.bits() | rhs.bits())
    }
}

impl vstd::std_specs::ops::BitOrSpecImpl<Channel> for Channel {
    open spec fn obeys_bitor_spec() -> bool {
        true
    }

    open spec fn bitor_req(self, rhs: Channel) -> bool {
        true
    }

    open spec fn bitor_spec(self, rhs: Channel) -> Channel {
        channel_of(self.spec_bits() | rhs.spec_bits())
    }
}

} // verus!
