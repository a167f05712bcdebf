use vstd::prelude::*;

use crate::text::{hex_text, join, views, join_strings, owned, hex_text_u8};

verus! {

/// A set of message directions, stored as bits.
#[derive(Clone, Copy, PartialEq, Eq, Structural, Hash, Debug)]
pub struct Direction {
    pub bits: u8,
}

/// Bits of the two directions.
pub const INBOUND_BIT: u8 = 0b0000_0001;
pub const OUTBOUND_BIT: u8 = 0b0000_0010;

/// The names of the known flags set in `bits`, in declaration order.
pub open spec fn direction_flag_names(bits: u8) -> Seq<Seq<char>> {
    let a: Seq<Seq<char>> = if bits & INBOUND_BIT != 0 { seq!["INBOUND"@] } else { seq![] };
    if bits & OUTBOUND_BIT != 0 { a.push("OUTBOUND"@) } else { a }
}

/// The text `{:?}` gives for a direction set: the set flag names joined by ` | `,
/// followed by any unknown bits in hexadecimal; `0x0` for the empty set.
pub open spec fn direction_debug_text(bits: u8) -> Seq<char> {
    let extra = bits & 0b1111_1100u8;
    let parts = if extra != 0 {
        direction_flag_names(bits).push("0x"@ + hex_text(extra))
    } else {
        direction_flag_names(bits)
    };
    let inner = if bits == 0 { "0x0"@ } else { join(parts, " | "@) };
    "Direction("@ + inner + ")"@
}

impl Direction {
    pub open spec fn spec_none() -> Direction {
        Direction { bits: 0 }
    }

    pub open spec fn spec_inbound() -> Direction {
        Direction { bits: INBOUND_BIT }
    }

    pub open spec fn spec_outbound() -> Direction {
        Direction { bits: OUTBOUND_BIT }
    }

    pub open spec fn spec_both() -> Direction {
        Direction { bits: INBOUND_BIT | OUTBOUND_BIT }
    }

    /// No direction.
    #[verifier::when_used_as_spec(spec_none)]
    pub fn none() -> (r: Direction)
        ensures
            r == Self::spec_none(),
    {
        Direction { bits: 0 }
    }

    /// Messages received from a peer.
    #[verifier::when_used_as_spec(spec_inbound)]
    pub fn inbound() -> (r: Direction)
        ensures
            r == Self::spec_inbound(),
    {
        Direction { bits: INBOUND_BIT }
    }

    /// Messages sent to a peer.
    #[verifier::when_used_as_spec(spec_outbound)]
    pub fn outbound() -> (r: Direction)
        ensures
            r == Self::spec_outbound(),
    {
        Direction { bits: OUTBOUND_BIT }
    }

    /// Both directions.
    #[verifier::when_used_as_spec(spec_both)]
    pub fn both() -> (r: Direction)
        ensures
            r == Self::spec_both(),
    {
        Direction { bits: INBOUND_BIT | OUTBOUND_BIT }
    }

    /// The set with exactly the given bits, known or not.
    pub fn from_bits_retain(bits: u8) -> (r: Direction)
        ensures
            r.bits == bits,
    {
        Direction { bits }
    }

    /// The raw bits.
    pub fn bits(&self) -> (r: u8)
        ensures
            r == self.bits,
    {
        self.bits
    }

    /// Whether every flag of `other` is set in `self`.
    pub open spec fn has(self, other: Direction) -> bool {
        self.bits & other.bits == other.bits
    }

    /// Whether `self` and `other` share a flag.
    pub open spec fn meets(self, other: Direction) -> bool {
        self.bits & other.bits != 0
    }

    pub fn contains(&self, other: Direction) -> (r: bool)
        ensures
            r == self.has(other),
    {
        self.bits & other.bits == other.bits
    }

    pub fn intersects(&self, other: Direction) -> (r: bool)
        ensures
            r == self.meets(other),
    {
        self.bits & other.bits != 0
    }

    pub fn is_empty(&self) -> (r: bool)
        ensures
            r == (self.bits == 0),
    {
        self.bits == 0
    }

    /// Adds the flags of `other`.
    pub fn insert(&mut self, other: Direction)
        ensures
            final(self).bits == old(self).bits | other.bits,
    {
        self.bits = self.bits | other.bits;
    }

    /// Removes the flags of `other`.
    pub fn remove(&mut self, other: Direction)
        ensures
            final(self).bits == old(self).bits & !other.bits,
    {
        self.bits = self.bits & !other.bits;
    }

    /// The user-facing name of the set.
    pub open spec fn spec_name(self) -> Seq<char> {
        if self.has(Self::spec_inbound()) && self.has(Self::spec_outbound()) {
            "Both"@
        } else if self.has(Self::spec_inbound()) {
            "Inbound"@
        } else if self.has(Self::spec_outbound()) {
            "Outbound"@
        } else {
            "None"@
        }
    }

    /// The arrow drawn for a message in this direction.
    pub open spec fn spec_arrow(self) -> Seq<char> {
        if self.has(Self::spec_inbound()) {
            "<--"@
        } else if self.has(Self::spec_outbound()) {
            "-->"@
        } else {
            "---"@
        }
    }

    /// The preposition used for a message in this direction.
    pub open spec fn spec_text(self) -> Seq<char> {
        if self.has(Self::spec_inbound()) {
            "from"@
        } else if self.has(Self::spec_outbound()) {
            "to"@
        } else {
            "with"@
        }
    }

    pub fn name(&self) -> (r: &'static str)
        ensures
            r@ == self.spec_name(),
    {
        if self.contains(Direction::inbound()) && self.contains(Direction::outbound()) {
            "Both"
        } else if self.contains(Direction::inbound()) {
            "Inbound"
        } else if self.contains(Direction::outbound()) {
            "Outbound"
        } else {
            "None"
        }
    }

    pub fn arrow(&self) -> (r: &'static str)
        ensures
            r@ == self.spec_arrow(),
    {
        if self.contains(Direction::inbound()) {
            "<--"
        } else if self.contains(Direction::outbound()) {
            "-->"
        } else {
            "---"
        }
    }

    pub fn text(&self) -> (r: &'static str)
        ensures
            r@ == self.spec_text(),
    {
        if self.contains(Direction::inbound()) {
            "from"
        } else if self.contains(Direction::outbound()) {
            "to"
        } else {
            "with"
        }
    }

    /// The text `{:?}` gives for this set.
    pub fn debug_text(&self) -> (r: String)
        ensures
            r@ == direction_debug_text(self.bits),
    {
        let bits = self.bits;
        let mut out = owned("Direction(");
        if bits == 0 {
            out.append("0x0");
        } else {
            let mut parts: Vec<String> = Vec::new();
            if bits & INBOUND_BIT != 0 {
                parts.push(owned("INBOUND"));
            }
            if bits & OUTBOUND_BIT != 0 {
                parts.push(owned("OUTBOUND"));
            }
            let extra = bits & 0b1111_1100u8;
            if extra != 0 {
                let mut h = owned("0x");
                let hx = hex_text_u8(extra);
                h.append(hx.as_str());
                parts.push(h);
            }
            let ghost names = direction_flag_names(bits);
            assert(views(parts@) =~= (if extra != 0 {
                names.push("0x"@ + hex_text(extra))
            } else {
                names
            }));
            let joined = join_strings(&parts, " | ");
            out.append(joined.as_str());
        }
        out.append(")");
        out
    }
}

} // verus!
