use vstd::prelude::*;

use crate::text::{hex_text, join, views, join_strings, owned, hex_text_u8};

verus! {

/// A set of event categories, stored as bits, one bit per category.
#[derive(Clone, Copy, PartialEq, Eq, Structural, Hash, Debug)]
pub struct EventType {
    pub bits: u8,
}

/// Bits of the known categories.
pub const MESSAGE_BIT: u8 = 0b0000_0001;
pub const CONNECTION_BIT: u8 = 0b0000_0010;
pub const ADDRMAN_BIT: u8 = 0b0000_0100;
pub const MEMPOOL_BIT: u8 = 0b0000_1000;
pub const VALIDATION_BIT: u8 = 0b0001_0000;

/// The names of the known flags set in `bits`, in declaration order.
pub open spec fn event_flag_names(bits: u8) -> Seq<Seq<char>> {
    let a: Seq<Seq<char>> = if bits & MESSAGE_BIT != 0 { seq!["MESSAGE"@] } else { seq![] };
    let b: Seq<Seq<char>> = if bits & CONNECTION_BIT != 0 { a.push("CONNECTION"@) } else { a };
    let c: Seq<Seq<char>> = if bits & ADDRMAN_BIT != 0 { b.push("ADDRMAN"@) } else { b };
    let d: Seq<Seq<char>> = if bits & MEMPOOL_BIT != 0 { c.push("MEMPOOL"@) } else { c };
    if bits & VALIDATION_BIT != 0 { d.push("VALIDATION"@) } else { d }
}

/// The text `{:?}` gives for an event set: the set flag names joined by ` | `,
/// followed by any unknown bits in hexadecimal; `0x0` for the empty set.
pub open spec fn event_debug_text(bits: u8) -> Seq<char> {
    let extra = bits & 0b1110_0000u8;
    let parts = if extra != 0 {
        event_flag_names(bits).push("0x"@ + hex_text(extra))
    } else {
        event_flag_names(bits)
    };
    let inner = if bits == 0 { "0x0"@ } else { join(parts, " | "@) };
    "EventType("@ + inner + ")"@
}

impl EventType {
    pub open spec fn spec_none() -> EventType {
        EventType { bits: 0 }
    }

    pub open spec fn spec_message() -> EventType {
        EventType { bits: MESSAGE_BIT }
    }

    pub open spec fn spec_connection() -> EventType {
        EventType { bits: CONNECTION_BIT }
    }

    pub open spec fn spec_addrman() -> EventType {
        EventType { bits: ADDRMAN_BIT }
    }

    pub open spec fn spec_mempool() -> EventType {
        EventType { bits: MEMPOOL_BIT }
    }

    pub open spec fn spec_validation() -> EventType {
        EventType { bits: VALIDATION_BIT }
    }

    /// The empty set.
    #[verifier::when_used_as_spec(spec_none)]
    pub fn none() -> (r: EventType)
        ensures
            r == Self::spec_none(),
    {
        EventType { bits: 0 }
    }

    /// P2P messages.
    #[verifier::when_used_as_spec(spec_message)]
    pub fn message() -> (r: EventType)
        ensures
            r == Self::spec_message(),
    {
        EventType { bits: MESSAGE_BIT }
    }

    /// Connection events.
    #[verifier::when_used_as_spec(spec_connection)]
    pub fn connection() -> (r: EventType)
        ensures
            r == Self::spec_connection(),
    {
        EventType { bits: CONNECTION_BIT }
    }

    /// Address-manager events.
    #[verifier::when_used_as_spec(spec_addrman)]
    pub fn addrman() -> (r: EventType)
        ensures
            r == Self::spec_addrman(),
    {
        EventType { bits: ADDRMAN_BIT }
    }

    /// Mempool events.
    #[verifier::when_used_as_spec(spec_mempool)]
    pub fn mempool() -> (r: EventType)
        ensures
            r == Self::spec_mempool(),
    {
        EventType { bits: MEMPOOL_BIT }
    }

    /// Validation events.
    #[verifier::when_used_as_spec(spec_validation)]
    pub fn validation() -> (r: EventType)
        ensures
            r == Self::spec_validation(),
    {
        EventType { bits: VALIDATION_BIT }
    }

    /// The set with exactly the given bits, known or not.
    pub fn from_bits_retain(bits: u8) -> (r: EventType)
        ensures
            r.bits == bits,
    {
        EventType { bits }
    }

    /// The raw bits.
    pub fn bits(&self) -> (r: u8)
        ensures
            r == self.bits,
    {
        self.bits
    }

    /// Whether every flag of `other` is set in `self`.
    pub open spec fn has(self, other: EventType) -> bool {
        self.bits & other.bits == other.bits
    }

    /// Whether `self` and `other` share a flag.
    pub open spec fn meets(self, other: EventType) -> bool {
        self.bits & other.bits != 0
    }

    pub fn contains(&self, other: EventType) -> (r: bool)
        ensures
            r == self.has(other),
    {
        self.bits & other.bits == other.bits
    }

    pub fn intersects(&self, other: EventType) -> (r: bool)
        ensures
            r == self.meets(other),
    {
        self.bits & other.bits != 0
    }

    pub fn is_empty(&self) -> (r: bool)
        ensures
            r == (self.bits == 0),
    {
        self.bits == 0
    }

    /// Adds the flags of `other`.
    pub fn insert(&mut self, other: EventType)
        ensures
            final(self).bits == old(self).bits | other.bits,
    {
        self.bits = self.bits | other.bits;
    }

    /// Removes the flags of `other`.
    pub fn remove(&mut self, other: EventType)
        ensures
            final(self).bits == old(self).bits & !other.bits,
    {
        self.bits = self.bits & !other.bits;
    }

    /// The tag written in front of an event's text.
    pub open spec fn spec_prefix(self) -> Seq<char> {
        if self == Self::spec_message() {
            "[p2p]"@
        } else if self == Self::spec_connection() {
            "[connection]"@
        } else if self == Self::spec_addrman() {
            "[addrman]"@
        } else if self == Self::spec_mempool() {
            "[mempool]"@
        } else if self == Self::spec_validation() {
            "[validation]"@
        } else {
            "[unknown]"@
        }
    }

    pub fn prefix(&self) -> (r: &'static str)
        ensures
            r@ == self.spec_prefix(),
    {
        if *self == EventType::message() {
            "[p2p]"
        } else if *self == EventType::connection() {
            "[connection]"
        } else if *self == EventType::addrman() {
            "[addrman]"
        } else if *self == EventType::mempool() {
            "[mempool]"
        } else if *self == EventType::validation() {
            "[validation]"
        } else {
            "[unknown]"
        }
    }

    /// The text `{:?}` gives for this set.
    pub fn debug_text(&self) -> (r: String)
        ensures
            r@ == event_debug_text(self.bits),
    {
        let bits = self.bits;
        let mut out = owned("EventType(");
        if bits == 0 {
            out.append("0x0");
        } else {
            let mut parts: Vec<String> = Vec::new();
            if bits & MESSAGE_BIT != 0 {
                parts.push(owned("MESSAGE"));
            }
            if bits & CONNECTION_BIT != 0 {
                parts.push(owned("CONNECTION"));
            }
            if bits & ADDRMAN_BIT != 0 {
                parts.push(owned("ADDRMAN"));
            }
            if bits & MEMPOOL_BIT != 0 {
                parts.push(owned("MEMPOOL"));
            }
            if bits & VALIDATION_BIT != 0 {
                parts.push(owned("VALIDATION"));
            }
            let extra = bits & 0b1110_0000u8;
            if extra != 0 {
                let mut h = owned("0x");
                let hx = hex_text_u8(extra);
                h.append(hx.as_str());
                parts.push(h);
            }
            let ghost names = event_flag_names(bits);
            assert(views(parts@) =~= (if extra != 0 {
                names.push("0x"@ + hex_text(extra))
            } else {
                names
            }));
            let joined = join_strings(&parts, " | ");
            out.append(joined.as_str());
        }
        out.append(")");
        out
    }
}

} // verus!
