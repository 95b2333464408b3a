//! Identities of peers and of the transports that carry packets to them.

use crate::decimal::append_decimal;
use crate::linear_map::Key;
use vstd::prelude::*;
use vstd::std_specs::convert::FromSpecImpl;
use vstd::string::StringExecFns;

verus! {

/// The unique id of a peer.
#[derive(Debug, Copy, Clone, PartialEq, Eq, Hash, PartialOrd, Ord, Structural)]
pub struct PeerId(pub u32);

impl PeerId {
    /// The text of the id, as it appears in logs: `PeerId(7)`.
    pub fn fmt(&self) -> (text: String)
        ensures
            text@ == "PeerId("@ + crate::decimal::decimal(self.0 as nat) + ")"@,
    {
        let mut text = String::from_str("PeerId(");
        append_decimal(&mut text, self.0);
        text.append(")");
        text
    }
}

impl Key for PeerId {
    fn same(&self, other: &Self) -> (r: bool) {
        *self == *other
    }
}

/// The unique id of an underlay transport.
#[derive(Debug, Copy, Clone, PartialEq, Eq, Hash, PartialOrd, Ord, Structural)]
pub struct UnderlayTransportId(pub u32);

impl Key for UnderlayTransportId {
    fn same(&self, other: &Self) -> (r: bool) {
        *self == *other
    }
}

impl From<u32> for UnderlayTransportId {
    fn from(value: u32) -> (r: Self) {
        UnderlayTransportId(value)
    }
}

impl FromSpecImpl<u32> for UnderlayTransportId {
    open spec fn obeys_from_spec() -> bool {
        true
    }

    open spec fn from_spec(value: u32) -> Self {
        UnderlayTransportId(value)
    }
}

impl From<UnderlayTransportId> for u32 {
    fn from(value: UnderlayTransportId) -> (r: Self) {
        value.0
    }
}

impl FromSpecImpl<UnderlayTransportId> for u32 {
    open spec fn obeys_from_spec() -> bool {
        true
    }

    open spec fn from_spec(value: UnderlayTransportId) -> Self {
        value.0
    }
}

/// An underlay transport id keeps its number, and a number its id.
pub proof fn law_transport_id_round_trip(id: UnderlayTransportId, number: u32)
    ensures
        <UnderlayTransportId as vstd::std_specs::convert::FromSpec<u32>>::from_spec(
            <u32 as vstd::std_specs::convert::FromSpec<UnderlayTransportId>>::from_spec(id),
        ) == id,
        <u32 as vstd::std_specs::convert::FromSpec<UnderlayTransportId>>::from_spec(
            <UnderlayTransportId as vstd::std_specs::convert::FromSpec<u32>>::from_spec(number),
        ) == number,
{
}

/// The text of a peer's id holds, between `PeerId(` and `)`, decimal digits without leading zeros
/// that read back as its number.
pub proof fn law_peer_id_text_reads_back(id: PeerId, text: String, digits: Seq<char>)
    requires
        call_ensures(PeerId::fmt, (&id,), text),
        digits == text@.subrange(7, text@.len() - 1),
    ensures
        text@ == seq!['P', 'e', 'e', 'r', 'I', 'd', '('] + digits + seq![')'],
        digits.len() > 0,
        forall|i: int| 0 <= i < digits.len() ==> '0' <= #[trigger] digits[i] <= '9',
        digits.len() > 1 ==> digits[0] != '0',
        crate::decimal::decimal_value(digits) == id.0,
{
    reveal_strlit("PeerId(");
    reveal_strlit(")");
    assert("PeerId("@ =~= seq!['P', 'e', 'e', 'r', 'I', 'd', '(']);
    assert(")"@ =~= seq![')']);
    assert(digits =~= crate::decimal::decimal(id.0 as nat));
    crate::decimal::law_decimal_digits(id.0 as nat);
    crate::decimal::law_decimal_reads_back(id.0 as nat);
}

/// A transport id is made of a number, and a number of a transport id, by keeping the number.
pub proof fn law_transport_ids_are_their_numbers(
    number: u32,
    made: UnderlayTransportId,
    id: UnderlayTransportId,
    read: u32,
)
    requires
        call_ensures(<UnderlayTransportId as From<u32>>::from, (number,), made),
        call_ensures(<u32 as From<UnderlayTransportId>>::from, (id,), read),
    ensures
        made.0 == number,
        read == id.0,
{
}

} // verus!
