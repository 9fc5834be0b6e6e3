//! Identifiers of agents as text.
use vstd::prelude::*;
use crate::conductor::AgentId;
use crate::numeral::hex;

verus! {

/// An identifier as it is written: its 32 hexadecimal digits in groups of
/// eight, four, four, four and twelve.
pub open spec fn id_text(id: AgentId) -> Seq<char> {
    let h = hex(id as nat, 32);
    h.subrange(0, 8) + "-"@ + h.subrange(8, 12) + "-"@ + h.subrange(12, 16) + "-"@ + h.subrange(
        16,
        20,
    ) + "-"@ + h.subrange(20, 32)
}

/// `uuid::Uuid::from_u128` and the `Display` of `uuid::Uuid`.
///
/// Believed of them: the identifier with these bits, the highest first, is
/// written in lower-case hexadecimal with a hyphen behind the eighth, twelfth,
/// sixteenth and twentieth digit.
#[verifier::external_body]
pub(crate) fn write_id(id: AgentId) -> (r: String)
    ensures
        r@ == id_text(id),
{
    uuid::Uuid::from_u128(id).to_string()
}

} // verus!
