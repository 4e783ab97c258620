//! Identifiers and their canonical text.

use vstd::prelude::*;

verus! {

/// The identifier of a channel, a message, a user or a space: sixteen bytes, most
/// significant first.
#[derive(Clone, Copy, Debug, PartialEq, Eq, Hash)]
pub struct EntityId {
    pub bytes: [u8; 16],
}

impl View for EntityId {
    type V = Seq<u8>;

    open spec fn view(&self) -> Seq<u8> {
        self.bytes@
    }
}

/// The lower-case hexadecimal digit for a value below sixteen, as an ASCII byte.
pub open spec fn hex_lower(nibble: int) -> u8 {
    if nibble < 10 {
        (48 + nibble) as u8
    } else {
        (87 + nibble) as u8
    }
}

/// Whether position `i` of an identifier's text holds a hyphen.
pub open spec fn is_hyphen_position(i: int) -> bool {
    i == 8 || i == 13 || i == 18 || i == 23
}

/// Which of the 32 digits stands at position `i` of an identifier's text, for a
/// position that holds no hyphen.
pub open spec fn digit_index(i: int) -> int {
    if i < 8 {
        i
    } else if i < 13 {
        i - 1
    } else if i < 18 {
        i - 2
    } else if i < 23 {
        i - 3
    } else {
        i - 4
    }
}

/// The `k`-th hexadecimal digit of `bytes` as a value below sixteen: the high half of
/// a byte comes before its low half.
pub open spec fn nibble(bytes: Seq<u8>, k: int) -> int {
    if k % 2 == 0 {
        bytes[k / 2] as int / 16
    } else {
        bytes[k / 2] as int % 16
    }
}

/// The canonical text of an identifier, as ASCII bytes: its 32 lower-case hexadecimal
/// digits in groups of 8, 4, 4, 4 and 12, with a hyphen between two groups.
pub open spec fn hyphenated(bytes: Seq<u8>) -> Seq<u8> {
    Seq::new(
        36,
        |i: int|
            if is_hyphen_position(i) {
                45u8
            } else {
                hex_lower(nibble(bytes, digit_index(i)))
            },
    )
}

/// The canonical text of an identifier, as characters.
pub open spec fn hyphenated_text(bytes: Seq<u8>) -> Seq<char> {
    Seq::new(36, |i: int| hyphenated(bytes)[i] as char)
}

/// The place of the `k`-th of the 32 digits in an identifier's text.
pub open spec fn digit_position(k: int) -> int {
    if k < 8 {
        k
    } else if k < 12 {
        k + 1
    } else if k < 16 {
        k + 2
    } else if k < 20 {
        k + 3
    } else {
        k + 4
    }
}

/// Two identifiers with the same text are the same identifier.
pub proof fn lemma_hyphenated_is_injective(one: Seq<u8>, other: Seq<u8>)
    requires
        one.len() == 16,
        other.len() == 16,
        hyphenated(one) == hyphenated(other),
    ensures
        one == other,
{
    assert forall|j: int| 0 <= j < 16 implies one[j] == other[j] by {
        let high = digit_position(2 * j);
        let low = digit_position(2 * j + 1);
        assert(digit_index(high) == 2 * j && digit_index(low) == 2 * j + 1);
        assert(hyphenated(one)[high] == hex_lower(one[j] as int / 16));
        assert(hyphenated(other)[high] == hex_lower(other[j] as int / 16));
        assert(hyphenated(one)[low] == hex_lower(one[j] as int % 16));
        assert(hyphenated(other)[low] == hex_lower(other[j] as int % 16));
    }
    assert(one =~= other);
}

/// Two identifiers with the same text, taken as characters, are the same identifier.
pub proof fn lemma_hyphenated_text_is_injective(one: Seq<u8>, other: Seq<u8>)
    requires
        one.len() == 16,
        other.len() == 16,
        hyphenated_text(one) == hyphenated_text(other),
    ensures
        one == other,
{
    assert forall|i: int| 0 <= i < 36 implies hyphenated(one)[i] == hyphenated(other)[i] by {
        assert(hyphenated_text(one)[i] == hyphenated(one)[i] as char);
        assert(hyphenated_text(other)[i] == hyphenated(other)[i] as char);
    }
    assert(hyphenated(one) =~= hyphenated(other));
    lemma_hyphenated_is_injective(one, other);
}

impl EntityId {
    /// The identifier with the given bytes.
    pub fn from_bytes(bytes: [u8; 16]) -> (id: EntityId)
        ensures
            id@ == bytes@,
            id.bytes == bytes,
    {
        EntityId { bytes }
    }

    /// The bytes of the identifier.
    pub fn as_bytes(&self) -> (bytes: &[u8; 16])
        ensures
            bytes@ == self@,
            *bytes == self.bytes,
    {
        &self.bytes
    }

    /// Whether two identifiers name the same entity.
    pub fn same(&self, other: &EntityId) -> (equal: bool)
        ensures
            equal == (self@ == other@),
    {
        let mut i: usize = 0;
        while i < 16
            invariant
                i <= 16,
                forall|j: int| 0 <= j < i ==> self.bytes@[j] == other.bytes@[j],
            decreases 16 - i,
        {
            if self.bytes[i] != other.bytes[i] {
                return false;
            }
            i += 1;
        }
        assert(self@ =~= other@);
        true
    }

    /// Calls `uuid::fmt::Hyphenated::encode_lower` on the identifier with these bytes
    /// and a buffer of 36 bytes. The contract claims that the buffer then holds the
    /// lower-case hyphenated text: per byte its high and its low hexadecimal digit, and
    /// a hyphen at positions 8, 13, 18 and 23.
    #[verifier::external_body]
    pub(crate) fn encode_lower(&self) -> (text: [u8; 36])
        ensures
            text@ == hyphenated(self@),
    {
        let mut buffer = [0u8; 36];
        uuid::Uuid::from_bytes(self.bytes).as_hyphenated().encode_lower(&mut buffer);
        buffer
    }

    /// Calls `to_string` on the `uuid::Uuid` with these bytes, which formats it with
    /// its `Display` impl. The contract claims that the string is the lower-case
    /// hyphenated text, the same 36 ASCII characters that `encode_lower` writes.
    #[verifier::external_body]
    pub(crate) fn to_text(&self) -> (text: String)
        ensures
            text@ == hyphenated_text(self@),
    {
        uuid::Uuid::from_bytes(self.bytes).to_string()
    }
}

} // verus!
