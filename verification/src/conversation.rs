//! The names of conversations: eight hexadecimal digits.

use vstd::prelude::*;
use vstd::string::*;
use vstd::utf8::*;
use crate::text::{chars_of, same};

verus! {

/// Whether `c` is a decimal digit or one of the letters `a` to `f`.
pub open spec fn lower_hex(c: char) -> bool {
    '0' <= c <= '9' || 'a' <= c <= 'f'
}

/// Whether `s` can name a conversation: eight lower-case hexadecimal digits.
pub open spec fn valid_id(s: Seq<char>) -> bool {
    s.len() == 8 && forall|i: int| 0 <= i < 8 ==> lower_hex(#[trigger] s[i])
}

/// The lower-case form of a hexadecimal digit.
pub open spec fn hex_lowered(c: char) -> char {
    if 'A' <= c <= 'F' {
        ((c as u32) + 32) as char
    } else {
        c
    }
}

/// The conversation that `s` spells out, where it spells one out: eight
/// hexadecimal digits, in either case.
pub open spec fn spelled_id(s: Seq<char>) -> Option<Seq<char>> {
    let low = s.map_values(|c: char| hex_lowered(c));
    if valid_id(low) {
        Some(low)
    } else {
        None
    }
}

/// The digit for `n`.
pub open spec fn digit(n: nat) -> char {
    if n < 10 {
        ((48 + n) as u32) as char
    } else {
        ((87 + n) as u32) as char
    }
}

/// `h` as eight hexadecimal digits.
pub open spec fn hex8(h: u32) -> Seq<char> {
    seq![
        digit((h / 0x1000_0000) as nat),
        digit(((h / 0x100_0000) % 16) as nat),
        digit(((h / 0x10_0000) % 16) as nat),
        digit(((h / 0x1_0000) % 16) as nat),
        digit(((h / 0x1000) % 16) as nat),
        digit(((h / 0x100) % 16) as nat),
        digit(((h / 0x10) % 16) as nat),
        digit((h % 16) as nat),
    ]
}

/// The 32-bit FNV-1a checksum of `bytes`.
pub open spec fn fnv1a(bytes: Seq<u8>) -> u32
    decreases bytes.len(),
{
    if bytes.len() == 0 {
        0x811c_9dc5
    } else {
        (((fnv1a(bytes.drop_last()) ^ (bytes.last() as u32)) * 0x0100_0193) % 0x1_0000_0000) as u32
    }
}

/// The name of a conversation.
#[derive(Debug, PartialEq, Eq, Hash)]
pub struct ConversationId(String);

impl View for ConversationId {
    type V = Seq<char>;

    closed spec fn view(&self) -> Seq<char> {
        self.0@
    }
}

impl ConversationId {
    #[verifier::type_invariant]
    spec fn inv(self) -> bool {
        valid_id(self.0@)
    }

    /// The conversation's name.
    pub fn as_str(&self) -> (r: &str)
        ensures
            r@ == self@,
            valid_id(r@),
    {
        proof {
            use_type_invariant(self);
        }
        self.0.as_str()
    }

    /// The conversation's name, as a string of its own.
    pub fn to_string(&self) -> (r: String)
        ensures
            r@ == self@,
            valid_id(r@),
    {
        proof {
            use_type_invariant(self);
        }
        self.0.clone()
    }

    /// Whether both are the same conversation.
    pub fn same_as(&self, other: &ConversationId) -> (r: bool)
        ensures
            r == (self@ == other@),
    {
        same(self.as_str(), other.as_str())
    }

    /// The conversation that `s` spells out, where it does.
    pub fn parse_hex(s: &str) -> (r: Option<ConversationId>)
        ensures
            match r {
                Some(id) => spelled_id(s@) == Some(id@),
                None => spelled_id(s@) is None,
            },
    {
        let cs = chars_of(s);
        let ghost low = s@.map_values(|c: char| hex_lowered(c));
        if cs.len() != 8 {
            return None;
        }
        let mut out = String::new();
        let mut i: usize = 0;
        while i < 8
            invariant
                i <= 8,
                cs@ == s@,
                cs.len() == 8,
                low == s@.map_values(|c: char| hex_lowered(c)),
                out@ == low.take(i as int),
                forall|j: int| 0 <= j < i ==> lower_hex(#[trigger] low[j]),
            decreases 8 - i,
        {
            let c = cs[i];
            let d: char = if 'A' <= c && c <= 'F' { ((c as u8) + 32) as char } else { c };
            assert(d == low[i as int]);
            if !(('0' <= d && d <= '9') || ('a' <= d && d <= 'f')) {
                return None;
            }
            out.push(d);
            assert(out@ =~= low.take(i + 1));
            i += 1;
        }
        assert(out@ =~= low);
        Some(ConversationId(out))
    }

    /// The conversation that `seed` stands for: the checksum of its bytes.
    pub fn from_seed(seed: &str) -> (r: ConversationId)
        ensures
            r@ == hex8(fnv1a(encode_utf8(seed@))),
    {
        let bytes = seed.as_bytes();
        let mut h: u32 = 0x811c_9dc5;
        let mut i: usize = 0;
        assert(bytes@.take(0) =~= Seq::<u8>::empty());
        while i < bytes.len()
            invariant
                i <= bytes.len(),
                h == fnv1a(bytes@.take(i as int)),
            decreases bytes.len() - i,
        {
            proof {
                let next = bytes@.take(i + 1);
                assert(next.drop_last() =~= bytes@.take(i as int));
                assert(next.last() == bytes@[i as int]);
            }
            h = (h ^ (bytes[i] as u32)).wrapping_mul(0x0100_0193);
            i += 1;
        }
        assert(bytes@.take(i as int) =~= bytes@);
        ConversationId::from_checksum(h)
    }

    /// The conversation named by the digits of `h`.
    fn from_checksum(h: u32) -> (r: ConversationId)
        ensures
            r@ == hex8(h),
    {
        let mut out = String::new();
        out.push(hex_digit(h / 0x1000_0000));
        out.push(hex_digit((h / 0x100_0000) % 16));
        out.push(hex_digit((h / 0x10_0000) % 16));
        out.push(hex_digit((h / 0x1_0000) % 16));
        out.push(hex_digit((h / 0x1000) % 16));
        out.push(hex_digit((h / 0x100) % 16));
        out.push(hex_digit((h / 0x10) % 16));
        out.push(hex_digit(h % 16));
        assert(out@ =~= hex8(h));
        proof {
            lemma_hex8_valid(h);
        }
        ConversationId(out)
    }
}

/// The digit for `n`.
fn hex_digit(n: u32) -> (c: char)
    requires
        n < 16,
    ensures
        c == digit(n as nat),
{
    if n < 10 {
        ((48 + n) as u8) as char
    } else {
        ((87 + n) as u8) as char
    }
}

pub proof fn lemma_hex8_valid(h: u32)
    ensures
        valid_id(hex8(h)),
{
    assert forall|n: nat| n < 16 implies lower_hex(#[trigger] digit(n)) by {}
}

impl Clone for ConversationId {
    fn clone(&self) -> (r: ConversationId)
        ensures
            r == *self,
    {
        proof {
            use_type_invariant(self);
        }
        ConversationId(self.0.clone())
    }
}

impl Default for ConversationId {
    fn default() -> (r: ConversationId)
        ensures
            r@ == hex8(0),
    {
        ConversationId::from_checksum(0)
    }
}

/// A conversation's name spells out that very conversation.
pub proof fn law_id_spells_itself(name: Seq<char>)
    requires
        valid_id(name),
    ensures
        spelled_id(name) == Some(name),
{
    assert forall|i: int| 0 <= i < name.len() implies #[trigger] hex_lowered(name[i]) == name[i] by {
        assert(lower_hex(name[i]));
    }
    assert(name.map_values(|c: char| hex_lowered(c)) =~= name);
}

/// Every seed stands for a conversation, and that conversation's name leads back to it.
pub proof fn law_seed_gives_a_conversation(seed: Seq<char>)
    ensures
        valid_id(hex8(fnv1a(encode_utf8(seed)))),
        spelled_id(hex8(fnv1a(encode_utf8(seed)))) == Some(hex8(fnv1a(encode_utf8(seed)))),
{
    lemma_hex8_valid(fnv1a(encode_utf8(seed)));
    law_id_spells_itself(hex8(fnv1a(encode_utf8(seed))));
}

/// The number that a hexadecimal digit stands for.
pub open spec fn digit_value(c: char) -> int {
    if c <= '9' {
        c as int - '0' as int
    } else {
        c as int - 'a' as int + 10
    }
}

/// The eight digits of a number spell that number, so different numbers have different digits.
pub proof fn law_the_digits_spell_the_number(h: u32)
    ensures
        hex8(h).len() == 8,
        digit_value(hex8(h)[0]) * 0x1000_0000 + digit_value(hex8(h)[1]) * 0x100_0000 + digit_value(
            hex8(h)[2],
        ) * 0x10_0000 + digit_value(hex8(h)[3]) * 0x1_0000 + digit_value(hex8(h)[4]) * 0x1000
            + digit_value(hex8(h)[5]) * 0x100 + digit_value(hex8(h)[6]) * 0x10 + digit_value(
            hex8(h)[7],
        ) == h,
{
    lemma_digit_value((h / 0x1000_0000) as nat);
    lemma_digit_value(((h / 0x100_0000) % 16) as nat);
    lemma_digit_value(((h / 0x10_0000) % 16) as nat);
    lemma_digit_value(((h / 0x1_0000) % 16) as nat);
    lemma_digit_value(((h / 0x1000) % 16) as nat);
    lemma_digit_value(((h / 0x100) % 16) as nat);
    lemma_digit_value(((h / 0x10) % 16) as nat);
    lemma_digit_value((h % 16) as nat);
    assert((h / 0x1000_0000) * 0x1000_0000 + ((h / 0x100_0000) % 16) * 0x100_0000 + ((h / 0x10_0000)
        % 16) * 0x10_0000 + ((h / 0x1_0000) % 16) * 0x1_0000 + ((h / 0x1000) % 16) * 0x1000 + ((h
        / 0x100) % 16) * 0x100 + ((h / 0x10) % 16) * 0x10 + (h % 16) == h) by (bit_vector);
}

proof fn lemma_digit_value(n: nat)
    requires
        n < 16,
    ensures
        digit_value(digit(n)) == n,
{
}

/// A conversation is found under its name in either case: eight hexadecimal digits spell it out,
/// capital letters counting as small ones, and nothing else does.
pub proof fn law_a_conversation_is_spelled_in_either_case(s: Seq<char>)
    ensures
        spelled_id(s) is Some <==> s.len() == 8 && forall|i: int|
            0 <= i < 8 ==> ('0' <= #[trigger] s[i] <= '9' || 'a' <= s[i] <= 'f' || 'A' <= s[i]
                <= 'F'),
        spelled_id(s) matches Some(id) ==> {
            &&& id.len() == 8
            &&& forall|i: int|
                0 <= i < 8 ==> (#[trigger] id[i] == s[i] && !('A' <= s[i] <= 'F')) || ('A' <= s[i]
                    <= 'F' && id[i] as int == s[i] as int + 32)
        },
{
    let low = s.map_values(|c: char| hex_lowered(c));
    assert(low.len() == s.len());
    assert forall|i: int| 0 <= i < s.len() implies #[trigger] low[i] == hex_lowered(s[i]) by {}
    if s.len() == 8 && forall|i: int|
        0 <= i < 8 ==> ('0' <= #[trigger] s[i] <= '9' || 'a' <= s[i] <= 'f' || 'A' <= s[i] <= 'F') {
        assert forall|i: int| 0 <= i < 8 implies lower_hex(#[trigger] low[i]) by {
            assert('0' <= s[i] <= '9' || 'a' <= s[i] <= 'f' || 'A' <= s[i] <= 'F');
        }
    }
    if valid_id(low) {
        assert forall|i: int| 0 <= i < 8 implies ('0' <= #[trigger] s[i] <= '9' || 'a' <= s[i]
            <= 'f' || 'A' <= s[i] <= 'F') by {
            assert(lower_hex(low[i]));
        }
    }
}

/// Every byte of a seed counts, in its place: the checksum goes on from that of the bytes before
/// by the rule of FNV-1a.
pub proof fn law_every_byte_of_a_seed_counts(bytes: Seq<u8>, last: u8)
    ensures
        fnv1a(Seq::empty()) == 2166136261,
        fnv1a(bytes.push(last)) as int == ((fnv1a(bytes) ^ (last as u32)) * 16777619)
            % 0x1_0000_0000,
{
    assert(bytes.push(last).drop_last() =~= bytes);
}

} // verus!
