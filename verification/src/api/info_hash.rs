//! The 20-byte version-1 torrent identifier and its canonical
//! 40-character lowercase hexadecimal form.

use vstd::prelude::*;

use crate::text;

verus! {

/// A version-1 info-hash: exactly 20 raw bytes.
#[derive(Clone, Copy)]
pub enum InfoHash {
    V1([u8; 20]),
}

impl View for InfoHash {
    type V = Seq<u8>;

    open spec fn view(&self) -> Seq<u8> {
        match self {
            InfoHash::V1(b) => b@,
        }
    }
}

/// Whether `s` is a canonical textual info-hash: exactly 40 hexadecimal
/// characters.
pub open spec fn is_hash_text(s: Seq<char>) -> bool {
    s.len() == 40 && forall|i: int| 0 <= i < s.len() ==> text::is_hex_char(#[trigger] s[i])
}

/// The 20 bytes a 40-digit hexadecimal text denotes.
pub open spec fn bytes_of_hex(s: Seq<char>) -> Seq<u8> {
    Seq::new(
        20,
        |i: int| (text::hex_value(s[2 * i]) * 16 + text::hex_value(s[2 * i + 1])) as u8,
    )
}

/// Rendering a hash and parsing the text back round-trips: the canonical
/// 40-hex form is a valid hash text and denotes the original bytes.
pub proof fn lemma_hex_round_trip(bytes: Seq<u8>)
    requires
        bytes.len() == 20,
    ensures
        is_hash_text(text::hex_of(bytes)),
        bytes_of_hex(text::hex_of(bytes)) == bytes,
{
    lemma_hex_of_digits(bytes);
    let s = text::hex_of(bytes);
    assert forall|i: int| 0 <= i < s.len() implies text::is_hex_char(#[trigger] s[i]) by {
        let k = i / 2;
        lemma_hex_digit_value((bytes[k] / 16) as int);
        lemma_hex_digit_value((bytes[k] % 16) as int);
        if i % 2 == 0 {
            assert(s[i] == text::hex_digit(bytes[i / 2] as int / 16));
        } else {
            assert(s[i] == text::hex_digit(bytes[i / 2] as int % 16));
        }
    }
    assert forall|i: int| 0 <= i < 20 implies bytes_of_hex(s)[i] == bytes[i] by {
        lemma_hex_digit_value((bytes[i] / 16) as int);
        lemma_hex_digit_value((bytes[i] % 16) as int);
        assert(s[2 * i] == text::hex_digit(bytes[i] as int / 16));
        assert(s[2 * i + 1] == text::hex_digit(bytes[i] as int % 16));
    }
    assert(bytes_of_hex(s) =~= bytes);
}

/// A digit below 16 renders as a hexadecimal character that reads back as
/// the same value.
proof fn lemma_hex_digit_value(v: int)
    requires
        0 <= v < 16,
    ensures
        text::is_hex_char(text::hex_digit(v)),
        text::hex_value(text::hex_digit(v)) == v,
{
}

/// The characters of the hex rendering, position by position.
proof fn lemma_hex_of_digits(bytes: Seq<u8>)
    ensures
        text::hex_of(bytes).len() == 2 * bytes.len(),
        forall|i: int|
            0 <= i < bytes.len() ==> text::hex_of(bytes)[2 * i] == text::hex_digit(
                #[trigger] bytes[i] as int / 16,
            ) && text::hex_of(bytes)[2 * i + 1] == text::hex_digit(bytes[i] as int % 16),
    decreases bytes.len(),
{
    if bytes.len() > 0 {
        lemma_hex_of_digits(bytes.drop_last());
        assert forall|i: int|
            0 <= i < bytes.len() implies text::hex_of(bytes)[2 * i] == text::hex_digit(
            #[trigger] bytes[i] as int / 16,
        ) && text::hex_of(bytes)[2 * i + 1] == text::hex_digit(bytes[i] as int % 16) by {
            if i < bytes.len() - 1 {
                assert(bytes.drop_last()[i] == bytes[i]);
                assert(text::hex_of(bytes)[2 * i] == text::hex_of(bytes.drop_last())[2 * i]);
                assert(text::hex_of(bytes)[2 * i + 1] == text::hex_of(bytes.drop_last())[2 * i
                    + 1]);
            } else {
                assert(bytes.last() == bytes[i]);
            }
        }
    }
}

impl InfoHash {
    /// The bytes of the identifier.
    pub fn bytes(&self) -> (r: &[u8; 20])
        ensures
            r@ == self@,
    {
        match self {
            InfoHash::V1(b) => b,
        }
    }

    /// Whether two identifiers hold the same bytes.
    pub fn same(&self, other: &InfoHash) -> (r: bool)
        ensures
            r == (self@ == other@),
    {
        let a = self.bytes();
        let b = other.bytes();
        let mut i: usize = 0;
        while i < 20
            invariant
                0 <= i <= 20,
                a@ == self@,
                b@ == other@,
                forall|j: int| 0 <= j < i ==> a@[j] == b@[j],
            decreases 20 - i,
        {
            if a[i] != b[i] {
                assert(self@[i as int] != other@[i as int]);
                return false;
            }
            i += 1;
        }
        assert(self@ =~= other@);
        true
    }

    /// Parses the canonical textual form back into the identifier.
    /// Exactly the 40-hexadecimal-character texts are accepted, either
    /// case; anything else yields nothing.
    pub fn from_hex(text: &str) -> (r: Option<InfoHash>)
        ensures
            r is Some <==> is_hash_text(text@),
            r is Some ==> r->0@ == bytes_of_hex(text@),
    {
        let n = text.unicode_len();
        if n != 40 {
            return None;
        }
        let mut b = [0u8; 20];
        let mut i: usize = 0;
        while i < 20
            invariant
                0 <= i <= 20,
                n == text@.len(),
                n == 40,
                b@.len() == 20,
                forall|k: int| 0 <= k < 2 * i ==> text::is_hex_char(#[trigger] text@[k]),
                forall|k: int|
                    0 <= k < i ==> b@[k] == (text::hex_value(text@[2 * k]) * 16 + text::hex_value(
                        text@[2 * k + 1],
                    )) as u8,
            decreases 20 - i,
        {
            let c0 = text.get_char(2 * i);
            let c1 = text.get_char(2 * i + 1);
            if !text::hex_char(c0) {
                assert(!text::is_hex_char(text@[2 * (i as int)]));
                return None;
            }
            if !text::hex_char(c1) {
                assert(!text::is_hex_char(text@[2 * (i as int) + 1]));
                return None;
            }
            b[i] = text::hex_val(c0) * 16 + text::hex_val(c1);
            i += 1;
        }
        assert(forall|k: int| 0 <= k < 40 ==> text::is_hex_char(#[trigger] text@[k]));
        proof {
            assert(b@ =~= bytes_of_hex(text@));
        }
        Some(InfoHash::V1(b))
    }

    /// The canonical textual form: 40 lowercase hexadecimal characters.
    pub fn as_string(&self) -> (r: String)
        ensures
            r@ == text::hex_of(self@),
            r@.len() == 40,
    {
        let b = self.bytes();
        let mut out: Vec<char> = Vec::new();
        let mut i: usize = 0;
        while i < 20
            invariant
                0 <= i <= 20,
                b@ == self@,
                out@ == text::hex_of(self@.subrange(0, i as int)),
                out@.len() == 2 * i,
            decreases 20 - i,
        {
            text::push_hex(&mut out, b[i]);
            proof {
                assert(self@.subrange(0, i + 1).drop_last() =~= self@.subrange(0, i as int));
                assert(self@.subrange(0, i + 1).last() == self@[i as int]);
            }
            i += 1;
        }
        proof {
            assert(self@.subrange(0, 20) =~= self@);
        }
        text::chars_to_string(&out)
    }
}

} // verus!
