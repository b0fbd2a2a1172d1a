//! Byte payloads and their textual hexadecimal form.
use vstd::prelude::*;
use crate::text::chars_of;

verus! {

/// An immutable sequence of bytes, the payload of a vertex.
#[derive(Debug)]
pub struct Hex {
    bytes: Vec<u8>,
}

impl View for Hex {
    type V = Seq<u8>;

    closed spec fn view(&self) -> Seq<u8> {
        self.bytes@
    }
}

impl Hex {
    /// No bytes at all.
    pub fn empty() -> (r: Hex)
        ensures
            r@ == Seq::<u8>::empty(),
    {
        Hex { bytes: Vec::new() }
    }

    /// Takes the bytes as they are.
    pub fn from_vec(bytes: Vec<u8>) -> (r: Hex)
        ensures
            r@ == bytes@,
    {
        Hex { bytes }
    }

    /// Number of bytes.
    pub fn len(&self) -> (r: usize)
        ensures
            r == self@.len(),
    {
        self.bytes.len()
    }

    /// Whether there are no bytes.
    pub fn is_empty(&self) -> (r: bool)
        ensures
            r == (self@.len() == 0),
    {
        self.bytes.len() == 0
    }

    /// The byte at position `i`.
    pub fn byte_at(&self, i: usize) -> (r: u8)
        requires
            i < self@.len(),
        ensures
            r == self@[i as int],
    {
        self.bytes[i]
    }

    /// A copy of the bytes.
    pub fn to_vec(&self) -> (r: Vec<u8>)
        ensures
            r@ == self@,
    {
        let mut r: Vec<u8> = Vec::new();
        let mut i: usize = 0;
        while i < self.bytes.len()
            invariant
                i <= self.bytes@.len(),
                r@ == self.bytes@.take(i as int),
            decreases self.bytes@.len() - i,
        {
            r.push(self.bytes[i]);
            i = i + 1;
        }
        assert(r@ =~= self.bytes@);
        r
    }

    /// A copy of the payload.
    pub fn duplicate(&self) -> (r: Hex)
        ensures
            r@ == self@,
    {
        Hex { bytes: self.to_vec() }
    }

    /// Reads the textual form `XX-XX-...`; see [`data_of`].
    pub fn parse(s: &str) -> (r: Option<Hex>)
        ensures
            r is Some <==> data_of(s@) is Some,
            r is Some ==> r->0@ == data_of(s@)->0,
    {
        parse_data(&chars_of(s))
    }
}

/// Characters that may stand between the digits of a payload and mean nothing.
pub open spec fn is_separator(c: char) -> bool {
    c == ' ' || c == '\t' || c == '\n' || c == '\r' || c == '-'
}

/// `s` without its separators.
pub open spec fn strip_separators(s: Seq<char>) -> Seq<char>
    decreases s.len(),
{
    if s.len() == 0 {
        seq![]
    } else {
        let rest = strip_separators(s.drop_last());
        if is_separator(s.last()) {
            rest
        } else {
            rest.push(s.last())
        }
    }
}

pub open spec fn is_hex_digit(c: char) -> bool {
    ('0' as u32 <= c as u32 <= '9' as u32) || ('a' as u32 <= c as u32 <= 'f' as u32) || ('A' as u32
        <= c as u32 <= 'F' as u32)
}

pub open spec fn hex_value(c: char) -> int {
    if '0' as u32 <= c as u32 <= '9' as u32 {
        c as u32 - '0' as u32
    } else if 'a' as u32 <= c as u32 <= 'f' as u32 {
        c as u32 - 'a' as u32 + 10
    } else {
        c as u32 - 'A' as u32 + 10
    }
}

/// The bytes that pairs of hex digits write, the first digit of a pair the high one.
pub open spec fn decode_pairs(d: Seq<char>) -> Seq<u8> {
    Seq::new(d.len() / 2, |i: int| (16 * hex_value(d[2 * i]) + hex_value(d[2 * i + 1])) as u8)
}

/// An even number, at least two, of hex digits, read as bytes.
pub open spec fn pairs_value(d: Seq<char>) -> Option<Seq<u8>> {
    if d.len() >= 2 && d.len() % 2 == 0 && (forall|i: int|
        0 <= i < d.len() ==> is_hex_digit(#[trigger] d[i])) {
        Some(decode_pairs(d))
    } else {
        None
    }
}

/// The payload that text `s` writes, once its separators are gone; `None`
/// where what is left is not pairs of hex digits.
pub open spec fn data_of(s: Seq<char>) -> Option<Seq<u8>> {
    pairs_value(strip_separators(s))
}

/// Two characters that are equal but for the case of an ASCII letter.
pub open spec fn same_but_case(a: char, b: char) -> bool {
    a == b || ('A' as u32 <= a as u32 <= 'Z' as u32 && b as u32 == a as u32 + 32) || ('A' as u32
        <= b as u32 <= 'Z' as u32 && a as u32 == b as u32 + 32)
}

fn hex_digit(c: char) -> (r: Option<u8>)
    ensures
        r is Some <==> is_hex_digit(c),
        r is Some ==> r->0 == hex_value(c) && r->0 < 16,
{
    let u = c as u32;
    if 48 <= u && u <= 57 {
        Some((u - 48) as u8)
    } else if 97 <= u && u <= 102 {
        Some((u - 87) as u8)
    } else if 65 <= u && u <= 70 {
        Some((u - 55) as u8)
    } else {
        None
    }
}

/// Reads a payload from its characters: separators dropped, then pairs of hex digits.
pub fn parse_data(s: &Vec<char>) -> (r: Option<Hex>)
    ensures
        r is Some <==> data_of(s@) is Some,
        r is Some ==> r->0@ == data_of(s@)->0,
{
    let mut d: Vec<char> = Vec::new();
    let mut i: usize = 0;
    while i < s.len()
        invariant
            i <= s@.len(),
            d@ == strip_separators(s@.take(i as int)),
        decreases s@.len() - i,
    {
        let c = s[i];
        assert(s@.take(i + 1).drop_last() =~= s@.take(i as int));
        if !(c == ' ' || c == '\t' || c == '\n' || c == '\r' || c == '-') {
            d.push(c);
        }
        i = i + 1;
    }
    assert(s@.take(s@.len() as int) =~= s@);
    let n = d.len();
    if n < 2 || n % 2 != 0 {
        return None;
    }
    let mut bytes: Vec<u8> = Vec::new();
    let mut k: usize = 0;
    while k < n / 2
        invariant
            n == d@.len(),
            d@ == strip_separators(s@),
            n % 2 == 0,
            k <= n / 2,
            forall|j: int| 0 <= j < 2 * k ==> is_hex_digit(#[trigger] d@[j]),
            bytes@ =~= decode_pairs(d@).take(k as int),
        decreases n / 2 - k,
    {
        let hi = hex_digit(d[2 * k]);
        let lo = hex_digit(d[2 * k + 1]);
        match (hi, lo) {
            (Some(h), Some(l)) => {
                bytes.push(h * 16 + l);
            },
            _ => {
                assert(!is_hex_digit(d@[2 * k as int]) || !is_hex_digit(d@[2 * k + 1]));
                return None;
            },
        }
        k = k + 1;
    }
    assert(decode_pairs(d@).take((n / 2) as int) =~= decode_pairs(d@));
    Some(Hex { bytes })
}

proof fn lemma_same_but_case_digit(a: char, b: char)
    requires
        same_but_case(a, b),
    ensures
        is_hex_digit(a) == is_hex_digit(b),
        is_hex_digit(a) ==> hex_value(a) == hex_value(b),
{
}

/// Separators and the case of the letters do not change what a payload's
/// text means: two texts whose separator-free forms agree but for case
/// read as the same bytes, or both fail.
pub proof fn lemma_data_ignores_layout(h1: Seq<char>, h2: Seq<char>)
    requires
        strip_separators(h1).len() == strip_separators(h2).len(),
        forall|i: int|
            0 <= i < strip_separators(h1).len() ==> same_but_case(
                #[trigger] strip_separators(h1)[i],
                strip_separators(h2)[i],
            ),
    ensures
        data_of(h1) == data_of(h2),
{
    let d1 = strip_separators(h1);
    let d2 = strip_separators(h2);
    assert forall|i: int| 0 <= i < d1.len() implies is_hex_digit(#[trigger] d1[i]) == is_hex_digit(
        d2[i],
    ) && (is_hex_digit(d1[i]) ==> hex_value(d1[i]) == hex_value(d2[i])) by {
        lemma_same_but_case_digit(d1[i], d2[i]);
    }
    if pairs_value(d1) is Some {
        assert forall|i: int| 0 <= i < d2.len() implies is_hex_digit(#[trigger] d2[i]) by {
            assert(is_hex_digit(d1[i]));
        }
        assert(decode_pairs(d1) =~= decode_pairs(d2)) by {
            assert forall|i: int| 0 <= i < d1.len() / 2 implies decode_pairs(d1)[i]
                == decode_pairs(d2)[i] by {
                assert(is_hex_digit(d1[2 * i]) && is_hex_digit(d1[2 * i + 1]));
            }
        }
    } else if pairs_value(d2) is Some {
        assert forall|i: int| 0 <= i < d1.len() implies is_hex_digit(#[trigger] d1[i]) by {
            assert(is_hex_digit(d2[i]));
        }
    }
}

} // verus!
