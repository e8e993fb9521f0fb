use vstd::prelude::*;

verus! {

/// An account address, held as its twenty bytes read big-endian and split
/// into the first sixteen (`high`) and the last four (`low`).
#[derive(Clone, Copy, Debug, PartialEq, Eq, Structural, Hash)]
pub struct Address {
    pub high: u128,
    pub low: u32,
}

impl View for Address {
    type V = (u128, u32);

    open spec fn view(&self) -> (u128, u32) {
        (self.high, self.low)
    }
}

/// The number that a byte string denotes read big-endian.
pub open spec fn be_value(s: Seq<u8>) -> nat
    decreases s.len(),
{
    if s.len() == 0 {
        0
    } else {
        be_value(s.drop_last()) * 256 + (s.last() as nat)
    }
}

/// `256` to the power `n`.
pub open spec fn pow256(n: nat) -> nat
    decreases n,
{
    if n == 0 {
        1
    } else {
        256 * pow256((n - 1) as nat)
    }
}

/// The two words of the address whose twenty bytes are `b`.
pub open spec fn address_words(b: Seq<u8>) -> (u128, u32) {
    (be_value(b.take(16)) as u128, be_value(b.skip(16)) as u32)
}

/// Whether `c` is a hexadecimal digit, in either case.
pub open spec fn is_hex_digit(c: char) -> bool {
    ('0' <= c <= '9') || ('a' <= c <= 'f') || ('A' <= c <= 'F')
}

/// The value of a hexadecimal digit.
pub open spec fn hex_value(c: char) -> int {
    if '0' <= c <= '9' {
        (c as int) - ('0' as int)
    } else if 'a' <= c <= 'f' {
        (c as int) - ('a' as int) + 10
    } else {
        (c as int) - ('A' as int) + 10
    }
}

/// `s` without a leading `0x` or `0X`.
pub open spec fn strip_hex_prefix(s: Seq<char>) -> Seq<char> {
    if s.len() >= 2 && s[0] == '0' && (s[1] == 'x' || s[1] == 'X') {
        s.skip(2)
    } else {
        s
    }
}

/// The twenty bytes that a hexadecimal address string denotes: after an
/// optional `0x` or `0X`, exactly forty hexadecimal digits, two per byte,
/// the high half first.
pub open spec fn spec_address_hex_bytes(s: Seq<char>) -> Option<Seq<u8>> {
    let t = strip_hex_prefix(s);
    if t.len() == 40 && forall|i: int| 0 <= i < 40 ==> #[trigger] is_hex_digit(t[i]) {
        Some(Seq::new(20, |i: int| (hex_value(t[2 * i]) * 16 + hex_value(t[2 * i + 1])) as u8))
    } else {
        None
    }
}

/// The address that a hexadecimal address string denotes, if it is one.
pub open spec fn spec_parse_address(s: Seq<char>) -> Option<(u128, u32)> {
    match spec_address_hex_bytes(s) {
        Some(b) => Some(address_words(b)),
        None => None,
    }
}

/// Reads an address with `alloy_primitives::Address::from_str`, which
/// decodes the string as hexadecimal: it strips one leading `0x` or `0X`,
/// then asks for exactly forty hexadecimal digits of either case, and gives
/// the twenty bytes they denote; any other string is an error. The contract
/// states exactly that.
#[verifier::external_body]
fn address_bytes_from_hex(s: &str) -> (res: Option<[u8; 20]>)
    ensures
        match res {
            Some(b) => spec_address_hex_bytes(s@) == Some(b@),
            None => spec_address_hex_bytes(s@) is None,
        },
{
    match s.parse::<alloy_primitives::Address>() {
        Ok(a) => Some(a.0 .0),
        Err(_) => None,
    }
}

/// The number that a run of hexadecimal digits denotes, most significant
/// digit first.
pub open spec fn hex_number(s: Seq<char>) -> nat
    decreases s.len(),
{
    if s.len() == 0 {
        0
    } else {
        hex_number(s.drop_last()) * 16 + (hex_value(s.last()) as nat)
    }
}

/// `b` holds the bytes that the hexadecimal digits `t` denote, two digits a
/// byte.
spec fn decodes(b: Seq<u8>, t: Seq<char>) -> bool {
    &&& t.len() == 2 * b.len()
    &&& forall|j: int| 0 <= j < t.len() ==> #[trigger] is_hex_digit(t[j])
    &&& forall|i: int|
        0 <= i < b.len() ==> #[trigger] b[i] as int == hex_value(t[2 * i]) * 16 + hex_value(
            t[2 * i + 1],
        )
}

proof fn lemma_hex_value_range(c: char)
    requires
        is_hex_digit(c),
    ensures
        0 <= hex_value(c) < 16,
{
}

proof fn lemma_decoded_prefix(b: Seq<u8>, t: Seq<char>, n: int)
    requires
        decodes(b, t),
        0 <= n <= b.len(),
    ensures
        be_value(b.take(n)) == hex_number(t.take(2 * n)),
    decreases n,
{
    if n > 0 {
        lemma_decoded_prefix(b, t, n - 1);
        let t2 = t.take(2 * n);
        assert(b.take(n).drop_last() == b.take(n - 1));
        assert(b.take(n).last() == b[n - 1]);
        assert(t2.drop_last() == t.take(2 * n - 1));
        assert(t2.drop_last().drop_last() == t.take(2 * (n - 1)));
        assert(t2.last() == t[2 * (n - 1) + 1]);
        assert(t2.drop_last().last() == t[2 * (n - 1)]);
        assert(is_hex_digit(t[2 * (n - 1)]));
        assert(is_hex_digit(t[2 * (n - 1) + 1]));
        lemma_hex_value_range(t[2 * (n - 1)]);
        lemma_hex_value_range(t[2 * (n - 1) + 1]);
        assert(b[n - 1] as int == hex_value(t[2 * (n - 1)]) * 16 + hex_value(t[2 * (n - 1) + 1]));
        let p = hex_number(t.take(2 * (n - 1)));
        let hi = hex_value(t[2 * (n - 1)]);
        let lo = hex_value(t[2 * (n - 1) + 1]);
        assert(hex_number(t2.drop_last()) == p * 16 + hi);
        assert(hex_number(t2) == hex_number(t2.drop_last()) * 16 + lo);
        assert(be_value(b.take(n)) == be_value(b.take(n - 1)) * 256 + b[n - 1]);
        assert(hex_number(t2) == p * 256 + hi * 16 + lo);
    } else {
        assert(b.take(0) == Seq::<u8>::empty());
        assert(t.take(0) == Seq::<char>::empty());
    }
}

/// An address string names the number its forty hexadecimal digits denote:
/// after an optional `0x` or `0X`, the high word is the number written by
/// the first thirty-two digits and the low word the number written by the
/// last eight, whatever the case of the letters. The string is an address
/// exactly when those forty characters are all hexadecimal digits.
pub proof fn lemma_parse_address_is_hex_number(s: Seq<char>)
    ensures
        spec_parse_address(s) is Some <==> ({
            let t = strip_hex_prefix(s);
            t.len() == 40 && forall|i: int| 0 <= i < 40 ==> #[trigger] is_hex_digit(t[i])
        }),
        spec_parse_address(s) is Some ==> ({
            let t = strip_hex_prefix(s);
            let (high, low) = spec_parse_address(s)->0;
            &&& high == hex_number(t.take(32))
            &&& low == hex_number(t.skip(32))
        }),
{
    let t = strip_hex_prefix(s);
    if spec_parse_address(s) is Some {
        let b = spec_address_hex_bytes(s)->0;
        assert forall|i: int| 0 <= i < b.len() implies #[trigger] b[i] as int == hex_value(t[2 * i])
            * 16 + hex_value(t[2 * i + 1]) by {
            lemma_hex_value_range(t[2 * i]);
            lemma_hex_value_range(t[2 * i + 1]);
        }
        assert(decodes(b, t));
        lemma_decoded_prefix(b, t, 16);
        let b2 = b.skip(16);
        let t2 = t.skip(32);
        assert forall|i: int| 0 <= i < b2.len() implies #[trigger] b2[i] as int == hex_value(
            t2[2 * i],
        ) * 16 + hex_value(t2[2 * i + 1]) by {
            assert(b2[i] == b[i + 16]);
            assert(t2[2 * i] == t[2 * (i + 16)]);
            assert(t2[2 * i + 1] == t[2 * (i + 16) + 1]);
        }
        assert forall|j: int| 0 <= j < t2.len() implies #[trigger] is_hex_digit(t2[j]) by {
            assert(t2[j] == t[j + 32]);
        }
        assert(decodes(b2, t2));
        lemma_decoded_prefix(b2, t2, 4);
        assert(b2.take(4) == b2);
        assert(t2.take(8) == t2);
        lemma_be_value_bound(b.take(16));
        lemma_be_value_bound(b2);
        lemma_pow256_values();
    }
}

proof fn lemma_be_value_bound(s: Seq<u8>)
    ensures
        be_value(s) < pow256(s.len()),
    decreases s.len(),
{
    if s.len() > 0 {
        lemma_be_value_bound(s.drop_last());
    }
}

proof fn lemma_be_value_injective(s1: Seq<u8>, s2: Seq<u8>)
    requires
        s1.len() == s2.len(),
        be_value(s1) == be_value(s2),
    ensures
        s1 == s2,
    decreases s1.len(),
{
    if s1.len() > 0 {
        let p1 = be_value(s1.drop_last());
        let p2 = be_value(s2.drop_last());
        assert(p1 * 256 + s1.last() == p2 * 256 + s2.last());
        assert(p1 == p2 && s1.last() == s2.last()) by (nonlinear_arith)
            requires
                p1 * 256 + s1.last() == p2 * 256 + s2.last(),
                0 <= s1.last() < 256,
                0 <= s2.last() < 256,
                p1 >= 0,
                p2 >= 0,
        ;
        lemma_be_value_injective(s1.drop_last(), s2.drop_last());
        assert(s1 == s1.drop_last().push(s1.last()));
        assert(s2 == s2.drop_last().push(s2.last()));
    } else {
        assert(s1 == s2);
    }
}

/// Distinct byte strings make distinct addresses: the two words determine
/// all twenty bytes.
pub proof fn lemma_address_words_injective(b1: Seq<u8>, b2: Seq<u8>)
    requires
        b1.len() == 20,
        b2.len() == 20,
        address_words(b1) == address_words(b2),
    ensures
        b1 == b2,
{
    lemma_be_value_bound(b1.take(16));
    lemma_be_value_bound(b2.take(16));
    lemma_be_value_bound(b1.skip(16));
    lemma_be_value_bound(b2.skip(16));
    lemma_pow256_values();
    lemma_be_value_injective(b1.take(16), b2.take(16));
    lemma_be_value_injective(b1.skip(16), b2.skip(16));
    assert(b1 == b1.take(16) + b1.skip(16));
    assert(b2 == b2.take(16) + b2.skip(16));
}

impl Address {
    /// The address with the given twenty bytes.
    pub fn from_bytes(bytes: [u8; 20]) -> (res: Address)
        ensures
            res@ == address_words(bytes@),
    {
        let mut high: u128 = 0;
        let mut i: usize = 0;
        while i < 16
            invariant
                i <= 16,
                bytes@.len() == 20,
                high == be_value(bytes@.take(i as int)),
            decreases 16 - i,
        {
            proof {
                lemma_be_value_bound(bytes@.take(i as int));
                lemma_pow256_values();
                lemma_pow256_monotonic(i as nat, 15);
                assert(bytes@.take(i + 1).drop_last() == bytes@.take(i as int));
            }
            high = high * 256 + bytes[i] as u128;
            i = i + 1;
        }
        let mut low: u32 = 0;
        let ghost tail = bytes@.skip(16);
        while i < 20
            invariant
                16 <= i <= 20,
                bytes@.len() == 20,
                tail == bytes@.skip(16),
                low == be_value(tail.take(i - 16)),
            decreases 20 - i,
        {
            proof {
                lemma_be_value_bound(tail.take(i - 16));
                lemma_pow256_values();
                lemma_pow256_monotonic((i - 16) as nat, 3);
                assert(tail.take(i - 16 + 1).drop_last() == tail.take(i - 16));
                assert(tail.take(i - 16 + 1).last() == bytes@[i as int]);
            }
            low = low * 256 + bytes[i] as u32;
            i = i + 1;
        }
        assert(bytes@.take(16) == bytes@.take(i as int - 4));
        assert(tail.take(4) == tail);
        Address { high, low }
    }

    /// Reads an address written in hexadecimal, with or without a `0x`
    /// prefix; `None` where the string is no address.
    pub fn parse_hex(s: &str) -> (res: Option<Address>)
        ensures
            match res {
                Some(a) => spec_parse_address(s@) == Some(a@),
                None => spec_parse_address(s@) is None,
            },
    {
        match address_bytes_from_hex(s) {
            Some(b) => Some(Address::from_bytes(b)),
            None => None,
        }
    }
}

proof fn lemma_pow256_values()
    ensures
        pow256(3) == 0x100_0000,
        pow256(4) == 0x1_0000_0000,
        pow256(15) == 0x100_0000_0000_0000_0000_0000_0000_0000,
        pow256(16) == 0x1_0000_0000_0000_0000_0000_0000_0000_0000,
{
    reveal_with_fuel(pow256, 17);
}

proof fn lemma_pow256_monotonic(a: nat, b: nat)
    requires
        a <= b,
    ensures
        pow256(a) <= pow256(b),
    decreases b,
{
    if a < b {
        lemma_pow256_monotonic(a, (b - 1) as nat);
    }
}

} // verus!
