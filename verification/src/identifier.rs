//! Surrogate keys: 128-bit identifiers and their canonical text.

use vstd::prelude::*;
use vstd::string::*;

verus! {

/// A globally unique surrogate key of 128 bits. The all-zero value is the
/// nil sentinel: it stands for "no identifier".
#[derive(Clone, Copy, Debug, PartialEq, Eq, Structural, Hash)]
pub struct Identifier {
    pub bits: u128,
}

/// The character that writes the hexadecimal digit `d` in lower case.
pub open spec fn hex_char(d: nat) -> char {
    if d == 0 {
        '0'
    } else if d == 1 {
        '1'
    } else if d == 2 {
        '2'
    } else if d == 3 {
        '3'
    } else if d == 4 {
        '4'
    } else if d == 5 {
        '5'
    } else if d == 6 {
        '6'
    } else if d == 7 {
        '7'
    } else if d == 8 {
        '8'
    } else if d == 9 {
        '9'
    } else if d == 10 {
        'a'
    } else if d == 11 {
        'b'
    } else if d == 12 {
        'c'
    } else if d == 13 {
        'd'
    } else if d == 14 {
        'e'
    } else {
        'f'
    }
}

/// The `k`-th hexadecimal digit of `bits`, counted from the most significant.
pub open spec fn nibble(bits: u128, k: nat) -> nat
    recommends
        k < 32,
{
    ((bits >> ((4 * (31 - k)) as u128)) & 0xf) as nat
}

/// A hyphen stands before the digits 8, 12, 16 and 20.
pub open spec fn hyphen_before(k: nat) -> bool {
    k == 8 || k == 12 || k == 16 || k == 20
}

/// The canonical text of the first `k` hexadecimal digits of `bits`.
pub open spec fn hyphenated(bits: u128, k: nat) -> Seq<char>
    decreases k,
{
    if k == 0 {
        Seq::empty()
    } else {
        let j = (k - 1) as nat;
        let before = hyphenated(bits, j);
        let joined = if hyphen_before(j) {
            before.push('-')
        } else {
            before
        };
        joined.push(hex_char(nibble(bits, j)))
    }
}

/// The canonical text of an identifier: 32 lower-case hexadecimal digits in
/// groups of 8, 4, 4, 4 and 12, separated by hyphens.
pub open spec fn identifier_text(bits: u128) -> Seq<char> {
    hyphenated(bits, 32)
}

/// The length of the canonical text of `k` digits.
pub open spec fn hyphenated_len(k: nat) -> nat {
    k + if k > 20 {
        4nat
    } else if k > 16 {
        3nat
    } else if k > 12 {
        2nat
    } else if k > 8 {
        1nat
    } else {
        0nat
    }
}

/// The canonical text of `k` digits has `k` characters and one more for
/// each hyphen passed; the whole text has 36.
pub proof fn lemma_hyphenated_len(bits: u128, k: nat)
    requires
        k <= 32,
    ensures
        hyphenated(bits, k).len() == hyphenated_len(k),
        identifier_text(bits).len() == 36,
{
    lemma_hyphenated_len_upto(bits, k);
    lemma_hyphenated_len_upto(bits, 32);
}

proof fn lemma_hyphenated_len_upto(bits: u128, k: nat)
    ensures
        hyphenated(bits, k).len() == hyphenated_len(k),
    decreases k,
{
    if k > 0 {
        lemma_hyphenated_len_upto(bits, (k - 1) as nat);
    }
}

fn hex_text(d: u8) -> (text: &'static str)
    requires
        d < 16,
    ensures
        text@ == seq![hex_char(d as nat)],
{
    proof {
        reveal_strlit("0");
        reveal_strlit("1");
        reveal_strlit("2");
        reveal_strlit("3");
        reveal_strlit("4");
        reveal_strlit("5");
        reveal_strlit("6");
        reveal_strlit("7");
        reveal_strlit("8");
        reveal_strlit("9");
        reveal_strlit("a");
        reveal_strlit("b");
        reveal_strlit("c");
        reveal_strlit("d");
        reveal_strlit("e");
        reveal_strlit("f");
    }
    let text = if d == 0 {
        "0"
    } else if d == 1 {
        "1"
    } else if d == 2 {
        "2"
    } else if d == 3 {
        "3"
    } else if d == 4 {
        "4"
    } else if d == 5 {
        "5"
    } else if d == 6 {
        "6"
    } else if d == 7 {
        "7"
    } else if d == 8 {
        "8"
    } else if d == 9 {
        "9"
    } else if d == 10 {
        "a"
    } else if d == 11 {
        "b"
    } else if d == 12 {
        "c"
    } else if d == 13 {
        "d"
    } else if d == 14 {
        "e"
    } else {
        "f"
    };
    assert(text@ =~= seq![hex_char(d as nat)]);
    text
}

impl Identifier {
    /// The nil identifier.
    pub fn nil() -> (id: Identifier)
        ensures
            id.bits == 0,
    {
        Identifier { bits: 0 }
    }

    /// The identifier with the given bits.
    pub fn from_bits(bits: u128) -> (id: Identifier)
        ensures
            id.bits == bits,
    {
        Identifier { bits }
    }

    /// Whether this is the nil sentinel.
    pub open spec fn spec_is_nil(&self) -> bool {
        self.bits == 0
    }

    /// Whether this is the nil sentinel.
    #[verifier::when_used_as_spec(spec_is_nil)]
    pub fn is_nil(&self) -> (nil: bool)
        ensures
            nil == self.spec_is_nil(),
    {
        self.bits == 0
    }

    /// The canonical text of this identifier.
    pub open spec fn text(&self) -> Seq<char> {
        identifier_text(self.bits)
    }

    /// Writes the identifier in its canonical text.
    pub fn to_text(&self) -> (text: String)
        ensures
            text@ == self.text(),
            text@.len() == 36,
    {
        let bits = self.bits;
        let mut text = String::new();
        let mut k: u32 = 0;
        while k < 32
            invariant
                k <= 32,
                text@ == hyphenated(bits, k as nat),
            decreases 32 - k,
        {
            if k == 8 || k == 12 || k == 16 || k == 20 {
                text.append("-");
                proof {
                    reveal_strlit("-");
                }
            }
            let shift: u32 = 4 * (31 - k);
            let digit: u128 = (bits >> shift) & 0xf;
            assert(digit < 16) by (bit_vector)
                requires
                    digit == (bits >> shift) & 0xf,
            ;
            assert(digit as nat == nibble(bits, k as nat)) by {
                assert(shift as u128 == ((4 * (31 - k as nat)) as u128));
                assert((bits >> shift) == (bits >> (shift as u128))) by (bit_vector);
            }
            text.append(hex_text(digit as u8));
            k += 1;
            assert(text@ =~= hyphenated(bits, k as nat));
        }
        proof {
            lemma_hyphenated_len(bits, 32);
        }
        text
    }
}

} // verus!
