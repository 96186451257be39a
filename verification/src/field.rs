//! The scalar field that every table cell holds.
//!
//! Field elements are opaque scalars supporting addition, subtraction,
//! multiplication, equality, and conversion from small integers. The concrete
//! field is the integers modulo the prime `FIELD_MODULUS`.

use vstd::prelude::*;
use vstd::string::StringExecFns;

verus! {

/// The prime modulus of the scalar field: 2^32 - 5.
pub const FIELD_MODULUS: u64 = 4294967291;

/// One element of the scalar field, kept reduced modulo `FIELD_MODULUS`.
///
/// Its view is the represented residue, a natural number below
/// `FIELD_MODULUS`.
#[derive(Clone, Copy, Debug, PartialEq, Eq, Structural, Hash)]
pub struct Fp {
    v: u64,
}

impl View for Fp {
    type V = nat;

    closed spec fn view(&self) -> nat {
        self.v as nat
    }
}

impl Fp {
    #[verifier::type_invariant]
    spec fn inv(self) -> bool {
        self.v < FIELD_MODULUS
    }

    pub closed spec fn from_spec(x: u64) -> Fp {
        Fp { v: (x % FIELD_MODULUS) as u64 }
    }

    pub closed spec fn zero_spec() -> Fp {
        Fp { v: 0 }
    }

    pub closed spec fn one_spec() -> Fp {
        Fp { v: 1 }
    }

    pub closed spec fn add_spec(a: Fp, b: Fp) -> Fp {
        Fp { v: ((a.v + b.v) % (FIELD_MODULUS as int)) as u64 }
    }

    pub closed spec fn sub_spec(a: Fp, b: Fp) -> Fp {
        Fp { v: ((a.v + FIELD_MODULUS - b.v) % (FIELD_MODULUS as int)) as u64 }
    }

    pub closed spec fn mul_spec(a: Fp, b: Fp) -> Fp {
        Fp { v: ((a.v * b.v) % (FIELD_MODULUS as int)) as u64 }
    }

    /// The residue of `x` modulo `FIELD_MODULUS`, as a field element.
    pub fn from(x: u64) -> (r: Fp)
        ensures
            r == Fp::from_spec(x),
    {
        Fp { v: x % FIELD_MODULUS }
    }

    /// The additive identity.
    pub fn zero() -> (r: Fp)
        ensures
            r == Fp::zero_spec(),
    {
        Fp { v: 0 }
    }

    /// The multiplicative identity.
    pub fn one() -> (r: Fp)
        ensures
            r == Fp::one_spec(),
    {
        Fp { v: 1 }
    }

    /// Field addition.
    pub fn add(self, other: Fp) -> (r: Fp)
        ensures
            r == Fp::add_spec(self, other),
    {
        proof {
            use_type_invariant(&self);
            use_type_invariant(&other);
        }
        Fp { v: (self.v + other.v) % FIELD_MODULUS }
    }

    /// Field subtraction.
    pub fn sub(self, other: Fp) -> (r: Fp)
        ensures
            r == Fp::sub_spec(self, other),
    {
        proof {
            use_type_invariant(&self);
            use_type_invariant(&other);
        }
        Fp { v: (self.v + FIELD_MODULUS - other.v) % FIELD_MODULUS }
    }

    /// Field multiplication.
    pub fn mul(self, other: Fp) -> (r: Fp)
        ensures
            r == Fp::mul_spec(self, other),
    {
        proof {
            use_type_invariant(&self);
            use_type_invariant(&other);
            assert(self.v * other.v <= (FIELD_MODULUS - 1) * (FIELD_MODULUS - 1))
                by (nonlinear_arith)
                requires
                    self.v < FIELD_MODULUS,
                    other.v < FIELD_MODULUS,
            ;
        }
        Fp { v: (self.v * other.v) % FIELD_MODULUS }
    }

    /// Two elements are equal exactly when their views are.
    pub proof fn lemma_view_injective(a: Fp, b: Fp)
        ensures
            (a@ == b@) <==> (a == b),
    {
    }

    /// What conversion from an integer means on views.
    pub proof fn lemma_from_view(x: u64)
        ensures
            Fp::from_spec(x)@ == x % FIELD_MODULUS,
            Fp::zero_spec()@ == 0,
            Fp::one_spec()@ == 1,
    {
    }

    /// What the ring operations mean on views.
    pub proof fn lemma_ops_view(a: Fp, b: Fp)
        ensures
            Fp::add_spec(a, b)@ == (a@ + b@) % (FIELD_MODULUS as nat),
            Fp::mul_spec(a, b)@ == (a@ * b@) % (FIELD_MODULUS as nat),
            Fp::sub_spec(a, b)@ == (a@ + FIELD_MODULUS - b@) % (FIELD_MODULUS as int),
    {
    }

    /// Subtracting an element from itself gives the additive identity.
    pub proof fn lemma_sub_self(x: Fp)
        ensures
            Fp::sub_spec(x, x) == Fp::zero_spec(),
    {
    }

    /// The additive identity absorbs multiplication on either side.
    pub proof fn lemma_mul_zero(a: Fp, b: Fp)
        ensures
            Fp::mul_spec(a, Fp::zero_spec()) == Fp::zero_spec(),
            Fp::mul_spec(Fp::zero_spec(), b) == Fp::zero_spec(),
    {
    }

    /// The exact textual representation of this element: `0x` followed by
    /// lowercase hexadecimal digits of the residue, without leading zeros.
    pub fn hex_string(&self) -> (r: String)
        ensures
            r@ == hex_repr(self@),
    {
        let mut s = String::new();
        proof {
            reveal_strlit("0x");
        }
        s.append("0x");
        append_hex(&mut s, self.v);
        assert(s@ =~= hex_repr(self@));
        s
    }
}

/// The lowercase hexadecimal digit for a value below 16.
pub open spec fn hex_digit(d: nat) -> char {
    if d == 0 {
        '0'
    } else if d == 1 {
        '1'
    } else if d == 2 {
        '2'
    } else if d == 3 {
        '3'
    } else if d == 4 {
        '4'
    } else if d == 5 {
        '5'
    } else if d == 6 {
        '6'
    } else if d == 7 {
        '7'
    } else if d == 8 {
        '8'
    } else if d == 9 {
        '9'
    } else if d == 10 {
        'a'
    } else if d == 11 {
        'b'
    } else if d == 12 {
        'c'
    } else if d == 13 {
        'd'
    } else if d == 14 {
        'e'
    } else {
        'f'
    }
}

/// The hexadecimal digits of `x`, most significant first, without leading
/// zeros (a single `0` for zero itself).
pub open spec fn hex_digits(x: nat) -> Seq<char>
    decreases x,
{
    if x < 16 {
        seq![hex_digit(x)]
    } else {
        hex_digits(x / 16).push(hex_digit(x % 16))
    }
}

/// The full representation: `0x` followed by the digits.
pub open spec fn hex_repr(x: nat) -> Seq<char> {
    seq!['0', 'x'] + hex_digits(x)
}

/// Appends the single hexadecimal digit for `d` to `s`.
fn push_hex_digit(s: &mut String, d: u64)
    requires
        d < 16,
    ensures
        final(s)@ == old(s)@.push(hex_digit(d as nat)),
{
    proof {
        reveal_strlit("0");
        reveal_strlit("1");
        reveal_strlit("2");
        reveal_strlit("3");
        reveal_strlit("4");
        reveal_strlit("5");
        reveal_strlit("6");
        reveal_strlit("7");
        reveal_strlit("8");
        reveal_strlit("9");
        reveal_strlit("a");
        reveal_strlit("b");
        reveal_strlit("c");
        reveal_strlit("d");
        reveal_strlit("e");
        reveal_strlit("f");
    }
    let ghost pre = s@;
    if d == 0 {
        s.append("0");
    } else if d == 1 {
        s.append("1");
    } else if d == 2 {
        s.append("2");
    } else if d == 3 {
        s.append("3");
    } else if d == 4 {
        s.append("4");
    } else if d == 5 {
        s.append("5");
    } else if d == 6 {
        s.append("6");
    } else if d == 7 {
        s.append("7");
    } else if d == 8 {
        s.append("8");
    } else if d == 9 {
        s.append("9");
    } else if d == 10 {
        s.append("a");
    } else if d == 11 {
        s.append("b");
    } else if d == 12 {
        s.append("c");
    } else if d == 13 {
        s.append("d");
    } else if d == 14 {
        s.append("e");
    } else {
        s.append("f");
    }
    assert(s@ =~= pre.push(hex_digit(d as nat)));
}

/// Appends the hexadecimal digits of `x` to `s`.
fn append_hex(s: &mut String, x: u64)
    ensures
        final(s)@ == old(s)@ + hex_digits(x as nat),
    decreases x,
{
    let ghost pre = s@;
    if x < 16 {
        push_hex_digit(s, x);
    } else {
        append_hex(s, x / 16);
        push_hex_digit(s, x % 16);
    }
    assert(s@ =~= pre + hex_digits(x as nat));
}

} // verus!
