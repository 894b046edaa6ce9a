use num::bigint::Sign;
use num::BigInt;
use vstd::prelude::*;

verus! {

/// The number written by `s` in base 2^32, least significant limb first.
pub open spec fn limbs_value(s: Seq<u32>) -> nat
    decreases s.len(),
{
    if s.len() == 0 {
        0
    } else {
        s[0] as nat + 4294967296 * limbs_value(s.drop_first())
    }
}

/// The decimal numeral of `n`: no sign, no leading zeros, "0" for zero.
pub open spec fn decimal_text(n: nat) -> Seq<char>
    decreases n,
{
    if n < 10 {
        seq![decimal_digit(n)]
    } else {
        decimal_text(n / 10) + seq![decimal_digit(n % 10)]
    }
}

pub open spec fn decimal_digit(d: nat) -> char {
    seq!['0', '1', '2', '3', '4', '5', '6', '7', '8', '9'][d as int]
}

/// A limb sequence stands for zero exactly when every limb is zero.
proof fn lemma_zero_iff_all_limbs_zero(s: Seq<u32>)
    ensures
        limbs_value(s) == 0 <==> forall|i: int| 0 <= i < s.len() ==> s[i] == 0,
    decreases s.len(),
{
    if s.len() > 0 {
        lemma_zero_iff_all_limbs_zero(s.drop_first());
        if limbs_value(s) == 0 {
            assert forall|i: int| 0 <= i < s.len() implies s[i] == 0 by {
                if i > 0 {
                    assert(s[i] == s.drop_first()[i - 1]);
                }
            }
        }
        if forall|i: int| 0 <= i < s.len() ==> s[i] == 0 {
            assert forall|i: int| 0 <= i < s.drop_first().len() implies s.drop_first()[i] == 0 by {
                assert(s.drop_first()[i] == s[i + 1]);
            }
        }
    }
}

/// Relies on num's `BigInt` addition: the digits of the sum of the two operands,
/// each read from its base 2^32 limbs, least significant first.
#[verifier::external_body]
fn limbs_sum(a: &Vec<u32>, b: &Vec<u32>) -> (r: Vec<u32>)
    ensures
        limbs_value(r@) == limbs_value(a@) + limbs_value(b@),
{
    let sum = BigInt::from_slice(Sign::Plus, a) + BigInt::from_slice(Sign::Plus, b);
    sum.to_u32_digits().1
}

/// Relies on num's `BigInt` subtraction: the digits of `a - b`, which is not
/// negative here, so the digits carry the whole value.
#[verifier::external_body]
fn limbs_difference(a: &Vec<u32>, b: &Vec<u32>) -> (r: Vec<u32>)
    requires
        limbs_value(b@) <= limbs_value(a@),
    ensures
        limbs_value(r@) == limbs_value(a@) - limbs_value(b@),
{
    let difference = BigInt::from_slice(Sign::Plus, a) - BigInt::from_slice(Sign::Plus, b);
    difference.to_u32_digits().1
}

/// Relies on the `Display` impl of num's `BigInt`: base 10, with no sign for a
/// value that is not negative.
#[verifier::external_body]
fn limbs_decimal(a: &Vec<u32>) -> (r: String)
    ensures
        r@ == decimal_text(limbs_value(a@)),
{
    BigInt::from_slice(Sign::Plus, a).to_string()
}

/// A natural number of any size.
#[derive(Debug, PartialEq, Eq)]
pub struct Natural {
    limbs: Vec<u32>,
}

impl Natural {
    /// The number this value stands for.
    pub closed spec fn value(&self) -> nat {
        limbs_value(self.limbs@)
    }

    pub fn zero() -> (r: Natural)
        ensures
            r.value() == 0,
    {
        Natural { limbs: Vec::new() }
    }

    pub fn one() -> (r: Natural)
        ensures
            r.value() == 1,
    {
        let r = Natural { limbs: vec![1u32] };
        proof {
            reveal_with_fuel(limbs_value, 2);
        }
        r
    }

    pub fn from_u64(n: u64) -> (r: Natural)
        ensures
            r.value() == n,
    {
        if n == 0 {
            Natural { limbs: Vec::new() }
        } else if n < 4294967296 {
            let r = Natural { limbs: vec![n as u32] };
            proof {
                reveal_with_fuel(limbs_value, 2);
            }
            r
        } else {
            let low = (n % 4294967296) as u32;
            let high = (n / 4294967296) as u32;
            let r = Natural { limbs: vec![low, high] };
            proof {
                reveal_with_fuel(limbs_value, 3);
                assert(r.limbs@.drop_first() =~= seq![high]);
                assert(r.limbs@.drop_first().drop_first() =~= Seq::<u32>::empty());
            }
            r
        }
    }

    pub fn is_zero(&self) -> (r: bool)
        ensures
            r == (self.value() == 0),
    {
        let mut i: usize = 0;
        while i < self.limbs.len()
            invariant
                i <= self.limbs@.len(),
                forall|j: int| 0 <= j < i ==> self.limbs@[j] == 0,
            decreases self.limbs@.len() - i,
        {
            if self.limbs[i] != 0 {
                proof {
                    lemma_zero_iff_all_limbs_zero(self.limbs@);
                    assert(self.limbs@[i as int] != 0);
                }
                return false;
            }
            i = i + 1;
        }
        proof {
            lemma_zero_iff_all_limbs_zero(self.limbs@);
        }
        true
    }

    pub fn duplicate(&self) -> (r: Natural)
        ensures
            r.value() == self.value(),
    {
        let mut limbs: Vec<u32> = Vec::new();
        let mut i: usize = 0;
        while i < self.limbs.len()
            invariant
                i <= self.limbs@.len(),
                limbs@ == self.limbs@.subrange(0, i as int),
            decreases self.limbs@.len() - i,
        {
            limbs.push(self.limbs[i]);
            i = i + 1;
        }
        assert(limbs@ == self.limbs@);
        Natural { limbs }
    }

    pub fn plus(&self, other: &Natural) -> (r: Natural)
        ensures
            r.value() == self.value() + other.value(),
    {
        Natural { limbs: limbs_sum(&self.limbs, &other.limbs) }
    }

    pub fn minus(&self, other: &Natural) -> (r: Natural)
        requires
            other.value() <= self.value(),
        ensures
            r.value() == self.value() - other.value(),
    {
        Natural { limbs: limbs_difference(&self.limbs, &other.limbs) }
    }

    /// The number in base 10.
    pub fn to_string(&self) -> (r: String)
        ensures
            r@ == decimal_text(self.value()),
    {
        limbs_decimal(&self.limbs)
    }
}

} // verus!
