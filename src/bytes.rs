//! Small helpers for building byte strings.
use vstd::prelude::*;

verus! {

/// The decimal digits of `n`, most significant first, as ASCII bytes.
pub open spec fn decimal(n: nat) -> Seq<u8>
    decreases n,
{
    if n < 10 {
        seq![('0' as u8 as nat + n) as u8]
    } else {
        decimal(n / 10).push(('0' as u8 as nat + n % 10) as u8)
    }
}

/// Appends the decimal digits of `n`.
pub fn push_decimal(out: &mut Vec<u8>, n: u32)
    ensures
        final(out)@ == old(out)@ + decimal(n as nat),
    decreases n,
{
    if n >= 10 {
        push_decimal(out, n / 10);
    }
    out.push('0' as u8 + (n % 10) as u8);
    proof {
        assert(final(out)@ =~= old(out)@ + decimal(n as nat));
    }
}

/// Appends `p[a..b]`.
pub fn push_range(out: &mut Vec<u8>, p: &Vec<u8>, a: usize, b: usize)
    requires
        a <= b <= p@.len(),
    ensures
        final(out)@ == old(out)@ + p@.subrange(a as int, b as int),
{
    let mut k: usize = a;
    while k < b
        invariant
            a <= k <= b <= p@.len(),
            out@ == old(out)@ + p@.subrange(a as int, k as int),
        decreases b - k,
    {
        out.push(p[k]);
        k += 1;
        proof {
            assert(out@ =~= old(out)@ + p@.subrange(a as int, k as int));
        }
    }
}

/// Appends all of `s`.
pub fn push_all(out: &mut Vec<u8>, s: &Vec<u8>)
    ensures
        final(out)@ == old(out)@ + s@,
{
    push_range(out, s, 0, s.len());
    proof {
        assert(s@.subrange(0, s@.len() as int) =~= s@);
    }
}

} // verus!
