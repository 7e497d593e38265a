use vstd::prelude::*;

use crate::text::{chars_of, digits_text, int_to_text, string_of};

verus! {

/// An exact decimal number: `mantissa` times ten to the power `exponent`.
#[derive(Debug, Clone, Copy, PartialEq, Eq, Structural)]
pub struct Decimal {
    pub mantissa: i64,
    pub exponent: i32,
}

/// `n` zeros.
pub open spec fn zeros(n: nat) -> Seq<char> {
    Seq::new(n, |i: int| '0')
}

/// `s` without its trailing zeros.
pub open spec fn strip_trailing_zeros(s: Seq<char>) -> Seq<char>
    decreases s.len(),
{
    if s.len() > 0 && s.last() == '0' {
        strip_trailing_zeros(s.drop_last())
    } else {
        s
    }
}

/// The digits `ds` with zeros in front so that at least one digit stands
/// before the last `k`.
pub open spec fn padded_digits(ds: Seq<char>, k: int) -> Seq<char> {
    if ds.len() <= k {
        zeros((k + 1 - ds.len()) as nat) + ds
    } else {
        ds
    }
}

/// The shortest plain decimal text of `d`: no exponent, no trailing zeros
/// after the point, no point when the number is whole.
pub open spec fn decimal_text(d: Decimal) -> Seq<char> {
    let m = d.mantissa as int;
    let e = d.exponent as int;
    if m == 0 {
        seq!['0']
    } else {
        let sign = if m < 0 {
            seq!['-']
        } else {
            Seq::<char>::empty()
        };
        let ds = digits_text((if m < 0 {
            -m
        } else {
            m
        }) as nat);
        if e >= 0 {
            sign + ds + zeros(e as nat)
        } else {
            let p = padded_digits(ds, -e);
            let split = p.len() + e;
            let frac = strip_trailing_zeros(p.subrange(split, p.len() as int));
            sign + p.subrange(0, split) + if frac.len() == 0 {
                Seq::<char>::empty()
            } else {
                seq!['.'] + frac
            }
        }
    }
}

proof fn lemma_digits_nonempty(n: nat)
    ensures
        digits_text(n).len() >= 1,
    decreases n,
{
    if n >= 10 {
        lemma_digits_nonempty(n / 10);
    }
}

impl Decimal {
    /// The shortest plain decimal text of the number.
    pub fn to_text(&self) -> (r: String)
        ensures
            r@ == decimal_text(*self),
    {
        string_of(&decimal_chars(*self))
    }
}

/// Appends `s[from..to]` to `out`.
fn append_range(out: &mut Vec<char>, s: &Vec<char>, from: usize, to: usize)
    requires
        from <= to <= s@.len(),
    ensures
        final(out)@ == old(out)@ + s@.subrange(from as int, to as int),
{
    let ghost start = out@;
    let mut i: usize = from;
    while i < to
        invariant
            from <= i <= to,
            to <= s@.len(),
            out@ =~= start + s@.subrange(from as int, i as int),
        decreases to - i,
    {
        out.push(s[i]);
        i = i + 1;
    }
}

/// Appends `n` zeros to `out`.
fn append_zeros(out: &mut Vec<char>, n: usize)
    ensures
        final(out)@ == old(out)@ + zeros(n as nat),
{
    let ghost start = out@;
    let mut z: usize = 0;
    while z < n
        invariant
            z <= n,
            out@ =~= start + zeros(z as nat),
        decreases n - z,
    {
        out.push('0');
        z = z + 1;
    }
}

/// The end of `p[split..]` once its trailing zeros are dropped.
fn trailing_zeros_start(p: &Vec<char>, split: usize) -> (end: usize)
    requires
        split <= p@.len(),
    ensures
        split <= end <= p@.len(),
        strip_trailing_zeros(p@.subrange(split as int, p@.len() as int)) == p@.subrange(
            split as int,
            end as int,
        ),
{
    let mut end = p.len();
    while end > split && p[end - 1] == '0'
        invariant
            split <= end <= p@.len(),
            strip_trailing_zeros(p@.subrange(split as int, p@.len() as int))
                == strip_trailing_zeros(p@.subrange(split as int, end as int)),
        decreases end,
    {
        assert(p@.subrange(split as int, end as int).drop_last() =~= p@.subrange(
            split as int,
            end - 1,
        ));
        end = end - 1;
    }
    end
}

/// The characters of `decimal_text(d)`.
pub fn decimal_chars(d: Decimal) -> (r: Vec<char>)
    ensures
        r@ == decimal_text(d),
{
    let mut out: Vec<char> = Vec::new();
    if d.mantissa == 0 {
        out.push('0');
        assert(out@ =~= seq!['0']);
        return out;
    }
    let neg = d.mantissa < 0;
    let abs: i128 = if neg {
        -(d.mantissa as i128)
    } else {
        d.mantissa as i128
    };
    let ds = chars_of(int_to_text(abs).as_str());
    let ghost sign = if neg {
        seq!['-']
    } else {
        Seq::<char>::empty()
    };
    if neg {
        out.push('-');
    }
    assert(out@ =~= sign);
    assert(ds@ == digits_text(abs as nat));
    if d.exponent >= 0 {
        append_range(&mut out, &ds, 0, ds.len());
        assert(ds@.subrange(0, ds@.len() as int) =~= ds@);
        append_zeros(&mut out, d.exponent as usize);
        out
    } else {
        let k: usize = (-(d.exponent as i64)) as usize;
        let mut p: Vec<char> = Vec::new();
        if ds.len() <= k {
            append_zeros(&mut p, k + 1 - ds.len());
        }
        append_range(&mut p, &ds, 0, ds.len());
        assert(ds@.subrange(0, ds@.len() as int) =~= ds@);
        assert(p@ =~= padded_digits(ds@, k as int));
        let split = p.len() - k;
        append_range(&mut out, &p, 0, split);
        let end = trailing_zeros_start(&p, split);
        if end > split {
            out.push('.');
            append_range(&mut out, &p, split, end);
            assert(out@ =~= sign + p@.subrange(0, split as int) + (seq!['.'] + p@.subrange(
                split as int,
                end as int,
            )));
        } else {
            assert(out@ =~= sign + p@.subrange(0, split as int) + Seq::<char>::empty());
        }
        out
    }
}

} // verus!
