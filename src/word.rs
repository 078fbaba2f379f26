use vstd::prelude::*;

verus! {

/// A 256-bit machine word held as four 64-bit limbs, least significant first.
#[derive(Clone, Copy, Debug, PartialEq, Eq, Hash, Structural)]
pub struct Word {
    pub w0: u64,
    pub w1: u64,
    pub w2: u64,
    pub w3: u64,
}

pub open spec fn limb() -> nat {
    0x1_0000_0000_0000_0000nat
}

/// The number a word stands for.
pub open spec fn val(w: Word) -> nat {
    w.w0 as nat + limb() * (w.w1 as nat + limb() * (w.w2 as nat + limb() * (w.w3 as nat)))
}

pub open spec fn fits_u64(w: Word) -> bool {
    w.w1 == 0 && w.w2 == 0 && w.w3 == 0
}

pub open spec fn is_zero(w: Word) -> bool {
    fits_u64(w) && w.w0 == 0
}

pub open spec fn word_of(n: u64) -> Word {
    Word { w0: n, w1: 0, w2: 0, w3: 0 }
}

/// A word as a 64-bit count, clamped to `u64::MAX` when it does not fit.
pub open spec fn clamp_u64(w: Word) -> u64 {
    if fits_u64(w) { w.w0 } else { u64::MAX }
}

/// The low 160 bits of a word: the account address it names.
pub open spec fn address_of(w: Word) -> Word {
    Word { w0: w.w0, w1: w.w1, w2: w.w2 % 0x1_0000_0000, w3: 0 }
}

pub proof fn lemma_val_small(w: Word)
    ensures
        fits_u64(w) ==> val(w) == w.w0,
        !fits_u64(w) ==> val(w) >= limb(),
{
    let l = limb();
    let c = w.w2 as nat + l * (w.w3 as nat);
    let b = w.w1 as nat + l * c;
    assert(!fits_u64(w) ==> b >= 1) by (nonlinear_arith)
        requires
            b == w.w1 as nat + l * c,
            c == w.w2 as nat + l * (w.w3 as nat),
            l > 0,
    ;
    assert(l * b >= l * 1 || b == 0) by (nonlinear_arith)
        requires
            l > 0,
    ;
}

/// The number that bytes stand for, most significant first.
pub open spec fn be_nat(s: Seq<u8>) -> nat
    decreases s.len(),
{
    if s.len() == 0 { 0 } else { (be_nat(s.drop_last()) * 256 + s.last()) as nat }
}

pub open spec fn pow256(n: nat) -> nat
    decreases n,
{
    if n == 0 { 1 } else { pow256((n - 1) as nat) * 256 }
}

/// The word that 32 big-endian bytes stand for.
pub open spec fn word_from_be(s: Seq<u8>) -> Word {
    Word {
        w0: be_nat(s.subrange(24, 32)) as u64,
        w1: be_nat(s.subrange(16, 24)) as u64,
        w2: be_nat(s.subrange(8, 16)) as u64,
        w3: be_nat(s.subrange(0, 8)) as u64,
    }
}

proof fn lemma_be_nat_bound(s: Seq<u8>)
    ensures
        be_nat(s) < pow256(s.len()),
    decreases s.len(),
{
    if s.len() > 0 {
        lemma_be_nat_bound(s.drop_last());
        let a = be_nat(s.drop_last());
        let p = pow256((s.len() - 1) as nat);
        let b = s.last() as nat;
        assert(a * 256 + b < p * 256) by (nonlinear_arith)
            requires
                a < p,
                b < 256,
        ;
    }
}

/// Reads eight big-endian bytes of `s` from `start` on.
fn be_u64_at(s: &Vec<u8>, start: usize) -> (r: u64)
    requires
        start + 8 <= s.len(),
    ensures
        r == be_nat(s@.subrange(start as int, start + 8)),
{
    let mut acc: u64 = 0;
    let mut i: usize = 0;
    while i < 8
        invariant
            i <= 8,
            start + 8 <= s.len(),
            acc == be_nat(s@.subrange(start as int, start + i)),
        decreases 8 - i,
    {
        let ghost sub = s@.subrange(start as int, start + i + 1);
        assert(sub.drop_last() =~= s@.subrange(start as int, start + i));
        proof {
            lemma_be_nat_bound(s@.subrange(start as int, start + i));
            reveal_with_fuel(pow256, 8);
            assert(pow256(7) == 0x100_0000_0000_0000);
            assert(i <= 7);
            if i < 7 {
                lemma_pow256_mono(i as nat, 7);
            }
        }
        acc = acc * 256 + s[start + i] as u64;
        i = i + 1;
    }
    acc
}

proof fn lemma_pow256_mono(a: nat, b: nat)
    requires
        a <= b,
    ensures
        pow256(a) <= pow256(b),
    decreases b - a,
{
    if a < b {
        lemma_pow256_mono(a, (b - 1) as nat);
    }
}

/// The word that 32 big-endian bytes stand for.
pub fn word_from_be_bytes(s: &Vec<u8>) -> (r: Word)
    requires
        s.len() == 32,
    ensures
        r == word_from_be(s@),
{
    let w3 = be_u64_at(s, 0);
    let w2 = be_u64_at(s, 8);
    let w1 = be_u64_at(s, 16);
    let w0 = be_u64_at(s, 24);
    Word { w0, w1, w2, w3 }
}

impl Word {
    pub fn zero() -> (r: Word)
        ensures
            r == word_of(0),
            is_zero(r),
    {
        Word { w0: 0, w1: 0, w2: 0, w3: 0 }
    }

    pub fn one() -> (r: Word)
        ensures
            r == word_of(1),
    {
        Word { w0: 1, w1: 0, w2: 0, w3: 0 }
    }

    pub fn from_u64(n: u64) -> (r: Word)
        ensures
            r == word_of(n),
            val(r) == n,
    {
        Word { w0: n, w1: 0, w2: 0, w3: 0 }
    }

    pub fn is_zero(&self) -> (r: bool)
        ensures
            r == is_zero(*self),
    {
        self.w0 == 0 && self.w1 == 0 && self.w2 == 0 && self.w3 == 0
    }

    pub fn fits_u64(&self) -> (r: bool)
        ensures
            r == fits_u64(*self),
    {
        self.w1 == 0 && self.w2 == 0 && self.w3 == 0
    }

    /// The word as a 64-bit count, `u64::MAX` where it is larger.
    pub fn clamp_u64(&self) -> (r: u64)
        ensures
            r == clamp_u64(*self),
    {
        if self.fits_u64() {
            self.w0
        } else {
            u64::MAX
        }
    }

    /// The word as a `usize`, where it fits in one.
    pub fn to_usize(&self) -> (r: Option<usize>)
        ensures
            r.is_some() <==> (fits_u64(*self) && self.w0 <= usize::MAX),
            r.is_some() ==> r.unwrap() == self.w0,
    {
        if self.fits_u64() && self.w0 <= usize::MAX as u64 {
            Some(self.w0 as usize)
        } else {
            None
        }
    }

    pub fn to_address(&self) -> (r: Word)
        ensures
            r == address_of(*self),
    {
        Word { w0: self.w0, w1: self.w1, w2: self.w2 % 0x1_0000_0000, w3: 0 }
    }
}

} // verus!
