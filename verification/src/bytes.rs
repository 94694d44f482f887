//! Arithmetic over fixed-width big-endian byte buffers: the unsigned value of
//! a buffer, the buffer of a value, the sign and zero predicates, and
//! carry-propagating addition bounded to the buffer's width.

use vstd::prelude::*;
use vstd::arithmetic::div_mod::lemma_breakdown;
use vstd::arithmetic::div_mod::lemma_fundamental_div_mod;
use vstd::arithmetic::div_mod::lemma_fundamental_div_mod_converse;
use vstd::arithmetic::div_mod::lemma_mod_add_multiples_vanish;
use vstd::arithmetic::div_mod::lemma_small_mod;

verus! {

/// Number of distinct values a big-endian buffer of `w` bytes can hold.
pub open spec fn pow256(w: nat) -> nat
    decreases w,
{
    if w == 0 {
        1
    } else {
        256 * pow256((w - 1) as nat)
    }
}

/// The unsigned value of a big-endian byte buffer.
pub open spec fn be_val(s: Seq<u8>) -> nat
    decreases s.len(),
{
    if s.len() == 0 {
        0
    } else {
        (256 * be_val(s.drop_last()) + s.last()) as nat
    }
}

/// The low `w` bytes of `v`, as a big-endian buffer.
pub open spec fn be_bytes(v: nat, w: nat) -> Seq<u8>
    decreases w,
{
    if w == 0 {
        Seq::empty()
    } else {
        be_bytes(v / 256, (w - 1) as nat).push((v % 256) as u8)
    }
}

/// Every byte of the buffer is zero.
pub open spec fn is_zero_spec(s: Seq<u8>) -> bool {
    forall|i: int| 0 <= i < s.len() ==> s[i] == 0
}

/// The two's-complement sign bit of the buffer's width is set.
pub open spec fn is_negative_spec(s: Seq<u8>) -> bool {
    s.len() > 0 && s[0] >= 0x80
}

/// A buffer of `n` zero bytes.
pub open spec fn zeros(n: nat) -> Seq<u8> {
    Seq::new(n, |i: int| 0u8)
}

/// `s` zero-extended on the left to a full 4-byte buffer.
pub open spec fn zero_extend4(s: Seq<u8>) -> Seq<u8> {
    zeros((4 - s.len()) as nat) + s
}

/// The width-bounded big-endian sum of two equal-width buffers.
pub open spec fn sum_bytes(a: Seq<u8>, b: Seq<u8>) -> Seq<u8> {
    be_bytes(be_val(a) + be_val(b), a.len())
}

/// The addition of `a` and `b` carries out of their common width.
pub open spec fn sum_carries(a: Seq<u8>, b: Seq<u8>) -> bool {
    be_val(a) + be_val(b) >= pow256(a.len())
}

/// True iff every byte of `val` is zero.
pub fn is_zero_bytes(val: &Vec<u8>) -> (r: bool)
    ensures
        r == is_zero_spec(val@),
{
    let mut i: usize = 0;
    while i < val.len()
        invariant
            0 <= i <= val@.len(),
            forall|j: int| 0 <= j < i ==> val@[j] == 0,
        decreases val@.len() - i,
    {
        if val[i] != 0 {
            return false;
        }
        i += 1;
    }
    true
}

/// True iff the buffer's most-significant byte has its top bit set.
pub fn is_negative_bytes(val: &Vec<u8>) -> (r: bool)
    requires
        val@.len() > 0,
    ensures
        r == is_negative_spec(val@),
{
    val[0] > 0x7f
}

/// A buffer's value is bounded by its width.
pub proof fn lemma_be_val_bound(s: Seq<u8>)
    ensures
        be_val(s) < pow256(s.len()),
    decreases s.len(),
{
    if s.len() > 0 {
        lemma_be_val_bound(s.drop_last());
    }
}

/// The value of a buffer splits at its most-significant byte.
pub proof fn lemma_be_val_first(s: Seq<u8>)
    requires
        s.len() > 0,
    ensures
        be_val(s) == s[0] * pow256((s.len() - 1) as nat) + be_val(s.skip(1)),
    decreases s.len(),
{
    if s.len() == 1 {
        assert(s.drop_last() =~= Seq::empty());
        assert(s.skip(1) =~= Seq::empty());
        assert(be_val(Seq::empty()) == 0);
        assert(pow256(0) == 1);
        assert(be_val(s) == s.last());
        assert(s.last() == s[0]);
        assert(be_val(s) == s[0] * pow256((s.len() - 1) as nat) + be_val(s.skip(1)));
    } else {
        let front = s.drop_last();
        lemma_be_val_first(front);
        assert(s.skip(1).drop_last() =~= front.skip(1));
        assert(s.skip(1).last() == s.last());
        assert(be_val(s.skip(1)) == 256 * be_val(front.skip(1)) + s.last());
        let p = pow256((s.len() - 2) as nat);
        assert(be_val(front) == s[0] * p + be_val(front.skip(1)));
        let q = be_val(front.skip(1));
        assert(256 * (s[0] * p + q) == s[0] * (256 * p) + 256 * q) by (nonlinear_arith);
        assert(be_val(s) == 256 * be_val(front) + s.last());
        assert(pow256((s.len() - 1) as nat) == 256 * p);
        assert(be_val(s) == s[0] * (256 * p) + 256 * q + s.last());
    }
}

/// A value's buffer has exactly the requested width.
pub proof fn lemma_be_bytes_len(v: nat, w: nat)
    ensures
        be_bytes(v, w).len() == w,
    decreases w,
{
    if w > 0 {
        lemma_be_bytes_len(v / 256, (w - 1) as nat);
    }
}

/// A width holds at least one value.
pub proof fn lemma_pow256_pos(w: nat)
    ensures
        pow256(w) >= 1,
    decreases w,
{
    if w > 0 {
        lemma_pow256_pos((w - 1) as nat);
    }
}

/// Reading a buffer written from `v` gives back `v`, reduced to the width.
pub proof fn lemma_be_bytes_val(v: nat, w: nat)
    ensures
        be_val(be_bytes(v, w)) == v % pow256(w),
    decreases w,
{
    if w == 0 {
        assert(v % 1 == 0) by (nonlinear_arith);
    } else {
        let t = be_bytes(v / 256, (w - 1) as nat);
        lemma_be_bytes_val(v / 256, (w - 1) as nat);
        let x = (v % 256) as u8;
        assert(t.push(x).drop_last() =~= t);
        assert(be_val(t.push(x)) == 256 * be_val(t) + v % 256);
        let p = pow256((w - 1) as nat);
        lemma_pow256_pos((w - 1) as nat);
        lemma_breakdown(v as int, 256, p as int);
        assert(v % (256 * p) == 256 * ((v / 256) % p) + v % 256);
    }
}

/// Writing a buffer's value back at the buffer's width reproduces the buffer.
pub proof fn lemma_be_bytes_roundtrip(s: Seq<u8>)
    ensures
        be_bytes(be_val(s), s.len()) == s,
    decreases s.len(),
{
    if s.len() == 0 {
        assert(be_bytes(be_val(s), s.len()) =~= s);
    } else {
        let front = s.drop_last();
        let fv = be_val(front);
        let v = be_val(s);
        lemma_fundamental_div_mod_converse(v as int, 256, fv as int, s.last() as int);
        lemma_be_bytes_roundtrip(front);
        assert(be_bytes(v, s.len()) =~= s);
    }
}

/// A value's buffer depends only on the value reduced to the width.
pub proof fn lemma_be_bytes_mod(v: nat, w: nat)
    ensures
        be_bytes(v, w) == be_bytes(v % pow256(w), w),
    decreases w,
{
    if w == 0 {
        assert(be_bytes(v, w) =~= be_bytes(v % pow256(w), w));
    } else {
        let p = pow256((w - 1) as nat);
        lemma_pow256_pos((w - 1) as nat);
        lemma_breakdown(v as int, 256, p as int);
        let m = v % pow256(w);
        let q = (v / 256) % p;
        assert(m == 256 * q + v % 256);
        lemma_fundamental_div_mod_converse(m as int, 256, q as int, (v % 256) as int);
        assert(m / 256 == q && m % 256 == v % 256);
        lemma_be_bytes_mod(v / 256, (w - 1) as nat);
        assert(be_bytes(v, w) =~= be_bytes(m, w));
    }
}

/// Width-bounded big-endian addition with carry propagation: returns the
/// carry out of the most-significant byte of the width, and the sum reduced
/// to the width and zero-extended on the left to a full 4-byte buffer.
pub fn add_bytes(lhs: &Vec<u8>, rhs: &Vec<u8>) -> (res: (bool, Vec<u8>))
    requires
        lhs@.len() == rhs@.len(),
        1 <= lhs@.len() <= 4,
    ensures
        res.1@ == zero_extend4(sum_bytes(lhs@, rhs@)),
        res.1@.len() == 4,
        res.0 == sum_carries(lhs@, rhs@),
{
    let ghost a = lhs@;
    let ghost b = rhs@;
    let w = lhs.len();
    let mut out: Vec<u8> = Vec::new();
    let mut k: usize = 0;
    while k < 4
        invariant
            0 <= k <= 4,
            out@.len() == k,
            forall|j: int| 0 <= j < k ==> out@[j] == 0,
        decreases 4 - k,
    {
        out.push(0u8);
        k += 1;
    }
    let mut carry: u8 = 0;
    let mut i: usize = w;
    proof {
        assert(out@.subrange(4 - w + i, 4) =~= Seq::empty());
        assert(a.skip(i as int) =~= Seq::empty());
        assert(b.skip(i as int) =~= Seq::empty());
    }
    while i > 0
        invariant
            0 <= i <= w,
            w == a.len() && w == b.len() && 1 <= w <= 4,
            a == lhs@ && b == rhs@,
            out@.len() == 4,
            carry == 0 || carry == 1,
            forall|j: int| 0 <= j < 4 - w + i ==> out@[j] == 0,
            be_val(out@.subrange(4 - w + i, 4)) + carry * pow256((w - i) as nat) == be_val(
                a.skip(i as int),
            ) + be_val(b.skip(i as int)),
        decreases i,
    {
        i -= 1;
        let s: u16 = lhs[i] as u16 + rhs[i] as u16 + carry as u16;
        let d: u8 = (s % 256) as u8;
        let c: u8 = (s / 256) as u8;
        let ghost c_in = carry;
        let ghost prev = out@;
        out[4 - w + i] = d;
        proof {
            let idx = 4 - w + i as int;
            let oldsub = prev.subrange(idx + 1, 4);
            let newsub = out@.subrange(idx, 4);
            assert(newsub.skip(1) =~= oldsub);
            assert(newsub[0] == d);
            lemma_be_val_first(newsub);
            lemma_be_val_first(a.skip(i as int));
            lemma_be_val_first(b.skip(i as int));
            assert(a.skip(i as int).skip(1) =~= a.skip(i + 1));
            assert(b.skip(i as int).skip(1) =~= b.skip(i + 1));
            let p = pow256((w - i - 1) as nat);
            assert(pow256((w - i) as nat) == 256 * p);
            lemma_fundamental_div_mod(s as int, 256);
            assert(s == 256 * c + d);
            let ai = a[i as int] as int;
            let bi = b[i as int] as int;
            assert((d + 256 * (c as int)) * p == d * p + (c as int) * (256 * p))
                by (nonlinear_arith);
            assert((ai + bi + c_in) * p == ai * p + bi * p + (c_in as int) * p)
                by (nonlinear_arith);
            assert(be_val(newsub) == d * p + be_val(oldsub));
            assert(be_val(newsub) + (c as int) * (256 * p) == (ai + bi + c_in) * p + be_val(
                oldsub,
            ));
        }
        carry = c;
    }
    proof {
        let sub = out@.subrange(4 - w, 4);
        assert(a.skip(0) =~= a);
        assert(b.skip(0) =~= b);
        let total = (be_val(a) + be_val(b)) as nat;
        let p = pow256(w as nat);
        lemma_pow256_pos(w as nat);
        lemma_be_val_bound(sub);
        if carry == 1 {
            lemma_mod_add_multiples_vanish(be_val(sub) as int, p as int);
            lemma_small_mod(be_val(sub), p);
        } else {
            lemma_small_mod(total, p);
        }
        assert(be_val(sub) == total % p);
        lemma_be_bytes_mod(total, w as nat);
        lemma_be_bytes_roundtrip(sub);
        assert(sum_bytes(a, b) == sub);
        assert(out@ =~= zeros((4 - w) as nat) + sub);
    }
    (carry == 1, out)
}

} // verus!
