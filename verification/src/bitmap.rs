use vstd::prelude::*;
use vstd::std_specs::bits::{
    u32_trailing_zeros, axiom_u32_trailing_zeros, u64_trailing_zeros, axiom_u64_trailing_zeros,
    u64_leading_zeros, axiom_u64_leading_zeros,
};

verus! {

/// A fixed-width set of bits stored in one machine word.
///
/// Bit `i` stands for member `i`; the set is viewed as a sequence of
/// booleans as long as the word is wide.
#[derive(Clone, Copy, Debug, PartialEq, Eq)]
pub struct Bitmap<T>(pub T);

/// Whether bit `i` of a 32-bit word is set.
pub open spec fn bit32(x: u32, i: u32) -> bool {
    (x >> i) & 1u32 == 1u32
}

/// The bits of a 32-bit word, lowest first.
pub open spec fn bits32(x: u32) -> Seq<bool> {
    Seq::new(32, |i: int| bit32(x, i as u32))
}

/// Number of `true` entries of a sequence.
pub open spec fn count_true(s: Seq<bool>) -> nat
    decreases s.len(),
{
    if s.len() == 0 {
        0
    } else {
        count_true(s.drop_last()) + if s.last() { 1nat } else { 0nat }
    }
}

/// A list of bit positions that is exactly the set bits of `v`, in ascending order.
pub open spec fn ascending_members(v: Seq<bool>, out: Seq<usize>) -> bool {
    &&& forall|k: int| 0 <= k < out.len() ==> #[trigger] out[k] < v.len()
    &&& forall|k: int| 0 <= k < out.len() ==> v[#[trigger] out[k] as int]
    &&& forall|k: int, l: int| 0 <= k < l < out.len() ==> out[k] < out[l]
    &&& forall|i: int| 0 <= i < v.len() && #[trigger] v[i] ==> out.contains(i as usize)
}

/// Distance of position `i` from `start` when walking upwards with wrap-around.
pub open spec fn circular_rank(i: int, start: int, width: int) -> int {
    if i >= start {
        i - start
    } else {
        i + width - start
    }
}

/// A list of bit positions that is exactly the set bits of `v`, visited from
/// `start` upwards and then wrapping around to the bits below `start`.
pub open spec fn circular_members(v: Seq<bool>, start: int, out: Seq<usize>) -> bool {
    &&& forall|k: int| 0 <= k < out.len() ==> #[trigger] out[k] < v.len()
    &&& forall|k: int| 0 <= k < out.len() ==> v[#[trigger] out[k] as int]
    &&& forall|k: int, l: int|
        0 <= k < l < out.len() ==> circular_rank(out[k] as int, start, v.len() as int)
            < circular_rank(out[l] as int, start, v.len() as int)
    &&& forall|i: int| 0 <= i < v.len() && #[trigger] v[i] ==> out.contains(i as usize)
}

proof fn lemma_bit32_or(x: u32, b: u32, i: u32)
    requires
        b < 32,
        i < 32,
    ensures
        bit32(x | (1u32 << b), i) == (i == b || bit32(x, i)),
{
    assert(((x | (1u32 << b)) >> i) & 1u32 == 1u32 <==> (i == b || (x >> i) & 1u32 == 1u32))
        by (bit_vector)
        requires
            b < 32,
            i < 32,
    ;
}

proof fn lemma_bit32_and_not(x: u32, b: u32, i: u32)
    requires
        b < 32,
        i < 32,
    ensures
        bit32(x & !(1u32 << b), i) == (i != b && bit32(x, i)),
{
    assert(((x & !(1u32 << b)) >> i) & 1u32 == 1u32 <==> (i != b && (x >> i) & 1u32 == 1u32))
        by (bit_vector)
        requires
            b < 32,
            i < 32,
    ;
}

proof fn lemma_bit32_test(x: u32, b: u32)
    requires
        b < 32,
    ensures
        ((x & (1u32 << b)) != 0) == bit32(x, b),
{
    assert(((x & (1u32 << b)) != 0) == ((x >> b) & 1u32 == 1u32)) by (bit_vector)
        requires
            b < 32,
    ;
}

proof fn lemma_bit32_not(x: u32, i: u32)
    requires
        i < 32,
    ensures
        bit32(!x, i) == !bit32(x, i),
{
    assert((((!x) >> i) & 1u32 == 1u32) == !((x >> i) & 1u32 == 1u32)) by (bit_vector)
        requires
            i < 32,
    ;
}

proof fn lemma_bit32_zero(x: u32)
    ensures
        x == 0 <==> (forall|i: u32| i < 32 ==> !#[trigger] bit32(x, i)),
{
    if x == 0 {
        assert forall|i: u32| i < 32 implies !#[trigger] bit32(x, i) by {
            assert((0u32 >> i) & 1u32 == 0u32) by (bit_vector);
        }
    } else {
        axiom_u32_trailing_zeros(x);
        let t = u32_trailing_zeros(x);
        assert(t < 32);
        assert(bit32(x, t));
    }
}

proof fn lemma_bit32_low_mask(x: u32, s: u32, i: u32)
    requires
        s < 32,
        i < 32,
    ensures
        bit32(x & !(((1u32 << s) - 1) as u32), i) == (i >= s && bit32(x, i)),
        bit32(x & (((1u32 << s) - 1) as u32), i) == (i < s && bit32(x, i)),
{
    assert(1u32 << s >= 1) by (bit_vector)
        requires
            s < 32,
    ;
    assert(((x & !(((1u32 << s) - 1) as u32)) >> i) & 1u32 == 1u32 <==> (i >= s && (x >> i) & 1u32
        == 1u32)) by (bit_vector)
        requires
            s < 32,
            i < 32,
    ;
    assert(((x & (((1u32 << s) - 1) as u32)) >> i) & 1u32 == 1u32 <==> (i < s && (x >> i) & 1u32
        == 1u32)) by (bit_vector)
        requires
            s < 32,
            i < 32,
    ;
}

proof fn lemma_count_true_push(s: Seq<bool>, b: bool)
    ensures
        count_true(s.push(b)) == count_true(s) + if b { 1nat } else { 0nat },
{
    assert(s.push(b).drop_last() =~= s);
}

pub(crate) proof fn lemma_count_true_bound(s: Seq<bool>)
    ensures
        count_true(s) <= s.len(),
    decreases s.len(),
{
    if s.len() > 0 {
        lemma_count_true_bound(s.drop_last());
    }
}

/// The set bits of `mask`, lowest first.
fn members32(mask: u32) -> (res: Vec<usize>)
    ensures
        ascending_members(bits32(mask), res@),
{
    let ghost v = bits32(mask);
    let mut out: Vec<usize> = Vec::new();
    let mut m: u32 = mask;
    let ghost mut t: int = 0;
    while m != 0
        invariant
            0 <= t <= 32,
            v == bits32(mask),
            forall|i: int| 0 <= i < 32 ==> #[trigger] bits32(m)[i] == (i >= t && v[i]),
            forall|k: int| 0 <= k < out@.len() ==> (out@[k] as int) < t && #[trigger] v[out@[k] as int],
            forall|k: int| 0 <= k < out@.len() ==> (#[trigger] out@[k] as int) < t,
            forall|k: int, l: int| 0 <= k < l < out@.len() ==> out@[k] < out@[l],
            forall|i: int| 0 <= i < t && #[trigger] v[i] ==> out@.contains(i as usize),
        decreases 32 - t,
    {
        proof {
            axiom_u32_trailing_zeros(m);
            lemma_bit32_zero(m);
        }
        let b = m.trailing_zeros();
        proof {
            assert(b < 32);
            assert(bit32(m, b));
            assert(bits32(m)[b as int]);
            assert(b as int >= t);
            assert forall|i: int| t <= i < b implies !v[i] by {
                assert(!bit32(m, i as u32));
                assert(!bits32(m)[i]);
            }
        }
        let ghost old_out = out@;
        let ghost m_old = m;
        out.push(b as usize);
        m = m & !(1u32 << b);
        proof {
            assert forall|i: int| 0 <= i < 32 implies #[trigger] bits32(m)[i] == (i >= b + 1 && v[i]) by {
                lemma_bit32_and_not(m_old, b, i as u32);
                assert(bits32(m_old)[i] == bit32(m_old, i as u32));
            }
            assert(out@[out@.len() - 1] == b as usize);
            assert forall|k: int| 0 <= k < out@.len() implies (out@[k] as int) < b + 1 && #[trigger] v[out@[k] as int] by {
                if k < old_out.len() {
                    assert(out@[k] == old_out[k]);
                    assert(v[old_out[k] as int]);
                } else {
                    assert(out@[k] == b as usize);
                    assert(bits32(m_old)[b as int]);
                }
            }
            assert forall|k: int, l: int| 0 <= k < l < out@.len() implies out@[k] < out@[l] by {
                assert(out@[k] == old_out[k]);
                if l < old_out.len() {
                    assert(out@[l] == old_out[l]);
                } else {
                    assert(v[old_out[k] as int]);
                    assert((old_out[k] as int) < t);
                }
            }
            assert forall|i: int| 0 <= i < b + 1 && #[trigger] v[i] implies out@.contains(i as usize) by {
                if i < t {
                    let j = choose|j: int| 0 <= j < old_out.len() && old_out[j] == i as usize;
                    assert(out@[j] == i as usize);
                } else {
                    assert(i == b);
                    assert(out@[out@.len() - 1] == i as usize);
                }
            }
            t = b + 1;
        }
    }
    proof {
        lemma_bit32_zero(m);
        assert forall|i: int| 0 <= i < 32 && #[trigger] v[i] implies out@.contains(i as usize) by {
            if i >= t {
                assert(bits32(m)[i]);
                assert(bit32(m, i as u32));
            }
        }
    }
    out
}

impl View for Bitmap<u32> {
    type V = Seq<bool>;

    open spec fn view(&self) -> Seq<bool> {
        bits32(self.0)
    }
}

impl Bitmap<u32> {
    /// Number of bits in the word.
    pub const SIZE: usize = 32;

    /// An empty bitmap.
    pub fn new() -> (r: Self)
        ensures
            r@ == Seq::new(32, |i: int| false),
    {
        proof {
            lemma_bit32_zero(0);
        }
        let r = Bitmap(0u32);
        assert(r@ =~= Seq::new(32, |i: int| false));
        r
    }

    /// A bitmap holding the bits of `val`.
    pub fn from(val: u32) -> (r: Self)
        ensures
            r.0 == val,
            r@ == bits32(val),
    {
        Bitmap(val)
    }

    /// The word behind the bitmap.
    pub fn raw(&self) -> (r: u32)
        ensures
            r == self.0,
    {
        self.0
    }

    /// Sets bit `bit`.
    pub fn set(&mut self, bit: usize)
        requires
            bit < 32,
        ensures
            final(self)@ == old(self)@.update(bit as int, true),
    {
        let ghost x = self.0;
        self.0 = self.0 | (1u32 << bit as u32);
        proof {
            assert forall|i: int| 0 <= i < 32 implies #[trigger] bits32(self.0)[i] == bits32(
                x,
            ).update(bit as int, true)[i] by {
                lemma_bit32_or(x, bit as u32, i as u32);
            }
            assert(self@ =~= bits32(x).update(bit as int, true));
        }
    }

    /// Clears bit `bit`.
    pub fn clear(&mut self, bit: usize)
        requires
            bit < 32,
        ensures
            final(self)@ == old(self)@.update(bit as int, false),
    {
        let ghost x = self.0;
        self.0 = self.0 & !(1u32 << bit as u32);
        proof {
            assert forall|i: int| 0 <= i < 32 implies #[trigger] bits32(self.0)[i] == bits32(
                x,
            ).update(bit as int, false)[i] by {
                lemma_bit32_and_not(x, bit as u32, i as u32);
            }
            assert(self@ =~= bits32(x).update(bit as int, false));
        }
    }

    /// Whether no bit is set.
    pub fn is_empty(&self) -> (r: bool)
        ensures
            r == (forall|i: int| 0 <= i < 32 ==> !#[trigger] self@[i]),
    {
        proof {
            lemma_bit32_zero(self.0);
            if self.0 != 0 {
                let j = choose|j: u32| j < 32 && bit32(self.0, j);
                assert(self@[j as int]);
            }
            assert((forall|i: int| 0 <= i < 32 ==> !#[trigger] self@[i]) ==> (forall|i: u32|
                i < 32 ==> !#[trigger] bit32(self.0, i))) by {
                if forall|i: int| 0 <= i < 32 ==> !#[trigger] self@[i] {
                    assert forall|i: u32| i < 32 implies !#[trigger] bit32(self.0, i) by {
                        assert(!self@[i as int]);
                    }
                }
            }
        }
        self.0 == 0
    }

    /// Whether bit `bit` is set.
    pub fn is_set(&self, bit: usize) -> (r: bool)
        requires
            bit < 32,
        ensures
            r == self@[bit as int],
    {
        proof {
            lemma_bit32_test(self.0, bit as u32);
        }
        (self.0 & (1u32 << bit as u32)) != 0
    }

    /// Number of set bits.
    pub fn ones(&self) -> (r: usize)
        ensures
            r == count_true(self@),
    {
        let mut n: usize = 0;
        let mut i: usize = 0;
        while i < 32
            invariant
                i <= 32,
                n == count_true(self@.subrange(0, i as int)),
                n <= i,
            decreases 32 - i,
        {
            proof {
                assert(self@.subrange(0, i + 1) =~= self@.subrange(0, i as int).push(self@[i as int]));
                lemma_count_true_push(self@.subrange(0, i as int), self@[i as int]);
            }
            if self.is_set(i) {
                n = n + 1;
            }
            i = i + 1;
        }
        assert(self@.subrange(0, 32) =~= self@);
        n
    }

    /// The lowest clear bit, or `None` when every bit is set.
    pub fn first_unset(&self) -> (r: Option<usize>)
        ensures
            r is None <==> (forall|i: int| 0 <= i < 32 ==> #[trigger] self@[i]),
            r matches Some(b) ==> b < 32 && !self@[b as int] && (forall|i: int|
                0 <= i < b ==> #[trigger] self@[i]),
    {
        let inverted = !self.0;
        proof {
            lemma_bit32_zero(inverted);
            axiom_u32_trailing_zeros(inverted);
            assert forall|i: int| 0 <= i < 32 implies #[trigger] self@[i] == !bit32(inverted, i as u32) by {
                lemma_bit32_not(self.0, i as u32);
            }
        }
        if inverted == 0 {
            None
        } else {
            let b = inverted.trailing_zeros();
            proof {
                assert(!self@[b as int]);
                assert forall|i: int| 0 <= i < b implies #[trigger] self@[i] by {
                    assert(!bit32(inverted, i as u32));
                }
            }
            Some(b as usize)
        }
    }

    /// The set bits in ascending order.
    pub fn iter(self) -> (r: Vec<usize>)
        ensures
            ascending_members(self@, r@),
    {
        members32(self.0)
    }

    /// The set bits starting at `start_bit` and going upwards, followed by the
    /// set bits below `start_bit`, each part in ascending order.
    pub fn iter_from(self, start_bit: usize) -> (r: Vec<usize>)
        requires
            start_bit < 32,
        ensures
            circular_members(self@, start_bit as int, r@),
    {
        let s = start_bit as u32;
        proof {
            assert(1u32 << s >= 1) by (bit_vector)
                requires
                    s < 32,
            ;
        }
        let mask_lower: u32 = (1u32 << s) - 1;
        let upper = self.0 & !mask_lower;
        let lower = self.0 & mask_lower;
        proof {
            assert forall|i: int| 0 <= i < 32 implies #[trigger] bits32(upper)[i] == (i >= s
                && self@[i]) by {
                lemma_bit32_low_mask(self.0, s, i as u32);
            }
            assert forall|i: int| 0 <= i < 32 implies #[trigger] bits32(lower)[i] == (i < s
                && self@[i]) by {
                lemma_bit32_low_mask(self.0, s, i as u32);
            }
        }
        let mut hi = members32(upper);
        let mut lo = members32(lower);
        let ghost h = hi@;
        let ghost l = lo@;
        hi.append(&mut lo);
        proof {
            let r = hi@;
            assert(r =~= h + l);
            assert forall|k: int| 0 <= k < r.len() implies #[trigger] r[k] < 32 && self@[r[k] as int] by {
                if k < h.len() {
                    assert(r[k] == h[k]);
                    assert(bits32(upper)[h[k] as int]);
                } else {
                    assert(r[k] == l[k - h.len()]);
                    assert(bits32(lower)[l[k - h.len()] as int]);
                }
            }
            assert forall|k: int, m: int| 0 <= k < m < r.len() implies circular_rank(
                r[k] as int,
                s as int,
                32,
            ) < circular_rank(r[m] as int, s as int, 32) by {
                if m < h.len() {
                    assert(bits32(upper)[h[k] as int]);
                    assert(bits32(upper)[h[m] as int]);
                } else if k < h.len() {
                    assert(bits32(upper)[h[k] as int]);
                    assert(bits32(lower)[l[m - h.len()] as int]);
                } else {
                    assert(bits32(lower)[l[k - h.len()] as int]);
                    assert(bits32(lower)[l[m - h.len()] as int]);
                }
            }
            assert forall|i: int| 0 <= i < 32 && #[trigger] self@[i] implies r.contains(i as usize) by {
                if i >= s {
                    assert(bits32(upper)[i]);
                    let j = choose|j: int| 0 <= j < h.len() && h[j] == i as usize;
                    assert(r[j] == i as usize);
                } else {
                    assert(bits32(lower)[i]);
                    let j = choose|j: int| 0 <= j < l.len() && l[j] == i as usize;
                    assert(r[j + h.len()] == i as usize);
                }
            }
        }
        hi
    }
}

/// Whether bit `i` of a 64-bit word is set.
pub open spec fn bit64(x: u64, i: u64) -> bool {
    (x >> i) & 1u64 == 1u64
}

/// The bits of a 64-bit word, lowest first.
pub open spec fn bits64(x: u64) -> Seq<bool> {
    Seq::new(64, |i: int| bit64(x, i as u64))
}

/// Whether positions `start .. start + len` of `v` all lie inside `v` and are clear.
pub open spec fn free_run(v: Seq<bool>, start: int, len: int) -> bool {
    &&& 0 <= start
    &&& start + len <= v.len()
    &&& forall|j: int| start <= j < start + len ==> !#[trigger] v[j]
}

/// `v` with positions `start .. start + len` set to `b`.
pub open spec fn fill(v: Seq<bool>, start: int, len: int, b: bool) -> Seq<bool> {
    Seq::new(v.len(), |i: int| if start <= i < start + len { b } else { v[i] })
}

/// The mask of `len` low bits.
pub open spec fn low_mask64(len: u64) -> u64 {
    if len >= 64 {
        0xffff_ffff_ffff_ffffu64
    } else {
        ((1u64 << len) - 1) as u64
    }
}

proof fn lemma_bit64_or(x: u64, b: u64, i: u64)
    requires
        b < 64,
        i < 64,
    ensures
        bit64(x | (1u64 << b), i) == (i == b || bit64(x, i)),
{
    assert(((x | (1u64 << b)) >> i) & 1u64 == 1u64 <==> (i == b || (x >> i) & 1u64 == 1u64))
        by (bit_vector)
        requires
            b < 64,
            i < 64,
    ;
}

proof fn lemma_bit64_and_not(x: u64, b: u64, i: u64)
    requires
        b < 64,
        i < 64,
    ensures
        bit64(x & !(1u64 << b), i) == (i != b && bit64(x, i)),
{
    assert(((x & !(1u64 << b)) >> i) & 1u64 == 1u64 <==> (i != b && (x >> i) & 1u64 == 1u64))
        by (bit_vector)
        requires
            b < 64,
            i < 64,
    ;
}

proof fn lemma_bit64_test(x: u64, b: u64)
    requires
        b < 64,
    ensures
        ((x & (1u64 << b)) != 0) == bit64(x, b),
{
    assert(((x & (1u64 << b)) != 0) == ((x >> b) & 1u64 == 1u64)) by (bit_vector)
        requires
            b < 64,
    ;
}

proof fn lemma_bit64_zero(x: u64)
    ensures
        x == 0 <==> (forall|i: u64| i < 64 ==> !#[trigger] bit64(x, i)),
{
    if x == 0 {
        assert forall|i: u64| i < 64 implies !#[trigger] bit64(x, i) by {
            assert((0u64 >> i) & 1u64 == 0u64) by (bit_vector);
        }
    } else {
        axiom_u64_trailing_zeros(x);
        let t = u64_trailing_zeros(x);
        assert(t < 64);
        assert(bit64(x, t as u64));
    }
}

proof fn lemma_bit64_full(x: u64)
    ensures
        x == 0xffff_ffff_ffff_ffffu64 <==> (forall|i: u64| i < 64 ==> #[trigger] bit64(x, i)),
{
    lemma_bit64_zero(!x);
    assert(x == 0xffff_ffff_ffff_ffffu64 <==> !x == 0) by (bit_vector);
    assert forall|i: u64| i < 64 implies #[trigger] bit64(!x, i) == !bit64(x, i) by {
        assert((((!x) >> i) & 1u64 == 1u64) == !((x >> i) & 1u64 == 1u64)) by (bit_vector)
            requires
                i < 64,
        ;
    }
    if forall|i: u64| i < 64 ==> #[trigger] bit64(x, i) {
        assert forall|i: u64| i < 64 implies !#[trigger] bit64(!x, i) by {
            assert(bit64(x, i));
        }
    }
    if x == 0xffff_ffff_ffff_ffffu64 {
        assert forall|i: u64| i < 64 implies #[trigger] bit64(x, i) by {
            assert(!bit64(!x, i));
        }
    }
}

proof fn lemma_bit64_range_mask(start: u64, len: u64, i: u64)
    requires
        len <= 64,
        start < 64,
        i < 64,
    ensures
        bit64(low_mask64(len) << start, i) == (start <= i && i < start + len),
{
    if len == 64 {
        assert(((0xffff_ffff_ffff_ffffu64 << start) >> i) & 1u64 == 1u64 <==> start <= i) by (bit_vector)
            requires
                start < 64,
                i < 64,
        ;
    } else {
        assert(1u64 << len >= 1) by (bit_vector)
            requires
                len < 64,
        ;
        assert((((((1u64 << len) - 1) as u64) << start) >> i) & 1u64 == 1u64 <==> (start <= i && i
            < start + len)) by (bit_vector)
            requires
                len < 64,
                start < 64,
                i < 64,
        ;
    }
}

impl View for Bitmap<u64> {
    type V = Seq<bool>;

    open spec fn view(&self) -> Seq<bool> {
        bits64(self.0)
    }
}

impl Bitmap<u64> {
    /// Number of bits in the word.
    pub const SIZE: usize = 64;

    /// An empty bitmap.
    pub fn new() -> (r: Self)
        ensures
            r@ == Seq::new(64, |i: int| false),
    {
        proof {
            lemma_bit64_zero(0);
        }
        let r = Bitmap(0u64);
        assert(r@ =~= Seq::new(64, |i: int| false));
        r
    }

    /// A bitmap holding the bits of `val`.
    pub fn from(val: u64) -> (r: Self)
        ensures
            r.0 == val,
            r@ == bits64(val),
    {
        Bitmap(val)
    }

    /// The word behind the bitmap.
    pub fn raw(&self) -> (r: u64)
        ensures
            r == self.0,
    {
        self.0
    }

    /// Sets bit `bit`.
    pub fn set(&mut self, bit: usize)
        requires
            bit < 64,
        ensures
            final(self)@ == old(self)@.update(bit as int, true),
    {
        let ghost x = self.0;
        self.0 = self.0 | (1u64 << bit as u64);
        proof {
            assert forall|i: int| 0 <= i < 64 implies #[trigger] bits64(self.0)[i] == bits64(
                x,
            ).update(bit as int, true)[i] by {
                lemma_bit64_or(x, bit as u64, i as u64);
            }
            assert(self@ =~= bits64(x).update(bit as int, true));
        }
    }

    /// Clears bit `bit`.
    pub fn clear(&mut self, bit: usize)
        requires
            bit < 64,
        ensures
            final(self)@ == old(self)@.update(bit as int, false),
    {
        let ghost x = self.0;
        self.0 = self.0 & !(1u64 << bit as u64);
        proof {
            assert forall|i: int| 0 <= i < 64 implies #[trigger] bits64(self.0)[i] == bits64(
                x,
            ).update(bit as int, false)[i] by {
                lemma_bit64_and_not(x, bit as u64, i as u64);
            }
            assert(self@ =~= bits64(x).update(bit as int, false));
        }
    }

    /// Whether no bit is set.
    pub fn is_empty(&self) -> (r: bool)
        ensures
            r == (forall|i: int| 0 <= i < 64 ==> !#[trigger] self@[i]),
    {
        proof {
            lemma_bit64_zero(self.0);
            if self.0 != 0 {
                let j = choose|j: u64| j < 64 && bit64(self.0, j);
                assert(self@[j as int]);
            } else {
                assert forall|i: int| 0 <= i < 64 implies !#[trigger] self@[i] by {
                    assert(!bit64(self.0, i as u64));
                }
            }
        }
        self.0 == 0
    }

    /// Whether every bit is set.
    pub fn is_full(&self) -> (r: bool)
        ensures
            r == (forall|i: int| 0 <= i < 64 ==> #[trigger] self@[i]),
    {
        proof {
            lemma_bit64_full(self.0);
            if self.0 != 0xffff_ffff_ffff_ffffu64 {
                let j = choose|j: u64| j < 64 && !bit64(self.0, j);
                assert(!self@[j as int]);
            } else {
                assert forall|i: int| 0 <= i < 64 implies #[trigger] self@[i] by {
                    assert(bit64(self.0, i as u64));
                }
            }
        }
        self.0 == 0xffff_ffff_ffff_ffffu64
    }

    /// Whether bit `bit` is set.
    pub fn is_set(&self, bit: usize) -> (r: bool)
        requires
            bit < 64,
        ensures
            r == self@[bit as int],
    {
        proof {
            lemma_bit64_test(self.0, bit as u64);
        }
        (self.0 & (1u64 << bit as u64)) != 0
    }

    /// Number of clear bits below the lowest set bit (64 for an empty word).
    pub fn trailing_zeros(&self) -> (r: usize)
        ensures
            r <= 64,
            forall|j: int| 0 <= j < r ==> !#[trigger] self@[j],
            r < 64 ==> self@[r as int],
    {
        proof {
            axiom_u64_trailing_zeros(self.0);
        }
        let t = self.0.trailing_zeros();
        proof {
            assert forall|j: int| 0 <= j < t implies !#[trigger] self@[j] by {
                assert(!bit64(self.0, j as u64));
            }
        }
        t as usize
    }

    /// Number of clear bits above the highest set bit (64 for an empty word).
    pub fn leading_zeros(&self) -> (r: usize)
        ensures
            r <= 64,
            forall|j: int| 64 - r <= j < 64 ==> !#[trigger] self@[j],
            r < 64 ==> self@[63 - r],
    {
        proof {
            axiom_u64_leading_zeros(self.0);
        }
        let t = self.0.leading_zeros();
        proof {
            assert forall|j: int| 64 - t <= j < 64 implies !#[trigger] self@[j] by {
                assert(!bit64(self.0, j as u64));
            }
            if t < 64 {
                let k = (63 - t) as u64;
                let x = self.0;
                assert((x >> k) & 1u64 != 0u64 ==> (x >> k) & 1u64 == 1u64) by (bit_vector);
                assert(bit64(x, k));
            }
        }
        t as usize
    }

    /// Sets the `len` bits starting at `start` (those that lie in the word).
    pub fn set_range(&mut self, start: usize, len: usize)
        requires
            start < 64,
            len <= 64,
        ensures
            final(self)@ == fill(old(self)@, start as int, len as int, true),
    {
        let mask: u64 = if len == 64 {
            0xffff_ffff_ffff_ffffu64
        } else {
            proof {
                assert(1u64 << (len as u64) >= 1) by (bit_vector)
                    requires
                        len < 64,
                ;
            }
            (1u64 << len as u64) - 1
        };
        let ghost x = self.0;
        self.0 = self.0 | (mask << start as u64);
        proof {
            assert(mask == low_mask64(len as u64));
            assert forall|i: int| 0 <= i < 64 implies #[trigger] bits64(self.0)[i] == fill(
                bits64(x),
                start as int,
                len as int,
                true,
            )[i] by {
                let ii = i as u64;
                lemma_bit64_range_mask(start as u64, len as u64, ii);
                let m = mask << start as u64;
                assert(((x | m) >> ii) & 1u64 == 1u64 <==> ((x >> ii) & 1u64 == 1u64 || (m >> ii)
                    & 1u64 == 1u64)) by (bit_vector);
            }
            assert(self@ =~= fill(bits64(x), start as int, len as int, true));
        }
    }

    /// Clears the `len` bits starting at `start` (those that lie in the
    /// word).
    pub fn clear_range(&mut self, start: usize, len: usize)
        requires
            start < 64,
            len <= 64,
        ensures
            final(self)@ == fill(old(self)@, start as int, len as int, false),
    {
        let mask: u64 = if len == 64 {
            0xffff_ffff_ffff_ffffu64
        } else {
            proof {
                assert(1u64 << (len as u64) >= 1) by (bit_vector)
                    requires
                        len < 64,
                ;
            }
            (1u64 << len as u64) - 1
        };
        let ghost x = self.0;
        self.0 = self.0 & !(mask << start as u64);
        proof {
            assert(mask == low_mask64(len as u64));
            assert forall|i: int| 0 <= i < 64 implies #[trigger] bits64(self.0)[i] == fill(
                bits64(x),
                start as int,
                len as int,
                false,
            )[i] by {
                let ii = i as u64;
                lemma_bit64_range_mask(start as u64, len as u64, ii);
                let m = mask << start as u64;
                assert(((x & !m) >> ii) & 1u64 == 1u64 <==> ((x >> ii) & 1u64 == 1u64 && !((m >> ii)
                    & 1u64 == 1u64))) by (bit_vector);
            }
            assert(self@ =~= fill(bits64(x), start as int, len as int, false));
        }
    }

    /// The lowest position at which `len` consecutive clear bits start, or
    /// `None` when `len` is zero, wider than the word, or fits nowhere.
    pub fn find_first_fit(&self, len: usize) -> (r: Option<usize>)
        ensures
            r is None <==> (len == 0 || len > 64 || forall|i: int| !#[trigger] free_run(self@, i, len as int)),
            r matches Some(i) ==> free_run(self@, i as int, len as int) && forall|k: int|
                0 <= k < i ==> !#[trigger] free_run(self@, k, len as int),
    {
        if len == 0 || len > 64 {
            return None;
        }
        let search_mask: u64 = if len == 64 {
            0xffff_ffff_ffff_ffffu64
        } else {
            proof {
                assert(1u64 << (len as u64) >= 1) by (bit_vector)
                    requires
                        len < 64,
                ;
            }
            (1u64 << len as u64) - 1
        };
        let mut i: usize = 0;
        while i <= 64 - len
            invariant
                1 <= len <= 64,
                i <= 65 - len,
                search_mask == low_mask64(len as u64),
                forall|k: int| 0 <= k < i ==> !#[trigger] free_run(self@, k, len as int),
            decreases 65 - len - i,
        {
            let probe = self.0 & (search_mask << i as u64);
            proof {
                lemma_bit64_zero(probe);
                assert forall|j: u64| j < 64 implies #[trigger] bit64(probe, j) == (i <= j && j < i
                    + len && bit64(self.0, j)) by {
                    lemma_bit64_range_mask(i as u64, len as u64, j);
                    let m = search_mask << i as u64;
                    let x = self.0;
                    assert(((x & m) >> j) & 1u64 == 1u64 <==> ((x >> j) & 1u64 == 1u64 && (m
                        >> j) & 1u64 == 1u64)) by (bit_vector);
                }
                if probe == 0 {
                    assert forall|j: int| i <= j < i + len implies !#[trigger] self@[j] by {
                        assert(!bit64(probe, j as u64));
                    }
                    assert(free_run(self@, i as int, len as int));
                } else {
                    let j = choose|j: u64| j < 64 && bit64(probe, j);
                    assert(self@[j as int]);
                }
            }
            if probe == 0 {
                return Some(i);
            }
            i = i + 1;
        }
        proof {
            assert forall|k: int| !#[trigger] free_run(self@, k, len as int) by {
                if k >= i {
                    assert(k + len > 64);
                }
            }
        }
        None
    }
}

} // verus!
