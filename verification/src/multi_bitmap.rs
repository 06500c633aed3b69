use vstd::prelude::*;
use vstd::array::*;
use crate::bitmap::{Bitmap, fill, free_run};

verus! {

broadcast use {vstd::array::group_array_axioms, vstd::std_specs::bits::group_bits_axioms};

/// A bitmap spread over `N` 64-bit words; bit `g` lives in word `g / 64` at
/// position `g % 64`.
#[derive(Clone, Copy)]
pub struct MultiBitmap<const N: usize> {
    words: [Bitmap<u64>; N],
}

/// Places bit `g` in word `w` when `g` lies in that word's range.
proof fn lemma_loc(g: int, w: int)
    requires
        0 <= w,
        w * 64 <= g < w * 64 + 64,
    ensures
        g / 64 == w,
        g % 64 == g - w * 64,
{
    vstd::arithmetic::div_mod::lemma_fundamental_div_mod_converse(g, 64, w, g - w * 64);
}

impl<const N: usize> View for MultiBitmap<N> {
    type V = Seq<bool>;

    closed spec fn view(&self) -> Seq<bool> {
        Seq::new((N * 64) as nat, |g: int| self.words@[g / 64]@[g % 64])
    }
}

impl<const N: usize> MultiBitmap<N> {
    #[verifier::type_invariant]
    spec fn fits(self) -> bool {
        N * 64 <= usize::MAX
    }

    /// Bit `g` of the map is bit `g - 64 * w` of word `w`.
    proof fn lemma_view_word(&self, g: int, w: int)
        requires
            0 <= w < N,
            w * 64 <= g < w * 64 + 64,
        ensures
            self@.len() == N * 64,
            self@[g] == self.words@[w]@[g - w * 64],
    {
        lemma_loc(g, w);
    }

    /// Number of bits held.
    pub fn total_bits(&self) -> (r: usize)
        ensures
            r == N * 64,
            r == self@.len(),
    {
        proof {
            use_type_invariant(self);
        }
        N * 64
    }

    /// An all-clear bitmap.
    pub fn new() -> (r: Self)
        requires
            N * 64 <= usize::MAX,
        ensures
            r@ == Seq::new((N * 64) as nat, |g: int| false),
    {
        let w = Bitmap::<u64>::new();
        let r = MultiBitmap { words: [w; N] };
        proof {
            assert forall|g: int| 0 <= g < N * 64 implies #[trigger] r@[g] == false by {
                let q = g / 64;
                assert(0 <= q < N) by {
                    vstd::arithmetic::div_mod::lemma_div_pos_is_pos(g, 64);
                    if q >= N {
                        vstd::arithmetic::div_mod::lemma_fundamental_div_mod(g, 64);
                    }
                }
                assert(r.words@[q] == w);
            }
            assert(r@ =~= Seq::new((N * 64) as nat, |g: int| false));
        }
        r
    }

    /// Word index and bit position of bit `idx`.
    fn loc(idx: usize) -> (r: (usize, usize))
        ensures
            r.0 == idx / 64,
            r.1 == idx % 64,
    {
        (idx / 64, idx % 64)
    }

    /// Whether bit `idx` is set.
    pub fn is_set(&self, idx: usize) -> (r: bool)
        requires
            idx < self@.len(),
        ensures
            r == self@[idx as int],
    {
        proof {
            use_type_invariant(self);
        }
        let (w, b) = Self::loc(idx);
        proof {
            vstd::arithmetic::div_mod::lemma_fundamental_div_mod(idx as int, 64);
        }
        self.words[w].is_set(b)
    }

    /// Sets bit `idx`.
    pub fn set(&mut self, idx: usize)
        requires
            idx < old(self)@.len(),
        ensures
            final(self)@ == old(self)@.update(idx as int, true),
    {
        self.range_op(idx, 1, true);
        proof {
            assert(fill(old(self)@, idx as int, 1, true) =~= old(self)@.update(idx as int, true));
        }
    }

    /// Clears bit `idx`.
    pub fn clear(&mut self, idx: usize)
        requires
            idx < old(self)@.len(),
        ensures
            final(self)@ == old(self)@.update(idx as int, false),
    {
        self.range_op(idx, 1, false);
        proof {
            assert(fill(old(self)@, idx as int, 1, false) =~= old(self)@.update(idx as int, false));
        }
    }

    /// Sets the `len` bits starting at `start`.
    pub fn set_range(&mut self, start: usize, len: usize)
        requires
            start + len <= old(self)@.len(),
        ensures
            final(self)@ == fill(old(self)@, start as int, len as int, true),
    {
        self.range_op(start, len, true);
    }

    /// Clears the `len` bits starting at `start`.
    pub fn clear_range(&mut self, start: usize, len: usize)
        requires
            start + len <= old(self)@.len(),
        ensures
            final(self)@ == fill(old(self)@, start as int, len as int, false),
    {
        self.range_op(start, len, false);
    }

    /// Sets (`set`) or clears (`!set`) the `len` bits starting at `start`,
    /// word by word.
    fn range_op(&mut self, start: usize, len: usize, set: bool)
        requires
            start + len <= old(self)@.len(),
        ensures
            final(self)@ == fill(old(self)@, start as int, len as int, set),
    {
        proof {
            use_type_invariant(&*self);
        }
        if len == 0 {
            assert(fill(self@, start as int, 0, set) =~= self@);
            return;
        }
        let ghost old_v = self@;
        let end = start + len;
        let first_word = start / 64;
        let last_word = (end - 1) / 64;
        proof {
            vstd::arithmetic::div_mod::lemma_fundamental_div_mod(start as int, 64);
            vstd::arithmetic::div_mod::lemma_fundamental_div_mod((end - 1) as int, 64);
        }
        let mut wi = first_word;
        while wi <= last_word
            invariant
                N * 64 <= usize::MAX,
                0 < len,
                end == start + len,
                end <= N * 64,
                first_word == start / 64,
                last_word == (end - 1) / 64,
                first_word * 64 <= start < first_word * 64 + 64,
                last_word * 64 <= end - 1 < last_word * 64 + 64,
                last_word < N,
                first_word <= wi <= last_word + 1,
                old_v.len() == N * 64,
                self@.len() == N * 64,
                forall|g: int|
                    0 <= g < N * 64 ==> #[trigger] self@[g] == if g < wi * 64 {
                        fill(old_v, start as int, len as int, set)[g]
                    } else {
                        old_v[g]
                    },
            decreases last_word + 1 - wi,
        {
            let bit_start = if wi == first_word {
                start % 64
            } else {
                0
            };
            let bit_end = if wi == last_word {
                (end - 1) % 64 + 1
            } else {
                64
            };
            let bit_len = bit_end - bit_start;
            let ghost before = *self;
            let mut word = self.words[wi];
            if set {
                word.set_range(bit_start, bit_len);
            } else {
                word.clear_range(bit_start, bit_len);
            }
            let mut words = self.words;
            words[wi] = word;
            self.words = words;
            proof {
                assert forall|g: int| 0 <= g < N * 64 implies #[trigger] self@[g] == if g < (wi + 1)
                    * 64 {
                    fill(old_v, start as int, len as int, set)[g]
                } else {
                    old_v[g]
                } by {
                    let w = g / 64;
                    vstd::arithmetic::div_mod::lemma_fundamental_div_mod(g, 64);
                    self.lemma_view_word(g, w);
                    before.lemma_view_word(g, w);
                    if w == wi {
                        assert(self.words@[w] == word);
                    } else {
                        assert(self.words@[w] == before.words@[w]);
                    }
                }
            }
            wi = wi + 1;
        }
        proof {
            assert(self@ =~= fill(old_v, start as int, len as int, set));
        }
    }

    /// The lowest bit position at which `len` consecutive clear bits start,
    /// or `None` when `len` is zero, exceeds the total width, or fits nowhere.
    ///
    /// A run may span several words; a word with neither end free is searched
    /// for a run that lies inside it.
    pub fn find_first_fit(&self, len: usize) -> (r: Option<usize>)
        ensures
            r is None <==> (len == 0 || len > self@.len() || forall|i: int|
                !#[trigger] free_run(self@, i, len as int)),
            r matches Some(i) ==> free_run(self@, i as int, len as int) && forall|k: int|
                0 <= k < i ==> !#[trigger] free_run(self@, k, len as int),
    {
        proof {
            use_type_invariant(self);
        }
        if len == 0 || len > N * 64 {
            return None;
        }
        let ghost v = self@;
        let mut run_start: usize = 0;
        let mut run_len: usize = 0;
        let mut wi: usize = 0;
        while wi < N
            invariant
                N * 64 <= usize::MAX,
                v == self@,
                v.len() == N * 64,
                1 <= len <= N * 64,
                wi <= N,
                run_start + run_len == wi * 64,
                run_len < len,
                forall|j: int| run_start <= j < wi * 64 ==> !#[trigger] v[j],
                forall|k: int| 0 <= k < run_start ==> !#[trigger] free_run(v, k, len as int),
            decreases N - wi,
        {
            let word = self.words[wi];
            let word_start = wi * 64;
            proof {
                assert forall|j: int| 0 <= j < 64 implies #[trigger] v[word_start + j]
                    == word@[j] by {
                    self.lemma_view_word(word_start + j, wi as int);
                }
            }
            if word.is_empty() {
                run_len = run_len + 64;
                if run_len >= len {
                    proof {
                        assert forall|j: int| run_start <= j < run_start + len implies !#[trigger] v[j] by {
                            if j >= word_start {
                                assert(v[word_start + (j - word_start)] == word@[j - word_start]);
                            }
                        }
                        assert(free_run(v, run_start as int, len as int));
                    }
                    return Some(run_start);
                }
                proof {
                    assert forall|j: int| run_start <= j < (wi + 1) * 64 implies !#[trigger] v[j] by {
                        if j >= word_start {
                            assert(v[word_start + (j - word_start)] == word@[j - word_start]);
                        }
                    }
                }
                wi = wi + 1;
                continue;
            }
            if word.is_full() {
                proof {
                    assert forall|k: int| 0 <= k < word_start + 64 implies !#[trigger] free_run(
                        v,
                        k,
                        len as int,
                    ) by {
                        if k >= run_start {
                            let p = if k >= word_start { k } else { word_start as int };
                            assert(word@[p - word_start]);
                            assert(v[word_start + (p - word_start)] == word@[p - word_start]);
                        }
                    }
                }
                run_len = 0;
                run_start = word_start + 64;
                wi = wi + 1;
                continue;
            }
            let tf = word.trailing_zeros();
            proof {
                if tf == 64 {
                    assert(forall|i: int| 0 <= i < 64 ==> !#[trigger] word@[i]);
                }
                assert(tf < 64);
            }
            if run_len + tf >= len {
                proof {
                    assert forall|j: int| run_start <= j < run_start + len implies !#[trigger] v[j] by {
                        if j >= word_start {
                            assert(v[word_start + (j - word_start)] == word@[j - word_start]);
                        }
                    }
                    assert(free_run(v, run_start as int, len as int));
                }
                return Some(run_start);
            }
            proof {
                // a run starting in the already scanned stretch reaches the set bit at `word_start + tf`
                assert(word@[tf as int]);
                assert forall|k: int| run_start <= k < word_start implies !#[trigger] free_run(
                    v,
                    k,
                    len as int,
                ) by {
                    assert(v[word_start + tf] == word@[tf as int]);
                }
            }
            if len <= 64 {
                let fit = word.find_first_fit(len);
                if let Some(bit) = fit {
                    proof {
                        assert forall|j: int| word_start + bit <= j < word_start + bit + len implies !#[trigger] v[j] by {
                            assert(v[word_start + (j - word_start)] == word@[j - word_start]);
                            assert(!word@[j - word_start]);
                        }
                        assert(free_run(v, word_start + bit, len as int));
                        assert forall|k: int| 0 <= k < word_start + bit implies !#[trigger] free_run(
                            v,
                            k,
                            len as int,
                        ) by {
                            if k >= word_start {
                                if k + len <= word_start + 64 {
                                    if free_run(v, k, len as int) {
                                        assert forall|j: int| k - word_start <= j < k - word_start + len implies !#[trigger] word@[j] by {
                                            assert(v[word_start + j] == word@[j]);
                                        }
                                        assert(free_run(word@, k - word_start, len as int));
                                    }
                                }
                            }
                        }
                    }
                    return Some(word_start + bit);
                }
            }
            let lf = word.leading_zeros();
            proof {
                assert(lf < 64);
                assert(word@[63 - lf]);
                if len <= 64 && lf >= len {
                    assert forall|j: int| 64 - lf <= j < 64 - lf + len implies !#[trigger] word@[j] by {}
                    assert(free_run(word@, 64 - lf, len as int));
                }
                assert(lf < len);
                assert forall|k: int| word_start <= k < word_start + 64 - lf implies !#[trigger] free_run(
                    v,
                    k,
                    len as int,
                ) by {
                    if free_run(v, k, len as int) {
                        if k + len <= word_start + 64 - lf {
                            assert(len <= 64);
                            assert forall|j: int| k - word_start <= j < k - word_start + len implies !#[trigger] word@[j] by {
                                assert(v[word_start + j] == word@[j]);
                            }
                            assert(free_run(word@, k - word_start, len as int));
                        } else {
                            assert(v[word_start + (63 - lf)] == word@[63 - lf]);
                        }
                    }
                }
                assert forall|j: int| word_start + 64 - lf <= j < word_start + 64 implies !#[trigger] v[j] by {
                    assert(v[word_start + (j - word_start)] == word@[j - word_start]);
                }
            }
            run_len = lf;
            run_start = word_start + 64 - lf;
            wi = wi + 1;
        }
        if run_len >= len {
            Some(run_start)
        } else {
            proof {
                assert forall|k: int| !#[trigger] free_run(v, k, len as int) by {
                    if 0 <= k && k >= run_start {
                        assert(k + len > N * 64);
                    }
                }
            }
            None
        }
    }
}

} // verus!
