//! Fixed-capacity ring buffer of audio samples that always holds the most
//! recent samples pushed into it (the pre-roll window).

use vstd::prelude::*;
use vstd::arithmetic::div_mod::{lemma_small_mod, lemma_mod_sub_multiples_vanish};

verus! {

/// The last `n` elements of `s`, or all of `s` when it is shorter.
pub open spec fn keep_last(s: Seq<i16>, n: nat) -> Seq<i16> {
    if s.len() <= n {
        s
    } else {
        s.subrange(s.len() - n, s.len() as int)
    }
}

/// Ring buffer that keeps a rolling window of audio samples.
pub struct RingBuffer {
    buffer: Vec<i16>,
    capacity: usize,
    write_pos: usize,
    filled: bool,
}

impl View for RingBuffer {
    /// The retained samples, oldest first.
    type V = Seq<i16>;

    closed spec fn view(&self) -> Seq<i16> {
        if self.filled {
            self.buffer@.subrange(self.write_pos as int, self.capacity as int) + self.buffer@.subrange(
                0,
                self.write_pos as int,
            )
        } else {
            self.buffer@.subrange(0, self.write_pos as int)
        }
    }
}

/// One step of the buffer: `x` written at `pos`, which then advances.
proof fn lemma_write_one(b: Seq<i16>, cap: nat, pos: nat, filled: bool, x: i16)
    requires
        b.len() == cap,
        0 < cap,
        pos < cap,
    ensures
        ({
            let b2 = b.update(pos as int, x);
            let pos2: nat = if pos + 1 == cap { 0 } else { (pos + 1) as nat };
            let filled2 = filled || pos2 == 0;
            let v = if filled { b.subrange(pos as int, cap as int) + b.subrange(0, pos as int) } else { b.subrange(0, pos as int) };
            let v2 = if filled2 { b2.subrange(pos2 as int, cap as int) + b2.subrange(0, pos2 as int) } else { b2.subrange(0, pos2 as int) };
            v2 =~= keep_last(v.push(x), cap)
        }),
{
    let b2 = b.update(pos as int, x);
    let pos2: nat = if pos + 1 == cap { 0 } else { (pos + 1) as nat };
    let v = if filled { b.subrange(pos as int, cap as int) + b.subrange(0, pos as int) } else { b.subrange(0, pos as int) };
    if filled {
        assert(v.len() == cap);
        let w = v.push(x);
        assert(keep_last(w, cap) =~= w.subrange(1, w.len() as int));
        if pos + 1 == cap {
            assert(b2.subrange(0, cap as int) =~= w.subrange(1, w.len() as int));
        } else {
            assert(b2.subrange(pos2 as int, cap as int) + b2.subrange(0, pos2 as int) =~= w.subrange(1, w.len() as int));
        }
    } else {
        assert(v.push(x) =~= b2.subrange(0, pos + 1 as int));
    }
}

/// What is kept is the end of the sequence: `min(len, n)` elements,
/// the last of them the last element of `s`, each one counted from the end
/// the element of `s` at the same distance from its end.
pub proof fn lemma_keep_last_is_end(s: Seq<i16>, n: nat)
    ensures
        keep_last(s, n).len() == if s.len() < n { s.len() } else { n },
        forall|i: int| 1 <= i <= keep_last(s, n).len()
            ==> #[trigger] keep_last(s, n)[keep_last(s, n).len() - i] == s[s.len() - i],
{
}

/// Keeping the last `n` after each of two appends is keeping the last `n`
/// of both appends at once.
pub proof fn lemma_keep_last_append(s: Seq<i16>, a: Seq<i16>, n: nat)
    ensures
        keep_last(keep_last(s, n) + a, n) =~= keep_last(s + a, n),
{
    let k = keep_last(s, n);
    if s.len() > n {
        let t = k + a;
        let u = s + a;
        assert(t.len() == n + a.len());
        if t.len() <= n {
            assert(a.len() == 0);
            assert(u =~= s);
            assert(t =~= k);
        } else {
            assert forall|i: int| 0 <= i < n implies keep_last(t, n)[i] == keep_last(u, n)[i] by {
                let ti = t.len() - n + i;
                let ui = u.len() - n + i;
                if ti < k.len() {
                    assert(t[ti] == k[ti]);
                    assert(k[ti] == s[s.len() - n + ti]);
                    assert(ui == s.len() - n + ti);
                } else {
                    assert(t[ti] == a[ti - k.len()]);
                    assert(u[ui] == a[ui - s.len()]);
                }
            }
        }
    } else {
        assert(k =~= s);
    }
}

/// A snapshot of `n` samples from a window of `cap` samples is the last
/// `min(n, cap)` samples of everything pushed.
pub proof fn lemma_keep_last_twice(s: Seq<i16>, cap: nat, n: nat)
    ensures
        keep_last(keep_last(s, cap), n) =~= keep_last(s, if n < cap { n } else { cap }),
{
}

impl RingBuffer {
    /// Internal consistency of the buffer.
    pub closed spec fn wf(&self) -> bool {
        &&& self.buffer@.len() == self.capacity
        &&& self.capacity * 2 <= isize::MAX
        &&& (self.capacity == 0 ==> self.write_pos == 0 && !self.filled)
        &&& (self.capacity > 0 ==> self.write_pos < self.capacity)
    }

    /// How many samples the buffer retains at most.
    pub closed spec fn capacity_spec(&self) -> nat {
        self.capacity as nat
    }

    /// Creates an empty buffer that retains up to `capacity_samples` samples.
    pub fn new(capacity_samples: usize) -> (rb: Self)
        requires
            capacity_samples * 2 <= isize::MAX,
        ensures
            rb.wf(),
            rb.capacity_spec() == capacity_samples,
            rb@ == Seq::<i16>::empty(),
    {
        let mut buffer: Vec<i16> = Vec::new();
        let mut i: usize = 0;
        while i < capacity_samples
            invariant
                i <= capacity_samples,
                buffer@.len() == i,
            decreases capacity_samples - i,
        {
            buffer.push(0);
            i = i + 1;
        }
        let rb = RingBuffer { buffer, capacity: capacity_samples, write_pos: 0, filled: false };
        assert(rb@ =~= Seq::<i16>::empty());
        rb
    }

    /// Number of samples the buffer retains at most.
    pub fn capacity(&self) -> (c: usize)
        ensures
            c == self.capacity_spec(),
    {
        self.capacity
    }

    /// The retained samples never outnumber the capacity.
    pub proof fn lemma_len_bounded(&self)
        requires
            self.wf(),
        ensures
            self@.len() <= self.capacity_spec(),
    {
    }

    /// Pushes a chunk of samples; the oldest ones drop out once the buffer
    /// is full.
    pub fn push(&mut self, samples: &[i16])
        requires
            old(self).wf(),
            old(self).capacity_spec() > 0 || samples@.len() == 0,
        ensures
            final(self).wf(),
            final(self).capacity_spec() == old(self).capacity_spec(),
            final(self)@ == keep_last(old(self)@ + samples@, old(self).capacity_spec()),
    {
        let ghost start = self@;
        let ghost cap = self.capacity as nat;
        let mut i: usize = 0;
        assert(start + samples@.subrange(0, 0) =~= start);
        assert(keep_last(start, cap) =~= start);
        while i < samples.len()
            invariant
                self.wf(),
                self.capacity == cap,
                cap > 0 || samples@.len() == 0,
                i <= samples@.len(),
                self@ == keep_last(start + samples@.subrange(0, i as int), cap),
            decreases samples@.len() - i,
        {
            let sample = samples[i];
            let ghost b = self.buffer@;
            let ghost pos = self.write_pos as nat;
            let ghost filled = self.filled;
            proof {
                lemma_write_one(b, cap, pos, filled, sample);
                lemma_keep_last_append(start + samples@.subrange(0, i as int), seq![sample], cap);
                assert(start + samples@.subrange(0, i as int) + seq![sample] =~= start + samples@.subrange(0, i + 1));
                assert(keep_last(start + samples@.subrange(0, i as int), cap).push(sample)
                    =~= keep_last(start + samples@.subrange(0, i as int), cap) + seq![sample]);
            }
            self.buffer.set(self.write_pos, sample);
            proof {
                if pos + 1 < cap {
                    lemma_small_mod((pos + 1) as nat, cap);
                } else {
                    lemma_mod_sub_multiples_vanish(cap as int, cap as int);
                    lemma_small_mod(0, cap);
                }
            }
            self.write_pos = (self.write_pos + 1) % self.capacity;
            if self.write_pos == 0 {
                self.filled = true;
            }
            i = i + 1;
        }
        assert(samples@.subrange(0, samples@.len() as int) =~= samples@);
    }

    /// The most recent `num_samples` samples, oldest first (all retained
    /// samples when fewer are held).
    pub fn snapshot(&self, num_samples: usize) -> (out: Vec<i16>)
        requires
            self.wf(),
        ensures
            out@ == keep_last(self@, num_samples as nat),
    {
        let available = if self.filled { self.capacity } else { self.write_pos };
        let take = if num_samples < available { num_samples } else { available };
        let ghost v = self@;
        let ghost cap = self.capacity as int;
        let ghost wp = self.write_pos as int;
        assert(v.len() == available);
        let mut result: Vec<i16> = Vec::new();
        if take == 0 {
            assert(keep_last(v, num_samples as nat) =~= Seq::<i16>::empty());
            return result;
        }
        if self.filled {
            let start = if self.write_pos >= take {
                self.write_pos - take
            } else {
                self.capacity - (take - self.write_pos)
            };
            let mut i: usize = 0;
            while i < take
                invariant
                    self.wf(),
                    self.filled,
                    v == self@,
                    cap == self.capacity,
                    wp == self.write_pos,
                    v.len() == cap,
                    0 < take <= cap,
                    start == (if wp >= take { wp - take } else { cap - (take - wp) }),
                    i <= take,
                    result@ =~= v.subrange(cap - take, cap - take + i),
                decreases take - i,
            {
                let idx_raw = start + i;
                proof {
                    if idx_raw < cap {
                        lemma_small_mod(idx_raw as nat, cap as nat);
                    } else {
                        lemma_mod_sub_multiples_vanish(idx_raw as int, cap);
                        lemma_small_mod((idx_raw - cap) as nat, cap as nat);
                    }
                    let j = cap - take + i;
                    assert(v[j] == if j < cap - wp { self.buffer@[wp + j] } else { self.buffer@[j - (cap - wp)] });
                }
                result.push(self.buffer[idx_raw % self.capacity]);
                i = i + 1;
            }
        } else {
            let mut i: usize = self.write_pos - take;
            while i < self.write_pos
                invariant
                    self.wf(),
                    !self.filled,
                    v == self@,
                    wp == self.write_pos,
                    v.len() == wp,
                    0 < take <= wp,
                    wp - take <= i <= wp,
                    result@ =~= v.subrange(wp - take, i as int),
                decreases wp - i,
            {
                result.push(self.buffer[i]);
                i = i + 1;
            }
        }
        result
    }
}

} // verus!
