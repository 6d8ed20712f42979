//! The particle buffer: a bounded first-in-first-out queue of short-lived
//! visual effects.

use std::collections::VecDeque;
use vstd::prelude::*;
use crate::vector::Vec2;

verus! {

/// A short-lived visual effect.
#[derive(Clone, Copy, Debug, PartialEq, Eq, Structural)]
pub struct Particle {
    /// Where the effect is drawn, in world space.
    pub position: Vec2,
    /// Its rotation in degrees.
    pub rotation: i32,
    /// Its size, in sub-units of the picture's own size.
    pub scale: u32,
    /// Which colour it is drawn in.
    pub color: u32,
    /// The frames it has left.
    pub lifetime: i32,
}

impl Particle {
    /// The particle one frame older: its lifetime is one less (and stays
    /// where it is at the least value of `i32`), nothing else changes.
    pub open spec fn aged(self) -> Particle {
        Particle {
            position: self.position,
            rotation: self.rotation,
            scale: self.scale,
            color: self.color,
            lifetime: if self.lifetime > i32::MIN {
                (self.lifetime - 1) as i32
            } else {
                self.lifetime
            },
        }
    }

    /// Ages the particle by one frame.
    pub fn age(&mut self)
        ensures
            *final(self) == old(self).aged(),
    {
        if self.lifetime > i32::MIN {
            self.lifetime = self.lifetime - 1;
        }
    }
}

/// The last `n` items of `s`, or all of `s` where it has no more than `n`.
pub open spec fn last_n(s: Seq<Particle>, n: nat) -> Seq<Particle> {
    if s.len() <= n {
        s
    } else {
        s.skip(s.len() - n)
    }
}

/// What a buffer of the given capacity holds after `p` is pushed onto the
/// contents `s`: where the buffer is full its oldest item makes room.
pub open spec fn pushed(s: Seq<Particle>, capacity: nat, p: Particle) -> Seq<Particle> {
    last_n(s.push(p), capacity)
}

/// What a buffer holds one frame later: every particle is aged, then those
/// whose lifetime has come to exactly zero are gone; the rest keep their order.
pub open spec fn ticked(s: Seq<Particle>) -> Seq<Particle> {
    s.map_values(|p: Particle| p.aged()).filter(|p: Particle| p.lifetime != 0)
}

/// A queue of particles that never holds more than its capacity.
pub struct ParticleBuffer {
    items: VecDeque<Particle>,
    capacity: usize,
}

impl View for ParticleBuffer {
    type V = Seq<Particle>;

    /// The particles held, oldest first.
    closed spec fn view(&self) -> Seq<Particle> {
        self.items@
    }
}

impl ParticleBuffer {
    /// The most particles the buffer holds.
    pub closed spec fn limit(&self) -> nat {
        self.capacity as nat
    }

    /// The buffer's invariant: it holds no more than its capacity.
    pub open spec fn wf(&self) -> bool {
        self@.len() <= self.limit()
    }

    /// An empty buffer of the given capacity.
    pub fn new(capacity: usize) -> (buffer: ParticleBuffer)
        ensures
            buffer.wf(),
            buffer@ == Seq::<Particle>::empty(),
            buffer.limit() == capacity,
    {
        ParticleBuffer { items: VecDeque::new(), capacity }
    }

    /// The most particles the buffer holds.
    pub fn capacity(&self) -> (n: usize)
        ensures
            n == self.limit(),
    {
        self.capacity
    }

    /// The number of particles held.
    pub fn len(&self) -> (n: usize)
        ensures
            n == self@.len(),
            self.wf() ==> n <= self.limit(),
    {
        self.items.len()
    }

    /// The particle at place `i`, counted from the oldest.
    pub fn get(&self, i: usize) -> (p: Option<Particle>)
        ensures
            i < self@.len() ==> p == Some(self@[i as int]),
            i >= self@.len() ==> p.is_none(),
    {
        if i < self.items.len() {
            Some(self.items[i])
        } else {
            None
        }
    }

    /// Appends `p`. A full buffer first gives up its oldest particle; a
    /// buffer of capacity zero holds nothing.
    pub fn push(&mut self, p: Particle)
        requires
            old(self).wf(),
        ensures
            final(self).wf(),
            final(self).limit() == old(self).limit(),
            final(self)@ == pushed(old(self)@, old(self).limit(), p),
    {
        if self.capacity == 0 {
            assert(self.items@.push(p).skip(1) =~= self.items@);
            return;
        }
        if self.items.len() == self.capacity {
            let _ = self.items.pop_front();
        }
        self.items.push_back(p);
        assert(self.items@ =~= pushed(old(self).items@, old(self).capacity as nat, p));
    }

    /// Advances every particle by one frame and drops those that have expired.
    pub fn tick(&mut self)
        requires
            old(self).wf(),
        ensures
            final(self).wf(),
            final(self).limit() == old(self).limit(),
            final(self)@ == ticked(old(self)@),
    {
        let ghost before = self.items@;
        let n: usize = self.items.len();
        let mut done: usize = 0;
        proof {
            assert(before.take(0) =~= Seq::<Particle>::empty());
            lemma_ticked_empty();
            assert(before.skip(0) + ticked(before.take(0)) =~= before);
        }
        while done < n
            invariant
                done <= n,
                n == before.len(),
                before == old(self).items@,
                self.capacity == old(self).capacity,
                n <= self.capacity,
                self.items@ == before.skip(done as int) + ticked(before.take(done as int)),
            decreases n - done,
        {
            proof {
                lemma_ticked_len(before.take(done as int));
            }
            let front: Option<Particle> = self.items.pop_front();
            if let Some(oldest) = front {
                let mut p: Particle = oldest;
                p.age();
                proof {
                    let seen = before.take(done as int);
                    assert(oldest == before[done as int]);
                    assert(before.take(done as int + 1) =~= seen.push(oldest));
                    lemma_ticked_push(seen, oldest);
                    if p.lifetime != 0 {
                        assert((before.skip(done as int) + ticked(seen)).subrange(
                            1,
                            (before.skip(done as int) + ticked(seen)).len() as int,
                        ).push(p) =~= before.skip(done as int + 1) + ticked(seen.push(oldest)));
                    } else {
                        assert((before.skip(done as int) + ticked(seen)).subrange(
                            1,
                            (before.skip(done as int) + ticked(seen)).len() as int,
                        ) =~= before.skip(done as int + 1) + ticked(seen.push(oldest)));
                    }
                }
                if p.lifetime != 0 {
                    self.items.push_back(p);
                }
            }
            done = done + 1;
        }
        proof {
            assert(before.take(n as int) =~= before);
            assert(before.skip(n as int) + ticked(before) =~= ticked(before));
            lemma_ticked_len(before);
        }
    }
}

/// An empty buffer stays empty.
pub proof fn lemma_ticked_empty()
    ensures
        ticked(Seq::<Particle>::empty()) == Seq::<Particle>::empty(),
{
    reveal(Seq::filter);
    let aged = Seq::<Particle>::empty().map_values(|p: Particle| p.aged());
    assert(aged =~= Seq::<Particle>::empty());
}

/// A frame never adds a particle.
pub proof fn lemma_ticked_len(s: Seq<Particle>)
    ensures
        ticked(s).len() <= s.len(),
{
    s.map_values(|p: Particle| p.aged()).lemma_filter_len(|p: Particle| p.lifetime != 0);
}

/// A frame treats the youngest particle by itself: it is aged and stays
/// behind the others unless its lifetime has come to zero.
pub proof fn lemma_ticked_push(s: Seq<Particle>, p: Particle)
    ensures
        ticked(s.push(p)) == if p.aged().lifetime != 0 {
            ticked(s).push(p.aged())
        } else {
            ticked(s)
        },
{
    let age = |q: Particle| q.aged();
    let alive = |q: Particle| q.lifetime != 0;
    assert(s.push(p).map_values(age) =~= s.map_values(age).push(p.aged()));
    s.map_values(age).lemma_filter_push(p.aged(), alive);
}

/// What a buffer of the given capacity holds after the particles of
/// `items` are pushed in turn onto the contents `s`.
pub open spec fn pushed_all(s: Seq<Particle>, capacity: nat, items: Seq<Particle>) -> Seq<
    Particle,
>
    decreases items.len(),
{
    if items.len() == 0 {
        s
    } else {
        pushed(pushed_all(s, capacity, items.drop_last()), capacity, items.last())
    }
}

/// Pushing onto the last `capacity` items of a sequence gives the last
/// `capacity` items of the longer sequence.
proof fn lemma_last_n_push(t: Seq<Particle>, capacity: nat, p: Particle)
    ensures
        last_n(last_n(t, capacity).push(p), capacity) == last_n(t.push(p), capacity),
{
    assert(last_n(last_n(t, capacity).push(p), capacity) =~= last_n(t.push(p), capacity));
}

/// However many particles are pushed, the buffer then holds the last
/// `capacity` of what it held and what was pushed, in the order of
/// insertion. Pushing `capacity + 1` particles into an empty buffer leaves
/// exactly the last `capacity` of them.
pub proof fn lemma_pushes_keep_the_last(s: Seq<Particle>, capacity: nat, items: Seq<Particle>)
    requires
        s.len() <= capacity,
    ensures
        pushed_all(s, capacity, items) == last_n(s + items, capacity),
        pushed_all(s, capacity, items).len() <= capacity,
        s.len() + items.len() >= capacity ==> pushed_all(s, capacity, items).len() == capacity,
    decreases items.len(),
{
    if items.len() == 0 {
        assert(s + items =~= s);
    } else {
        let init = items.drop_last();
        lemma_pushes_keep_the_last(s, capacity, init);
        lemma_last_n_push(s + init, capacity, items.last());
        assert((s + init).push(items.last()) =~= s + items);
    }
}

/// What a buffer holds `k` frames later.
pub open spec fn ticked_n(s: Seq<Particle>, k: nat) -> Seq<Particle>
    decreases k,
{
    if k == 0 {
        s
    } else {
        ticked(ticked_n(s, (k - 1) as nat))
    }
}

/// Whether a particle is still there after `k` frames: its lifetime does
/// not pass through zero in that time.
pub open spec fn outlives(p: Particle, k: nat) -> bool {
    p.lifetime <= 0 || p.lifetime > k
}

/// The particle `k` frames older.
pub open spec fn aged_by(p: Particle, k: nat) -> Particle {
    Particle {
        position: p.position,
        rotation: p.rotation,
        scale: p.scale,
        color: p.color,
        lifetime: if p.lifetime - k >= i32::MIN {
            (p.lifetime - k) as i32
        } else {
            i32::MIN
        },
    }
}

/// The particles of `s` that outlive `k` frames, each `k` frames older.
pub open spec fn after_frames(s: Seq<Particle>, k: nat) -> Seq<Particle> {
    s.filter(|p: Particle| outlives(p, k)).map_values(|p: Particle| aged_by(p, k))
}

/// The particles left after `k` frames, with one more particle at the end.
proof fn lemma_after_frames_push(s: Seq<Particle>, p: Particle, k: nat)
    ensures
        after_frames(s.push(p), k) == if outlives(p, k) {
            after_frames(s, k).push(aged_by(p, k))
        } else {
            after_frames(s, k)
        },
{
    let stays = |q: Particle| outlives(q, k);
    let older = |q: Particle| aged_by(q, k);
    s.lemma_filter_push(p, stays);
    if outlives(p, k) {
        assert(s.filter(stays).push(p).map_values(older) =~= s.filter(stays).map_values(
            older,
        ).push(aged_by(p, k)));
    }
}

/// One more frame takes what is left after `k` frames to what is left after `k + 1`.
proof fn lemma_after_frames_step(s: Seq<Particle>, k: nat)
    ensures
        ticked(after_frames(s, k)) == after_frames(s, k + 1),
    decreases s.len(),
{
    if s.len() == 0 {
        reveal(Seq::filter);
        lemma_ticked_empty();
        assert(after_frames(s, k) =~= Seq::<Particle>::empty());
        assert(after_frames(s, k + 1) =~= Seq::<Particle>::empty());
    } else {
        let init = s.drop_last();
        let p = s.last();
        assert(s =~= init.push(p));
        lemma_after_frames_step(init, k);
        lemma_after_frames_push(init, p, k);
        lemma_after_frames_push(init, p, k + 1);
        if outlives(p, k) {
            lemma_ticked_push(after_frames(init, k), aged_by(p, k));
            assert(aged_by(p, k).aged() == aged_by(p, k + 1));
        }
    }
}

/// After `k` frames a buffer holds exactly those of its particles whose
/// lifetime did not reach zero on the way, each `k` frames older and all in
/// their order.
pub proof fn lemma_ticked_n(s: Seq<Particle>, k: nat)
    ensures
        ticked_n(s, k) == after_frames(s, k),
    decreases k,
{
    if k == 0 {
        assert forall|i: int| 0 <= i < s.len() implies outlives(s[i], 0) by {}
        lemma_after_zero_frames(s);
    } else {
        lemma_ticked_n(s, (k - 1) as nat);
        lemma_after_frames_step(s, (k - 1) as nat);
    }
}

/// After no frame a buffer holds what it held.
proof fn lemma_after_zero_frames(s: Seq<Particle>)
    ensures
        after_frames(s, 0) == s,
    decreases s.len(),
{
    if s.len() == 0 {
        reveal(Seq::filter);
        assert(after_frames(s, 0) =~= s);
    } else {
        let init = s.drop_last();
        let p = s.last();
        assert(s =~= init.push(p));
        lemma_after_zero_frames(init);
        lemma_after_frames_push(init, p, 0);
        assert(aged_by(p, 0) == p);
    }
}

/// A particle with the lifetime `L > 0`, alone in a buffer, is there with
/// the lifetime `L - k` after `k < L` frames, and gone after `L` frames and
/// from then on.
pub proof fn lemma_particle_lifetime(p: Particle, k: nat)
    requires
        p.lifetime > 0,
    ensures
        k < p.lifetime ==> ticked_n(seq![p], k) == seq![
            Particle {
                position: p.position,
                rotation: p.rotation,
                scale: p.scale,
                color: p.color,
                lifetime: (p.lifetime - k) as i32,
            },
        ],
        k >= p.lifetime ==> ticked_n(seq![p], k) == Seq::<Particle>::empty(),
{
    lemma_ticked_n(seq![p], k);
    let none = Seq::<Particle>::empty();
    assert(seq![p] =~= none.push(p));
    lemma_after_frames_push(none, p, k);
    reveal(Seq::filter);
    assert(after_frames(none, k) =~= none);
    if k < p.lifetime {
        assert(none.push(aged_by(p, k)) =~= seq![aged_by(p, k)]);
    }
}

} // verus!
