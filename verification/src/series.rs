//! Time series channels and the windowed reads served from them.
//!
//! A channel is an append-only sequence of samples, oldest first. A read
//! names a signed number of points: a non-negative number skips that many
//! of the oldest samples, a negative number keeps that many of the newest.

use vstd::prelude::*;

verus! {

/// One sample of a channel: the time it was taken and its value, both as
/// single-precision words.
pub type Sample = (u32, u32);

/// What a read of `points` samples returns from the channel `s`.
///
/// Counting from the old end (`newest == false`) the first `points` samples
/// are skipped, and nothing is left when the channel is shorter than that.
/// Counting from the new end the last `points` samples are kept, which is
/// the whole channel when it is shorter than that.
pub open spec fn window<T>(s: Seq<T>, points: nat, newest: bool) -> Seq<T> {
    if points > s.len() {
        if newest {
            s
        } else {
            Seq::empty()
        }
    } else if newest {
        s.skip(s.len() - points)
    } else {
        s.skip(points as int)
    }
}

/// What a read with a signed number of points returns: the sign chooses
/// the end to count from and the magnitude is the number of points.
pub open spec fn signed_window<T>(s: Seq<T>, points: int) -> Seq<T> {
    if points < 0 {
        window(s, (-points) as nat, true)
    } else {
        window(s, points as nat, false)
    }
}

/// Copies out the part of `data` that a read of `points` samples asks for.
pub fn compile_vec<T: Copy>(data: &Vec<T>, points: usize, is_neg: bool) -> (res: Vec<T>)
    ensures
        res@ == window(data@, points as nat, is_neg),
{
    if points > data.len() && !is_neg {
        return Vec::new();
    }
    let index: usize = if is_neg {
        if points > data.len() {
            0
        } else {
            data.len() - points
        }
    } else {
        points
    };

    let mut res: Vec<T> = Vec::new();
    let mut i: usize = index;
    while i < data.len()
        invariant
            index <= i <= data.len(),
            res@ == data@.subrange(index as int, i as int),
        decreases data.len() - i,
    {
        res.push(data[i]);
        i += 1;
    }
    assert(data@.subrange(index as int, data.len() as int) == data@.skip(index as int));
    res
}

/// Serves a read with a signed number of points from `data`.
pub fn read_window<T: Copy>(data: &Vec<T>, points: i32) -> (res: Vec<T>)
    ensures
        res@ == signed_window(data@, points as int),
{
    let is_neg: bool = points < 0;
    let wide: i64 = points as i64;
    let magnitude: i64 = if is_neg { -wide } else { wide };
    compile_vec(data, magnitude as usize, is_neg)
}

/// The cases of a windowed read on a channel of length `L`: zero points
/// give the whole channel; `k` points skip the `k` oldest samples and give
/// nothing once `k` exceeds `L`; minus `k` points give the `k` newest
/// samples and the whole channel once `k` exceeds `L`.
pub proof fn lemma_window_cases<T>(s: Seq<T>, k: nat)
    ensures
        signed_window(s, 0) == s,
        k > s.len() ==> signed_window(s, k as int) == Seq::<T>::empty(),
        k > s.len() ==> signed_window(s, -(k as int)) == s,
        k <= s.len() ==> signed_window(s, k as int) == s.subrange(k as int, s.len() as int),
        0 < k <= s.len() ==> signed_window(s, -(k as int)) == s.subrange(
            s.len() - k,
            s.len() as int,
        ),
{
    assert(s.skip(0) == s);
}

/// A windowed read never returns more than the channel holds, and what it
/// returns is always the newest end of the channel.
pub proof fn lemma_window_is_suffix<T>(s: Seq<T>, points: int)
    ensures
        signed_window(s, points).len() <= s.len(),
        signed_window(s, points) == s.skip(s.len() - signed_window(s, points).len()),
{
    let r = signed_window(s, points);
    assert(r == s.skip(s.len() - r.len()));
}

} // verus!
