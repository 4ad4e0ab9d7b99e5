//! The seven-bag randomizer: every run of seven draws that starts at a refill
//! holds each kind exactly once.

use vstd::prelude::*;
use rand::Rng;
use crate::TetrominoType;

verus! {

/// All seven kinds, in the order in which a fresh bag holds them.
pub open spec fn all_kinds() -> Seq<TetrominoType> {
    seq![
        TetrominoType::I,
        TetrominoType::O,
        TetrominoType::T,
        TetrominoType::J,
        TetrominoType::L,
        TetrominoType::S,
        TetrominoType::Z,
    ]
}

/// What a bag may hold between draws: at least one kind, none twice.
pub open spec fn bag_wf(s: Seq<TetrominoType>) -> bool {
    &&& 1 <= s.len() <= 7
    &&& s.no_duplicates()
}

/// The contents after a draw has left `s`: an emptied bag is refilled at once.
pub open spec fn refilled(s: Seq<TetrominoType>) -> Seq<TetrominoType> {
    if s.len() == 0 {
        all_kinds()
    } else {
        s
    }
}

/// The effect of taking the kind at `index` out of a bag holding `before`.
pub open spec fn take_at(before: Seq<TetrominoType>, index: int) -> Seq<TetrominoType> {
    refilled(before.remove(index))
}

/// One draw: `drawn` was taken out of a bag holding `before`, which then
/// holds `after`.
pub open spec fn draw_step(
    before: Seq<TetrominoType>,
    drawn: TetrominoType,
    after: Seq<TetrominoType>,
) -> bool {
    exists|i: int| 0 <= i < before.len() && before[i] == drawn && after == take_at(before, i)
}

/// Taking an element out of a sequence without duplicates leaves none.
pub proof fn lemma_remove_no_duplicates(s: Seq<TetrominoType>, i: int)
    requires
        s.no_duplicates(),
        0 <= i < s.len(),
    ensures
        s.remove(i).no_duplicates(),
        forall|j: int| 0 <= j < s.remove(i).len() ==> s.remove(i)[j] != s[i],
{
    let r = s.remove(i);
    assert forall|a: int, b: int| 0 <= a < r.len() && 0 <= b < r.len() && a != b implies r[a]
        != r[b] by {
        let sa = if a < i { a } else { a + 1 };
        let sb = if b < i { b } else { b + 1 };
        assert(r[a] == s[sa]);
        assert(r[b] == s[sb]);
    }
    assert forall|j: int| 0 <= j < r.len() implies r[j] != s[i] by {
        let sj = if j < i { j } else { j + 1 };
        assert(r[j] == s[sj]);
    }
}

/// A fresh bag holds every kind once.
pub proof fn lemma_all_kinds_wf()
    ensures
        bag_wf(all_kinds()),
        all_kinds().len() == 7,
{
    let s = all_kinds();
    assert forall|a: int, b: int| 0 <= a < s.len() && 0 <= b < s.len() && a != b implies s[a]
        != s[b] by {}
}

/// Every kind is among the seven kinds of a fresh bag.
pub proof fn lemma_all_kinds_contains(t: TetrominoType)
    ensures
        all_kinds().contains(t),
{
    let s = all_kinds();
    match t {
        TetrominoType::I => assert(s[0] == t),
        TetrominoType::O => assert(s[1] == t),
        TetrominoType::T => assert(s[2] == t),
        TetrominoType::J => assert(s[3] == t),
        TetrominoType::L => assert(s[4] == t),
        TetrominoType::S => assert(s[5] == t),
        TetrominoType::Z => assert(s[6] == t),
    }
}

/// After an element is taken out of a sequence without duplicates, the rest
/// holds exactly the other elements.
pub proof fn lemma_remove_contains(s: Seq<TetrominoType>, i: int, t: TetrominoType)
    requires
        s.no_duplicates(),
        0 <= i < s.len(),
    ensures
        s.remove(i).contains(t) <==> (s.contains(t) && t != s[i]),
{
    let r = s.remove(i);
    lemma_remove_no_duplicates(s, i);
    if r.contains(t) {
        let j = choose|j: int| 0 <= j < r.len() && r[j] == t;
        let sj = if j < i { j } else { j + 1 };
        assert(s[sj] == t);
    }
    if s.contains(t) && t != s[i] {
        let j = choose|j: int| 0 <= j < s.len() && s[j] == t;
        let rj = if j < i { j } else { j - 1 };
        assert(r[rj] == t);
    }
}

/// The draws of one set of seven, `j` draws after a refill at `b`: the bag
/// holds exactly the kinds not yet drawn.
pub proof fn lemma_cycle_prefix(
    states: Seq<Seq<TetrominoType>>,
    draws: Seq<TetrominoType>,
    b: int,
    j: int,
)
    requires
        states.len() == draws.len() + 1,
        0 <= b,
        b + j <= draws.len(),
        0 <= j <= 6,
        states[b] == all_kinds(),
        forall|k: int| 0 <= k < draws.len() ==> draw_step(states[k], draws[k], #[trigger] states[k + 1]),
    ensures
        states[b + j].len() == 7 - j,
        states[b + j].no_duplicates(),
        draws.subrange(b, b + j).no_duplicates(),
        forall|t: TetrominoType| #[trigger] states[b + j].contains(t) <==> !draws.subrange(b, b + j).contains(t),
    decreases j,
{
    if j == 0 {
        lemma_all_kinds_wf();
        assert forall|t: TetrominoType| #[trigger] states[b].contains(t) <==> !draws.subrange(b, b).contains(t) by {
            lemma_all_kinds_contains(t);
        }
    } else {
        lemma_cycle_prefix(states, draws, b, j - 1);
        let before = states[b + j - 1];
        let d = draws[b + j - 1];
        let after = states[b + j];
        assert(draw_step(before, d, states[(b + j - 1) + 1]));
        let i = choose|i: int| 0 <= i < before.len() && before[i] == d && after == take_at(before, i);
        assert(after == before.remove(i));
        lemma_remove_no_duplicates(before, i);
        let old_prefix = draws.subrange(b, b + j - 1);
        let prefix = draws.subrange(b, b + j);
        assert(prefix == old_prefix.push(d));
        assert(before.contains(d));
        assert(!old_prefix.contains(d));
        assert forall|t: TetrominoType| #[trigger] after.contains(t) <==> !prefix.contains(t) by {
            lemma_remove_contains(before, i, t);
            assert(prefix.contains(t) <==> (old_prefix.contains(t) || t == d)) by {
                if prefix.contains(t) {
                    let x = choose|x: int| 0 <= x < prefix.len() && prefix[x] == t;
                    if x < old_prefix.len() {
                        assert(old_prefix[x] == t);
                    }
                }
                if old_prefix.contains(t) {
                    let x = choose|x: int| 0 <= x < old_prefix.len() && old_prefix[x] == t;
                    assert(prefix[x] == t);
                }
                if t == d {
                    assert(prefix[j - 1] == t);
                }
            }
        }
        assert forall|x: int, y: int| 0 <= x < prefix.len() && 0 <= y < prefix.len() && x != y implies prefix[x]
            != prefix[y] by {
            if x == j - 1 {
                assert(old_prefix.contains(prefix[y]) || y == j - 1);
                if y != j - 1 {
                    assert(old_prefix[y] == prefix[y]);
                }
            } else if y == j - 1 {
                assert(old_prefix[x] == prefix[x]);
            } else {
                assert(old_prefix[x] == prefix[x]);
                assert(old_prefix[y] == prefix[y]);
            }
        }
    }
}

/// One full set of seven draws from a refill at `b`: it holds every kind
/// once, and the bag is full again after it.
proof fn lemma_one_cycle(states: Seq<Seq<TetrominoType>>, draws: Seq<TetrominoType>, b: int)
    requires
        states.len() == draws.len() + 1,
        0 <= b,
        b + 7 <= draws.len(),
        states[b] == all_kinds(),
        forall|k: int| 0 <= k < draws.len() ==> draw_step(states[k], draws[k], #[trigger] states[k + 1]),
    ensures
        states[b + 7] == all_kinds(),
        draws.subrange(b, b + 7).no_duplicates(),
        forall|t: TetrominoType| #[trigger] draws.subrange(b, b + 7).contains(t),
{
    lemma_cycle_prefix(states, draws, b, 6);
    let before = states[b + 6];
    let d = draws[b + 6];
    assert(draw_step(before, d, states[(b + 6) + 1]));
    let i = choose|i: int| 0 <= i < before.len() && before[i] == d && states[b + 7] == take_at(before, i);
    assert(i == 0);
    assert(before.remove(i).len() == 0);
    let old_prefix = draws.subrange(b, b + 6);
    let chunk = draws.subrange(b, b + 7);
    assert(chunk == old_prefix.push(d));
    assert(before.contains(d));
    assert forall|t: TetrominoType| #[trigger] chunk.contains(t) by {
        if t == d {
            assert(chunk[6] == t);
        } else {
            if !old_prefix.contains(t) {
                assert(before.contains(t));
                let x = choose|x: int| 0 <= x < before.len() && before[x] == t;
                assert(x == 0);
            }
            let x = choose|x: int| 0 <= x < old_prefix.len() && old_prefix[x] == t;
            assert(chunk[x] == t);
        }
    }
    assert forall|x: int, y: int| 0 <= x < chunk.len() && 0 <= y < chunk.len() && x != y implies chunk[x]
        != chunk[y] by {
        if x == 6 {
            assert(old_prefix[y] == chunk[y]);
        } else if y == 6 {
            assert(old_prefix[x] == chunk[x]);
        } else {
            assert(old_prefix[x] == chunk[x]);
            assert(old_prefix[y] == chunk[y]);
        }
    }
}

/// Bag fairness: in any run of draws that starts from a full bag, each
/// consecutive set of seven draws holds every kind exactly once.
///
/// `states[k]` is what the bag holds before draw `k`, and `draws[k]` is what
/// that draw returned, as `Bag::draw` describes each step.
pub proof fn lemma_bag_fairness(states: Seq<Seq<TetrominoType>>, draws: Seq<TetrominoType>, n: int)
    requires
        states.len() == draws.len() + 1,
        states[0] == all_kinds(),
        forall|k: int| 0 <= k < draws.len() ==> draw_step(states[k], draws[k], #[trigger] states[k + 1]),
        0 <= n,
        7 * n <= draws.len(),
    ensures
        states[7 * n] == all_kinds(),
        forall|c: int| 0 <= c < n ==> (#[trigger] draws.subrange(7 * c, 7 * c + 7)).no_duplicates(),
        forall|c: int, t: TetrominoType| 0 <= c < n ==> #[trigger] draws.subrange(7 * c, 7 * c + 7).contains(t),
    decreases n,
{
    if n > 0 {
        lemma_bag_fairness(states, draws, n - 1);
        lemma_one_cycle(states, draws, 7 * (n - 1));
        assert(7 * (n - 1) + 7 == 7 * n);
    }
}

/// An object that randomly gives `TetrominoType`s in such an order that every
/// 7 values returned contains one of each variant.
#[derive(Debug)]
pub struct Bag {
    /// The kinds not yet returned in the current set of 7.
    remaining: Vec<TetrominoType>,
}

impl View for Bag {
    type V = Seq<TetrominoType>;

    closed spec fn view(&self) -> Seq<TetrominoType> {
        self.remaining@
    }
}

/// Relies on rand's `thread_rng().gen_range(low, high)`: a value in
/// `[low, high)`; it panics when `low >= high`, which `requires` rules out.
#[verifier::external_body]
fn random_index(len: usize) -> (r: usize)
    requires
        len > 0,
    ensures
        r < len,
{
    rand::thread_rng().gen_range(0, len)
}

fn all_kinds_vec() -> (v: Vec<TetrominoType>)
    ensures
        v@ == all_kinds(),
{
    vec![
        TetrominoType::I,
        TetrominoType::O,
        TetrominoType::T,
        TetrominoType::J,
        TetrominoType::L,
        TetrominoType::S,
        TetrominoType::Z,
    ]
}

impl Bag {
    /// The bag holds at least one kind and none twice.
    pub open spec fn wf(&self) -> bool {
        bag_wf(self@)
    }

    /// Creates a new `Bag` in its initial state.
    pub fn new() -> (b: Self)
        ensures
            b@ == all_kinds(),
            b.wf(),
    {
        proof {
            lemma_all_kinds_wf();
        }
        Bag { remaining: all_kinds_vec() }
    }

    /// Takes out the kind at position `index` of the remaining kinds, and
    /// refills the bag if that emptied it.
    pub fn draw_at(&mut self, index: usize) -> (r: TetrominoType)
        requires
            old(self).wf(),
            index < old(self)@.len(),
        ensures
            r == old(self)@[index as int],
            final(self)@ == take_at(old(self)@, index as int),
            final(self).wf(),
    {
        let ghost before = self@;
        let r = self.remaining.remove(index);
        proof {
            lemma_remove_no_duplicates(before, index as int);
        }
        if self.remaining.len() == 0 {
            self.remaining = all_kinds_vec();
            proof {
                lemma_all_kinds_wf();
            }
        }
        r
    }

    /// Returns the next `TetrominoType`, chosen at random among those not yet
    /// returned in the current set of 7.
    pub fn draw(&mut self) -> (r: TetrominoType)
        requires
            old(self).wf(),
        ensures
            draw_step(old(self)@, r, final(self)@),
            final(self).wf(),
    {
        let index = random_index(self.remaining.len());
        self.draw_at(index)
    }
}

} // verus!
