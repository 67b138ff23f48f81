//! The example plugin: a loader whose factories build workers that
//! accumulate an incremental mean and population variance, over exact
//! integer arithmetic, and render both to at most two decimal places.

use std::rc::Rc;
use vstd::prelude::*;
use vstd::string::StringExecFns;
use crate::decimal::{centi_chars, centi_string, trunc_div};
use crate::interfaces::{DataBuffer, PluginFactory, PluginLoader, PluginRegistrar, PluginWorker};
use crate::registry::clone_handle;

verus! {

/// The largest input magnitude a worker accepts.
pub const MAX_INPUT: i64 = 1_000_000;

/// The largest number of inputs a worker accepts.
pub const MAX_COUNT: u64 = 1_000_000_000;

/// The sum of a sequence of integers.
pub open spec fn seq_sum(s: Seq<int>) -> int
    decreases s.len(),
{
    if s.len() == 0 {
        0
    } else {
        seq_sum(s.drop_last()) + s.last()
    }
}

/// The sum of the squares of a sequence of integers.
pub open spec fn seq_sum_sq(s: Seq<int>) -> int
    decreases s.len(),
{
    if s.len() == 0 {
        0
    } else {
        seq_sum_sq(s.drop_last()) + s.last() * s.last()
    }
}

/// Bounded elements give bounded sums: the sum lies within `len * b` of
/// zero, and the sum of squares within `0 .. len * b * b`.
pub proof fn lemma_sum_bounds(s: Seq<int>, b: int)
    requires
        b >= 0,
        forall|i: int| 0 <= i < s.len() ==> -b <= #[trigger] s[i] <= b,
    ensures
        -(s.len() * b) <= seq_sum(s) <= s.len() * b,
        0 <= seq_sum_sq(s) <= s.len() * b * b,
    decreases s.len(),
{
    if s.len() > 0 {
        let t = s.drop_last();
        let x = s.last();
        assert(forall|i: int| 0 <= i < t.len() ==> -b <= #[trigger] t[i] <= b);
        lemma_sum_bounds(t, b);
        assert((s.len() - 1) * b + b == s.len() * b) by (nonlinear_arith);
        assert(0 <= x * x <= b * b) by (nonlinear_arith)
            requires
                -b <= x <= b,
                b >= 0,
        ;
        assert((s.len() - 1) * b * b + b * b == s.len() * b * b) by (nonlinear_arith);
    }
}

/// For any sequence and any value, the sum of the squared distances to
/// that value is nonnegative.
proof fn lemma_square_distance(s: Seq<int>, x: int)
    ensures
        seq_sum_sq(s) - 2 * x * seq_sum(s) + s.len() * x * x >= 0,
    decreases s.len(),
{
    if s.len() == 0 {
    } else {
        let t = s.drop_last();
        let q = s.last();
        lemma_square_distance(t, x);
        assert(seq_sum_sq(s) - 2 * x * seq_sum(s) + s.len() * x * x >= 0) by (nonlinear_arith)
            requires
                seq_sum_sq(t) - 2 * x * seq_sum(t) + t.len() * x * x >= 0,
                seq_sum_sq(s) == seq_sum_sq(t) + q * q,
                seq_sum(s) == seq_sum(t) + q,
                s.len() == t.len() + 1,
        ;
    }
}

/// The count times the sum of squares is at least the square of the sum;
/// equivalently, the population variance is never negative.
pub proof fn lemma_sum_sq_cauchy(s: Seq<int>)
    ensures
        s.len() * seq_sum_sq(s) >= seq_sum(s) * seq_sum(s),
    decreases s.len(),
{
    if s.len() == 0 {
    } else {
        let t = s.drop_last();
        let x = s.last();
        lemma_sum_sq_cauchy(t);
        lemma_square_distance(t, x);
        assert(s.len() * seq_sum_sq(s) >= seq_sum(s) * seq_sum(s)) by (nonlinear_arith)
            requires
                t.len() * seq_sum_sq(t) >= seq_sum(t) * seq_sum(t),
                seq_sum_sq(t) - 2 * x * seq_sum(t) + t.len() * x * x >= 0,
                seq_sum_sq(s) == seq_sum_sq(t) + x * x,
                seq_sum(s) == seq_sum(t) + x,
                s.len() == t.len() + 1,
        ;
    }
}

/// Removing one element takes exactly its contribution out of both sums.
proof fn lemma_sum_remove(s: Seq<int>, i: int)
    requires
        0 <= i < s.len(),
    ensures
        seq_sum(s) == seq_sum(s.remove(i)) + s[i],
        seq_sum_sq(s) == seq_sum_sq(s.remove(i)) + s[i] * s[i],
    decreases s.len(),
{
    if i == s.len() - 1 {
        assert(s.remove(i) =~= s.drop_last());
    } else {
        lemma_sum_remove(s.drop_last(), i);
        assert(s.remove(i).drop_last() =~= s.drop_last().remove(i));
        assert(s.remove(i).last() == s.last());
    }
}

/// Both sums are invariant under reordering: two sequences holding the
/// same values the same number of times have equal sums and equal sums of
/// squares.
pub proof fn lemma_sum_permutation(s: Seq<int>, t: Seq<int>)
    requires
        s.to_multiset() == t.to_multiset(),
    ensures
        seq_sum(s) == seq_sum(t),
        seq_sum_sq(s) == seq_sum_sq(t),
        s.len() == t.len(),
    decreases s.len(),
{
    broadcast use vstd::seq_lib::group_to_multiset_ensures;

    if s.len() == 0 {
        assert(s.to_multiset().len() == s.len());
        assert(t.to_multiset().len() == t.len());
    } else {
        let x = s.last();
        assert(s[s.len() - 1] == x);
        assert(s.contains(x));
        assert(t.to_multiset().count(x) > 0);
        assert(t.contains(x));
        let i = choose|i: int| 0 <= i < t.len() && t[i] == x;
        lemma_sum_remove(t, i);
        assert(s.remove(s.len() - 1) =~= s.drop_last());
        assert(s.drop_last().to_multiset() =~= s.to_multiset().remove(x));
        assert(t.remove(i).to_multiset() =~= t.to_multiset().remove(x));
        lemma_sum_permutation(s.drop_last(), t.remove(i));
    }
}

/// The mean of the inputs, scaled by one hundred and truncated toward
/// zero; meaningful only for a nonempty sequence.
pub open spec fn mean_centi(s: Seq<int>) -> int {
    trunc_div(100 * seq_sum(s), s.len() as int)
}

/// The population variance of the inputs, scaled by one hundred and
/// truncated; meaningful only for a nonempty sequence.
pub open spec fn var_centi(s: Seq<int>) -> int {
    (100 * ((s.len() as int) * seq_sum_sq(s) - seq_sum(s) * seq_sum(s))) / ((s.len() as int) * (
    s.len() as int))
}

/// A rendered "(a, b)" pair of values scaled by one hundred.
pub open spec fn pair_chars(a: int, b: int) -> Seq<char> {
    seq!['('] + centi_chars(a) + seq![',', ' '] + centi_chars(b) + seq![')']
}

/// What a worker reports after a sequence of inputs: its mean and its
/// population variance, each to at most two decimal places; both read as
/// zero before the first input.
pub open spec fn stats_rendering(s: Seq<int>) -> Seq<char> {
    if s.len() == 0 {
        pair_chars(0, 0)
    } else {
        pair_chars(mean_centi(s), var_centi(s))
    }
}

/// The state a factory shares with its workers: the input bytes the
/// factory was constructed over.
struct Core<'a> {
    #[allow(dead_code)]
    data: &'a [u8],
}

/// The example module's loader.
pub struct Loader {}

/// A factory bound to one slice of input bytes, shared with its workers.
pub struct Factory<'a> {
    core: Rc<Core<'a>>,
}

/// A worker accumulating an incremental mean and population variance over
/// exact integer arithmetic.
pub struct Worker<'a> {
    core: Rc<Core<'a>>,
    n: u64,
    sum: i128,
    sum_sq: i128,
    history: Ghost<Seq<int>>,
}

impl<'a> Factory<'a> {
    /// The bytes this factory was constructed over.
    pub closed spec fn bytes_spec(&self) -> Seq<u8> {
        (*self.core).data@
    }
}

impl<'a> Worker<'a> {
    /// The inputs accepted so far, in the order they were fed.
    pub closed spec fn inputs(&self) -> Seq<int> {
        self.history@
    }

    /// Whether this worker holds the backing state of factory `f`.
    pub closed spec fn backed_by(&self, f: &Factory<'a>) -> bool {
        self.core == f.core
    }

    /// Whether two workers hold the same backing state.
    pub closed spec fn shares_core(&self, other: &Worker<'a>) -> bool {
        self.core == other.core
    }

    /// Consistency: the accumulated count, sum and sum of squares are
    /// exactly those of the recorded inputs, and every input was within
    /// bounds.
    pub closed spec fn valid(&self) -> bool {
        &&& self.history@.len() == self.n as int
        &&& self.n <= MAX_COUNT
        &&& forall|i: int|
            0 <= i < self.history@.len() ==> -(MAX_INPUT as int) <= #[trigger] self.history@[i]
                <= MAX_INPUT as int
        &&& self.sum == seq_sum(self.history@)
        &&& self.sum_sq == seq_sum_sq(self.history@)
    }
}

impl<'a> PluginLoader<'a> for Loader {
    type F = Factory<'a>;

    open spec fn loaded(&self, bytes: Seq<u8>, f: Factory<'a>) -> bool {
        f.bytes_spec() == bytes
    }

    fn load_factory_from_bytes(&self, bytes: &'a [u8]) -> (f: Factory<'a>) {
        Factory { core: Rc::new(Core { data: bytes }) }
    }
}

impl<'a> PluginFactory<'a> for Factory<'a> {
    type W = Worker<'a>;

    open spec fn fresh(&self, w: Worker<'a>) -> bool {
        w.inputs() == Seq::<int>::empty() && w.backed_by(self)
    }

    fn new_worker(&self) -> (w: Worker<'a>) {
        let w = Worker {
            core: clone_handle(&self.core),
            n: 0,
            sum: 0,
            sum_sq: 0,
            history: Ghost(Seq::empty()),
        };
        proof {
            assert(w.inputs() =~= Seq::<int>::empty());
        }
        w
    }
}

fn render_pair(a_neg: bool, a_mag: u128, b_neg: bool, b_mag: u128) -> (r: String)
    requires
        a_neg ==> a_mag > 0,
        b_neg ==> b_mag > 0,
    ensures
        r@ == pair_chars(
            if a_neg {
                -(a_mag as int)
            } else {
                a_mag as int
            },
            if b_neg {
                -(b_mag as int)
            } else {
                b_mag as int
            },
        ),
{
    proof {
        reveal_strlit("(");
        reveal_strlit(", ");
        reveal_strlit(")");
    }
    let mut s = "(".to_owned();
    let a = centi_string(a_neg, a_mag);
    s.append(a.as_str());
    s.append(", ");
    let b = centi_string(b_neg, b_mag);
    s.append(b.as_str());
    s.append(")");
    proof {
        let ca: int = if a_neg {
            -(a_mag as int)
        } else {
            a_mag as int
        };
        let cb: int = if b_neg {
            -(b_mag as int)
        } else {
            b_mag as int
        };
        assert(s@ =~= pair_chars(ca, cb));
    }
    s
}

impl<'a> PluginWorker for Worker<'a> {
    open spec fn wf(&self) -> bool {
        self.valid()
    }

    open spec fn accepts(&self, value: i64) -> bool {
        &&& -MAX_INPUT <= value <= MAX_INPUT
        &&& self.inputs().len() < MAX_COUNT
    }

    open spec fn step(&self, value: i64, next: Worker<'a>) -> bool {
        &&& next.inputs() == self.inputs().push(value as int)
        &&& next.shares_core(self)
        &&& next.valid()
    }

    open spec fn rendering(&self) -> Seq<char> {
        stats_rendering(self.inputs())
    }

    fn consume_inputs(&mut self, buffer: DataBuffer) -> (r: Result<(), String>) {
        if buffer.data > MAX_INPUT || buffer.data < -MAX_INPUT {
            return Err("input value out of range".to_owned());
        }
        if self.n >= MAX_COUNT {
            return Err("too many inputs".to_owned());
        }
        proof {
            lemma_sum_bounds(self.history@, MAX_INPUT as int);
            assert((self.n as int) * (MAX_INPUT as int) <= (MAX_COUNT as int) * (
            MAX_INPUT as int)) by (nonlinear_arith)
                requires
                    0 <= self.n as int <= MAX_COUNT as int,
            ;
            assert((self.n as int) * (MAX_INPUT as int) * (MAX_INPUT as int) <= (MAX_COUNT as int)
                * (MAX_INPUT as int) * (MAX_INPUT as int)) by (nonlinear_arith)
                requires
                    0 <= self.n as int <= MAX_COUNT as int,
            ;
            assert(0 <= (buffer.data as int) * (buffer.data as int) <= (MAX_INPUT as int) * (
            MAX_INPUT as int)) by (nonlinear_arith)
                requires
                    -(MAX_INPUT as int) <= buffer.data as int <= MAX_INPUT as int,
            ;
        }
        let x: i128 = buffer.data as i128;
        self.sum = self.sum + x;
        self.sum_sq = self.sum_sq + x * x;
        self.n = self.n + 1;
        self.history = Ghost(self.history@.push(buffer.data as int));
        proof {
            assert(self.history@.drop_last() =~= old(self).history@);
            assert(self.history@.last() == buffer.data as int);
        }
        Ok(())
    }

    fn render(&self) -> (r: String) {
        if self.n == 0 {
            let r = render_pair(false, 0, false, 0);
            proof {
                assert(self.inputs().len() == 0);
            }
            r
        } else {
            let ghost h = self.history@;
            proof {
                lemma_sum_bounds(h, MAX_INPUT as int);
                lemma_sum_sq_cauchy(h);
                assert((self.n as int) * (MAX_INPUT as int) <= (MAX_COUNT as int) * (
                MAX_INPUT as int)) by (nonlinear_arith)
                    requires
                        0 <= self.n as int <= MAX_COUNT as int,
                ;
                assert((self.n as int) * (MAX_INPUT as int) * (MAX_INPUT as int) <= (
                MAX_COUNT as int) * (MAX_INPUT as int) * (MAX_INPUT as int)) by (nonlinear_arith)
                    requires
                        0 <= self.n as int <= MAX_COUNT as int,
                ;
                assert(0 <= (self.n as int) * (self.sum_sq as int) <= (MAX_COUNT as int) * (
                MAX_COUNT as int) * (MAX_INPUT as int) * (MAX_INPUT as int)) by (nonlinear_arith)
                    requires
                        0 <= self.n as int <= MAX_COUNT as int,
                        0 <= self.sum_sq as int <= (MAX_COUNT as int) * (MAX_INPUT as int) * (
                        MAX_INPUT as int),
                ;
                assert(0 <= (self.sum as int) * (self.sum as int) <= (MAX_COUNT as int) * (
                MAX_INPUT as int) * ((MAX_COUNT as int) * (MAX_INPUT as int))) by (
                nonlinear_arith)
                    requires
                        -((MAX_COUNT as int) * (MAX_INPUT as int)) <= self.sum as int <= (
                        MAX_COUNT as int) * (MAX_INPUT as int),
                ;
                assert((h.len() as int) * seq_sum_sq(h) >= seq_sum(h) * seq_sum(h));
                assert((self.n as int) * (self.sum_sq as int) - (self.sum as int) * (
                self.sum as int) >= 0);
                assert((self.n as int) * (self.n as int) <= (MAX_COUNT as int) * (
                MAX_COUNT as int)) by (nonlinear_arith)
                    requires
                        0 <= self.n as int <= MAX_COUNT as int,
                ;
            }
            let neg = self.sum < 0;
            let sum_mag: i128 = if neg {
                -self.sum
            } else {
                self.sum
            };
            let nn: u128 = self.n as u128;
            let mean_mag: u128 = ((100 * sum_mag) as u128) / nn;
            let num: i128 = (self.n as i128) * self.sum_sq - self.sum * self.sum;
            let den: u128 = nn * nn;
            proof {
                assert((self.n as int) * (self.n as int) >= 1) by (nonlinear_arith)
                    requires
                        self.n as int >= 1,
                ;
            }
            let var_mag: u128 = ((100 * num) as u128) / den;
            let r = render_pair(neg && mean_mag > 0, mean_mag, false, var_mag);
            proof {
                assert(mean_mag as int == if self.sum >= 0 {
                    (100 * seq_sum(h)) / (h.len() as int)
                } else {
                    (100 * (-seq_sum(h))) / (h.len() as int)
                });
                assert((if neg && mean_mag > 0 {
                    -(mean_mag as int)
                } else {
                    mean_mag as int
                }) == mean_centi(h));
                assert(var_mag as int == var_centi(h));
                assert(r@ == stats_rendering(self.inputs()));
            }
            r
        }
    }
}

/// What the example module's entry point does during registration: it
/// registers one loader under the name "loader".
pub fn register<R: PluginRegistrar<Loader>>(registrar: &mut R)
    requires
        old(registrar).inv(),
    ensures
        final(registrar).inv(),
        final(registrar).entries() == old(registrar).entries().push(("loader"@, (Loader {  }))),
{
    registrar.register_loader("loader", Loader {  });
}

/// Order invariance: two valid workers that accepted the same inputs,
/// in whatever order, render the same report.
pub proof fn lemma_render_order_invariant<'a, 'b>(a: &Worker<'a>, b: &Worker<'b>)
    requires
        a.wf(),
        b.wf(),
        a.inputs().to_multiset() == b.inputs().to_multiset(),
    ensures
        a.rendering() == b.rendering(),
{
    lemma_sum_permutation(a.inputs(), b.inputs());
}

/// A worker's report depends on its own accepted inputs alone: two valid
/// workers with equal input histories render identically, whatever else —
/// sibling workers included — went on around them.
pub proof fn lemma_render_depends_on_inputs_alone<'a, 'b>(a: &Worker<'a>, b: &Worker<'b>)
    requires
        a.wf(),
        b.wf(),
        a.inputs() == b.inputs(),
    ensures
        a.rendering() == b.rendering(),
{
}

} // verus!
