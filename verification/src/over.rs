//! A single over: six ball outcomes with per-ball doubling flags.

use vstd::prelude::*;

use crate::digits::{append_decimal, decimal_chars};

verus! {

/// The number of deliveries in an over.
pub const BALLS_PER_OVER: usize = 6;

/// Mathematical model of an over: the run count of each ball and the
/// doubling flag of each ball, as plain sequences.
pub ghost struct OverModel {
    pub balls: Seq<u32>,
    pub doubled: Seq<bool>,
}

impl OverModel {
    /// Both sequences hold exactly one entry per delivery.
    pub open spec fn wf(self) -> bool {
        &&& self.balls.len() == BALLS_PER_OVER
        &&& self.doubled.len() == BALLS_PER_OVER
    }

    /// Every ball of the over scored no runs.
    pub open spec fn is_maiden(self) -> bool {
        forall|k: int| 0 <= k < self.balls.len() ==> self.balls[k] == 0
    }

    /// Every ball of the over counts as a boundary.  In this rule set a
    /// boundary is any run value of at least 4, so non-standard values
    /// such as 5 qualify as well; this deliberately over-counts compared
    /// to the usual cricket definition (exactly 4 or 6).
    pub open spec fn all_boundaries(self) -> bool {
        forall|k: int| 0 <= k < self.balls.len() ==> self.balls[k] >= 4
    }

    /// The first two deliveries were both sixes.
    pub open spec fn first_two_sixes(self) -> bool {
        &&& self.balls.len() >= 2
        &&& self.balls[0] == 6
        &&& self.balls[1] == 6
    }

    /// The fifth and sixth deliveries were both sixes.
    pub open spec fn last_two_sixes(self) -> bool {
        &&& self.balls.len() >= 6
        &&& self.balls[4] == 6
        &&& self.balls[5] == 6
    }

    /// How many runs one ball contributes: its run count, doubled when
    /// its flag is set.
    pub open spec fn ball_value(self, k: int) -> int {
        if self.doubled[k] {
            2 * (self.balls[k] as int)
        } else {
            self.balls[k] as int
        }
    }

    /// Runs contributed by the first `k` balls.
    pub open spec fn total_upto(self, k: int) -> int
        decreases k,
    {
        if k <= 0 {
            0
        } else {
            self.total_upto(k - 1) + self.ball_value(k - 1)
        }
    }

    /// Total runs of the over: each ball's runs, doubled where flagged.
    pub open spec fn total(self) -> int {
        self.total_upto(self.balls.len() as int)
    }
}

/// One doubling flag per delivery, all set.
pub open spec fn all_true_flags() -> Seq<bool> {
    Seq::new(BALLS_PER_OVER as nat, |k: int| true)
}

/// One run count per delivery, all zero.
pub open spec fn zero_balls() -> Seq<u32> {
    Seq::new(BALLS_PER_OVER as nat, |k: int| 0u32)
}

/// A bonus over: no runs, every ball's doubling flag set.
pub open spec fn bonus_over_model() -> OverModel {
    OverModel { balls: zero_balls(), doubled: all_true_flags() }
}

/// The over with its whole flag sequence replaced by all-true.
pub open spec fn with_all_doubled(m: OverModel) -> OverModel {
    OverModel { balls: m.balls, doubled: all_true_flags() }
}

/// The over with the flag of each of its third to sixth balls set
/// wherever that ball's run value is below 4; balls that already count
/// as boundaries keep their previous flag.
pub open spec fn with_small_tail_doubled(m: OverModel) -> OverModel {
    OverModel {
        balls: m.balls,
        doubled: Seq::new(
            m.doubled.len(),
            |k: int|
                if 2 <= k < BALLS_PER_OVER && m.balls[k] < 4 {
                    true
                } else {
                    m.doubled[k]
                },
        ),
    }
}

/// Runs scored on the first `k` balls, ignoring all doubling flags.
pub open spec fn runs_upto(balls: Seq<u32>, k: int) -> int
    decreases k,
{
    if k <= 0 {
        0
    } else {
        runs_upto(balls, k - 1) + balls[k - 1]
    }
}

/// Runs scored over a whole over, ignoring all doubling flags.
pub open spec fn runs_total(balls: Seq<u32>) -> int {
    runs_upto(balls, balls.len() as int)
}

/// A prefix total over balls that all scored zero is zero, whatever
/// the doubling flags say.
pub proof fn lemma_zero_runs_total_upto(m: OverModel, k: int)
    requires
        0 <= k <= m.balls.len(),
        forall|j: int| 0 <= j < m.balls.len() ==> m.balls[j] == 0,
    ensures
        m.total_upto(k) == 0,
    decreases k,
{
    if k > 0 {
        lemma_zero_runs_total_upto(m, k - 1);
    }
}

/// A maiden over scores nothing: when every ball's run count is zero,
/// the over is a maiden and its total, doubling included, is zero.
pub proof fn lemma_maiden_over_scores_nothing(m: OverModel)
    requires
        forall|j: int| 0 <= j < m.balls.len() ==> m.balls[j] == 0,
    ensures
        m.is_maiden(),
        m.total() == 0,
{
    lemma_zero_runs_total_upto(m, m.balls.len() as int);
}

/// Doubling is monotonic: setting more doubling flags, with the run
/// counts unchanged, never decreases the total.
pub proof fn lemma_doubling_monotonic(a: OverModel, b: OverModel)
    requires
        a.balls == b.balls,
        a.balls.len() <= a.doubled.len(),
        a.doubled.len() == b.doubled.len(),
        forall|j: int| 0 <= j < a.doubled.len() ==> (a.doubled[j] ==> b.doubled[j]),
    ensures
        a.total() <= b.total(),
{
    lemma_total_upto_monotonic(a, b, a.balls.len() as int);
}

/// The prefix-total form of doubling monotonicity.
pub proof fn lemma_total_upto_monotonic(a: OverModel, b: OverModel, k: int)
    requires
        a.balls == b.balls,
        a.doubled.len() == b.doubled.len(),
        forall|j: int| 0 <= j < a.doubled.len() ==> (a.doubled[j] ==> b.doubled[j]),
        0 <= k <= a.balls.len(),
        k <= a.doubled.len(),
    ensures
        a.total_upto(k) <= b.total_upto(k),
    decreases k,
{
    if k > 0 {
        lemma_total_upto_monotonic(a, b, k - 1);
    }
}

/// With every doubling flag clear, the total is the plain sum of the
/// run counts.
pub proof fn lemma_undoubled_total(m: OverModel)
    requires
        m.balls.len() <= m.doubled.len(),
        forall|j: int| 0 <= j < m.doubled.len() ==> !m.doubled[j],
    ensures
        m.total() == runs_total(m.balls),
{
    lemma_undoubled_total_upto(m, m.balls.len() as int);
}

/// The prefix-total form of the undoubled-total law.
proof fn lemma_undoubled_total_upto(m: OverModel, k: int)
    requires
        0 <= k <= m.balls.len() <= m.doubled.len(),
        forall|j: int| 0 <= j < m.doubled.len() ==> !m.doubled[j],
    ensures
        m.total_upto(k) == runs_upto(m.balls, k),
    decreases k,
{
    if k > 0 {
        lemma_undoubled_total_upto(m, k - 1);
    }
}

/// The rendering of one ball: a `*` marker when the ball counts as a
/// boundary, the run count in decimal, and an `x2` marker when the
/// ball's doubling flag is set.
pub open spec fn ball_chars(run: u32, doubled: bool) -> Seq<char> {
    (if run >= 4 {
        seq!['*']
    } else {
        Seq::<char>::empty()
    }) + decimal_chars(run as int) + (if doubled {
        seq!['x', '2']
    } else {
        Seq::<char>::empty()
    })
}

/// The rendering of the balls from index `k` on, separated by a comma
/// and a space.
pub open spec fn display_from(m: OverModel, k: int) -> Seq<char>
    recommends
        m.wf(),
    decreases BALLS_PER_OVER as int - k,
{
    if k < 0 || k >= BALLS_PER_OVER as int {
        Seq::<char>::empty()
    } else if k == BALLS_PER_OVER as int - 1 {
        ball_chars(m.balls[k], m.doubled[k])
    } else {
        ball_chars(m.balls[k], m.doubled[k]) + seq![',', ' '] + display_from(m, k + 1)
    }
}

/// The rendering of a whole over: its balls, comma-and-space separated,
/// wrapped in parentheses.
pub open spec fn display_chars(m: OverModel) -> Seq<char> {
    seq!['('] + display_from(m, 0) + seq![')']
}

/// Appends the rendering of one ball to `s`.
fn append_ball(s: &mut String, run: u32, doubled: bool)
    ensures
        final(s)@ == old(s)@ + ball_chars(run, doubled),
{
    if run >= 4 {
        s.append("*");
    }
    append_decimal(s, run as u64);
    if doubled {
        s.append("x2");
    }
    proof {
        reveal_strlit("*");
        reveal_strlit("x2");
        assert(s@ =~= old(s)@ + ball_chars(run, doubled));
    }
}

/// A prefix total is non-negative and at most twice the largest run
/// value per ball counted.
pub proof fn lemma_total_upto_bounds(m: OverModel, k: int)
    requires
        0 <= k <= m.balls.len(),
    ensures
        0 <= m.total_upto(k) <= k * 2 * (u32::MAX as int),
    decreases k,
{
    if k > 0 {
        lemma_total_upto_bounds(m, k - 1);
    }
}

/// A vector holding one set doubling flag per delivery.
pub fn all_true_vec() -> (v: Vec<bool>)
    ensures
        v@ == all_true_flags(),
{
    let mut v: Vec<bool> = Vec::new();
    let mut k: usize = 0;
    while k < BALLS_PER_OVER
        invariant
            k <= BALLS_PER_OVER,
            v@.len() == k,
            forall|j: int| 0 <= j < k ==> v@[j] == true,
        decreases BALLS_PER_OVER - k,
    {
        v.push(true);
        k += 1;
    }
    proof {
        assert(v@ =~= all_true_flags());
    }
    v
}

/// A vector holding one zero run count per delivery.
pub fn zero_balls_vec() -> (v: Vec<u32>)
    ensures
        v@ == zero_balls(),
{
    let mut v: Vec<u32> = Vec::new();
    let mut k: usize = 0;
    while k < BALLS_PER_OVER
        invariant
            k <= BALLS_PER_OVER,
            v@.len() == k,
            forall|j: int| 0 <= j < k ==> v@[j] == 0,
        decreases BALLS_PER_OVER - k,
    {
        v.push(0);
        k += 1;
    }
    proof {
        assert(v@ =~= zero_balls());
    }
    v
}

/// A single over: the runs scored on each of its six balls and, in
/// parallel, whether each ball's runs count double.
#[derive(Clone)]
pub struct Over {
    pub balls: Vec<u32>,
    pub is_doubled: Vec<bool>,
}

impl View for Over {
    type V = OverModel;

    open spec fn view(&self) -> OverModel {
        OverModel { balls: self.balls@, doubled: self.is_doubled@ }
    }
}

impl Over {
    /// Builds an over from one run count and one doubling flag per ball.
    pub fn new(balls: Vec<u32>, is_doubled: Vec<bool>) -> (r: Over)
        requires
            balls@.len() == BALLS_PER_OVER,
            is_doubled@.len() == BALLS_PER_OVER,
        ensures
            r@ == (OverModel { balls: balls@, doubled: is_doubled@ }),
            r@.wf(),
    {
        Over { balls, is_doubled }
    }

    /// Builds an over when the inputs are known to be well formed, and
    /// reports the defect otherwise: the result is `Some` exactly when
    /// both sequences hold one entry per delivery.
    pub fn try_new(balls: Vec<u32>, is_doubled: Vec<bool>) -> (r: Option<Over>)
        ensures
            r is Some <==> balls@.len() == BALLS_PER_OVER && is_doubled@.len()
                == BALLS_PER_OVER,
            r is Some ==> r->0@ == (OverModel { balls: balls@, doubled: is_doubled@ })
                && r->0@.wf(),
    {
        if balls.len() == BALLS_PER_OVER && is_doubled.len() == BALLS_PER_OVER {
            Some(Over { balls, is_doubled })
        } else {
            None
        }
    }

    /// True exactly when every ball of the over scored no runs.
    pub fn is_maiden(&self) -> (r: bool)
        ensures
            r == self@.is_maiden(),
    {
        let n = self.balls.len();
        let mut k: usize = 0;
        while k < n
            invariant
                k <= n,
                n == self.balls@.len(),
                forall|j: int| 0 <= j < k ==> self.balls@[j] == 0,
            decreases n - k,
        {
            if self.balls[k] != 0 {
                proof {
                    assert(self@.balls[k as int] != 0);
                }
                return false;
            }
            k += 1;
        }
        true
    }

    /// True exactly when every ball counts as a boundary (run value at
    /// least 4, including non-standard values such as 5).
    pub fn all_boundaries(&self) -> (r: bool)
        ensures
            r == self@.all_boundaries(),
    {
        let n = self.balls.len();
        let mut k: usize = 0;
        while k < n
            invariant
                k <= n,
                n == self.balls@.len(),
                forall|j: int| 0 <= j < k ==> self.balls@[j] >= 4,
            decreases n - k,
        {
            if self.balls[k] < 4 {
                proof {
                    assert(self@.balls[k as int] < 4);
                }
                return false;
            }
            k += 1;
        }
        true
    }

    /// True exactly when the first two deliveries were both sixes.
    pub fn first_two_sixes(&self) -> (r: bool)
        ensures
            r == self@.first_two_sixes(),
    {
        self.balls.len() >= 2 && self.balls[0] == 6 && self.balls[1] == 6
    }

    /// True exactly when the fifth and sixth deliveries were both sixes.
    pub fn last_two_sixes(&self) -> (r: bool)
        ensures
            r == self@.last_two_sixes(),
    {
        self.balls.len() >= 6 && self.balls[4] == 6 && self.balls[5] == 6
    }

    /// Replaces the over's whole flag sequence with all-true.
    pub fn double_all(&mut self)
        ensures
            final(self)@ == with_all_doubled(old(self)@),
    {
        self.is_doubled = all_true_vec();
    }

    /// Sets the flag of each of the third to sixth balls whose run value
    /// is below 4; balls already counting as boundaries are left as they
    /// are.
    pub fn double_small_from_third(&mut self)
        requires
            old(self)@.wf(),
        ensures
            final(self)@ == with_small_tail_doubled(old(self)@),
    {
        let mut k: usize = 2;
        while k < BALLS_PER_OVER
            invariant
                2 <= k <= BALLS_PER_OVER,
                self@.wf(),
                self@.balls == old(self)@.balls,
                forall|m: int|
                    0 <= m < BALLS_PER_OVER ==> self@.doubled[m] == (if 2 <= m < k
                        && old(self)@.balls[m] < 4 {
                        true
                    } else {
                        old(self)@.doubled[m]
                    }),
            decreases BALLS_PER_OVER - k,
        {
            if self.balls[k] < 4 {
                self.is_doubled[k] = true;
            }
            k += 1;
        }
        proof {
            assert(self@.doubled =~= with_small_tail_doubled(old(self)@).doubled);
        }
    }

    /// Appends the rendering of the balls from index `k` on to `s`.
    fn append_balls_from(&self, s: &mut String, k: usize)
        requires
            self@.wf(),
            k <= BALLS_PER_OVER,
        ensures
            final(s)@ == old(s)@ + display_from(self@, k as int),
        decreases BALLS_PER_OVER - k,
    {
        if k < BALLS_PER_OVER {
            append_ball(s, self.balls[k], self.is_doubled[k]);
            if k < BALLS_PER_OVER - 1 {
                s.append(", ");
                self.append_balls_from(s, k + 1);
                proof {
                    reveal_strlit(", ");
                    assert(s@ =~= old(s)@ + display_from(self@, k as int));
                }
            }
        }
    }

    /// Renders the over as `(b1, b2, ..., b6)`: each ball as
    /// `{boundary marker}{runs}{doubling marker}`, where `*` marks a
    /// run value of at least 4 and `x2` marks a set doubling flag.
    pub fn display(&self) -> (r: String)
        requires
            self@.wf(),
        ensures
            r@ == display_chars(self@),
    {
        let mut s = String::new();
        s.append("(");
        self.append_balls_from(&mut s, 0);
        s.append(")");
        proof {
            reveal_strlit("(");
            reveal_strlit(")");
            assert(s@ =~= display_chars(self@));
        }
        s
    }

    /// Total runs of the over: the sum over all balls of the run count,
    /// doubled where the ball's flag is set.
    pub fn total_runs(&self) -> (r: u64)
        requires
            self@.wf(),
        ensures
            r as int == self@.total(),
    {
        let mut sum: u64 = 0;
        let mut k: usize = 0;
        while k < BALLS_PER_OVER
            invariant
                k <= BALLS_PER_OVER,
                self@.wf(),
                sum as int == self@.total_upto(k as int),
            decreases BALLS_PER_OVER - k,
        {
            proof {
                lemma_total_upto_bounds(self@, k as int + 1);
            }
            let run = self.balls[k] as u64;
            if self.is_doubled[k] {
                sum = sum + 2 * run;
            } else {
                sum = sum + run;
            }
            k += 1;
        }
        sum
    }
}

} // verus!
