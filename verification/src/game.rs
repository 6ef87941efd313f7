//! The game: an ordered collection of overs, the twist pass that
//! rewrites doubling flags across them, and the aggregate score.

use vstd::prelude::*;

use crate::digits::{append_decimal, decimal_chars};
use crate::over::{
    all_true_flags, all_true_vec, bonus_over_model, display_chars, lemma_undoubled_total,
    lemma_zero_runs_total_upto, runs_total, with_all_doubled, with_small_tail_doubled,
    zero_balls_vec, Over, OverModel, BALLS_PER_OVER,
};

verus! {

/// Mathematical model of a game: the regular overs in input order and
/// the bonus overs appended by the twist pass.
pub ghost struct GameModel {
    pub overs: Seq<OverModel>,
    pub extras: Seq<OverModel>,
}

/// The models of a sequence of overs.
pub open spec fn models_of(s: Seq<Over>) -> Seq<OverModel> {
    s.map_values(|o: Over| o@)
}

impl GameModel {
    /// Every over of the game is well formed.
    pub open spec fn wf(self) -> bool {
        &&& forall|i: int| 0 <= i < self.overs.len() ==> self.overs[i].wf()
        &&& forall|i: int| 0 <= i < self.extras.len() ==> self.extras[i].wf()
    }

    /// The total score: the runs of every regular over plus the runs of
    /// every bonus over.
    pub open spec fn total(self) -> int {
        seq_total(self.overs) + seq_total(self.extras)
    }
}

/// Runs contributed by the first `i` overs of a sequence.
pub open spec fn seq_total_upto(s: Seq<OverModel>, i: int) -> int
    decreases i,
{
    if i <= 0 {
        0
    } else {
        seq_total_upto(s, i - 1) + s[i - 1].total()
    }
}

/// Total runs of a sequence of overs.
pub open spec fn seq_total(s: Seq<OverModel>) -> int {
    seq_total_upto(s, s.len() as int)
}

/// The index of the over whose all-boundaries bonus appends two extra
/// overs: the tenth over, counted from zero.
pub const BONUS_TRIGGER_INDEX: usize = 9;

/// The state of the overs after the twist rules have run at index `i`,
/// given the state `s` they had when the pass reached `i`.
///
/// All predicates are evaluated on a snapshot of the over at `i` as it
/// stood before any rule of this index ran; since no rule changes run
/// counts and the rules of one index touch the over's own flags only
/// after the snapshot is taken, this matches reading the predicates at
/// the top of the iteration.
pub open spec fn twist_step(s: Seq<OverModel>, i: int) -> Seq<OverModel>
    recommends
        0 <= i < s.len(),
{
    let snap = s[i];
    let s1 = if snap.all_boundaries() {
        let t = if i + 1 < s.len() {
            s.update(i + 1, with_all_doubled(s[i + 1]))
        } else {
            s
        };
        if i + 2 < t.len() {
            t.update(i + 2, with_all_doubled(t[i + 2]))
        } else {
            t
        }
    } else {
        s
    };
    let s2 = if snap.first_two_sixes() {
        s1.update(i, with_small_tail_doubled(s1[i]))
    } else {
        s1
    };
    if snap.last_two_sixes() && !snap.all_boundaries() && i + 1 < s2.len() {
        s2.update(i + 1, with_all_doubled(s2[i + 1]))
    } else {
        s2
    }
}

/// The bonus overs the twist rules append at index `i`: two fully
/// doubled zero-run overs when the tenth over is all boundaries,
/// nothing otherwise.
pub open spec fn step_extras(s: Seq<OverModel>, i: int) -> Seq<OverModel>
    recommends
        0 <= i < s.len(),
{
    if s[i].all_boundaries() && i == BONUS_TRIGGER_INDEX as int {
        seq![bonus_over_model(), bonus_over_model()]
    } else {
        Seq::empty()
    }
}

/// The state of the overs after the pass has run at the first `i`
/// indices.
pub open spec fn twists_prefix(s: Seq<OverModel>, i: int) -> Seq<OverModel>
    decreases i,
{
    if i <= 0 {
        s
    } else {
        twist_step(twists_prefix(s, i - 1), i - 1)
    }
}

/// The bonus overs appended while the pass ran at the first `i`
/// indices, in order of appending.
pub open spec fn extras_prefix(s: Seq<OverModel>, i: int) -> Seq<OverModel>
    decreases i,
{
    if i <= 0 {
        Seq::empty()
    } else {
        extras_prefix(s, i - 1) + step_extras(twists_prefix(s, i - 1), i - 1)
    }
}

/// The overs after a complete twist pass.
pub open spec fn twisted_overs(s: Seq<OverModel>) -> Seq<OverModel> {
    twists_prefix(s, s.len() as int)
}

/// The bonus overs a complete twist pass appends.
pub open spec fn twist_extras(s: Seq<OverModel>) -> Seq<OverModel> {
    extras_prefix(s, s.len() as int)
}

/// A prefix total over a sequence of overs is non-negative.
pub proof fn lemma_seq_total_upto_nonneg(s: Seq<OverModel>, i: int)
    requires
        0 <= i <= s.len(),
    ensures
        seq_total_upto(s, i) >= 0,
    decreases i,
{
    if i > 0 {
        lemma_seq_total_upto_nonneg(s, i - 1);
        crate::over::lemma_total_upto_bounds(s[i - 1], s[i - 1].balls.len() as int);
    }
}

/// Prefix totals over a sequence of overs grow with the prefix.
pub proof fn lemma_seq_total_upto_mono(s: Seq<OverModel>, i: int, j: int)
    requires
        0 <= i <= j <= s.len(),
    ensures
        seq_total_upto(s, i) <= seq_total_upto(s, j),
    decreases j,
{
    if i < j {
        lemma_seq_total_upto_mono(s, i, j - 1);
        crate::over::lemma_total_upto_bounds(s[j - 1], s[j - 1].balls.len() as int);
    }
}

/// Sums the total runs of a vector of overs.
fn sum_overs(v: &Vec<Over>) -> (r: u64)
    requires
        forall|i: int| 0 <= i < v@.len() ==> models_of(v@)[i].wf(),
        seq_total(models_of(v@)) <= u64::MAX as int,
    ensures
        r as int == seq_total(models_of(v@)),
{
    let n = v.len();
    let mut sum: u64 = 0;
    let mut i: usize = 0;
    while i < n
        invariant
            i <= n,
            n == v@.len(),
            forall|j: int| 0 <= j < v@.len() ==> models_of(v@)[j].wf(),
            seq_total(models_of(v@)) <= u64::MAX as int,
            sum as int == seq_total_upto(models_of(v@), i as int),
        decreases n - i,
    {
        proof {
            lemma_seq_total_upto_mono(models_of(v@), i as int + 1, n as int);
            lemma_seq_total_upto_nonneg(models_of(v@), i as int);
            crate::over::lemma_total_upto_bounds(
                models_of(v@)[i as int],
                models_of(v@)[i as int].balls.len() as int,
            );
        }
        let t = v[i].total_runs();
        sum = sum + t;
        i += 1;
    }
    sum
}

/// A game: regular overs in input order, plus any bonus overs the twist
/// pass appended.
pub struct Game {
    pub overs: Vec<Over>,
    pub extra_overs: Vec<Over>,
}

impl View for Game {
    type V = GameModel;

    open spec fn view(&self) -> GameModel {
        GameModel { overs: models_of(self.overs@), extras: models_of(self.extra_overs@) }
    }
}

impl Game {
    /// A game with no overs at all.
    pub fn new() -> (g: Game)
        ensures
            g@.overs == Seq::<OverModel>::empty(),
            g@.extras == Seq::<OverModel>::empty(),
            g@.wf(),
    {
        let g = Game { overs: Vec::new(), extra_overs: Vec::new() };
        proof {
            assert(g@.overs =~= Seq::<OverModel>::empty());
            assert(g@.extras =~= Seq::<OverModel>::empty());
        }
        g
    }

    /// Appends a regular over to the game.
    pub fn add_over(&mut self, over: Over)
        requires
            over@.wf(),
        ensures
            final(self)@.overs == old(self)@.overs.push(over@),
            final(self)@.extras == old(self)@.extras,
            old(self)@.wf() ==> final(self)@.wf(),
    {
        self.overs.push(over);
        proof {
            assert(self@.overs =~= old(self)@.overs.push(over@));
        }
    }

    /// Runs the twist pass once: a single forward traversal of the
    /// overs in input order, applying the four rules at each index.
    /// Run counts never change; only doubling flags do, and the bonus
    /// overs of the tenth-over rule are appended to `extra_overs`.
    pub fn apply_twists(&mut self)
        requires
            old(self)@.wf(),
        ensures
            final(self)@.overs == twisted_overs(old(self)@.overs),
            final(self)@.extras == old(self)@.extras + twist_extras(old(self)@.overs),
            final(self)@.wf(),
    {
        let ghost orig = self@.overs;
        let ghost orig_extras = self@.extras;
        let n = self.overs.len();
        let mut i: usize = 0;
        while i < n
            invariant
                i <= n,
                n == self.overs@.len(),
                n == orig.len(),
                self@.overs == twists_prefix(orig, i as int),
                self@.extras == orig_extras + extras_prefix(orig, i as int),
                self@.wf(),
            decreases n - i,
        {
            let ghost pre = self@.overs;
            let ghost snap = pre[i as int];
            let snap_all_b = self.overs[i].all_boundaries();
            let snap_first2 = self.overs[i].first_two_sixes();
            let snap_last2 = self.overs[i].last_two_sixes();
            proof {
                assert(snap_all_b == snap.all_boundaries());
                assert(snap_first2 == snap.first_two_sixes());
                assert(snap_last2 == snap.last_two_sixes());
            }
            // Rule 1: an all-boundaries over doubles the next two overs
            // outright.
            if snap_all_b {
                if i + 1 < n {
                    let ghost v0 = self.overs@;
                    self.overs[i + 1].double_all();
                    proof {
                        lemma_models_update_any(v0, self.overs@, (i + 1) as int);
                    }
                    if i + 2 < n {
                        let ghost v1 = self.overs@;
                        self.overs[i + 2].double_all();
                        proof {
                            lemma_models_update_any(v1, self.overs@, (i + 2) as int);
                        }
                    }
                }
            }
            // Rule 2: an over opening with two sixes doubles its own
            // later balls that are not boundaries.
            if snap_first2 {
                let ghost v2 = self.overs@;
                self.overs[i].double_small_from_third();
                proof {
                    lemma_models_update_any(v2, self.overs@, i as int);
                }
            }
            // Rule 3: an over closing with two sixes, when not already
            // all boundaries, doubles the following over outright.
            if snap_last2 && !snap_all_b {
                if i + 1 < n {
                    let ghost v3 = self.overs@;
                    self.overs[i + 1].double_all();
                    proof {
                        lemma_models_update_any(v3, self.overs@, (i + 1) as int);
                    }
                }
            }
            // Rule 4: an all-boundaries tenth over appends two bonus
            // overs.
            if snap_all_b && i == BONUS_TRIGGER_INDEX {
                let ghost e0 = self.extra_overs@;
                self.extra_overs.push(make_bonus_over());
                proof {
                    lemma_models_push_any(e0, self.extra_overs@);
                }
                let ghost e1 = self.extra_overs@;
                self.extra_overs.push(make_bonus_over());
                proof {
                    lemma_models_push_any(e1, self.extra_overs@);
                }
            }
            proof {
                assert(self@.overs == twist_step(pre, i as int));
                assert(twists_prefix(orig, i as int + 1) == twist_step(
                    twists_prefix(orig, i as int),
                    i as int,
                ));
                assert(self@.extras =~= orig_extras + extras_prefix(orig, i as int + 1));
                assert(self@.wf());
            }
            i += 1;
        }
    }

    /// The total score: the runs of every regular over plus the runs of
    /// every bonus over, each ball doubled where its flag is set.
    pub fn total_score(&self) -> (r: u64)
        requires
            self@.wf(),
            self@.total() <= u64::MAX as int,
        ensures
            r as int == self@.total(),
    {
        proof {
            lemma_seq_total_upto_nonneg(self@.overs, self@.overs.len() as int);
            lemma_seq_total_upto_nonneg(self@.extras, self@.extras.len() as int);
        }
        let regular = sum_overs(&self.overs);
        let bonus = sum_overs(&self.extra_overs);
        regular + bonus
    }

    /// Renders the whole scorecard: a heading, one line per regular
    /// over in input order, one line per bonus over, and the final
    /// score, each on a line of its own.
    pub fn display_scorecard(&self) -> (r: String)
        requires
            self@.wf(),
            self@.total() <= u64::MAX as int,
        ensures
            r@ == scorecard_chars(self@),
    {
        let mut s = String::new();
        s.append("Scorecard:\n");
        append_over_lines(&mut s, &self.overs, "Over ");
        append_over_lines(&mut s, &self.extra_overs, "Extra Over ");
        s.append("Final Score: ");
        let t = self.total_score();
        append_decimal(&mut s, t);
        s.append("\n");
        proof {
            reveal_strlit("Scorecard:\n");
            reveal_strlit("Over ");
            reveal_strlit("Extra Over ");
            reveal_strlit("Final Score: ");
            reveal_strlit("\n");
            assert("Scorecard:\n"@ =~= scorecard_header());
            assert("Over "@ =~= over_label());
            assert("Extra Over "@ =~= extra_label());
            assert("Final Score: "@ =~= final_label());
            assert(s@ =~= scorecard_chars(self@));
        }
        s
    }
}

/// Runs of the first `i` overs of a sequence with all doubling
/// ignored.
pub open spec fn seq_runs_upto(s: Seq<OverModel>, i: int) -> int
    decreases i,
{
    if i <= 0 {
        0
    } else {
        seq_runs_upto(s, i - 1) + runs_total(s[i - 1].balls)
    }
}

/// Runs of a sequence of overs with all doubling ignored.
pub open spec fn seq_runs_total(s: Seq<OverModel>) -> int {
    seq_runs_upto(s, s.len() as int)
}

/// The twist pass never changes run counts: after any number of steps
/// every over holds the balls it was built with, in the same order.
pub proof fn lemma_twist_balls_preserved(s: Seq<OverModel>, i: int)
    requires
        0 <= i <= s.len(),
    ensures
        twists_prefix(s, i).len() == s.len(),
        forall|j: int| 0 <= j < s.len() ==> twists_prefix(s, i)[j].balls == s[j].balls,
    decreases i,
{
    if i > 0 {
        lemma_twist_balls_preserved(s, i - 1);
    }
}

/// When no over is all boundaries, none opens with two sixes and none
/// closes with two sixes, the twist pass changes nothing and appends
/// no bonus over.
pub proof fn lemma_quiet_overs_untwisted(s: Seq<OverModel>)
    requires
        forall|i: int|
            0 <= i < s.len() ==> !s[i].all_boundaries() && !s[i].first_two_sixes()
                && !s[i].last_two_sixes(),
    ensures
        twisted_overs(s) == s,
        twist_extras(s) == Seq::<OverModel>::empty(),
{
    lemma_quiet_prefix(s, s.len() as int);
}

/// The prefix form of the quiet-overs law.
proof fn lemma_quiet_prefix(s: Seq<OverModel>, i: int)
    requires
        0 <= i <= s.len(),
        forall|j: int|
            0 <= j < s.len() ==> !s[j].all_boundaries() && !s[j].first_two_sixes()
                && !s[j].last_two_sixes(),
    ensures
        twists_prefix(s, i) == s,
        extras_prefix(s, i) == Seq::<OverModel>::empty(),
    decreases i,
{
    if i > 0 {
        lemma_quiet_prefix(s, i - 1);
        assert(extras_prefix(s, i) =~= Seq::<OverModel>::empty());
    }
}

/// With every doubling flag of every over clear, the total of a
/// sequence of overs is the plain sum of all its run counts.
pub proof fn lemma_undoubled_seq_total(s: Seq<OverModel>)
    requires
        forall|i: int| 0 <= i < s.len() ==> s[i].wf(),
        forall|i: int, k: int|
            0 <= i < s.len() && 0 <= k < s[i].doubled.len() ==> !s[i].doubled[k],
    ensures
        seq_total(s) == seq_runs_total(s),
{
    lemma_undoubled_seq_upto(s, s.len() as int);
}

/// The prefix form of the undoubled sequence-total law.
proof fn lemma_undoubled_seq_upto(s: Seq<OverModel>, i: int)
    requires
        0 <= i <= s.len(),
        forall|j: int| 0 <= j < s.len() ==> s[j].wf(),
        forall|j: int, k: int|
            0 <= j < s.len() && 0 <= k < s[j].doubled.len() ==> !s[j].doubled[k],
    ensures
        seq_total_upto(s, i) == seq_runs_upto(s, i),
    decreases i,
{
    if i > 0 {
        lemma_undoubled_seq_upto(s, i - 1);
        lemma_undoubled_total(s[i - 1]);
    }
}

/// When no twist rule triggers on any over and no doubling flag is
/// set, the pass changes nothing, appends nothing, and the total score
/// is the plain sum of every run scored.
pub proof fn lemma_quiet_undoubled_game_total(s: Seq<OverModel>)
    requires
        forall|i: int| 0 <= i < s.len() ==> s[i].wf(),
        forall|i: int|
            0 <= i < s.len() ==> !s[i].all_boundaries() && !s[i].first_two_sixes()
                && !s[i].last_two_sixes(),
        forall|i: int, k: int|
            0 <= i < s.len() && 0 <= k < s[i].doubled.len() ==> !s[i].doubled[k],
    ensures
        twisted_overs(s) == s,
        twist_extras(s) == Seq::<OverModel>::empty(),
        seq_total(twisted_overs(s)) + seq_total(twist_extras(s)) == seq_runs_total(s),
{
    lemma_quiet_overs_untwisted(s);
    lemma_undoubled_seq_total(s);
    assert(seq_total(Seq::<OverModel>::empty()) == 0);
}

/// What the pass appends: nothing until it has passed the tenth over,
/// and exactly two bonus overs once it has, provided the tenth over is
/// all boundaries.
proof fn lemma_extras_prefix_form(s: Seq<OverModel>, i: int)
    requires
        0 <= i <= s.len(),
    ensures
        i <= BONUS_TRIGGER_INDEX as int ==> extras_prefix(s, i) == Seq::<OverModel>::empty(),
        i > BONUS_TRIGGER_INDEX as int ==> extras_prefix(s, i) == (if s[
            BONUS_TRIGGER_INDEX as int
        ].all_boundaries() {
            seq![bonus_over_model(), bonus_over_model()]
        } else {
            Seq::<OverModel>::empty()
        }),
    decreases i,
{
    if i > 0 {
        lemma_extras_prefix_form(s, i - 1);
        lemma_twist_balls_preserved(s, i - 1);
        let p = twists_prefix(s, i - 1);
        assert(p[i - 1].all_boundaries() == s[i - 1].all_boundaries());
        assert(extras_prefix(s, i) =~= extras_prefix(s, i - 1) + step_extras(p, i - 1));
        if i - 1 == BONUS_TRIGGER_INDEX as int && s[i - 1].all_boundaries() {
            assert(extras_prefix(s, i) =~= seq![bonus_over_model(), bonus_over_model()]);
        } else {
            assert(extras_prefix(s, i) =~= extras_prefix(s, i - 1));
        }
    }
}

/// The tenth-over bonus: a full pass appends exactly two bonus overs
/// when the tenth over is all boundaries and none otherwise; each
/// bonus over is a fully doubled zero-run over, so together they add
/// nothing to the total score.
pub proof fn lemma_tenth_over_bonus(s: Seq<OverModel>)
    ensures
        s.len() > BONUS_TRIGGER_INDEX && s[BONUS_TRIGGER_INDEX as int].all_boundaries()
            ==> twist_extras(s) == seq![bonus_over_model(), bonus_over_model()],
        !(s.len() > BONUS_TRIGGER_INDEX && s[BONUS_TRIGGER_INDEX as int].all_boundaries())
            ==> twist_extras(s) == Seq::<OverModel>::empty(),
        bonus_over_model().total() == 0,
        seq_total(twist_extras(s)) == 0,
{
    lemma_extras_prefix_form(s, s.len() as int);
    let b = bonus_over_model();
    lemma_zero_runs_total_upto(b, b.balls.len() as int);
    let two = seq![bonus_over_model(), bonus_over_model()];
    assert(seq_total_upto(two, 2) == seq_total_upto(two, 1) + two[1].total());
    assert(seq_total_upto(two, 1) == seq_total_upto(two, 0) + two[0].total());
    assert(seq_total(two) == 0);
    assert(seq_total(Seq::<OverModel>::empty()) == 0);
}

/// Once a step of the pass has set every doubling flag of some over,
/// the flags of that over stay set for the rest of the pass.
proof fn lemma_all_true_sticky(s: Seq<OverModel>, j: int, i1: int, i2: int)
    requires
        0 <= j < s.len(),
        0 <= i1 <= i2 <= s.len(),
        twists_prefix(s, i1)[j].doubled == all_true_flags(),
    ensures
        twists_prefix(s, i2)[j].doubled == all_true_flags(),
    decreases i2 - i1,
{
    if i2 > i1 {
        lemma_all_true_sticky(s, j, i1, i2 - 1);
        lemma_twist_balls_preserved(s, i2 - 1);
        lemma_twist_balls_preserved(s, i2);
        let p = twists_prefix(s, i2 - 1);
        let q = twists_prefix(s, i2);
        assert(q == twist_step(p, i2 - 1));
        assert(all_true_flags().len() == BALLS_PER_OVER);
        assert(q[j].doubled =~= all_true_flags());
    }
}

/// An opening over of six sixes doubles the next two overs: after the
/// pass, the overs at the second and third positions carry all-true
/// doubling flags.
pub proof fn lemma_opening_all_sixes(s: Seq<OverModel>)
    requires
        s.len() >= 3,
        forall|k: int| 0 <= k < s[0].balls.len() ==> s[0].balls[k] == 6,
    ensures
        twisted_overs(s)[1].doubled == all_true_flags(),
        twisted_overs(s)[2].doubled == all_true_flags(),
{
    assert(s[0].all_boundaries());
    assert(twists_prefix(s, 1) == twist_step(twists_prefix(s, 0), 0));
    assert(twists_prefix(s, 1)[1].doubled == all_true_flags());
    assert(twists_prefix(s, 1)[2].doubled == all_true_flags());
    lemma_all_true_sticky(s, 1, 1, s.len() as int);
    lemma_all_true_sticky(s, 2, 1, s.len() as int);
}

/// The heading line of a scorecard.
pub open spec fn scorecard_header() -> Seq<char> {
    seq!['S', 'c', 'o', 'r', 'e', 'c', 'a', 'r', 'd', ':', '\n']
}

/// The label of a regular over's line.
pub open spec fn over_label() -> Seq<char> {
    seq!['O', 'v', 'e', 'r', ' ']
}

/// The label of a bonus over's line.
pub open spec fn extra_label() -> Seq<char> {
    seq!['E', 'x', 't', 'r', 'a', ' ', 'O', 'v', 'e', 'r', ' ']
}

/// The label of the closing score line.
pub open spec fn final_label() -> Seq<char> {
    seq!['F', 'i', 'n', 'a', 'l', ' ', 'S', 'c', 'o', 'r', 'e', ':', ' ']
}

/// The lines for the first `i` overs of a sequence: each over numbered
/// from one, labelled, and rendered on a line of its own.
pub open spec fn over_lines_upto(s: Seq<OverModel>, label: Seq<char>, i: int) -> Seq<char>
    decreases i,
{
    if i <= 0 {
        Seq::<char>::empty()
    } else {
        over_lines_upto(s, label, i - 1) + label + decimal_chars(i) + seq![':', ' ']
            + display_chars(s[i - 1]) + seq!['\n']
    }
}

/// The whole scorecard: a heading, one line per regular over in input
/// order, one line per bonus over, and the final score.
pub open spec fn scorecard_chars(g: GameModel) -> Seq<char> {
    scorecard_header() + over_lines_upto(g.overs, over_label(), g.overs.len() as int)
        + over_lines_upto(g.extras, extra_label(), g.extras.len() as int) + final_label()
        + decimal_chars(g.total()) + seq!['\n']
}

/// Appends one labelled, one-based-numbered line per over to `s`.
fn append_over_lines(s: &mut String, v: &Vec<Over>, label: &str)
    requires
        forall|i: int| 0 <= i < v@.len() ==> models_of(v@)[i].wf(),
    ensures
        final(s)@ == old(s)@ + over_lines_upto(models_of(v@), label@, v@.len() as int),
{
    let n = v.len();
    let mut i: usize = 0;
    while i < n
        invariant
            i <= n,
            n == v@.len(),
            forall|j: int| 0 <= j < v@.len() ==> models_of(v@)[j].wf(),
            s@ == old(s)@ + over_lines_upto(models_of(v@), label@, i as int),
        decreases n - i,
    {
        s.append(label);
        append_decimal(s, i as u64 + 1);
        s.append(": ");
        proof {
            assert(models_of(v@)[i as int] == v@[i as int]@);
        }
        let rendered = v[i].display();
        s.append(rendered.as_str());
        s.append("\n");
        proof {
            reveal_strlit(": ");
            reveal_strlit("\n");
            assert(s@ =~= old(s)@ + over_lines_upto(models_of(v@), label@, i as int + 1));
        }
        i += 1;
    }
}

/// A freshly built bonus over: no runs, every doubling flag set.
fn make_bonus_over() -> (o: Over)
    ensures
        o@ == bonus_over_model(),
        o@.wf(),
{
    Over::new(zero_balls_vec(), all_true_vec())
}

/// Updating one element of a vector of overs updates the model sequence
/// at the same place.
proof fn lemma_models_update_any(s1: Seq<Over>, s2: Seq<Over>, j: int)
    requires
        0 <= j < s1.len(),
        s2.len() == s1.len(),
        forall|m: int| 0 <= m < s1.len() && m != j ==> s2[m] == s1[m],
    ensures
        models_of(s2) == models_of(s1).update(j, s2[j]@),
{
    assert(models_of(s2) =~= models_of(s1).update(j, s2[j]@));
}

/// Pushing one over onto a vector of overs pushes its model onto the
/// model sequence.
proof fn lemma_models_push_any(s1: Seq<Over>, s2: Seq<Over>)
    requires
        s2.len() == s1.len() + 1,
        forall|m: int| 0 <= m < s1.len() ==> s2[m] == s1[m],
    ensures
        models_of(s2) == models_of(s1).push(s2[s1.len() as int]@),
{
    assert(models_of(s2) =~= models_of(s1).push(s2[s1.len() as int]@));
}

} // verus!
