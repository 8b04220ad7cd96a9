//! The game session: a secret target, a per-line step, and scripted runs.
//!
//! One session holds a target in the closed range `[1, 100]`, drawn once and
//! immutable afterwards. Each line of input is parsed; an unparseable line is
//! rejected and the session goes on unchanged; a parsed guess earns
//! directional feedback, and the session ends exactly when a guess equals the
//! target.

use vstd::prelude::*;

use crate::Feedback;
use crate::feedback_spec;
use crate::compare_guess;
use crate::parse::parse_spec;
use crate::parse::parse_guess;

verus! {

/// What one line of input leads to: a silent rejection (re-prompt), or a
/// judged guess with its feedback.
#[derive(Clone, Copy, Debug, PartialEq, Eq, Structural)]
pub enum StepOutcome {
    /// The line did not parse as an in-range base-10 unsigned integer.
    Rejected,
    /// The line parsed to this guess, which earned this feedback.
    Judged(u32, Feedback),
}

/// The outcome that one line of input earns against a target.
pub open spec fn step_spec(target: u32, line: Seq<char>) -> StepOutcome {
    match parse_spec(line) {
        Option::None => StepOutcome::Rejected,
        Option::Some(g) => StepOutcome::Judged(g, feedback_spec(g, target)),
    }
}

/// Whether one line of input ends the session: it parses to the target.
pub open spec fn line_wins(target: u32, line: Seq<char>) -> bool {
    parse_spec(line) == Option::Some(target)
}

/// The outcomes of feeding a script of lines to a session, one outcome per
/// consumed line; consumption stops right after a winning line.
pub open spec fn session_spec(target: u32, lines: Seq<Seq<char>>) -> Seq<StepOutcome>
    decreases lines.len(),
{
    if lines.len() == 0 {
        Seq::empty()
    } else {
        let ev = step_spec(target, lines[0]);
        if line_wins(target, lines[0]) {
            seq![ev]
        } else {
            seq![ev] + session_spec(target, lines.drop_first())
        }
    }
}

/// Law: every guess is answered with the feedback that matches its order
/// against the target: strictly below earns `TooSmall`, strictly above earns
/// `TooBig`, and equality alone earns `Win`.
pub proof fn lemma_feedback_direction(g: u32, t: u32)
    requires
        1 <= g <= 100,
    ensures
        g < t ==> feedback_spec(g, t) == Feedback::TooSmall,
        g > t ==> feedback_spec(g, t) == Feedback::TooBig,
        g == t ==> feedback_spec(g, t) == Feedback::Win,
{
}

/// Law: an unparseable line is answered with a bare rejection and leaves the
/// rest of the session exactly as it would have been without that line; the
/// target, a parameter here, is untouched.
pub proof fn lemma_rejected_line_preserves_session(t: u32, bad: Seq<char>, rest: Seq<Seq<char>>)
    requires
        parse_spec(bad) is None,
    ensures
        session_spec(t, seq![bad] + rest) == seq![StepOutcome::Rejected] + session_spec(t, rest),
{
    let lines = seq![bad] + rest;
    assert(lines[0] == bad);
    assert(step_spec(t, bad) == StepOutcome::Rejected);
    assert(!line_wins(t, bad));
    assert(lines.drop_first() =~= rest);
}

/// Law: a script whose first winning line stands at position `k` ends the
/// session right there: exactly `k + 1` lines are consumed, each consumed
/// line earns its own outcome, and the last outcome is the winning judgment.
pub proof fn lemma_session_terminates(t: u32, lines: Seq<Seq<char>>, k: int)
    requires
        0 <= k < lines.len(),
        line_wins(t, lines[k]),
        forall|j: int| 0 <= j < k ==> !line_wins(t, lines[j]),
    ensures
        session_spec(t, lines).len() == k + 1,
        session_spec(t, lines).last() == StepOutcome::Judged(t, Feedback::Win),
        forall|j: int| 0 <= j <= k ==> session_spec(t, lines)[j] == step_spec(t, lines[j]),
    decreases k,
{
    if k == 0 {
        assert(session_spec(t, lines) =~= seq![step_spec(t, lines[0])]);
    } else {
        let rest = lines.drop_first();
        assert(forall|j: int| 0 <= j < rest.len() ==> rest[j] == lines[j + 1]);
        lemma_session_terminates(t, rest, k - 1);
        assert(session_spec(t, lines) =~= seq![step_spec(t, lines[0])] + session_spec(t, rest));
    }
}

/// Law: a script with no winning line never ends the session: every line is
/// consumed, each earns its own outcome, and no outcome is the winning
/// judgment.
pub proof fn lemma_session_runs_on(t: u32, lines: Seq<Seq<char>>)
    requires
        forall|j: int| 0 <= j < lines.len() ==> !line_wins(t, lines[j]),
    ensures
        session_spec(t, lines).len() == lines.len(),
        forall|j: int|
            0 <= j < lines.len() ==> session_spec(t, lines)[j] == step_spec(t, lines[j]),
        forall|j: int|
            0 <= j < lines.len() ==> session_spec(t, lines)[j] != StepOutcome::Judged(
                t,
                Feedback::Win,
            ),
    decreases lines.len(),
{
    if lines.len() > 0 {
        let rest = lines.drop_first();
        assert(forall|j: int| 0 <= j < rest.len() ==> rest[j] == lines[j + 1]);
        lemma_session_runs_on(t, rest);
        assert(session_spec(t, lines) =~= seq![step_spec(t, lines[0])] + session_spec(t, rest));
    }
}

/// Relies on rand::Rng::gen_range over a non-empty inclusive range: the
/// sample lies within the given bounds.
#[verifier::external_body]
fn random_in_range(lo: u32, hi: u32) -> (r: u32)
    requires
        lo <= hi,
    ensures
        lo <= r <= hi,
{
    rand::Rng::gen_range(&mut rand::thread_rng(), lo..=hi)
}

/// A game session: a secret target drawn once, immutable afterwards.
pub struct Game {
    target: u32,
}

impl Game {
    /// The secret target of this session.
    pub closed spec fn target_spec(&self) -> u32 {
        self.target
    }

    /// A well-formed session keeps its target inside the closed range [1, 100].
    pub open spec fn wf(&self) -> bool {
        1 <= self.target_spec() <= 100
    }

    /// Starts a session with a random target in [1, 100].
    pub fn new() -> (g: Game)
        ensures
            g.wf(),
    {
        Game { target: random_in_range(1, 100) }
    }

    /// Starts a session with a chosen target: the seam that lets callers
    /// substitute a deterministic value for true randomness.
    pub fn with_target(target: u32) -> (g: Game)
        requires
            1 <= target <= 100,
        ensures
            g.wf(),
            g.target_spec() == target,
    {
        Game { target }
    }

    /// The target, revealed (for use once the session is over).
    pub fn target(&self) -> (t: u32)
        ensures
            t == self.target_spec(),
    {
        self.target
    }

    /// Judges one line of input: parses it and, when it parses, compares the
    /// guess against the target. The session itself is left unchanged.
    pub fn step(&self, line: &str) -> (r: StepOutcome)
        ensures
            r == step_spec(self.target_spec(), line@),
    {
        match parse_guess(line) {
            Option::None => StepOutcome::Rejected,
            Option::Some(g) => StepOutcome::Judged(g, compare_guess(g, self.target)),
        }
    }

    /// Feeds a script of lines to the session in order, stopping right after
    /// a winning line, and returns the outcome of every consumed line.
    pub fn play_script(&self, lines: &Vec<String>) -> (r: Vec<StepOutcome>)
        ensures
            r@ == session_spec(self.target_spec(), lines@.map_values(|l: String| l@)),
    {
        let ghost lv = lines@.map_values(|l: String| l@);
        let mut r: Vec<StepOutcome> = Vec::new();
        let mut i: usize = 0;
        proof {
            assert(lv.skip(0) =~= lv);
            assert(r@ + session_spec(self.target_spec(), lv) =~= session_spec(
                self.target_spec(),
                lv,
            ));
        }
        while i < lines.len()
            invariant
                0 <= i <= lines.len(),
                lv == lines@.map_values(|l: String| l@),
                lv.len() == lines@.len(),
                session_spec(self.target_spec(), lv) == r@ + session_spec(
                    self.target_spec(),
                    lv.skip(i as int),
                ),
                forall|k: int| 0 <= k < i ==> !line_wins(self.target_spec(), lv[k]),
            decreases lines.len() - i,
        {
            let ev = self.step(lines[i].as_str());
            proof {
                assert(lv.skip(i as int)[0] == lv[i as int]);
                assert(lv.skip(i as int).drop_first() =~= lv.skip(i + 1));
            }
            r.push(ev);
            if let StepOutcome::Judged(_, Feedback::Win) = ev {
                proof {
                    assert(feedback_spec(parse_spec(lv[i as int])->Some_0, self.target_spec())
                        == Feedback::Win);
                    assert(line_wins(self.target_spec(), lv[i as int]));
                    assert(session_spec(self.target_spec(), lv.skip(i as int)) =~= seq![ev]);
                }
                return r;
            }
            proof {
                assert(!line_wins(self.target_spec(), lv[i as int]));
                assert(session_spec(self.target_spec(), lv.skip(i as int)) =~= seq![ev]
                    + session_spec(self.target_spec(), lv.skip(i + 1)));
            }
            i = i + 1;
        }
        proof {
            assert(lv.skip(lv.len() as int) =~= Seq::<Seq<char>>::empty());
            assert(r@ =~= r@ + Seq::<StepOutcome>::empty());
        }
        r
    }
}

} // verus!
