//! Polls: parsing a poll specification, recording votes, and rendering
//! the result notices.

use vstd::prelude::*;
use crate::text::{
    spec_all_digits, spec_dec, spec_fields, spec_num, parse_u64, split_fields, u64_to_string,
};

verus! {

/// One poll option: a label and the number of votes it has received.
pub struct Answer {
    pub supporters: u64,
    pub name: String,
}

/// The mathematical value of an [`Answer`].
#[verifier::ext_equal]
pub struct AnswerView {
    pub supporters: nat,
    pub name: Seq<char>,
}

impl View for Answer {
    type V = AnswerView;

    open spec fn view(&self) -> AnswerView {
        AnswerView { supporters: self.supporters as nat, name: self.name@ }
    }
}

/// A running poll: a question, at least two answers, and a duration in
/// minutes.
pub struct Poll {
    name: String,
    answers: Vec<Answer>,
    duration: u64,
}

/// The mathematical value of a [`Poll`].
#[verifier::ext_equal]
pub struct PollView {
    pub name: Seq<char>,
    pub answers: Seq<AnswerView>,
    pub duration: nat,
}

impl View for Poll {
    type V = PollView;

    closed spec fn view(&self) -> PollView {
        PollView {
            name: self.name@,
            answers: self.answers@.map_values(|a: Answer| a@),
            duration: self.duration as nat,
        }
    }
}

impl PollView {
    /// Every poll has at least two answers and a positive duration.
    pub open spec fn wf(self) -> bool {
        self.answers.len() >= 2 && self.duration >= 1
    }
}

/// Why a poll specification was rejected.
#[derive(Clone, Copy, PartialEq, Eq, Debug)]
pub enum ParseError {
    /// The first field is not a positive number of minutes.
    BadMinutes,
    /// The question field is missing or empty.
    EmptyQuestion,
    /// Fewer than two answer fields follow the question.
    TooFewAnswers,
}

/// Whether a trimmed minutes field is acceptable: a positive decimal
/// number that fits the duration representation.
pub open spec fn spec_minutes_ok(f: Seq<char>) -> bool {
    spec_all_digits(f) && 1 <= spec_num(f) && spec_num(f) <= i64::MAX as nat
}

/// What parsing a poll specification yields: the fields are split at
/// `'|'` and trimmed; the first must be a positive number of minutes,
/// the second a non-empty question, and at least two answer fields
/// must follow.  Every answer starts with no supporters.
pub open spec fn spec_parse(args: Seq<char>) -> Result<PollView, ParseError> {
    let fs = spec_fields(args);
    if !spec_minutes_ok(fs[0]) {
        Err(ParseError::BadMinutes)
    } else if fs.len() < 2 || fs[1].len() == 0 {
        Err(ParseError::EmptyQuestion)
    } else if fs.len() < 4 {
        Err(ParseError::TooFewAnswers)
    } else {
        Ok(
            PollView {
                name: fs[1],
                answers: fs.skip(2).map_values(|t: Seq<char>| AnswerView { supporters: 0, name: t }),
                duration: spec_num(fs[0]),
            },
        )
    }
}

/// The sum of all supporter counts.
pub open spec fn spec_total(answers: Seq<AnswerView>) -> nat
    decreases answers.len(),
{
    if answers.len() == 0 {
        0
    } else {
        spec_total(answers.drop_last()) + answers.last().supporters
    }
}

/// The answer sequence after one vote for answer `i`.
pub open spec fn vote_recorded(answers: Seq<AnswerView>, i: int) -> Seq<AnswerView> {
    answers.update(i, AnswerView { supporters: answers[i].supporters + 1, ..answers[i] })
}

/// Recording a vote for answer `i` raises the total by exactly one.
pub proof fn lemma_vote_updates_tally(answers: Seq<AnswerView>, i: int)
    requires
        0 <= i < answers.len(),
    ensures
        spec_total(vote_recorded(answers, i)) == spec_total(answers) + 1,
    decreases answers.len(),
{
    let up = answers.update(i, AnswerView { supporters: answers[i].supporters + 1, ..answers[i] });
    if i == answers.len() - 1 {
        assert(up.drop_last() =~= answers.drop_last());
    } else {
        lemma_vote_updates_tally(answers.drop_last(), i);
        assert(up.drop_last() =~= answers.drop_last().update(
            i,
            AnswerView { supporters: answers[i].supporters + 1, ..answers[i] },
        ));
        assert(up.last() == answers.last());
    }
}

/// One recorded vote, then an evaluation: the reported count of the
/// chosen answer rises by exactly one, every other answer is reported
/// unchanged, and the new total counts the new vote.  With
/// [`lemma_percent_nearest`], the percentage reported for each answer
/// equals `100 * supporters / total` of the new state, to within the
/// rounding of two decimal places.
pub proof fn lemma_vote_then_evaluate(answers: Seq<AnswerView>, i: int)
    requires
        0 <= i < answers.len(),
    ensures
        vote_recorded(answers, i).len() == answers.len(),
        vote_recorded(answers, i)[i].supporters == answers[i].supporters + 1,
        vote_recorded(answers, i)[i].name == answers[i].name,
        forall|j: int| 0 <= j < answers.len() && j != i ==> vote_recorded(answers, i)[j]
            == answers[j],
        spec_total(vote_recorded(answers, i)) == spec_total(answers) + 1,
{
    lemma_vote_updates_tally(answers, i);
}

/// No single answer has more supporters than the total.
pub proof fn lemma_elem_le_total(answers: Seq<AnswerView>, i: int)
    requires
        0 <= i < answers.len(),
    ensures
        answers[i].supporters <= spec_total(answers),
    decreases answers.len(),
{
    if i < answers.len() - 1 {
        lemma_elem_le_total(answers.drop_last(), i);
    }
}

/// The reported percentage in hundredths of a percent:
/// `100 * supporters / total`, rounded to the nearest hundredth.
pub open spec fn spec_percent_hundredths(s: nat, t: nat) -> nat
    recommends
        t >= 1,
{
    ((10000 * s + t / 2) as int / t as int) as nat
}

/// The rounding in `spec_percent_hundredths` is exact to within half a
/// hundredth of a percent: `|reported - 10000 * s / t| <= 1/2`, stated
/// without fractions.
pub proof fn lemma_percent_nearest(s: nat, t: nat)
    requires
        t >= 1,
    ensures
        2 * t * spec_percent_hundredths(s, t) <= 20000 * s + t,
        20000 * s <= 2 * t * spec_percent_hundredths(s, t) + t,
{
    let x = 10000 * s + t / 2;
    let q = x as int / t as int;
    vstd::arithmetic::div_mod::lemma_fundamental_div_mod(x as int, t as int);
    let r = x as int % t as int;
    vstd::arithmetic::div_mod::lemma_mod_bound(x as int, t as int);
    assert(x == q * t + r);
    assert(2 * t * q == 2 * (q * t)) by (nonlinear_arith);
    vstd::arithmetic::div_mod::lemma_fundamental_div_mod(t as int, 2);
    assert(2 * (q * t) == 2 * x - 2 * r);
}

/// The percentage rendered with two decimal places, from a value in
/// hundredths of a percent.
pub open spec fn spec_pct_chars(ph: nat) -> Seq<char> {
    spec_dec(ph / 100) + "."@ + (if ph % 100 < 10 {
        "0"@ + spec_dec(ph % 100)
    } else {
        spec_dec(ph % 100)
    })
}

/// The notice for a poll nobody answered.
pub open spec fn spec_no_response(name: Seq<char>) -> Seq<char> {
    "No response to '"@ + name + "'"@
}

/// The header notice of a poll result.
pub open spec fn spec_header(name: Seq<char>) -> Seq<char> {
    "Poll result for '"@ + name + "'"@
}

/// The result notice for one answer: its 1-based position, its label,
/// its count, and its percentage of all votes.
pub open spec fn spec_answer_line(pos: nat, a: AnswerView, total: nat) -> Seq<char> {
    "#"@ + spec_dec(pos) + ": "@ + a.name + ": "@ + spec_dec(a.supporters) + " votes ("@
        + spec_pct_chars(spec_percent_hundredths(a.supporters, total)) + "%)"@
}

/// All notices `evaluate` emits for a poll: a single no-response notice
/// when the total is zero, else a header followed by one line per
/// answer in the original order, numbered from 1.
pub open spec fn spec_eval(p: PollView) -> Seq<Seq<char>> {
    let t = spec_total(p.answers);
    if t == 0 {
        seq![spec_no_response(p.name)]
    } else {
        seq![spec_header(p.name)] + Seq::new(
            p.answers.len(),
            |i: int| spec_answer_line((i + 1) as nat, p.answers[i], t),
        )
    }
}

impl Poll {
    /// Parses a specification of the form
    /// `minutes|question|answer|answer[|answer...]`.
    pub fn parse(args: &str) -> (r: Result<Poll, ParseError>)
        ensures
            match r {
                Ok(p) => spec_parse(args@) == Ok::<PollView, ParseError>(p@) && p@.wf(),
                Err(e) => spec_parse(args@) == Err::<PollView, ParseError>(e),
            },
    {
        let fields = split_fields(args);
        let minutes = match parse_u64(fields[0].as_str()) {
            Some(v) if 1 <= v && v <= i64::MAX as u64 => v,
            _ => {
                return Err(ParseError::BadMinutes);
            },
        };
        if fields.len() < 2 || fields[1].unicode_len() == 0 {
            return Err(ParseError::EmptyQuestion);
        }
        if fields.len() < 4 {
            return Err(ParseError::TooFewAnswers);
        }
        let name = fields[1].clone();
        let mut answers: Vec<Answer> = Vec::new();
        let mut i: usize = 2;
        let ghost fs = spec_fields(args@);
        let ghost want = fs.skip(2).map_values(
            |t: Seq<char>| AnswerView { supporters: 0, name: t },
        );
        while i < fields.len()
            invariant
                2 <= i <= fields.len(),
                4 <= fields.len(),
                fields.deep_view() == fs,
                fields.len() == fs.len(),
                want == fs.skip(2).map_values(|t: Seq<char>| AnswerView { supporters: 0, name: t }),
                answers@.map_values(|a: Answer| a@) =~~= want.take(i - 2),
            decreases fields.len() - i,
        {
            let label = fields[i].clone();
            proof {
                assert(label@ == fields.deep_view()[i as int]);
                assert(want[i as int - 2] == AnswerView { supporters: 0, name: fs[i as int] });
            }
            let ghost pa = answers@;
            answers.push(Answer { supporters: 0, name: label });
            proof {
                let m = answers@.map_values(|a: Answer| a@);
                let w = want.take(i - 2 + 1);
                assert(answers@.len() == pa.len() + 1);
                assert(want.len() == fs.len() - 2);
                assert(pa.map_values(|a: Answer| a@).len() == pa.len());
                assert(pa.map_values(|a: Answer| a@).len() == i - 2);
                assert(w.len() == i - 2 + 1);
                assert(m.len() == w.len());
                assert forall|j: int| 0 <= j < m.len() implies m[j] == w[j] by {
                    if j < i - 2 {
                        assert(answers@[j] == pa[j]);
                        assert(pa.map_values(|a: Answer| a@)[j] == want.take(i - 2)[j]);
                    } else {
                        assert(answers@[j] == Answer { supporters: 0u64, name: label });
                    }
                }
                assert(m =~= w);
            }
            i = i + 1;
        }
        let poll = Poll { name, answers, duration: minutes };
        proof {
            assert(want.take(fs.len() - 2) =~= want);
            assert(poll@ == spec_parse(args@)->Ok_0);
        }
        Ok(poll)
    }

    fn total_votes(&self) -> (t: u128)
        ensures
            t as nat == spec_total(self@.answers),
    {
        let ghost ans = self@.answers;
        let mut acc: u128 = 0;
        let mut i: usize = 0;
        while i < self.answers.len()
            invariant
                0 <= i <= self.answers.len(),
                ans == self@.answers,
                ans.len() == self.answers.len(),
                acc as nat == spec_total(ans.take(i as int)),
                acc as nat <= i * (u64::MAX as nat),
            decreases self.answers.len() - i,
        {
            let s = self.answers[i].supporters;
            proof {
                assert(ans.take(i + 1).drop_last() =~= ans.take(i as int));
                assert(ans.take(i + 1).last() == ans[i as int]);
                assert(ans[i as int].supporters == s as nat);
                assert((i + 1) * (u64::MAX as nat) == i * (u64::MAX as nat) + u64::MAX as nat)
                    by (nonlinear_arith);
                assert(i * (u64::MAX as nat) <= (usize::MAX as nat) * (u64::MAX as nat))
                    by (nonlinear_arith)
                    requires
                        0 <= i <= usize::MAX,
                ;
                assert((usize::MAX as nat) * (u64::MAX as nat) < u128::MAX)
                    by (nonlinear_arith);
            }
            acc = acc + (s as u128);
            i = i + 1;
        }
        proof {
            assert(ans.take(ans.len() as int) =~= ans);
        }
        acc
    }

    /// Renders the poll's outcome as the notices to announce, in
    /// order: one no-response notice when nobody voted, else a header
    /// and one line per answer.  Does not change the poll.
    pub fn evaluate(&self) -> (r: Vec<String>)
        ensures
            r.deep_view() == spec_eval(self@),
            spec_total(self@.answers) == 0 ==> r@.len() == 1,
            spec_total(self@.answers) > 0 ==> r@.len() == 1 + self@.answers.len(),
    {
        let total = self.total_votes();
        let mut out: Vec<String> = Vec::new();
        if total == 0 {
            let mut m = "No response to '".to_owned();
            m.append(self.name.as_str());
            m.append("'");
            out.push(m);
            proof {
                assert(m@ == spec_no_response(self@.name));
                assert(out.deep_view() =~= spec_eval(self@));
            }
        } else {
            let mut h = "Poll result for '".to_owned();
            h.append(self.name.as_str());
            h.append("'");
            out.push(h);
            let ghost ans = self@.answers;
            let ghost t = spec_total(ans);
            let ghost goal = seq![spec_header(self@.name)] + Seq::new(
                ans.len(),
                |j: int| spec_answer_line((j + 1) as nat, ans[j], t),
            );
            proof {
                assert(out.deep_view() =~= goal.take(1));
            }
            let mut i: usize = 0;
            while i < self.answers.len()
                invariant
                    0 <= i <= self.answers.len(),
                    ans == self@.answers,
                    ans.len() == self.answers.len(),
                    t == spec_total(ans),
                    total as nat == t,
                    total > 0,
                    goal == seq![spec_header(self@.name)] + Seq::new(
                        ans.len(),
                        |j: int| spec_answer_line((j + 1) as nat, ans[j], t),
                    ),
                    out.deep_view() =~~= goal.take(i + 1),
                decreases self.answers.len() - i,
            {
                let a = &self.answers[i];
                let s = a.supporters;
                proof {
                    assert(ans[i as int] == a@);
                    lemma_elem_le_total(ans, i as int);
                    assert(10000 * (s as nat) <= 10000 * t) by (nonlinear_arith)
                        requires
                            s as nat <= t,
                    ;
                    assert(10000 * (t as int) + (t as int) / 2 < 10001 * (t as int))
                        by (nonlinear_arith)
                        requires
                            t >= 1,
                    ;
                }
                let x: u128 = 10000u128 * (s as u128) + total / 2;
                let ph: u128 = x / total;
                proof {
                    vstd::arithmetic::div_mod::lemma_fundamental_div_mod(
                        x as int,
                        total as int,
                    );
                    vstd::arithmetic::div_mod::lemma_mod_bound(x as int, total as int);
                    assert((total as int) * (ph as int) <= x);
                    assert(ph < 10001) by (nonlinear_arith)
                        requires
                            (total as int) * (ph as int) <= x,
                            x < 10001 * (total as int),
                            total >= 1,
                    ;
                    assert(ph as nat == spec_percent_hundredths(s as nat, t));
                }
                let pos: u64 = (i as u64) + 1;
                let mut line = "#".to_owned();
                let pos_s = u64_to_string(pos);
                line.append(pos_s.as_str());
                line.append(": ");
                line.append(a.name.as_str());
                line.append(": ");
                let cnt_s = u64_to_string(s);
                line.append(cnt_s.as_str());
                line.append(" votes (");
                let whole = u64_to_string((ph / 100) as u64);
                line.append(whole.as_str());
                line.append(".");
                let frac: u64 = (ph % 100) as u64;
                if frac < 10 {
                    line.append("0");
                }
                let frac_s = u64_to_string(frac);
                line.append(frac_s.as_str());
                line.append("%)");
                proof {
                    assert((ph / 100) as nat == spec_percent_hundredths(s as nat, t) / 100);
                    assert(frac as nat == spec_percent_hundredths(s as nat, t) % 100);
                    assert(line@ =~= spec_answer_line((i + 1) as nat, ans[i as int], t));
                }
                let ghost prev = out.deep_view();
                out.push(line);
                proof {
                    let m = out.deep_view();
                    let w = goal.take(i + 2);
                    assert(m.len() == prev.len() + 1);
                    assert(w.len() == i + 2);
                    assert forall|j: int| 0 <= j < m.len() implies m[j] == w[j] by {
                        if j < i + 1 {
                            assert(prev[j] == goal.take(i + 1)[j]);
                        } else {
                            assert(m[j] == line@);
                            assert(w[j] == goal[i + 1]);
                        }
                    }
                    assert(m =~= w);
                }
                i = i + 1;
            }
            proof {
                assert(goal.take(ans.len() as int + 1) =~= goal);
                assert(out.deep_view() =~= spec_eval(self@));
            }
        }
        out
    }

    /// The question the poll asks.
    pub fn name(&self) -> (r: &str)
        ensures
            r@ == self@.name,
    {
        self.name.as_str()
    }

    /// The answers in presentation order, each as its vote count and
    /// its label.
    pub fn answers(&self) -> (r: Vec<(u64, String)>)
        ensures
            r@.len() == self@.answers.len(),
            forall|i: int| 0 <= i < r@.len() ==> (#[trigger] r@[i]).0 == self@.answers[i].supporters
                && r@[i].1@ == self@.answers[i].name,
    {
        let mut out: Vec<(u64, String)> = Vec::new();
        let mut i: usize = 0;
        while i < self.answers.len()
            invariant
                0 <= i <= self.answers.len(),
                out@.len() == i,
                forall|j: int| 0 <= j < i ==> (#[trigger] out@[j]).0 == self@.answers[j].supporters
                    && out@[j].1@ == self@.answers[j].name,
            decreases self.answers.len() - i,
        {
            let a = &self.answers[i];
            out.push((a.supporters, a.name.clone()));
            i = i + 1;
        }
        out
    }

    /// Counts one more vote for answer `num` (0-based).  Callers must
    /// validate the range first.
    pub fn add_vote(&mut self, num: usize)
        requires
            num < old(self)@.answers.len(),
            old(self)@.answers[num as int].supporters < u64::MAX,
        ensures
            final(self)@.answers == old(self)@.answers.update(
                num as int,
                AnswerView {
                    supporters: old(self)@.answers[num as int].supporters + 1,
                    ..old(self)@.answers[num as int]
                },
            ),
            final(self)@.name == old(self)@.name,
            final(self)@.duration == old(self)@.duration,
    {
        let a = &mut self.answers[num];
        a.supporters = a.supporters + 1;
        proof {
            assert(final(self)@.answers =~= old(self)@.answers.update(
                num as int,
                AnswerView {
                    supporters: old(self)@.answers[num as int].supporters + 1,
                    ..old(self)@.answers[num as int]
                },
            ));
        }
    }

    /// Whether every answer can still count one more vote without
    /// reaching the representation limit.
    pub fn no_answer_at_limit(&self) -> (r: bool)
        ensures
            r == forall|j: int|
                0 <= j < self@.answers.len() ==> #[trigger] self@.answers[j].supporters
                    < u64::MAX,
    {
        let mut i: usize = 0;
        while i < self.answers.len()
            invariant
                0 <= i <= self@.answers.len(),
                self@.answers.len() == self.answers.len(),
                forall|j: int| 0 <= j < i ==> #[trigger] self@.answers[j].supporters < u64::MAX,
            decreases self.answers.len() - i,
        {
            if self.answers[i].supporters == u64::MAX {
                proof {
                    assert(self@.answers[i as int].supporters == u64::MAX);
                }
                return false;
            }
            i = i + 1;
        }
        true
    }

    /// The configured duration, in minutes.
    pub fn duration(&self) -> (r: u64)
        ensures
            r as nat == self@.duration,
    {
        self.duration
    }

    /// How many answers the poll offers.
    pub fn num_answers(&self) -> (r: usize)
        ensures
            r as nat == self@.answers.len(),
    {
        self.answers.len()
    }
}

} // verus!
