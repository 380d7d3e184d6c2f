//! The bot core: nick generation, command extraction and routing, and
//! the lifecycle of the single shared poll slot.

use vstd::prelude::*;
use crate::context::{
    spec_message, spec_reply_route, ContextView, Directive, DirectiveView, MessageContext,
    UserError,
};
use crate::poll::{spec_eval, spec_parse, vote_recorded, Poll, PollView};
use crate::text::{
    find_ws, parse_u64, spec_all_digits, spec_dec, spec_find_ws, spec_num, spec_starts_with,
    spec_trim, starts_with, str_eq, trim, u64_to_string,
};

verus! {

/// Yields a base nickname first, then numbered variants of it, for
/// retrying a taken nick.
pub struct NickGenerator {
    pub basename: String,
    pub attempt: u64,
}

impl NickGenerator {
    /// The next nickname to try: the base name on the first attempt,
    /// then the base name with the attempt number appended.
    pub fn next(&mut self) -> (r: Option<String>)
        requires
            old(self).attempt < u64::MAX,
        ensures
            final(self).attempt == old(self).attempt + 1,
            final(self).basename == old(self).basename,
            match r {
                Some(s) => s@ == if old(self).attempt + 1 > 1 {
                    old(self).basename@ + spec_dec((old(self).attempt + 1) as nat)
                } else {
                    old(self).basename@
                },
                None => false,
            },
    {
        self.attempt = self.attempt + 1;
        if self.attempt > 1 {
            let mut s = self.basename.clone();
            let n = u64_to_string(self.attempt);
            s.append(n.as_str());
            Some(s)
        } else {
            Some(self.basename.clone())
        }
    }
}

/// What a command line maps to.
#[derive(Clone, Copy, PartialEq, Eq, Debug)]
pub enum Action {
    /// Terminate the connection.
    Kill,
    /// Start a poll from the argument string.
    StartPoll,
    /// Record a vote.
    Vote,
    /// End the running poll now.
    EndPoll,
    /// Anything else: answered privately as unknown.
    Unknown,
}

/// The fixed routing table: `kill`, `poll`, `vote` and `endpoll` have
/// handlers; every other command is unknown.
pub open spec fn spec_route(cmd: Seq<char>) -> Action {
    if cmd == "kill"@ {
        Action::Kill
    } else if cmd == "poll"@ {
        Action::StartPoll
    } else if cmd == "vote"@ {
        Action::Vote
    } else if cmd == "endpoll"@ {
        Action::EndPoll
    } else {
        Action::Unknown
    }
}

/// Maps a command name to its action.
pub fn route(cmd: &str) -> (r: Action)
    ensures
        r == spec_route(cmd@),
{
    if str_eq(cmd, "kill") {
        Action::Kill
    } else if str_eq(cmd, "poll") {
        Action::StartPoll
    } else if str_eq(cmd, "vote") {
        Action::Vote
    } else if str_eq(cmd, "endpoll") {
        Action::EndPoll
    } else {
        Action::Unknown
    }
}

/// What extracting a command from a line yields: nothing unless the
/// line starts with the marker; otherwise the first
/// whitespace-delimited token after the marker, and the rest trimmed
/// of surrounding whitespace (empty when absent).
pub open spec fn spec_extract(text: Seq<char>, marker: Seq<char>) -> Option<(Seq<char>, Seq<char>)> {
    if !spec_starts_with(text, marker) {
        None
    } else {
        let rest = text.skip(marker.len() as int);
        let f = spec_find_ws(rest);
        if f < 0 {
            Some((rest, Seq::<char>::empty()))
        } else {
            Some((rest.take(f), spec_trim(rest.skip(f + 1))))
        }
    }
}

/// A started poll, as handed back to the caller: the notices that
/// announce it, its duration, and the ticket its expiry timer must
/// present.
#[derive(Debug)]
pub struct PollStarted {
    pub announcements: Vec<String>,
    pub minutes: u64,
    pub ticket: u64,
}

/// The notices announcing a new poll: its question, then each answer
/// label with its 1-based number.
pub open spec fn spec_announcements(p: PollView) -> Seq<Seq<char>> {
    seq!["Poll started: "@ + p.name] + Seq::new(
        p.answers.len(),
        |i: int| "  "@ + spec_dec((i + 1) as nat) + ": "@ + p.answers[i].name,
    )
}

/// A request to schedule a background expiry timer.
#[derive(Clone, Copy, PartialEq, Eq, Debug)]
pub struct TimerRequest {
    pub ticket: u64,
    pub minutes: u64,
}

/// Everything a handled command asks of its surroundings: the notices
/// to send in order, whether to terminate the connection, and the
/// expiry timer to schedule.
#[derive(Debug)]
pub struct Handled {
    pub directives: Vec<Directive>,
    pub quit: bool,
    pub timer: Option<TimerRequest>,
}

/// Channel notices carrying the given texts, in order.
pub open spec fn spec_channel_notices(channel: Seq<char>, msgs: Seq<Seq<char>>) -> Seq<
    DirectiveView,
> {
    Seq::new(msgs.len(), |j: int| DirectiveView::Channel { channel: channel, text: msgs[j] })
}

/// The bot: the command marker, the announcement channel, and the
/// shared poll slot with its generation counter.  The counter tags the
/// poll instance occupying the slot, so a superseded expiry timer can
/// recognise that its poll is gone.
pub struct Bot {
    cmd_marker: String,
    channel: String,
    poll: Option<Poll>,
    generation: u64,
}

/// The mathematical value of a [`Bot`].
#[verifier::ext_equal]
pub struct BotView {
    pub cmd_marker: Seq<char>,
    pub channel: Seq<char>,
    pub poll: Option<PollView>,
    pub generation: nat,
}

impl View for Bot {
    type V = BotView;

    closed spec fn view(&self) -> BotView {
        BotView {
            cmd_marker: self.cmd_marker@,
            channel: self.channel@,
            poll: match &self.poll {
                Some(p) => Some(p@),
                None => None,
            },
            generation: self.generation as nat,
        }
    }
}

/// Whether the slot state lets a timer with ticket `ticket` act: only
/// when a poll is present and it is the very instance the ticket was
/// issued for.
pub open spec fn spec_expire_fires(b: BotView, ticket: u64) -> bool {
    b.poll is Some && b.generation == ticket as nat
}

/// The slot state after a successful explicit end: cleared, everything
/// else unchanged.
pub open spec fn spec_after_end(b: BotView) -> BotView {
    BotView { poll: None, ..b }
}

/// An explicit end clears the slot, so the ended poll's own expiry
/// timer — or any other — finds nothing to act on and emits nothing: a
/// poll is evaluated exactly once.
pub proof fn lemma_expire_after_end(b: BotView, ticket: u64)
    ensures
        !spec_expire_fires(spec_after_end(b), ticket),
{
}

/// What a vote with argument string `args` does to slot state `b`: the
/// chosen 0-based index when the vote counts, else the error it is
/// answered with.  A non-numeric argument is a usage error, an empty
/// slot rejects every vote, and a number outside `1..=num_answers`
/// is out of range.
pub open spec fn spec_vote_outcome(b: BotView, args: Seq<char>) -> Result<int, UserError> {
    let f = spec_trim(args);
    if !(spec_all_digits(f) && spec_num(f) <= u64::MAX) {
        Err(UserError::VoteUsage)
    } else if b.poll is None {
        Err(UserError::NoPollRunning)
    } else {
        let pv = b.poll->0;
        let v = spec_num(f);
        if 1 <= v && v <= pv.answers.len() {
            Ok(v - 1)
        } else {
            Err(UserError::OutOfRange { num_answers: pv.answers.len() as u64 })
        }
    }
}

/// Whatever `args` holds, a vote with it can be answered: where the
/// vote counts, the chosen answer's counter is below the
/// representation limit; on every error path nothing is asked.
pub open spec fn vote_headroom(b: BotView, args: Seq<char>) -> bool {
    match spec_vote_outcome(b, args) {
        Ok(i) => b.poll->0.answers[i].supporters < u64::MAX,
        Err(_) => true,
    }
}

/// The slot state after a counted vote for 0-based answer `i`.
pub open spec fn spec_after_vote(b: BotView, i: int) -> BotView {
    BotView {
        poll: Some(PollView { answers: vote_recorded(b.poll->0.answers, i), ..b.poll->0 }),
        ..b
    }
}

/// A counted vote mutates the poll in the slot in place: the slot keeps
/// its generation, so the instance that a pending expiry timer will
/// evaluate is the very one the vote went into, and the vote is part of
/// whichever evaluation — explicit or timed — later clears the slot.
pub proof fn lemma_vote_keeps_instance(b: BotView, i: int, ticket: u64)
    requires
        b.poll is Some,
        0 <= i < b.poll->0.answers.len(),
    ensures
        spec_after_vote(b, i).generation == b.generation,
        spec_expire_fires(spec_after_vote(b, i), ticket) == spec_expire_fires(b, ticket),
        spec_after_vote(b, i).poll->0.answers == vote_recorded(b.poll->0.answers, i),
{
}

/// No supporter count is at the representation limit, so one more
/// vote can be counted.
pub open spec fn votes_countable(b: BotView) -> bool {
    match b.poll {
        Some(p) => forall|j: int|
            0 <= j < p.answers.len() ==> #[trigger] p.answers[j].supporters < u64::MAX,
        None => true,
    }
}

/// The runtime-testable condition [`Bot::can_count_votes`] checks is
/// enough headroom for a vote with any argument.
pub proof fn lemma_countable_gives_headroom(b: BotView, args: Seq<char>)
    requires
        votes_countable(b),
    ensures
        vote_headroom(b, args),
{
    if spec_vote_outcome(b, args) is Ok {
        let i = spec_vote_outcome(b, args)->Ok_0;
        assert(b.poll->0.answers[i].supporters < u64::MAX);
    }
}

impl Bot {
    /// A bot with an empty poll slot.
    pub fn new(cmd_marker: String, channel: String) -> (r: Bot)
        ensures
            r@ == (BotView {
                cmd_marker: cmd_marker@,
                channel: channel@,
                poll: None,
                generation: 0,
            }),
    {
        Bot { cmd_marker, channel, poll: None, generation: 0 }
    }

    /// The channel the bot announces on.
    pub fn channel(&self) -> (r: &str)
        ensures
            r@ == self@.channel,
    {
        self.channel.as_str()
    }

    /// The generation currently stamped on the slot.
    pub fn generation(&self) -> (r: u64)
        ensures
            r as nat == self@.generation,
    {
        self.generation
    }

    /// Whether one more vote can be counted, whatever the choice.
    pub fn can_count_votes(&self) -> (r: bool)
        ensures
            r == votes_countable(self@),
    {
        match &self.poll {
            None => true,
            Some(p) => {
                let r = p.no_answer_at_limit();
                proof {
                    let pv = self@.poll->0;
                    assert(pv.answers == p@.answers);
                    if r {
                        assert forall|j: int|
                            0 <= j < pv.answers.len() implies #[trigger] pv.answers[j].supporters
                            < u64::MAX by {
                            assert(p@.answers[j].supporters < u64::MAX);
                        }
                    } else {
                        let j = choose|j: int|
                            0 <= j < p@.answers.len() && !(#[trigger] p@.answers[j].supporters
                                < u64::MAX);
                        assert(!(pv.answers[j].supporters < u64::MAX));
                    }
                }
                r
            },
        }
    }


    fn channel_notices(&self, msgs: &Vec<String>) -> (r: Vec<Directive>)
        ensures
            r@.map_values(|d: Directive| d@) == spec_channel_notices(
                self@.channel,
                msgs.deep_view(),
            ),
    {
        let mut out: Vec<Directive> = Vec::new();
        let mut i: usize = 0;
        while i < msgs.len()
            invariant
                0 <= i <= msgs.len(),
                msgs@.len() == msgs.deep_view().len(),
                out@.map_values(|d: Directive| d@) =~~= spec_channel_notices(
                    self@.channel,
                    msgs.deep_view(),
                ).take(i as int),
            decreases msgs.len() - i,
        {
            let d = Directive::Channel { channel: self.channel.clone(), text: msgs[i].clone() };
            let ghost prev = out@.map_values(|dd: Directive| dd@);
            out.push(d);
            proof {
                let m = out@.map_values(|dd: Directive| dd@);
                let all = spec_channel_notices(self@.channel, msgs.deep_view());
                let w = all.take(i + 1);
                assert(all.len() == msgs@.len());
                assert(prev.len() == i as int);
                assert(m.len() == i + 1);
                assert(w.len() == i + 1);
                assert(m.len() == w.len());
                assert forall|j: int| 0 <= j < m.len() implies m[j] == w[j] by {
                    if j < i {
                        assert(prev[j] == spec_channel_notices(
                            self@.channel,
                            msgs.deep_view(),
                        ).take(i as int)[j]);
                    }
                }
                assert(m =~~= w);
            }
            i = i + 1;
        }
        proof {
            let all = spec_channel_notices(self@.channel, msgs.deep_view());
            assert(all.take(msgs@.len() as int) =~= all);
        }
        out
    }

    /// Handles one extracted command: routes it by name, runs the
    /// matching handler on the slot, and hands back the notices to
    /// send, the expiry timer to schedule, and whether to terminate.
    /// Errors are answered over the context's normal reply route; the
    /// vote confirmation and the unknown-command answer go privately
    /// to the sender; announcements and results go to the channel.
    pub fn handle_command(&mut self, cmd: &str, args: &str, ctx: &MessageContext) -> (r: Handled)
        requires
            spec_route(cmd@) == Action::StartPoll ==> old(self)@.generation < u64::MAX,
            spec_route(cmd@) == Action::Vote ==> vote_headroom(old(self)@, args@),
        ensures
            ({
                let dirs = r.directives@.map_values(|d: Directive| d@);
                match spec_route(cmd@) {
                    Action::Kill => r.quit && final(self)@ == old(self)@ && dirs
                        == Seq::<DirectiveView>::empty() && r.timer is None,
                    Action::StartPoll => !r.quit && match spec_parse(args@) {
                        Ok(pv) => final(self)@ == (BotView {
                            poll: Some(pv),
                            generation: old(self)@.generation + 1,
                            ..old(self)@
                        }) && dirs == spec_channel_notices(
                            old(self)@.channel,
                            spec_announcements(pv),
                        ) && r.timer == Some(
                            TimerRequest {
                                ticket: (old(self)@.generation + 1) as u64,
                                minutes: pv.duration as u64,
                            },
                        ),
                        Err(_) => final(self)@ == old(self)@ && dirs == seq![
                            spec_reply_route(ctx@, spec_message(UserError::PollUsage)),
                        ] && r.timer is None,
                    },
                    Action::Vote => !r.quit && r.timer is None && match spec_vote_outcome(
                        old(self)@,
                        args@,
                    ) {
                        Ok(i) => final(self)@ == spec_after_vote(old(self)@, i) && dirs == seq![
                            DirectiveView::Private { nick: ctx@.sender, text: "vote counted"@ },
                        ],
                        Err(e) => final(self)@ == old(self)@ && dirs == seq![
                            spec_reply_route(ctx@, spec_message(e)),
                        ],
                    },
                    Action::EndPoll => !r.quit && r.timer is None && match old(self)@.poll {
                        Some(pv) => final(self)@ == spec_after_end(old(self)@) && dirs
                            == spec_channel_notices(old(self)@.channel, spec_eval(pv)),
                        None => final(self)@ == old(self)@ && dirs == seq![
                            spec_reply_route(ctx@, spec_message(UserError::NoPollRunning)),
                        ],
                    },
                    Action::Unknown => !r.quit && r.timer is None && final(self)@ == old(self)@
                        && dirs == seq![
                        DirectiveView::Private {
                            nick: ctx@.sender,
                            text: "unknown command: "@ + cmd@,
                        },
                    ],
                }
            }),
    {
        match route(cmd) {
            Action::Kill => {
                let r = Handled { directives: Vec::new(), quit: true, timer: None };
                proof {
                    assert(r.directives@.map_values(|d: Directive| d@)
                        =~= Seq::<DirectiveView>::empty());
                }
                r
            },
            Action::StartPoll => {
                match self.start_poll(args) {
                    Ok(st) => {
                        let directives = self.channel_notices(&st.announcements);
                        let timer = Some(TimerRequest { ticket: st.ticket, minutes: st.minutes });
                        Handled { directives, quit: false, timer }
                    },
                    Err(e) => {
                        let mut directives: Vec<Directive> = Vec::new();
                        directives.push(ctx.reply(e.message().as_str()));
                        proof {
                            assert(directives@.map_values(|d: Directive| d@) =~~= seq![
                                spec_reply_route(ctx@, spec_message(UserError::PollUsage)),
                            ]);
                        }
                        Handled { directives, quit: false, timer: None }
                    },
                }
            },
            Action::Vote => {
                match self.vote(args) {
                    Ok(confirmation) => {
                        let mut directives: Vec<Directive> = Vec::new();
                        directives.push(ctx.private_reply(confirmation.as_str()));
                        proof {
                            assert(directives@.map_values(|d: Directive| d@) =~~= seq![
                                DirectiveView::Private {
                                    nick: ctx@.sender,
                                    text: "vote counted"@,
                                },
                            ]);
                        }
                        Handled { directives, quit: false, timer: None }
                    },
                    Err(e) => {
                        let mut directives: Vec<Directive> = Vec::new();
                        directives.push(ctx.reply(e.message().as_str()));
                        proof {
                            assert(directives@.map_values(|d: Directive| d@) =~~= seq![
                                spec_reply_route(ctx@, spec_message(e)),
                            ]);
                        }
                        Handled { directives, quit: false, timer: None }
                    },
                }
            },
            Action::EndPoll => {
                match self.end_poll() {
                    Ok(msgs) => {
                        let directives = self.channel_notices(&msgs);
                        proof {
                            assert(self@.channel == old(self)@.channel);
                        }
                        Handled { directives, quit: false, timer: None }
                    },
                    Err(e) => {
                        let mut directives: Vec<Directive> = Vec::new();
                        directives.push(ctx.reply(e.message().as_str()));
                        proof {
                            assert(directives@.map_values(|d: Directive| d@) =~~= seq![
                                spec_reply_route(ctx@, spec_message(UserError::NoPollRunning)),
                            ]);
                        }
                        Handled { directives, quit: false, timer: None }
                    },
                }
            },
            Action::Unknown => {
                let mut text = "unknown command: ".to_owned();
                text.append(cmd);
                let mut directives: Vec<Directive> = Vec::new();
                directives.push(ctx.private_reply(text.as_str()));
                proof {
                    assert(directives@.map_values(|d: Directive| d@) =~~= seq![
                        DirectiveView::Private {
                            nick: ctx@.sender,
                            text: "unknown command: "@ + cmd@,
                        },
                    ]);
                }
                Handled { directives, quit: false, timer: None }
            },
        }
    }

    /// Splits a line into a command name and its argument string, if
    /// the line starts with the command marker.
    pub fn is_command<'a>(&self, text: &'a str) -> (r: Option<(&'a str, &'a str)>)
        ensures
            match r {
                Some((cmd, args)) => spec_extract(text@, self@.cmd_marker) == Some(
                    (cmd@, args@),
                ),
                None => spec_extract(text@, self@.cmd_marker) is None,
            },
    {
        if !starts_with(text, self.cmd_marker.as_str()) {
            return None;
        }
        let m = self.cmd_marker.unicode_len();
        let n = text.unicode_len();
        let rest = text.substring_char(m, n);
        proof {
            assert(rest@ == text@.skip(m as int));
        }
        match find_ws(rest) {
            None => {
                let args = rest.substring_char(rest.unicode_len(), rest.unicode_len());
                proof {
                    assert(args@ =~= Seq::<char>::empty());
                }
                Some((rest, args))
            },
            Some(f) => {
                let cmd = rest.substring_char(0, f);
                let raw = rest.substring_char(f + 1, rest.unicode_len());
                let args = trim(raw);
                proof {
                    assert(cmd@ == text@.skip(m as int).take(f as int));
                    assert(raw@ == text@.skip(m as int).skip(f as int + 1));
                }
                Some((cmd, args))
            },
        }
    }

    /// Parses a poll specification and, on success, installs the new
    /// poll in the slot under a fresh generation, handing back its
    /// announcement notices, its duration and the ticket for its
    /// expiry timer.  A specification that does not parse is answered
    /// with the usage hint and changes nothing.
    pub fn start_poll(&mut self, args: &str) -> (r: Result<PollStarted, UserError>)
        requires
            old(self)@.generation < u64::MAX,
        ensures
            match r {
                Ok(st) => spec_parse(args@) is Ok && {
                    let pv = spec_parse(args@)->Ok_0;
                    final(self)@ == (BotView {
                        poll: Some(pv),
                        generation: old(self)@.generation + 1,
                        ..old(self)@
                    }) && st.ticket as nat == old(self)@.generation + 1 && st.minutes as nat
                        == pv.duration && st.announcements.deep_view() == spec_announcements(pv)
                },
                Err(e) => spec_parse(args@) is Err && e == UserError::PollUsage && final(self)@
                    == old(self)@,
            },
    {
        let new_poll = match Poll::parse(args) {
            Ok(p) => p,
            Err(_) => {
                return Err(UserError::PollUsage);
            },
        };
        let ghost pv = new_poll@;
        let minutes = new_poll.duration();
        let n = new_poll.num_answers();
        let labels = new_poll.answers();
        let mut announcements: Vec<String> = Vec::new();
        let mut head = "Poll started: ".to_owned();
        head.append(new_poll.name());
        announcements.push(head);
        proof {
            assert(announcements.deep_view() =~= spec_announcements(pv).take(1));
        }
        let mut i: usize = 0;
        while i < n
            invariant
                0 <= i <= n,
                n == pv.answers.len(),
                labels@.len() == n,
                forall|j: int| 0 <= j < n ==> #[trigger] labels@[j].1@ == pv.answers[j].name,
                announcements.deep_view() =~~= spec_announcements(pv).take(i + 1),
            decreases n - i,
        {
            let mut line = "  ".to_owned();
            let pos = u64_to_string((i as u64) + 1);
            line.append(pos.as_str());
            line.append(": ");
            line.append(labels[i].1.as_str());
            proof {
                assert(line@ == spec_announcements(pv)[i as int + 1]);
            }
            let ghost prev = announcements.deep_view();
            announcements.push(line);
            proof {
                let m = announcements.deep_view();
                let w = spec_announcements(pv).take(i + 2);
                assert(spec_announcements(pv).len() == n + 1);
                assert(prev.len() == i + 1);
                assert(m.len() == w.len());
                assert forall|j: int| 0 <= j < m.len() implies m[j] == w[j] by {
                    if j < i + 1 {
                        assert(prev[j] == spec_announcements(pv).take(i + 1)[j]);
                    }
                }
                assert(m =~= w);
            }
            i = i + 1;
        }
        proof {
            assert(spec_announcements(pv).take(n as int + 1) =~= spec_announcements(pv));
        }
        self.poll = Some(new_poll);
        self.generation = self.generation + 1;
        let ticket = self.generation;
        Ok(PollStarted { announcements, minutes, ticket })
    }

    /// Records a vote given as a 1-based answer number.  A non-numeric
    /// argument, an empty slot, and an out-of-range number are each
    /// answered with their own error and change nothing; otherwise the
    /// chosen answer of the poll in the slot gains exactly one
    /// supporter and the confirmation text is handed back for a
    /// private reply.
    pub fn vote(&mut self, args: &str) -> (r: Result<String, UserError>)
        requires
            vote_headroom(old(self)@, args@),
        ensures
            match spec_vote_outcome(old(self)@, args@) {
                Ok(i) => r is Ok && r->Ok_0@ == "vote counted"@ && final(self)@
                    == spec_after_vote(old(self)@, i),
                Err(e) => r == Err::<String, UserError>(e) && final(self)@ == old(self)@,
            },
    {
        let f = trim(args);
        let v = match parse_u64(f) {
            Some(v) => v,
            None => {
                return Err(UserError::VoteUsage);
            },
        };
        let poll = match &mut self.poll {
            Some(p) => p,
            None => {
                return Err(UserError::NoPollRunning);
            },
        };
        let n = poll.num_answers();
        proof {
            assert(n <= usize::MAX);
        }
        if v < 1 || v > (n as u64) {
            return Err(UserError::OutOfRange { num_answers: n as u64 });
        }
        let idx = (v - 1) as usize;
        proof {
            assert(spec_vote_outcome(old(self)@, args@) == Ok::<int, UserError>(idx as int));
        }
        poll.add_vote(idx);
        Ok("vote counted".to_owned())
    }

    /// Ends the poll now: clears the slot and hands back the result
    /// notices of the poll that occupied it.  With an empty slot it
    /// answers that no poll is running and changes nothing.
    pub fn end_poll(&mut self) -> (r: Result<Vec<String>, UserError>)
        ensures
            match r {
                Ok(msgs) => old(self)@.poll is Some && msgs.deep_view() == spec_eval(
                    old(self)@.poll->0,
                ) && final(self)@ == spec_after_end(old(self)@),
                Err(e) => old(self)@.poll is None && e == UserError::NoPollRunning
                    && final(self)@ == old(self)@,
            },
    {
        let mut slot: Option<Poll> = None;
        core::mem::swap(&mut self.poll, &mut slot);
        match slot {
            Some(p) => Ok(p.evaluate()),
            None => Err(UserError::NoPollRunning),
        }
    }

    /// The expiry timer's decision at fire time.  Only when the slot
    /// still holds the poll instance the ticket was issued for does it
    /// clear the slot and hand back the result notices; a slot already
    /// cleared or since refilled leaves everything unchanged and emits
    /// nothing.
    pub fn expire(&mut self, ticket: u64) -> (r: Option<Vec<String>>)
        ensures
            match r {
                Some(msgs) => spec_expire_fires(old(self)@, ticket) && msgs.deep_view()
                    == spec_eval(old(self)@.poll->0) && final(self)@ == spec_after_end(
                    old(self)@,
                ),
                None => !spec_expire_fires(old(self)@, ticket) && final(self)@ == old(self)@,
            },
    {
        if self.generation != ticket {
            return None;
        }
        let mut slot: Option<Poll> = None;
        core::mem::swap(&mut self.poll, &mut slot);
        match slot {
            Some(p) => Some(p.evaluate()),
            None => None,
        }
    }
}

} // verus!
