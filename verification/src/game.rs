//! One guessing session: a secret drawn once from a closed range, and a loop
//! body that turns each submitted line into a reply. A line that fails to
//! parse is discarded and the session waits for the next one; a parsed guess
//! is compared three ways against the secret, and only an equal guess ends
//! the session.
//!
//! Between submissions a session is either still waiting for input or has
//! been won; the comparison itself happens inside a single call to
//! [`Session::submit`] and never persists.

use vstd::prelude::*;
use crate::parse::parse_spec;
use crate::parse::parse_guess;
use crate::SECRET_MIN;
use crate::SECRET_MAX;

verus! {

/// The three-way result of holding a guess against the secret.
#[derive(Clone, Copy, Debug, PartialEq, Eq, Structural)]
pub enum Outcome {
    Less,
    Greater,
    Equal,
}

/// The outcome a guess earns against a secret.
pub open spec fn outcome_of(guess: u32, secret: u32) -> Outcome {
    if guess < secret {
        Outcome::Less
    } else if guess > secret {
        Outcome::Greater
    } else {
        Outcome::Equal
    }
}

/// Compare a guess against the secret three ways.
pub fn compare(guess: u32, secret: u32) -> (o: Outcome)
    ensures
        o == outcome_of(guess, secret),
{
    if guess < secret {
        Outcome::Less
    } else if guess > secret {
        Outcome::Greater
    } else {
        Outcome::Equal
    }
}

/// The three outcomes partition the guesses: against any secret, a guess
/// earns Less exactly when it is below, Greater exactly when it is above,
/// and Equal exactly when it matches, with no overlap and no gap.
pub proof fn lemma_outcome_partition(g: u32, s: u32)
    requires
        SECRET_MIN <= g <= SECRET_MAX,
        SECRET_MIN <= s <= SECRET_MAX,
    ensures
        outcome_of(g, s) == Outcome::Less <==> g < s,
        outcome_of(g, s) == Outcome::Greater <==> g > s,
        outcome_of(g, s) == Outcome::Equal <==> g == s,
{
}

/// Where a session stands between submissions.
#[derive(Clone, Copy, Debug, PartialEq, Eq, Structural)]
pub enum State {
    /// The session is waiting for the next line.
    AwaitingInput,
    /// An equal guess has been submitted; no further line is taken.
    Won,
}

/// What one submitted line earns: a parse failure notice, or the echoed
/// guess together with how it compared.
#[derive(Clone, Copy, Debug, PartialEq, Eq, Structural)]
pub enum Reply {
    /// The line did not read as a number; the session goes on.
    ParseError,
    /// The guess fell below the secret; the session goes on.
    TooLow(u32),
    /// The guess fell above the secret; the session goes on.
    TooHigh(u32),
    /// The guess matched the secret; the session is over.
    Won(u32),
}

/// What one line does to a waiting session: the state it leaves behind and
/// the reply it earns.
pub open spec fn step_spec(secret: u32, line: Seq<char>) -> (State, Reply) {
    match parse_spec(line) {
        None => (State::AwaitingInput, Reply::ParseError),
        Some(g) => match outcome_of(g, secret) {
            Outcome::Less => (State::AwaitingInput, Reply::TooLow(g)),
            Outcome::Greater => (State::AwaitingInput, Reply::TooHigh(g)),
            Outcome::Equal => (State::Won, Reply::Won(g)),
        },
    }
}

/// A session runs a sequence of lines from a starting state: a waiting
/// session answers each line in turn, and a won session answers nothing
/// more.
pub open spec fn run_spec(secret: u32, state: State, lines: Seq<Seq<char>>) -> (State, Seq<Reply>)
    decreases lines.len(),
{
    if lines.len() == 0 {
        (state, Seq::empty())
    } else if state != State::AwaitingInput {
        (state, Seq::empty())
    } else {
        let stepped = step_spec(secret, lines.first());
        let rest = run_spec(secret, stepped.0, lines.drop_first());
        (rest.0, seq![stepped.1] + rest.1)
    }
}

/// A line that fails to parse leaves a waiting session exactly where it
/// was: it is answered with the parse failure notice and the session has
/// not won.
pub proof fn lemma_malformed_keeps_waiting(secret: u32, line: Seq<char>)
    requires
        parse_spec(line) is None,
    ensures
        step_spec(secret, line).0 == State::AwaitingInput,
        step_spec(secret, line).1 == Reply::ParseError,
{
}

/// Parsing answers each line on its own: after any number of malformed
/// lines, every one of them answered with the parse failure notice, a
/// session is still waiting, and the next line is answered exactly as it
/// would have been first.
pub proof fn lemma_parse_survives_failures(secret: u32, bads: Seq<Seq<char>>, good: Seq<char>)
    requires
        forall|i: int| 0 <= i < bads.len() ==> parse_spec(#[trigger] bads[i]) is None,
    ensures
        run_spec(secret, State::AwaitingInput, bads.push(good)) == (
            step_spec(secret, good).0,
            Seq::new(bads.len(), |i: int| Reply::ParseError).push(step_spec(secret, good).1),
        ),
    decreases bads.len(),
{
    let all = bads.push(good);
    let want = Seq::new(bads.len(), |i: int| Reply::ParseError).push(step_spec(secret, good).1);
    if bads.len() == 0 {
        let stepped = step_spec(secret, good);
        assert(all.first() == good);
        assert(all.drop_first() =~= Seq::<Seq<char>>::empty());
        assert(run_spec(secret, stepped.0, Seq::<Seq<char>>::empty()) == (
            stepped.0,
            Seq::<Reply>::empty(),
        ));
        assert(seq![stepped.1] + Seq::<Reply>::empty() =~= want);
    } else {
        assert(all.first() == bads[0]);
        let stepped = step_spec(secret, all.first());
        assert(stepped.0 == State::AwaitingInput);
        assert(all.drop_first() =~= bads.drop_first().push(good));
        lemma_parse_survives_failures(secret, bads.drop_first(), good);
        let rest = run_spec(secret, State::AwaitingInput, bads.drop_first().push(good));
        assert(run_spec(secret, State::AwaitingInput, all) == (rest.0, seq![stepped.1] + rest.1));
        assert(seq![stepped.1] + rest.1 =~= want);
    }
}

/// One guessing session: the secret, fixed when the session is made, and
/// where the session stands.
pub struct Session {
    /// The target the player is trying to match; never changed once set.
    pub secret: u32,
    /// Whether the session still takes lines or has been won.
    pub state: State,
}

impl Session {
    /// A session is well formed when its secret lies in the closed range
    /// secrets are drawn from.
    pub open spec fn wf(self) -> bool {
        SECRET_MIN <= self.secret <= SECRET_MAX
    }

    /// Start a session around a given secret. Handing the secret in keeps
    /// the comparison logic testable with a fixed target.
    pub fn new(secret: u32) -> (s: Session)
        requires
            SECRET_MIN <= secret <= SECRET_MAX,
        ensures
            s.wf(),
            s.secret == secret,
            s.state == State::AwaitingInput,
    {
        Session { secret, state: State::AwaitingInput }
    }

    /// Start a session around a freshly drawn secret.
    pub fn random() -> (s: Session)
        ensures
            s.wf(),
            s.state == State::AwaitingInput,
    {
        Session::new(new_secret())
    }

    /// Feed one line to a waiting session: the line is parsed, a parsed
    /// guess is compared against the secret, and the session moves as the
    /// step relation says. The secret is never touched.
    pub fn submit(&mut self, line: &str) -> (r: Reply)
        requires
            old(self).wf(),
            old(self).state == State::AwaitingInput,
        ensures
            final(self).wf(),
            final(self).secret == old(self).secret,
            (final(self).state, r) == step_spec(old(self).secret, line@),
    {
        match parse_guess(line) {
            None => Reply::ParseError,
            Some(g) => match compare(g, self.secret) {
                Outcome::Less => Reply::TooLow(g),
                Outcome::Greater => Reply::TooHigh(g),
                Outcome::Equal => {
                    self.state = State::Won;
                    Reply::Won(g)
                },
            },
        }
    }
}

/// Relies on rand: `thread_rng().gen_range(low..=high)` samples the closed
/// range `[low, high]` and panics only when that range is empty.
#[verifier::external_body]
fn random_in_range(low: u32, high: u32) -> (r: u32)
    requires
        low <= high,
    ensures
        low <= r <= high,
{
    rand::Rng::gen_range(&mut rand::thread_rng(), low..=high)
}

/// Draw one secret from the closed range a session plays over.
pub fn new_secret() -> (s: u32)
    ensures
        SECRET_MIN <= s <= SECRET_MAX,
{
    random_in_range(SECRET_MIN, SECRET_MAX)
}

} // verus!
