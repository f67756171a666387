use vstd::prelude::*;
use vstd::string::StrSliceExecFns;
use vstd::string::StringExecFns;

use std::collections::VecDeque;

use crate::error::{ErrorView, OperationError};
use crate::execute::{process_operation, spec_execute};
use crate::fold::lower_of;
use crate::ops::{canonical_name, spec_parse, Operation};

verus! {

/// What `char::is_whitespace` returns: whether the character has the Unicode
/// white-space property, a function of the character alone.
pub uninterp spec fn is_space_char(c: char) -> bool;

/// Relies on `char::is_whitespace`: the Unicode white-space property of the
/// character.
#[verifier::external_body]
fn is_space(c: char) -> (r: bool)
    ensures
        r == is_space_char(c),
{
    c.is_whitespace()
}

/// The whitespace-separated tokens of a line, read left to right: a non-space
/// character extends the current token when the character before it was also
/// non-space, and opens a new token otherwise.
pub open spec fn spec_tokens(s: Seq<char>) -> Seq<Seq<char>>
    decreases s.len(),
{
    if s.len() == 0 {
        Seq::empty()
    } else {
        let rest = spec_tokens(s.drop_last());
        let c = s.last();
        if is_space_char(c) {
            rest
        } else if s.len() >= 2 && !is_space_char(s[s.len() - 2]) {
            rest.update(rest.len() - 1, rest.last().push(c))
        } else {
            rest.push(seq![c])
        }
    }
}

/// A line ending in a non-space character has at least one token.
pub proof fn lemma_tokens_nonempty(s: Seq<char>)
    requires
        s.len() > 0,
        !is_space_char(s.last()),
    ensures
        spec_tokens(s).len() > 0,
    decreases s.len(),
{
    if s.len() >= 2 && !is_space_char(s[s.len() - 2]) {
        assert(s.drop_last().last() == s[s.len() - 2]);
        lemma_tokens_nonempty(s.drop_last());
    }
}

/// Split a line into its whitespace-separated tokens.
pub(crate) fn tokenize(line: &str) -> (tokens: Vec<String>)
    ensures
        tokens.deep_view() == spec_tokens(line@),
{
    let n = line.unicode_len();
    let mut tokens: Vec<String> = Vec::new();
    let mut i: usize = 0;
    while i < n
        invariant
            n == line@.len(),
            i <= n,
            tokens.deep_view() == spec_tokens(line@.subrange(0, i as int)),
        decreases n - i,
    {
        let ghost prefix = line@.subrange(0, i as int);
        let ghost grown = line@.subrange(0, i as int + 1);
        proof {
            assert(grown.drop_last() =~= prefix);
            assert(grown.last() == line@[i as int]);
        }
        let c = line.get_char(i);
        if !is_space(c) {
            let piece = line.substring_char(i, i + 1);
            proof {
                assert(piece@ =~= seq![line@[i as int]]);
            }
            let extend = if i > 0 {
                !is_space(line.get_char(i - 1))
            } else {
                false
            };
            if extend {
                proof {
                    assert(prefix.last() == line@[i as int - 1]);
                    lemma_tokens_nonempty(prefix);
                }
                let mut last = tokens.pop().unwrap();
                last.append(piece);
                tokens.push(last);
                proof {
                    let rest = spec_tokens(prefix);
                    assert(last@ =~= rest.last().push(line@[i as int]));
                    assert(tokens.deep_view() =~= rest.update(
                        rest.len() - 1,
                        rest.last().push(line@[i as int]),
                    ));
                }
            } else {
                tokens.push(piece.to_owned());
                proof {
                    assert(tokens.deep_view() =~= spec_tokens(prefix).push(
                        seq![line@[i as int]],
                    ));
                }
            }
        }
        i = i + 1;
    }
    proof {
        assert(line@.subrange(0, n as int) =~= line@);
    }
    tokens
}

/// The tokens joined back with single spaces: how the payload of a command
/// line is re-assembled, internal whitespace runs collapsed.
pub open spec fn spec_join(tokens: Seq<Seq<char>>) -> Seq<char>
    decreases tokens.len(),
{
    if tokens.len() == 0 {
        Seq::empty()
    } else if tokens.len() == 1 {
        tokens[0]
    } else {
        spec_join(tokens.drop_last()) + seq![' '] + tokens.last()
    }
}

/// One parsed unit of work: an operation paired with its payload, created by
/// the producer and consumed exactly once by the consumer.
pub struct Command {
    pub operation: Operation,
    pub input: String,
}

impl View for Command {
    type V = (Operation, Seq<char>);

    open spec fn view(&self) -> (Operation, Seq<char>) {
        (self.operation, self.input@)
    }
}

/// The mathematical shape of a [`LineOutcome`].
pub enum LineOutcomeView {
    Blank,
    MissingPayload,
    Unknown(ErrorView),
    Parsed(Operation, Seq<char>),
}

/// What reading one input line yields at the producer.
pub enum LineOutcome {
    /// No tokens at all: the line is discarded silently.
    Blank,
    /// Exactly one token: the payload is missing; reported, nothing enqueued.
    MissingPayload,
    /// The first token names no operation; reported, nothing enqueued.
    Unknown(OperationError),
    /// A well-formed command line.
    Parsed(Command),
}

impl View for LineOutcome {
    type V = LineOutcomeView;

    open spec fn view(&self) -> LineOutcomeView {
        match self {
            LineOutcome::Blank => LineOutcomeView::Blank,
            LineOutcome::MissingPayload => LineOutcomeView::MissingPayload,
            LineOutcome::Unknown(e) => LineOutcomeView::Unknown(e@),
            LineOutcome::Parsed(c) => LineOutcomeView::Parsed(c.operation, c.input@),
        }
    }
}

/// The producer's decision for one line: blank lines are skipped, a line
/// without a payload and a line with an unknown operation name are reported,
/// and a well-formed line becomes a command whose payload is the remaining
/// tokens joined with single spaces.
pub open spec fn spec_line_outcome(line: Seq<char>) -> LineOutcomeView {
    let toks = spec_tokens(line);
    if toks.len() == 0 {
        LineOutcomeView::Blank
    } else if toks.len() == 1 {
        LineOutcomeView::MissingPayload
    } else {
        match spec_parse(lower_of(toks[0])) {
            Some(op) => LineOutcomeView::Parsed(op, spec_join(toks.subrange(1, toks.len() as int))),
            None => LineOutcomeView::Unknown(ErrorView::Unknown(toks[0])),
        }
    }
}

/// Parse one input line into the producer's decision for it.
pub fn parse_line(line: &str) -> (r: LineOutcome)
    ensures
        r@ == spec_line_outcome(line@),
{
    let tokens = tokenize(line);
    let ghost toks = spec_tokens(line@);
    if tokens.len() == 0 {
        LineOutcome::Blank
    } else if tokens.len() == 1 {
        LineOutcome::MissingPayload
    } else {
        proof {
            assert(tokens@[0]@ == toks[0]);
        }
        match Operation::from_str(tokens[0].as_str()) {
            Err(e) => LineOutcome::Unknown(e),
            Ok(operation) => {
                let mut payload = tokens[1].clone();
                proof {
                    assert(tokens@[1]@ == toks[1]);
                    assert(toks.subrange(1, 2) =~= seq![toks[1]]);
                }
                let mut j: usize = 2;
                while j < tokens.len()
                    invariant
                        2 <= j <= tokens@.len(),
                        tokens.deep_view() == toks,
                        toks.len() == tokens@.len(),
                        payload@ == spec_join(toks.subrange(1, j as int)),
                    decreases tokens@.len() - j,
                {
                    proof {
                        assert(toks.subrange(1, j as int + 1).drop_last() =~= toks.subrange(
                            1,
                            j as int,
                        ));
                        assert(toks.subrange(1, j as int + 1).last() == toks[j as int]);
                        assert(tokens@[j as int]@ == toks[j as int]);
                    }
                    payload.append(" ");
                    payload.append(tokens[j].as_str());
                    proof {
                        reveal_strlit(" ");
                        assert(" "@ =~= seq![' ']);
                        assert(payload@ =~= spec_join(toks.subrange(1, j as int)) + seq![' ']
                            + toks[j as int]);
                    }
                    j = j + 1;
                }
                proof {
                    assert(toks.subrange(1, toks.len() as int) =~= toks.subrange(
                        1,
                        tokens@.len() as int,
                    ));
                }
                LineOutcome::Parsed(Command { operation, input: payload })
            },
        }
    }
}

/// The command channel, modeled sequentially: an ordered first-in-first-out
/// queue of commands. Its view is the queued commands in arrival order; the
/// pipeline's ordering guarantee is stated over it.
pub struct CommandChannel {
    queue: VecDeque<Command>,
}

impl View for CommandChannel {
    type V = Seq<(Operation, Seq<char>)>;

    closed spec fn view(&self) -> Seq<(Operation, Seq<char>)> {
        Seq::new(self.queue@.len(), |i: int| self.queue@[i]@)
    }
}

impl CommandChannel {
    /// An empty channel.
    pub fn new() -> (r: CommandChannel)
        ensures
            r@ == Seq::<(Operation, Seq<char>)>::empty(),
    {
        let r = CommandChannel { queue: VecDeque::new() };
        proof {
            assert(r@ =~= Seq::<(Operation, Seq<char>)>::empty());
        }
        r
    }

    /// How many commands are queued.
    pub fn len(&self) -> (r: usize)
        ensures
            r == self@.len(),
    {
        self.queue.len()
    }

    /// Enqueue a command at the back: the order of everything already queued
    /// is untouched.
    pub fn send(&mut self, c: Command)
        ensures
            final(self)@ == old(self)@.push(c@),
    {
        self.queue.push_back(c);
        proof {
            assert(self@ =~= old(self)@.push(c@));
        }
    }

    /// Dequeue the oldest command, or nothing when the channel is drained.
    pub fn recv(&mut self) -> (r: Option<Command>)
        ensures
            match r {
                Some(c) => old(self)@.len() > 0 && c@ == old(self)@[0] && final(self)@ == old(
                    self,
                )@.subrange(1, old(self)@.len() as int),
                None => old(self)@.len() == 0 && final(self)@ == old(self)@,
            },
    {
        let r = self.queue.pop_front();
        proof {
            if old(self).queue@.len() > 0 {
                assert(self@ =~= old(self)@.subrange(1, old(self)@.len() as int));
            } else {
                assert(self@ =~= old(self)@);
            }
        }
        r
    }
}

/// The commands the producer enqueues for a sequence of lines, in line order:
/// each well-formed line contributes its command, every other line nothing.
pub open spec fn spec_commands(lines: Seq<Seq<char>>) -> Seq<(Operation, Seq<char>)>
    decreases lines.len(),
{
    if lines.len() == 0 {
        Seq::empty()
    } else {
        spec_commands(lines.drop_last()) + (match spec_line_outcome(lines.last()) {
            LineOutcomeView::Parsed(op, p) => seq![(op, p)],
            _ => Seq::<(Operation, Seq<char>)>::empty(),
        })
    }
}

/// The commands of two line sequences in succession are the commands of the
/// first followed by the commands of the second.
pub proof fn lemma_spec_commands_append(a: Seq<Seq<char>>, b: Seq<Seq<char>>)
    ensures
        spec_commands(a + b) == spec_commands(a) + spec_commands(b),
    decreases b.len(),
{
    if b.len() == 0 {
        assert(a + b =~= a);
        assert(spec_commands(a) + spec_commands(b) =~= spec_commands(a));
    } else {
        lemma_spec_commands_append(a, b.drop_last());
        assert((a + b).drop_last() =~= a + b.drop_last());
        assert((a + b).last() == b.last());
        let tail = match spec_line_outcome(b.last()) {
            LineOutcomeView::Parsed(op, p) => seq![(op, p)],
            _ => Seq::<(Operation, Seq<char>)>::empty(),
        };
        assert(spec_commands(a + b) == spec_commands(a) + spec_commands(b.drop_last()) + tail);
        assert(spec_commands(a) + spec_commands(b.drop_last()) + tail =~= spec_commands(a) + (
        spec_commands(b.drop_last()) + tail));
    }
}

/// A line that parses to no command, standing between two stretches of lines,
/// leaves their command stream exactly as it would be without it: order and
/// content of the surrounding commands are unchanged.
pub proof fn lemma_malformed_line_transparent(
    before: Seq<Seq<char>>,
    bad: Seq<char>,
    after: Seq<Seq<char>>,
)
    requires
        !(spec_line_outcome(bad) is Parsed),
    ensures
        spec_commands(before + seq![bad] + after) == spec_commands(before + after),
{
    lemma_spec_commands_append(before + seq![bad], after);
    lemma_spec_commands_append(before, seq![bad]);
    lemma_spec_commands_append(before, after);
    assert(seq![bad].drop_last() =~= Seq::<Seq<char>>::empty());
    assert(seq![bad].last() == bad);
    assert(spec_commands(Seq::<Seq<char>>::empty()) =~= Seq::<(Operation, Seq<char>)>::empty());
    assert(spec_commands(seq![bad]) =~= Seq::<(Operation, Seq<char>)>::empty());
    assert(spec_commands(before + seq![bad]) =~= spec_commands(before));
}

/// The producer: feed each line in order through [`parse_line`] and enqueue
/// every well-formed command; the other lines enqueue nothing.
pub fn producer_run(lines: &Vec<String>, chan: &mut CommandChannel)
    ensures
        final(chan)@ == old(chan)@ + spec_commands(lines.deep_view()),
{
    let n = lines.len();
    let mut k: usize = 0;
    while k < n
        invariant
            n == lines@.len(),
            k <= n,
            chan@ == old(chan)@ + spec_commands(lines.deep_view().subrange(0, k as int)),
        decreases n - k,
    {
        let ghost dv = lines.deep_view();
        proof {
            assert(dv.subrange(0, k as int + 1).drop_last() =~= dv.subrange(0, k as int));
            assert(dv.subrange(0, k as int + 1).last() == dv[k as int]);
            assert(dv[k as int] == lines@[k as int]@);
        }
        match parse_line(lines[k].as_str()) {
            LineOutcome::Parsed(c) => {
                chan.send(c);
                proof {
                    assert(chan@ =~= old(chan)@ + spec_commands(dv.subrange(0, k as int + 1)));
                }
            },
            _ => {
                proof {
                    assert(chan@ =~= old(chan)@ + spec_commands(dv.subrange(0, k as int + 1)));
                }
            },
        }
        k = k + 1;
    }
    proof {
        assert(lines.deep_view().subrange(0, n as int) =~= lines.deep_view());
    }
}

/// The consumer's output for one command: the canonical name it announces,
/// then exactly what executing the command returns.
pub open spec fn spec_output_matches(
    cmd: (Operation, Seq<char>),
    out: (String, Result<String, OperationError>),
) -> bool {
    &&& out.0@ == canonical_name(cmd.0)
    &&& match out.1 {
        Ok(s) => spec_execute(cmd.0, cmd.1) == Ok::<Seq<char>, ErrorView>(s@),
        Err(e) => spec_execute(cmd.0, cmd.1) == Err::<Seq<char>, ErrorView>(e@),
    }
}

/// The consumer: dequeue commands until the channel is drained and execute
/// each one. The outputs stand in exactly the order the commands were
/// enqueued, one per command; a failing command yields its error in place and
/// stops nothing.
pub fn consumer_run(chan: &mut CommandChannel) -> (outputs: Vec<
    (String, Result<String, OperationError>),
>)
    ensures
        final(chan)@.len() == 0,
        outputs@.len() == old(chan)@.len(),
        forall|i: int|
            0 <= i < outputs@.len() ==> #[trigger] spec_output_matches(
                old(chan)@[i],
                outputs@[i],
            ),
{
    let n = chan.len();
    let mut outputs: Vec<(String, Result<String, OperationError>)> = Vec::new();
    let mut j: usize = 0;
    while j < n
        invariant
            n == old(chan)@.len(),
            j <= n,
            outputs@.len() == j,
            chan@ == old(chan)@.subrange(j as int, n as int),
            forall|i: int|
                0 <= i < j ==> #[trigger] spec_output_matches(old(chan)@[i], outputs@[i]),
        decreases n - j,
    {
        proof {
            assert(old(chan)@.subrange(j as int, n as int)[0] == old(chan)@[j as int]);
            assert(old(chan)@.subrange(j as int, n as int).subrange(
                1,
                (n - j) as int,
            ) =~= old(chan)@.subrange(j as int + 1, n as int));
        }
        match chan.recv() {
            Some(cmd) => {
                let announce = cmd.operation.to_str();
                let result = process_operation(cmd.operation, cmd.input.as_str());
                outputs.push((announce, result));
            },
            None => {
                proof {
                    assert(false);
                }
            },
        }
        j = j + 1;
    }
    outputs
}

/// The whole pipeline on a finite input, run to quiescence: the producer
/// parses the lines in order, the consumer drains the queue in the same
/// order. One output per well-formed line, in exactly the order those lines
/// came; malformed lines contribute nothing.
pub fn pipeline_run(lines: &Vec<String>) -> (outputs: Vec<
    (String, Result<String, OperationError>),
>)
    ensures
        outputs@.len() == spec_commands(lines.deep_view()).len(),
        forall|i: int|
            0 <= i < outputs@.len() ==> #[trigger] spec_output_matches(
                spec_commands(lines.deep_view())[i],
                outputs@[i],
            ),
{
    let mut chan = CommandChannel::new();
    producer_run(lines, &mut chan);
    proof {
        assert(chan@ =~= spec_commands(lines.deep_view()));
    }
    consumer_run(&mut chan)
}

} // verus!
