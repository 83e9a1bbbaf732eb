//! The expectation-driven driver: the decisions of each directive, as a state machine that
//! the caller runs. The caller performs each action (writing to the engine, sleeping,
//! fetching outputs, saving, terminating) and hands back the event that came of it.
use vstd::prelude::*;
use crate::expectation::{
    expectation_matches, first_match_from, OutputCache, OutputExpectation, OutputSink,
};
use crate::output::{Cmd, Output, TranslateError};
use vstd::arithmetic::div_mod::{lemma_basic_div, lemma_div_plus_one};

verus! {

/// A directive of a NAL script.
pub enum NalInput {
    /// Send a command to the engine.
    Put(Cmd),
    /// Wait for a number of milliseconds.
    Sleep(u64),
    /// Fetch outputs, blocking, until one matches.
    Await(OutputExpectation),
    /// Check that an output received so far matches.
    ExpectContains(OutputExpectation),
    /// Run the engine in steps of `step_cycles` cycles, up to `max_cycles`, until an output
    /// matches; sleep `step_duration` milliseconds after each step when it is given.
    ExpectCycle(usize, usize, Option<u64>, OutputExpectation),
    /// Save the outputs received so far to a file.
    SaveOutputs(String),
    /// Terminate the engine, then end with `result`; skipped in an interactive session when
    /// `if_not_user` is set.
    Terminate { if_not_user: bool, result: Result<(), String> },
}

/// Why a directive failed.
#[derive(Debug, PartialEq, Eq)]
pub enum DriverError {
    /// The command has no rendering in the engine's dialect.
    Translate(TranslateError),
    /// Writing to the engine, saving or terminating failed.
    Io(String),
    /// No output matched the expectation.
    ExpectationNotFound,
    /// A terminate directive ended with this failure.
    Failed(String),
    /// The event does not answer the action that the directive asked for.
    UnexpectedEvent,
}

/// What the caller does next for the directive.
#[derive(Debug, PartialEq, Eq)]
pub enum DriverAction {
    /// Send the command to the engine, then report `Input`.
    Input(Cmd),
    /// Sleep this many milliseconds, then report `Slept`.
    Sleep(u64),
    /// Fetch one output, blocking, then report `Fetched`.
    Fetch,
    /// Fetch every output that is ready, without blocking, then report `Drained`.
    Drain,
    /// Save the cache to this path, then report `Saved`.
    Save(String),
    /// Terminate the engine, then report `Terminated`.
    Terminate,
    /// The directive is over.
    Done(Result<(), DriverError>),
}

/// What came of the last action.
pub enum DriverEvent {
    Start,
    Input(Result<(), DriverError>),
    Slept,
    Fetched(Output),
    Drained(Vec<Output>),
    Saved(Result<(), String>),
    Terminated(Result<(), String>),
}

/// The outputs that an event brings, in the order they were received.
pub open spec fn event_outputs(e: DriverEvent) -> Seq<Output> {
    match e {
        DriverEvent::Fetched(o) => seq![o],
        DriverEvent::Drained(v) => v@,
        _ => Seq::empty(),
    }
}

pub open spec fn saturating_add(a: usize, b: usize) -> usize {
    if a + b > usize::MAX {
        usize::MAX
    } else {
        (a + b) as usize
    }
}

/// One round of a cycle expectation: while the running total is under the maximum, run
/// another step and add it to the total; at the maximum, the expectation is not found.
pub open spec fn cycle_round(max_cycles: usize, step_cycles: usize, cycles: usize) -> (
    DriverAction,
    usize,
) {
    if cycles < max_cycles {
        (DriverAction::Input(Cmd::CYC(step_cycles)), saturating_add(cycles, step_cycles))
    } else {
        (DriverAction::Done(Err(DriverError::ExpectationNotFound)), cycles)
    }
}

pub open spec fn unexpected(cycles: usize) -> (DriverAction, usize) {
    (DriverAction::Done(Err(DriverError::UnexpectedEvent)), cycles)
}

pub open spec fn found(cache: Seq<Output>, e: OutputExpectation) -> bool {
    first_match_from(cache, e, 0) is Some
}

/// The next action of a directive and the new running total of cycles, given the event and
/// the cache once the event's outputs are in it.
pub open spec fn driver_step(
    input: NalInput,
    user_input: bool,
    cycles: usize,
    event: DriverEvent,
    cache: Seq<Output>,
) -> (DriverAction, usize) {
    match input {
        NalInput::Put(cmd) => match event {
            DriverEvent::Start => (DriverAction::Input(cmd), cycles),
            DriverEvent::Input(res) => (DriverAction::Done(res), cycles),
            _ => unexpected(cycles),
        },
        NalInput::Sleep(ms) => match event {
            DriverEvent::Start => (DriverAction::Sleep(ms), cycles),
            DriverEvent::Slept => (DriverAction::Done(Ok(())), cycles),
            _ => unexpected(cycles),
        },
        NalInput::Await(e) => match event {
            DriverEvent::Start => (DriverAction::Fetch, cycles),
            DriverEvent::Fetched(o) => if expectation_matches(e, o) {
                (DriverAction::Done(Ok(())), cycles)
            } else {
                (DriverAction::Fetch, cycles)
            },
            _ => unexpected(cycles),
        },
        NalInput::ExpectContains(e) => match event {
            DriverEvent::Start => (DriverAction::Drain, cycles),
            DriverEvent::Drained(_) => if found(cache, e) {
                (DriverAction::Done(Ok(())), cycles)
            } else {
                (DriverAction::Done(Err(DriverError::ExpectationNotFound)), cycles)
            },
            _ => unexpected(cycles),
        },
        NalInput::ExpectCycle(max_cycles, step_cycles, step_duration, e) => match event {
            DriverEvent::Start => cycle_round(max_cycles, step_cycles, cycles),
            DriverEvent::Input(Err(err)) => (DriverAction::Done(Err(err)), cycles),
            DriverEvent::Input(Ok(())) => match step_duration {
                Some(ms) => (DriverAction::Sleep(ms), cycles),
                None => (DriverAction::Drain, cycles),
            },
            DriverEvent::Slept => (DriverAction::Drain, cycles),
            DriverEvent::Drained(_) => if found(cache, e) {
                (DriverAction::Done(Ok(())), cycles)
            } else {
                cycle_round(max_cycles, step_cycles, cycles)
            },
            _ => unexpected(cycles),
        },
        NalInput::SaveOutputs(path) => match event {
            DriverEvent::Start => (DriverAction::Save(path), cycles),
            DriverEvent::Saved(Ok(())) => (DriverAction::Done(Ok(())), cycles),
            DriverEvent::Saved(Err(msg)) => (DriverAction::Done(Err(DriverError::Io(msg))), cycles),
            _ => unexpected(cycles),
        },
        NalInput::Terminate { if_not_user, result } => match event {
            DriverEvent::Start => if if_not_user && user_input {
                (DriverAction::Done(Ok(())), cycles)
            } else {
                (DriverAction::Terminate, cycles)
            },
            DriverEvent::Terminated(Err(msg)) => (
                DriverAction::Done(Err(DriverError::Io(msg))),
                cycles,
            ),
            DriverEvent::Terminated(Ok(())) => match result {
                Ok(()) => (DriverAction::Done(Ok(())), cycles),
                Err(msg) => (DriverAction::Done(Err(DriverError::Failed(msg))), cycles),
            },
            _ => unexpected(cycles),
        },
    }
}

/// The driver of one directive.
pub struct NalDriver {
    pub input: NalInput,
    pub user_input: bool,
    pub cycles: usize,
}

impl NalDriver {
    /// A driver for a directive; `user_input` tells whether the session is interactive.
    pub fn new(input: NalInput, user_input: bool) -> (r: NalDriver)
        ensures
            r.input == input,
            r.user_input == user_input,
            r.cycles == 0,
    {
        NalDriver { input, user_input, cycles: 0 }
    }

    /// The running total of cycles that a cycle expectation has run.
    pub fn cycles(&self) -> (r: usize)
        ensures
            r == self.cycles,
    {
        self.cycles
    }

    /// Takes the event of the last action: its outputs go into the cache, in order, each
    /// shown on the sink; then the directive decides what comes next.
    pub fn step<S: OutputSink>(
        &mut self,
        event: DriverEvent,
        cache: &mut OutputCache,
        sink: &mut S,
    ) -> (r: DriverAction)
        ensures
            final(cache)@ == old(cache)@ + event_outputs(event),
            final(self).input == old(self).input,
            final(self).user_input == old(self).user_input,
            (r, final(self).cycles) == driver_step(
                old(self).input,
                old(self).user_input,
                old(self).cycles,
                event,
                final(cache)@,
            ),
    {
        match event {
            DriverEvent::Start => self.on_start(),
            DriverEvent::Input(res) => self.on_input(res),
            DriverEvent::Slept => self.on_slept(),
            DriverEvent::Fetched(o) => self.on_fetched(o, cache, sink),
            DriverEvent::Drained(v) => {
                cache.put_all(v, sink);
                self.on_drained(cache)
            },
            DriverEvent::Saved(res) => self.on_saved(res),
            DriverEvent::Terminated(res) => self.on_terminated(res),
        }
    }

    fn next_round(&mut self, max_cycles: usize, step_cycles: usize) -> (r: DriverAction)
        ensures
            final(self).input == old(self).input,
            final(self).user_input == old(self).user_input,
            (r, final(self).cycles) == cycle_round(max_cycles, step_cycles, old(self).cycles),
    {
        if self.cycles < max_cycles {
            self.cycles = if step_cycles > usize::MAX - self.cycles {
                usize::MAX
            } else {
                self.cycles + step_cycles
            };
            DriverAction::Input(Cmd::CYC(step_cycles))
        } else {
            DriverAction::Done(Err(DriverError::ExpectationNotFound))
        }
    }

    fn on_start(&mut self) -> (r: DriverAction)
        ensures
            final(self).input == old(self).input,
            final(self).user_input == old(self).user_input,
            forall|c: Seq<Output>|
                (r, final(self).cycles) == #[trigger] driver_step(
                    old(self).input,
                    old(self).user_input,
                    old(self).cycles,
                    DriverEvent::Start,
                    c,
                ),
    {
        match &self.input {
            NalInput::Put(cmd) => DriverAction::Input(cmd.duplicate()),
            NalInput::Sleep(ms) => DriverAction::Sleep(*ms),
            NalInput::Await(_) => DriverAction::Fetch,
            NalInput::ExpectContains(_) => DriverAction::Drain,
            NalInput::ExpectCycle(max_cycles, step_cycles, _, _) => {
                let max_cycles = *max_cycles;
                let step_cycles = *step_cycles;
                self.next_round(max_cycles, step_cycles)
            },
            NalInput::SaveOutputs(path) => DriverAction::Save(path.clone()),
            NalInput::Terminate { if_not_user, .. } => {
                if *if_not_user && self.user_input {
                    DriverAction::Done(Ok(()))
                } else {
                    DriverAction::Terminate
                }
            },
        }
    }

    fn on_input(&mut self, res: Result<(), DriverError>) -> (r: DriverAction)
        ensures
            *final(self) == *old(self),
            forall|c: Seq<Output>|
                (r, final(self).cycles) == #[trigger] driver_step(
                    old(self).input,
                    old(self).user_input,
                    old(self).cycles,
                    DriverEvent::Input(res),
                    c,
                ),
    {
        match &self.input {
            NalInput::Put(_) => DriverAction::Done(res),
            NalInput::ExpectCycle(_, _, step_duration, _) => match res {
                Err(err) => DriverAction::Done(Err(err)),
                Ok(()) => match step_duration {
                    Some(ms) => DriverAction::Sleep(*ms),
                    None => DriverAction::Drain,
                },
            },
            _ => DriverAction::Done(Err(DriverError::UnexpectedEvent)),
        }
    }

    fn on_slept(&mut self) -> (r: DriverAction)
        ensures
            *final(self) == *old(self),
            forall|c: Seq<Output>|
                (r, final(self).cycles) == #[trigger] driver_step(
                    old(self).input,
                    old(self).user_input,
                    old(self).cycles,
                    DriverEvent::Slept,
                    c,
                ),
    {
        match &self.input {
            NalInput::Sleep(_) => DriverAction::Done(Ok(())),
            NalInput::ExpectCycle(..) => DriverAction::Drain,
            _ => DriverAction::Done(Err(DriverError::UnexpectedEvent)),
        }
    }

    fn on_fetched<S: OutputSink>(&mut self, o: Output, cache: &mut OutputCache, sink: &mut S) -> (r:
        DriverAction)
        ensures
            *final(self) == *old(self),
            final(cache)@ == old(cache)@.push(o),
            forall|c: Seq<Output>|
                (r, final(self).cycles) == #[trigger] driver_step(
                    old(self).input,
                    old(self).user_input,
                    old(self).cycles,
                    DriverEvent::Fetched(o),
                    c,
                ),
    {
        let matched = match &self.input {
            NalInput::Await(e) => Some(e.matches(&o)),
            _ => None,
        };
        cache.put(o, sink);
        match matched {
            Some(true) => DriverAction::Done(Ok(())),
            Some(false) => DriverAction::Fetch,
            None => DriverAction::Done(Err(DriverError::UnexpectedEvent)),
        }
    }

    fn on_drained(&mut self, cache: &OutputCache) -> (r: DriverAction)
        ensures
            final(self).input == old(self).input,
            final(self).user_input == old(self).user_input,
            forall|v: Vec<Output>|
                (r, final(self).cycles) == #[trigger] driver_step(
                    old(self).input,
                    old(self).user_input,
                    old(self).cycles,
                    DriverEvent::Drained(v),
                    cache@,
                ),
    {
        match &self.input {
            NalInput::ExpectContains(e) => {
                if cache.first_match(e).is_some() {
                    DriverAction::Done(Ok(()))
                } else {
                    DriverAction::Done(Err(DriverError::ExpectationNotFound))
                }
            },
            NalInput::ExpectCycle(max_cycles, step_cycles, _, e) => {
                if cache.first_match(e).is_some() {
                    DriverAction::Done(Ok(()))
                } else {
                    let max_cycles = *max_cycles;
                    let step_cycles = *step_cycles;
                    self.next_round(max_cycles, step_cycles)
                }
            },
            _ => DriverAction::Done(Err(DriverError::UnexpectedEvent)),
        }
    }

    fn on_saved(&mut self, res: Result<(), String>) -> (r: DriverAction)
        ensures
            *final(self) == *old(self),
            forall|c: Seq<Output>|
                (r, final(self).cycles) == #[trigger] driver_step(
                    old(self).input,
                    old(self).user_input,
                    old(self).cycles,
                    DriverEvent::Saved(res),
                    c,
                ),
    {
        match &self.input {
            NalInput::SaveOutputs(_) => match res {
                Ok(()) => DriverAction::Done(Ok(())),
                Err(msg) => DriverAction::Done(Err(DriverError::Io(msg))),
            },
            _ => DriverAction::Done(Err(DriverError::UnexpectedEvent)),
        }
    }

    fn on_terminated(&mut self, res: Result<(), String>) -> (r: DriverAction)
        ensures
            *final(self) == *old(self),
            forall|c: Seq<Output>|
                (r, final(self).cycles) == #[trigger] driver_step(
                    old(self).input,
                    old(self).user_input,
                    old(self).cycles,
                    DriverEvent::Terminated(res),
                    c,
                ),
    {
        match &self.input {
            NalInput::Terminate { result, .. } => match res {
                Err(msg) => DriverAction::Done(Err(DriverError::Io(msg))),
                Ok(()) => match result {
                    Ok(()) => DriverAction::Done(Ok(())),
                    Err(msg) => DriverAction::Done(Err(DriverError::Failed(msg.clone()))),
                },
            },
            _ => DriverAction::Done(Err(DriverError::UnexpectedEvent)),
        }
    }
}

// ----- cycle expectations -----
pub open spec fn cycles_left(max_cycles: usize, cycles: usize) -> nat {
    if cycles < max_cycles {
        (max_cycles - cycles) as nat
    } else {
        0
    }
}

/// How many step commands a cycle expectation issues from a running total of `cycles` when no
/// output ever matches: rounds follow one another until one reports the expectation not found.
pub open spec fn cycle_inputs(max_cycles: usize, step_cycles: usize, cycles: usize) -> nat
    decreases cycles_left(max_cycles, cycles),
{
    if step_cycles > 0 && cycles < max_cycles {
        1 + cycle_inputs(max_cycles, step_cycles, cycle_round(max_cycles, step_cycles, cycles).1)
    } else {
        0
    }
}

proof fn lemma_cycle_inputs(max_cycles: usize, step_cycles: usize, cycles: usize)
    requires
        step_cycles > 0,
        cycles <= max_cycles,
    ensures
        cycle_inputs(max_cycles, step_cycles, cycles) == (max_cycles - cycles + step_cycles - 1)
            / (step_cycles as int),
    decreases max_cycles - cycles,
{
    let d = step_cycles as int;
    let total = max_cycles - cycles + step_cycles - 1;
    if cycles < max_cycles {
        let next = cycle_round(max_cycles, step_cycles, cycles).1;
        let x = max_cycles - cycles - 1;
        assert(cycle_inputs(max_cycles, step_cycles, cycles) == 1 + cycle_inputs(
            max_cycles,
            step_cycles,
            next,
        ));
        lemma_div_plus_one(x, d);
        assert(d + x == total);
        if next < max_cycles {
            assert(next == cycles + step_cycles);
            lemma_cycle_inputs(max_cycles, step_cycles, next);
            assert(max_cycles - next + step_cycles - 1 == x);
        } else {
            assert(x < d);
            lemma_basic_div(x, d);
        }
    } else {
        lemma_basic_div(d - 1, d);
    }
}

/// A cycle expectation in which no output ever matches issues `ceil(max_cycles / step_cycles)`
/// step commands, then reports the expectation not found.
pub proof fn law_expect_cycle_steps(max_cycles: usize, step_cycles: usize)
    requires
        step_cycles > 0,
    ensures
        cycle_inputs(max_cycles, step_cycles, 0) == (max_cycles + step_cycles - 1) / (
        step_cycles as int),
{
    lemma_cycle_inputs(max_cycles, step_cycles, 0);
}

// ----- saved outputs -----
pub open spec fn item_separator() -> Seq<char> {
    seq!['\n', '\t']
}

/// The items of a JSON array as the saved file lays them out: each on a line of its own,
/// after a tab, separated by commas.
pub open spec fn json_items(items: Seq<Seq<char>>) -> Seq<char>
    decreases items.len(),
{
    if items.len() == 0 {
        Seq::empty()
    } else if items.len() == 1 {
        item_separator() + items[0]
    } else {
        json_items(items.drop_last()) + seq![','] + item_separator() + items.last()
    }
}

/// The text of a saved file: a JSON array of the given item texts, in order.
pub open spec fn json_array(items: Seq<Seq<char>>) -> Seq<char> {
    seq!['['] + json_items(items) + seq!['\n', ']']
}

/// Lays out the JSON texts of cached events, oldest first, as one JSON array.
pub fn outputs_json(items: &Vec<String>) -> (r: String)
    ensures
        r@ == json_array(crate::term::strings_model(items@)),
{
    proof {
        reveal_strlit("[");
        reveal_strlit(",");
        reveal_strlit("\n\t");
        reveal_strlit("\n]");
        assert("\n\t"@ =~= item_separator());
        assert(","@ =~= seq![',']);
        assert("["@ =~= seq!['[']);
        assert("\n]"@ =~= seq!['\n', ']']);
    }
    let ghost m = crate::term::strings_model(items@);
    let mut text = String::from_str("[");
    let mut k: usize = 0;
    while k < items.len()
        invariant
            k <= items@.len(),
            m == crate::term::strings_model(items@),
            text@ == seq!['['] + json_items(m.subrange(0, k as int)),
            "\n\t"@ == item_separator(),
            ","@ == seq![','],
        decreases items@.len() - k,
    {
        assert(m.subrange(0, k + 1).drop_last() =~= m.subrange(0, k as int));
        assert(m[k as int] == items@[k as int]@);
        let ghost before = text@;
        if k > 0 {
            text = text.concat(",");
        }
        text = text.concat("\n\t").concat(items[k].as_str());
        proof {
            let sub = m.subrange(0, k + 1);
            if k == 0 {
                assert(json_items(m.subrange(0, 0)) =~= Seq::<char>::empty());
                assert(before =~= seq!['[']);
                assert(sub[0] == m[0]);
                assert(json_items(sub) == item_separator() + m[0]);
                assert(text@ =~= before + item_separator() + m[0]);
            } else {
                assert(sub.last() == m[k as int]);
                assert(sub.len() > 1);
                assert(json_items(sub) == json_items(m.subrange(0, k as int)) + seq![','] + item_separator() + m[k as int]);
                assert(text@ =~= before + seq![','] + item_separator() + m[k as int]);
            }
            assert(text@ =~= seq!['['] + json_items(sub));
        }
        k = k + 1;
    }
    assert(m.subrange(0, k as int) =~= m);
    text.concat("\n]")
}

} // verus!
