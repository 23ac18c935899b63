use vstd::prelude::*;
use std::collections::VecDeque;

use crate::metrics::Metrics;

verus! {

/// Number of samples each history keeps.
pub const HISTORY_LEN: usize = 420;

/// The history after appending `value` to `history`: when the history is
/// full the oldest sample is dropped first.
pub open spec fn bounded_push<T>(history: Seq<T>, value: T) -> Seq<T> {
    if history.len() == HISTORY_LEN {
        history.drop_first().push(value)
    } else {
        history.push(value)
    }
}

/// The last `HISTORY_LEN` elements of `s` (all of `s` when it is shorter).
pub open spec fn recent<T>(s: Seq<T>) -> Seq<T> {
    if s.len() <= HISTORY_LEN {
        s
    } else {
        s.subrange(s.len() - HISTORY_LEN, s.len() as int)
    }
}

/// The history built by pushing `values`, in order, onto an empty history.
pub open spec fn history_of<T>(values: Seq<T>) -> Seq<T>
    decreases values.len(),
{
    if values.len() == 0 {
        Seq::empty()
    } else {
        bounded_push(history_of(values.drop_last()), values.last())
    }
}

/// Appending to a history that holds at most `HISTORY_LEN` samples keeps
/// exactly the most recent `HISTORY_LEN` of the old samples and the new one.
pub proof fn lemma_bounded_push_recent<T>(history: Seq<T>, value: T)
    requires
        history.len() <= HISTORY_LEN,
    ensures
        bounded_push(history, value) == recent(history.push(value)),
        bounded_push(history, value).len() <= HISTORY_LEN,
        bounded_push(history, value).last() == value,
{
    if history.len() == HISTORY_LEN {
        assert(history.drop_first().push(value) =~= history.push(value).subrange(1, HISTORY_LEN + 1));
    }
}

/// A history fed with any sequence of samples holds exactly the last
/// `HISTORY_LEN` of them, oldest first; so it never exceeds that length.
pub proof fn lemma_history_is_recent_window<T>(values: Seq<T>)
    ensures
        history_of(values) == recent(values),
        history_of(values).len() <= HISTORY_LEN,
    decreases values.len(),
{
    if values.len() > 0 {
        let prev = values.drop_last();
        lemma_history_is_recent_window(prev);
        lemma_bounded_push_recent(history_of(prev), values.last());
        assert(values =~= prev.push(values.last()));
        if prev.len() >= HISTORY_LEN {
            assert(recent(prev).push(values.last()).subrange(1, HISTORY_LEN + 1) =~= recent(values));
        }
    }
}

/// Appends `value` to `history`, dropping the oldest sample when the history
/// already holds `HISTORY_LEN` samples.
pub fn push_bounded<T>(history: &mut VecDeque<T>, value: T)
    ensures
        final(history)@ == bounded_push(old(history)@, value),
{
    if history.len() == HISTORY_LEN {
        history.pop_front();
    }
    history.push_back(value);
}

/// The state the display is drawn from: the latest metrics and the
/// histories of overall CPU and memory load.
#[derive(Debug)]
pub struct App<F> {
    pub cpu_history: VecDeque<F>,
    pub memory_history: VecDeque<F>,
    pub current: Metrics<F>,
}

impl<F: Copy> App<F> {
    /// A state whose histories hold the one sample `initial`.
    pub fn new(initial: Metrics<F>) -> (app: App<F>)
        ensures
            app.cpu_history@ == seq![initial.cpu],
            app.memory_history@ == seq![initial.memory],
            app.current == initial,
    {
        let mut app = App {
            cpu_history: VecDeque::with_capacity(HISTORY_LEN),
            memory_history: VecDeque::with_capacity(HISTORY_LEN),
            current: initial,
        };
        let cpu = app.current.cpu;
        let memory = app.current.memory;
        push_bounded(&mut app.cpu_history, cpu);
        push_bounded(&mut app.memory_history, memory);
        assert(app.cpu_history@ =~= seq![initial.cpu]);
        assert(app.memory_history@ =~= seq![initial.memory]);
        app
    }

    /// Records a new sample: its CPU and memory load join the histories and
    /// it becomes the current metrics.
    pub fn push(&mut self, metrics: Metrics<F>)
        ensures
            final(self).cpu_history@ == bounded_push(old(self).cpu_history@, metrics.cpu),
            final(self).memory_history@ == bounded_push(old(self).memory_history@, metrics.memory),
            final(self).current == metrics,
    {
        push_bounded(&mut self.cpu_history, metrics.cpu);
        push_bounded(&mut self.memory_history, metrics.memory);
        self.current = metrics;
    }
}

} // verus!
