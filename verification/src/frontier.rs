//! The frontier: the first-in, first-out queue of tasks that wait to be
//! crawled.

use std::collections::VecDeque;
use vstd::prelude::*;
use crate::task::{CrawlTask, TaskView};

verus! {

/// The queue of pending tasks. Its value is the sequence of the tasks' values,
/// head first.
pub struct Frontier {
    tasks: VecDeque<CrawlTask>,
}

impl View for Frontier {
    type V = Seq<TaskView>;

    closed spec fn view(&self) -> Seq<TaskView> {
        self.tasks@.map_values(|t: CrawlTask| t@)
    }
}

impl Frontier {
    /// An empty frontier.
    pub fn new() -> (frontier: Frontier)
        ensures
            frontier@ == Seq::<TaskView>::empty(),
    {
        let frontier = Frontier { tasks: VecDeque::new() };
        assert(frontier@ =~= Seq::<TaskView>::empty());
        frontier
    }

    /// Appends `task` at the tail.
    pub fn push(&mut self, task: CrawlTask)
        ensures
            final(self)@ == old(self)@.push(task@),
    {
        self.tasks.push_back(task);
        assert(self@ =~= old(self)@.push(task@));
    }

    /// Removes and returns the head, or returns `None` and changes nothing
    /// when the frontier is empty.
    pub fn try_pop(&mut self) -> (popped: Option<CrawlTask>)
        ensures
            match popped {
                Some(task) => {
                    &&& old(self)@.len() > 0
                    &&& task@ == old(self)@[0]
                    &&& final(self)@ == old(self)@.skip(1)
                },
                None => {
                    &&& old(self)@.len() == 0
                    &&& final(self)@ == old(self)@
                },
            },
    {
        let popped = self.tasks.pop_front();
        assert(popped.is_some() ==> self@ =~= old(self)@.skip(1));
        popped
    }

    /// Whether no task is pending.
    pub fn is_empty(&self) -> (empty: bool)
        ensures
            empty == (self@.len() == 0),
    {
        self.tasks.len() == 0
    }

    /// The number of pending tasks.
    pub fn len(&self) -> (n: usize)
        ensures
            n == self@.len(),
    {
        self.tasks.len()
    }
}

} // verus!
