//! The crawl engine: it seeds the frontier and expands a stored page into the
//! tasks of its links, one hop deeper and never beyond the depth limit.

use vstd::prelude::*;
use vstd::string::*;
use crate::frontier::Frontier;
use crate::parser::{document_links, is_web_url, texts, Parser};
use crate::storage::{child_directory_of, url_parts, Storage};
use crate::task::{child_task, seed_task, CrawlTask, TaskView};
use crate::visited::VisitedSet;

verus! {

/// The seed tasks of `urls`, in their order.
pub open spec fn seed_tasks(urls: Seq<Seq<char>>) -> Seq<TaskView> {
    urls.map_values(|url: Seq<char>| seed_task(url))
}

/// The tasks of those `links` that are not in `visited`, in their order, as
/// children of `parent` stored under `directory`.
pub open spec fn child_tasks(
    parent: TaskView,
    links: Seq<Seq<char>>,
    visited: Set<Seq<char>>,
    directory: Seq<char>,
) -> Seq<TaskView>
    decreases links.len(),
{
    if links.len() == 0 {
        Seq::empty()
    } else {
        let rest = child_tasks(parent, links.drop_last(), visited, directory);
        if visited.contains(links.last()) {
            rest
        } else {
            rest.push(child_task(parent, links.last(), directory))
        }
    }
}

/// What the page of `parent` adds to the frontier: its child tasks while
/// `parent` lies above the depth limit, nothing at the limit.
pub open spec fn expansion(
    parent: TaskView,
    max_depth: nat,
    links: Seq<Seq<char>>,
    visited: Set<Seq<char>>,
    directory: Seq<char>,
) -> Seq<TaskView> {
    if parent.depth < max_depth {
        child_tasks(parent, links, visited, directory)
    } else {
        Seq::empty()
    }
}

/// Whether no task of `tasks` lies deeper than `max_depth`.
pub open spec fn within_depth(tasks: Seq<TaskView>, max_depth: nat) -> bool {
    forall|i: int| 0 <= i < tasks.len() ==> (#[trigger] tasks[i]).depth <= max_depth
}

/// One turn of a worker on a non-empty frontier: the head leaves it; where
/// its URL is unclaimed, the URL is claimed and `children` join the tail.
pub open spec fn turn(
    frontier: Seq<TaskView>,
    visited: Set<Seq<char>>,
    children: Seq<TaskView>,
) -> (Seq<TaskView>, Set<Seq<char>>) {
    if visited.contains(frontier[0].url) {
        (frontier.skip(1), visited)
    } else {
        (frontier.skip(1) + children, visited.insert(frontier[0].url))
    }
}

/// The number of URLs of `reachable` that are not claimed.
pub open spec fn unclaimed(reachable: Set<Seq<char>>, visited: Set<Seq<char>>) -> nat {
    reachable.difference(visited).len()
}

/// The crawl engine.
pub struct Scraper;

impl Scraper {
    /// The engine.
    pub fn new() -> (scraper: Scraper)
        ensures
            scraper == Scraper,
    {
        Scraper
    }

    /// The frontier at the start of a run: one task per seed URL, at depth
    /// zero and without a parent directory.
    pub fn seed(&self, urls: &Vec<String>) -> (frontier: Frontier)
        ensures
            frontier@ == seed_tasks(texts(urls@)),
    {
        let mut frontier = Frontier::new();
        let mut i: usize = 0;
        while i < urls.len()
            invariant
                i <= urls.len(),
                frontier@ == seed_tasks(texts(urls@).take(i as int)),
            decreases urls.len() - i,
        {
            frontier.push(CrawlTask::seed(urls[i].clone()));
            assert(frontier@ =~= seed_tasks(texts(urls@).take(i + 1)));
            i += 1;
        }
        assert(texts(urls@).take(i as int) =~= texts(urls@));
        frontier
    }

    /// Appends to the frontier the tasks of those `links` that are not
    /// visited, each one hop deeper than `task` and stored under `directory`;
    /// appends nothing where `task` lies at the depth limit or beyond.
    pub fn enqueue_children(
        &self,
        frontier: &mut Frontier,
        visited: &VisitedSet,
        task: &CrawlTask,
        max_depth: usize,
        links: &Vec<String>,
        directory: &str,
    )
        ensures
            final(frontier)@ == old(frontier)@ + expansion(
                task@,
                max_depth as nat,
                texts(links@),
                visited@,
                directory@,
            ),
    {
        if task.depth >= max_depth {
            assert(frontier@ =~= old(frontier)@ + Seq::<TaskView>::empty());
            return ;
        }
        let mut i: usize = 0;
        assert(texts(links@).take(0) =~= Seq::<Seq<char>>::empty());
        assert(frontier@ =~= old(frontier)@ + Seq::<TaskView>::empty());
        while i < links.len()
            invariant
                i <= links.len(),
                task.depth < max_depth,
                frontier@ == old(frontier)@ + child_tasks(
                    task@,
                    texts(links@).take(i as int),
                    visited@,
                    directory@,
                ),
            decreases links.len() - i,
        {
            assert(texts(links@).take(i + 1).drop_last() =~= texts(links@).take(i as int));
            assert(texts(links@).take(i + 1).last() == links@[i as int]@);
            if !visited.contains(links[i].as_str()) {
                let child = task.child(links[i].clone(), String::from_str(directory));
                frontier.push(child);
                assert(frontier@ =~= old(frontier)@ + child_tasks(
                    task@,
                    texts(links@).take(i + 1),
                    visited@,
                    directory@,
                ));
            }
            i += 1;
        }
        assert(texts(links@).take(i as int) =~= texts(links@));
    }

    /// Expands the page of `task`, whose text is `body` and which was stored
    /// at `saved_path`: the links of the page become tasks in the directory
    /// derived from `saved_path`, unless `task` lies at the depth limit. Each
    /// task that is added carries an absolute web URL.
    pub fn expand(
        &self,
        frontier: &mut Frontier,
        visited: &VisitedSet,
        task: &CrawlTask,
        max_depth: usize,
        body: &str,
        saved_path: &str,
    )
        ensures
            final(frontier)@ == old(frontier)@ + expansion(
                task@,
                max_depth as nat,
                document_links(body@, task@.url),
                visited@,
                child_directory_of(saved_path@),
            ),
            forall|k: int|
                old(frontier)@.len() <= k < final(frontier)@.len() ==> {
                    let url = (#[trigger] final(frontier)@[k]).url;
                    is_web_url(url) && url_parts(url) is Ok
                },
    {
        if task.depth < max_depth {
            let links = Parser::extract_links(body, task.url.as_str());
            let directory = Storage::child_directory(saved_path);
            self.enqueue_children(frontier, visited, task, max_depth, &links, directory.as_str());
            proof {
                let added = expansion(
                    task@,
                    max_depth as nat,
                    texts(links@),
                    visited@,
                    directory@,
                );
                lemma_children_one_deeper(
                    task@,
                    max_depth as nat,
                    texts(links@),
                    visited@,
                    directory@,
                );
                assert forall|k: int| old(frontier)@.len() <= k < frontier@.len() implies {
                    let url = (#[trigger] frontier@[k]).url;
                    is_web_url(url) && url_parts(url) is Ok
                } by {
                    let child = added[k - old(frontier)@.len()];
                    assert(frontier@[k] == child);
                    let j = choose|j: int|
                        0 <= j < texts(links@).len() && texts(links@)[j] == child.url;
                    assert(texts(links@)[j] == child.url);
                }
            }
        } else {
            assert(frontier@ =~= old(frontier)@ + Seq::<TaskView>::empty());
        }
    }
}

impl Default for Scraper {
    fn default() -> (scraper: Scraper)
        ensures
            scraper == Scraper,
    {
        Scraper::new()
    }
}

/// Each task that a page adds lies exactly one hop deeper than the page's own
/// task, at most at the depth limit, and in the given directory.
pub proof fn lemma_children_one_deeper(
    parent: TaskView,
    max_depth: nat,
    links: Seq<Seq<char>>,
    visited: Set<Seq<char>>,
    directory: Seq<char>,
)
    ensures
        forall|k: int|
            0 <= k < expansion(parent, max_depth, links, visited, directory).len() ==> {
                let child = #[trigger] expansion(parent, max_depth, links, visited, directory)[k];
                &&& child.depth == parent.depth + 1
                &&& child.depth <= max_depth
                &&& child.parent_directory == Some(directory)
                &&& links.contains(child.url)
                &&& !visited.contains(child.url)
            },
    decreases links.len(),
{
    if parent.depth < max_depth && links.len() > 0 {
        lemma_children_one_deeper(parent, max_depth, links.drop_last(), visited, directory);
        let rest = child_tasks(parent, links.drop_last(), visited, directory);
        assert forall|k: int| 0 <= k < rest.len() implies links.contains(rest[k].url) by {
            let j = choose|j: int| 0 <= j < links.drop_last().len() && links.drop_last()[j] == rest[k].url;
            assert(links[j] == rest[k].url);
        }
        assert(links[links.len() - 1] == links.last());
    }
}

/// Seed tasks lie at depth zero, so within every depth limit.
pub proof fn lemma_seeds_within_depth(urls: Seq<Seq<char>>, max_depth: nat)
    ensures
        within_depth(seed_tasks(urls), max_depth),
{
}

/// A frontier within the depth limit stays within it over a worker's turn on
/// its head, whatever the page of the head links to and whatever is claimed
/// when its links are filtered: so no task deeper than the limit is ever
/// handed out.
pub proof fn lemma_turn_keeps_depth(
    frontier: Seq<TaskView>,
    visited: Set<Seq<char>>,
    max_depth: nat,
    links: Seq<Seq<char>>,
    claimed: Set<Seq<char>>,
    directory: Seq<char>,
)
    requires
        frontier.len() > 0,
        within_depth(frontier, max_depth),
    ensures
        frontier[0].depth <= max_depth,
        within_depth(
            turn(
                frontier,
                visited,
                expansion(frontier[0], max_depth, links, claimed, directory),
            ).0,
            max_depth,
        ),
{
    let children = expansion(frontier[0], max_depth, links, claimed, directory);
    lemma_children_one_deeper(frontier[0], max_depth, links, claimed, directory);
    let next = turn(frontier, visited, children).0;
    assert forall|i: int| 0 <= i < next.len() implies (#[trigger] next[i]).depth <= max_depth by {
        if i < frontier.len() - 1 {
            assert(next[i] == frontier[i + 1]);
        } else {
            assert(next[i] == children[i - (frontier.len() - 1)]);
        }
    }
}

/// Taking the head with [`Frontier::try_pop`], claiming its URL with
/// [`VisitedSet::try_claim`] and, where the claim won, appending `children`
/// to the frontier makes one turn.
pub proof fn lemma_operations_make_a_turn(
    frontier: Seq<TaskView>,
    visited: Set<Seq<char>>,
    children: Seq<TaskView>,
    popped: Seq<TaskView>,
    won: bool,
    claimed: Set<Seq<char>>,
)
    requires
        frontier.len() > 0,
        popped == frontier.skip(1),
        won == !visited.contains(frontier[0].url),
        claimed == visited.insert(frontier[0].url),
    ensures
        turn(frontier, visited, children) == (
            if won {
                popped + children
            } else {
                popped
            },
            claimed,
        ),
{
    if !won {
        assert(claimed =~= visited);
    }
}

/// Every turn of a worker makes progress: among the finitely many URLs that
/// can be reached it either claims one more, or claims none and shortens the
/// frontier. Both cannot go on for ever, so a run over a finite link graph
/// drains the frontier.
pub proof fn lemma_turn_makes_progress(
    reachable: Set<Seq<char>>,
    frontier: Seq<TaskView>,
    visited: Set<Seq<char>>,
    children: Seq<TaskView>,
)
    requires
        reachable.finite(),
        frontier.len() > 0,
        reachable.contains(frontier[0].url),
    ensures
        ({
            let (next_frontier, next_visited) = turn(frontier, visited, children);
            ||| unclaimed(reachable, next_visited) < unclaimed(reachable, visited)
            ||| (unclaimed(reachable, next_visited) == unclaimed(reachable, visited)
                && next_frontier.len() < frontier.len())
        }),
{
    let url = frontier[0].url;
    if !visited.contains(url) {
        let before = reachable.difference(visited);
        let after = reachable.difference(visited.insert(url));
        assert(after =~= before.remove(url));
        assert(before.contains(url));
    }
}

/// A bound on the turns that a run has left, where no page adds more than
/// `fanout` tasks: every unclaimed URL may still be claimed and add its
/// tasks, and every pending task takes a turn.
pub open spec fn turns_left(
    reachable: Set<Seq<char>>,
    frontier: Seq<TaskView>,
    visited: Set<Seq<char>>,
    fanout: nat,
) -> nat {
    unclaimed(reachable, visited) * (fanout + 1) + frontier.len()
}

/// Whether `after` follows from `before` by one turn on a reachable URL that
/// adds at most `fanout` tasks.
pub open spec fn is_turn(
    reachable: Set<Seq<char>>,
    fanout: nat,
    before: (Seq<TaskView>, Set<Seq<char>>),
    after: (Seq<TaskView>, Set<Seq<char>>),
) -> bool {
    &&& before.0.len() > 0
    &&& reachable.contains(before.0[0].url)
    &&& exists|children: Seq<TaskView>|
        children.len() <= fanout && after == #[trigger] turn(before.0, before.1, children)
}

/// Whether `states` are the frontiers and claimed sets of a run, turn by
/// turn.
pub open spec fn is_run(
    reachable: Set<Seq<char>>,
    fanout: nat,
    states: Seq<(Seq<TaskView>, Set<Seq<char>>)>,
) -> bool {
    forall|i: int|
        0 <= i < states.len() - 1 ==> is_turn(reachable, fanout, #[trigger] states[i], states[i + 1])
}

/// Every turn uses up some of the bound on the turns that are left.
pub proof fn lemma_turn_uses_budget(
    reachable: Set<Seq<char>>,
    frontier: Seq<TaskView>,
    visited: Set<Seq<char>>,
    children: Seq<TaskView>,
    fanout: nat,
)
    requires
        reachable.finite(),
        frontier.len() > 0,
        reachable.contains(frontier[0].url),
        children.len() <= fanout,
    ensures
        ({
            let (next_frontier, next_visited) = turn(frontier, visited, children);
            turns_left(reachable, next_frontier, next_visited, fanout) < turns_left(
                reachable,
                frontier,
                visited,
                fanout,
            )
        }),
{
    let url = frontier[0].url;
    if !visited.contains(url) {
        let before = reachable.difference(visited);
        let after = reachable.difference(visited.insert(url));
        assert(after =~= before.remove(url));
        assert(before.contains(url));
        let u = before.len();
        assert(after.len() == u - 1);
        assert((u - 1) * (fanout + 1) == u * (fanout + 1) - (fanout + 1)) by (nonlinear_arith);
    }
}

/// A run over finitely many reachable URLs is finite: it takes no more turns
/// than the bound at its start allows, so the frontier is drained after
/// that many turns at the latest.
pub proof fn lemma_run_is_bounded(
    reachable: Set<Seq<char>>,
    fanout: nat,
    states: Seq<(Seq<TaskView>, Set<Seq<char>>)>,
)
    requires
        reachable.finite(),
        states.len() > 0,
        is_run(reachable, fanout, states),
    ensures
        states.len() <= turns_left(reachable, states[0].0, states[0].1, fanout) + 1,
    decreases states.len(),
{
    if states.len() > 1 {
        assert(is_turn(reachable, fanout, states[0], states[1]));
        let children = choose|children: Seq<TaskView>|
            children.len() <= fanout && states[1] == #[trigger] turn(
                states[0].0,
                states[0].1,
                children,
            );
        lemma_turn_uses_budget(reachable, states[0].0, states[0].1, children, fanout);
        let rest = states.skip(1);
        assert forall|i: int| 0 <= i < rest.len() - 1 implies is_turn(
            reachable,
            fanout,
            #[trigger] rest[i],
            rest[i + 1],
        ) by {
            assert(is_turn(reachable, fanout, states[i + 1], states[i + 2]));
        }
        lemma_run_is_bounded(reachable, fanout, rest);
        assert(rest[0] == states[1]);
    }
}

} // verus!
