//! A crawl task: a URL, its distance from a seed, and the directory that its
//! page is stored under.

use vstd::prelude::*;

verus! {

/// The mathematical value of a [`CrawlTask`].
pub struct TaskView {
    pub url: Seq<char>,
    pub depth: nat,
    pub parent_directory: Option<Seq<char>>,
}

/// A URL to crawl, the number of link hops from a seed to it, and the
/// directory, relative to the output root, that holds its page.
#[derive(Clone, Debug)]
pub struct CrawlTask {
    pub url: String,
    pub depth: usize,
    pub parent_directory: Option<String>,
}

/// The view of an optional string.
pub open spec fn text_of(s: Option<String>) -> Option<Seq<char>> {
    match s {
        Some(t) => Some(t@),
        None => None,
    }
}

/// The task of a seed URL: depth zero, stored at the output root.
pub open spec fn seed_task(url: Seq<char>) -> TaskView {
    TaskView { url, depth: 0, parent_directory: None }
}

/// The task of a link found on `parent`'s page: one hop deeper, stored under
/// `directory`.
pub open spec fn child_task(parent: TaskView, url: Seq<char>, directory: Seq<char>) -> TaskView {
    TaskView { url, depth: parent.depth + 1, parent_directory: Some(directory) }
}

impl View for CrawlTask {
    type V = TaskView;

    open spec fn view(&self) -> TaskView {
        TaskView {
            url: self.url@,
            depth: self.depth as nat,
            parent_directory: text_of(self.parent_directory),
        }
    }
}

impl CrawlTask {
    /// The task of a seed URL.
    pub fn seed(url: String) -> (task: CrawlTask)
        ensures
            task@ == seed_task(url@),
    {
        CrawlTask { url, depth: 0, parent_directory: None }
    }

    /// The task of a link found on the page of `self`.
    pub fn child(&self, url: String, directory: String) -> (task: CrawlTask)
        requires
            self.depth < usize::MAX,
        ensures
            task@ == child_task(self@, url@, directory@),
    {
        CrawlTask { url, depth: self.depth + 1, parent_directory: Some(directory) }
    }
}

} // verus!
