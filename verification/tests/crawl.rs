use web_scraper::cli::{Cli, ConfigError};
use web_scraper::engine::Scraper;
use web_scraper::frontier::Frontier;
use web_scraper::storage::Storage;
use web_scraper::task::CrawlTask;
use web_scraper::visited::VisitedSet;
use web_scraper::worker::{advance, step, TaskStage, WorkerAction, WorkerEvent, WorkerState};

struct Outcome {
    visited: usize,
    stored: Vec<(String, usize, String)>,
    warnings: Vec<String>,
    fetched_depths: Vec<usize>,
}

fn page_with_links(links: &[&str]) -> String {
    let mut body = String::from("<html><body>");
    for link in links {
        body.push_str(&format!("<a href=\"{}\">link</a>", link));
    }
    body.push_str("</body></html>");
    body
}

fn lookup(pages: &[(&str, Option<String>)], url: &str) -> Result<String, String> {
    for (known, body) in pages {
        if *known == url {
            return match body {
                Some(text) => Ok(text.clone()),
                None => Err(format!("Failed to fetch {}: timed out", url)),
            };
        }
    }
    Ok(page_with_links(&[]))
}

fn crawl(seeds: &[&str], max_depth: usize, pages: &[(&str, Option<String>)]) -> Outcome {
    let scraper = Scraper::new();
    let storage = Storage::new("out");
    let seeds: Vec<String> = seeds.iter().map(|s| s.to_string()).collect();
    let mut frontier = scraper.seed(&seeds);
    let mut visited = VisitedSet::new();
    let mut outcome = Outcome { visited: 0, stored: vec![], warnings: vec![], fetched_depths: vec![] };
    let mut state = WorkerState::FetchingTask;
    let mut action = WorkerAction::Pop;
    let mut held: Option<CrawlTask> = None;
    let mut turns = 0;
    while action != WorkerAction::Stop {
        turns += 1;
        assert!(turns < 10_000);
        let event = match action {
            WorkerAction::Pop => {
                held = frontier.try_pop();
                WorkerEvent::Popped { found: held.is_some() }
            }
            WorkerAction::Process => {
                let task = held.take().unwrap();
                let mut stage = TaskStage::Claim;
                let mut body = String::new();
                let mut saved = String::new();
                while stage != TaskStage::Done {
                    let ok = match stage {
                        TaskStage::Claim => visited.try_claim(&task.url),
                        TaskStage::Fetch => {
                            outcome.fetched_depths.push(task.depth);
                            match lookup(pages, &task.url) {
                                Ok(text) => {
                                    body = text;
                                    true
                                }
                                Err(warning) => {
                                    outcome.warnings.push(warning);
                                    false
                                }
                            }
                        }
                        TaskStage::Store => {
                            match storage.page_path(&task.url, task.parent_directory.as_deref()) {
                                Ok(path) => {
                                    outcome.stored.push((task.url.clone(), task.depth, path.clone()));
                                    saved = path;
                                    true
                                }
                                Err(_) => false,
                            }
                        }
                        TaskStage::Expand => {
                            scraper.expand(&mut frontier, &visited, &task, max_depth, &body, &saved);
                            true
                        }
                        TaskStage::Done => true,
                    };
                    stage = advance(stage, ok, task.depth, max_depth);
                }
                WorkerEvent::Finished
            }
            WorkerAction::Probe => WorkerEvent::Probed { empty: frontier.is_empty() },
            WorkerAction::Stop => WorkerEvent::Finished,
        };
        let next = step(state, event);
        state = next.0;
        action = next.1;
    }
    assert_eq!(state, WorkerState::Exited);
    assert!(frontier.is_empty());
    outcome.visited = visited.len();
    outcome
}

#[test]
fn seed_page_with_two_links_visits_three() {
    let pages = [("https://a.test/", Some(page_with_links(&["https://a.test/b", "https://b.test/"])))];
    let outcome = crawl(&["https://a.test/"], 1, &pages);
    assert_eq!(outcome.visited, 3);
    assert_eq!(
        outcome.stored,
        vec![
            ("https://a.test/".to_string(), 0, "a.test.html".to_string()),
            ("https://a.test/b".to_string(), 1, "a.test/a.test_b.html".to_string()),
            ("https://b.test/".to_string(), 1, "a.test/b.test.html".to_string()),
        ]
    );
    assert_eq!(Storage::child_directory("a.test.html"), "a.test");
}

#[test]
fn self_link_is_visited_once() {
    let pages = [("https://a.test/", Some(page_with_links(&["https://a.test/"])))];
    let outcome = crawl(&["https://a.test/"], 1, &pages);
    assert_eq!(outcome.visited, 1);
    assert_eq!(outcome.stored.len(), 1);
}

#[test]
fn failed_fetch_is_local_to_its_task() {
    let pages = [("https://a.test/", None), ("https://b.test/", Some(page_with_links(&[])))];
    let outcome = crawl(&["https://a.test/", "https://b.test/"], 1, &pages);
    assert_eq!(outcome.warnings.len(), 1);
    assert!(outcome.warnings[0].contains("https://a.test/"));
    assert_eq!(outcome.stored.len(), 1);
    assert_eq!(outcome.stored[0].0, "https://b.test/");
    // The count is that of the URLs attempted: the failed one was claimed too.
    assert_eq!(outcome.visited, 2);
}

#[test]
fn zero_depth_is_refused() {
    let cli = Cli { output: "out".to_string(), depth: 0, urls: vec!["https://a.test/".to_string()] };
    let checked = cli.validate();
    assert_eq!(checked, Err(ConfigError::ZeroDepth));
    assert_eq!(Cli::exit_code(&checked), 1);
    assert_eq!(ConfigError::ZeroDepth.message(), "depth must be at least 1");
}

#[test]
fn no_urls_is_refused() {
    let cli = Cli { output: "out".to_string(), depth: 2, urls: vec![] };
    let checked = cli.validate();
    assert_eq!(checked, Err(ConfigError::NoUrls));
    assert_eq!(Cli::exit_code(&checked), 1);
    assert_eq!(ConfigError::NoUrls.message(), "at least one URL must be provided");
}

#[test]
fn zero_depth_is_reported_before_missing_urls() {
    let cli = Cli { output: "out".to_string(), depth: 0, urls: vec![] };
    assert_eq!(cli.validate(), Err(ConfigError::ZeroDepth));
}

#[test]
fn valid_configuration_is_accepted() {
    let cli = Cli { output: "out".to_string(), depth: 1, urls: vec!["https://a.test/".to_string()] };
    let checked = cli.validate();
    assert_eq!(checked, Ok(()));
    assert_eq!(Cli::exit_code(&checked), 0);
}

#[test]
fn no_task_beyond_the_depth_limit_is_fetched() {
    let pages = [
        ("https://a.test/", Some(page_with_links(&["/1"]))),
        ("https://a.test/1", Some(page_with_links(&["/2"]))),
        ("https://a.test/2", Some(page_with_links(&["/3"]))),
        ("https://a.test/3", Some(page_with_links(&["/4"]))),
    ];
    let outcome = crawl(&["https://a.test/"], 2, &pages);
    assert_eq!(outcome.fetched_depths, vec![0, 1, 2]);
    assert_eq!(outcome.visited, 3);
    assert_eq!(outcome.stored[2].2, "a.test/a.test_1/a.test_2.html");
}

#[test]
fn cyclic_link_graph_is_drained() {
    let pages = [
        ("https://a.test/", Some(page_with_links(&["https://b.test/", "https://a.test/"]))),
        ("https://b.test/", Some(page_with_links(&["https://a.test/", "https://b.test/"]))),
    ];
    let outcome = crawl(&["https://a.test/", "https://b.test/"], 50, &pages);
    assert_eq!(outcome.visited, 2);
}

#[test]
fn duplicate_seed_is_claimed_once() {
    let outcome = crawl(&["https://a.test/", "https://a.test/"], 1, &[]);
    assert_eq!(outcome.visited, 1);
    assert_eq!(outcome.stored.len(), 1);
}

#[test]
fn invalid_seed_is_claimed_but_not_stored() {
    let outcome = crawl(&["not a url"], 1, &[]);
    assert_eq!(outcome.visited, 1);
    assert!(outcome.stored.is_empty());
}

#[test]
fn claim_wins_exactly_once() {
    let mut visited = VisitedSet::new();
    assert!(!visited.contains("https://a.test/"));
    assert!(visited.try_claim("https://a.test/"));
    assert!(visited.contains("https://a.test/"));
    assert!(!visited.try_claim("https://a.test/"));
    assert!(!visited.try_claim("https://a.test/"));
    assert!(visited.try_claim("https://b.test/"));
    assert_eq!(visited.len(), 2);
}

#[test]
fn frontier_is_first_in_first_out() {
    let mut frontier = Frontier::new();
    assert!(frontier.is_empty());
    assert!(frontier.try_pop().is_none());
    frontier.push(CrawlTask::seed("one".to_string()));
    frontier.push(CrawlTask::seed("two".to_string()));
    assert_eq!(frontier.len(), 2);
    assert_eq!(frontier.try_pop().unwrap().url, "one");
    frontier.push(CrawlTask::seed("three".to_string()));
    assert_eq!(frontier.try_pop().unwrap().url, "two");
    assert_eq!(frontier.try_pop().unwrap().url, "three");
    assert!(frontier.try_pop().is_none());
    assert!(frontier.is_empty());
}

#[test]
fn seeds_start_at_depth_zero_without_parent() {
    let scraper = Scraper::new();
    let mut frontier = scraper.seed(&vec!["https://a.test/".to_string(), "https://b.test/".to_string()]);
    assert_eq!(frontier.len(), 2);
    let first = frontier.try_pop().unwrap();
    assert_eq!(first.url, "https://a.test/");
    assert_eq!(first.depth, 0);
    assert_eq!(first.parent_directory, None);
    assert_eq!(frontier.try_pop().unwrap().url, "https://b.test/");
}

#[test]
fn child_is_one_hop_deeper() {
    let parent = CrawlTask { url: "p".to_string(), depth: 4, parent_directory: None };
    let child = parent.child("c".to_string(), "dir".to_string());
    assert_eq!(child.url, "c");
    assert_eq!(child.depth, 5);
    assert_eq!(child.parent_directory, Some("dir".to_string()));
}

#[test]
fn children_skip_visited_links() {
    let scraper = Scraper::new();
    let mut frontier = Frontier::new();
    let mut visited = VisitedSet::new();
    visited.try_claim("https://seen.test/");
    let task = CrawlTask::seed("https://a.test/".to_string());
    let links = vec!["https://x.test/".to_string(), "https://seen.test/".to_string(), "https://y.test/".to_string()];
    scraper.enqueue_children(&mut frontier, &visited, &task, 1, &links, "a.test");
    assert_eq!(frontier.len(), 2);
    let x = frontier.try_pop().unwrap();
    assert_eq!((x.url.as_str(), x.depth, x.parent_directory.as_deref()), ("https://x.test/", 1, Some("a.test")));
    let y = frontier.try_pop().unwrap();
    assert_eq!((y.url.as_str(), y.depth, y.parent_directory.as_deref()), ("https://y.test/", 1, Some("a.test")));
}

#[test]
fn nothing_is_enqueued_at_the_depth_limit() {
    let scraper = Scraper::new();
    let mut frontier = Frontier::new();
    let visited = VisitedSet::new();
    let task = CrawlTask { url: "https://a.test/".to_string(), depth: 1, parent_directory: None };
    scraper.enqueue_children(&mut frontier, &visited, &task, 1, &vec!["https://x.test/".to_string()], "a.test");
    assert!(frontier.is_empty());
    scraper.expand(&mut frontier, &visited, &task, 1, &page_with_links(&["https://x.test/"]), "a.test.html");
    assert!(frontier.is_empty());
}

#[test]
fn worker_steps_follow_the_loop() {
    assert_eq!(
        step(WorkerState::FetchingTask, WorkerEvent::Popped { found: true }),
        (WorkerState::Processing, WorkerAction::Process)
    );
    assert_eq!(
        step(WorkerState::FetchingTask, WorkerEvent::Popped { found: false }),
        (WorkerState::IdleProbe, WorkerAction::Probe)
    );
    assert_eq!(step(WorkerState::Processing, WorkerEvent::Finished), (WorkerState::FetchingTask, WorkerAction::Pop));
    assert_eq!(
        step(WorkerState::IdleProbe, WorkerEvent::Probed { empty: true }),
        (WorkerState::Exited, WorkerAction::Stop)
    );
    assert_eq!(
        step(WorkerState::IdleProbe, WorkerEvent::Probed { empty: false }),
        (WorkerState::FetchingTask, WorkerAction::Pop)
    );
    assert_eq!(step(WorkerState::Exited, WorkerEvent::Popped { found: true }), (WorkerState::Exited, WorkerAction::Stop));
    assert_eq!(step(WorkerState::Processing, WorkerEvent::Probed { empty: true }), (WorkerState::Processing, WorkerAction::Process));
}

#[test]
fn task_stages_end_on_failure() {
    assert_eq!(advance(TaskStage::Claim, true, 0, 1), TaskStage::Fetch);
    assert_eq!(advance(TaskStage::Claim, false, 0, 1), TaskStage::Done);
    assert_eq!(advance(TaskStage::Fetch, true, 0, 1), TaskStage::Store);
    assert_eq!(advance(TaskStage::Fetch, false, 0, 1), TaskStage::Done);
    assert_eq!(advance(TaskStage::Store, true, 0, 1), TaskStage::Expand);
    assert_eq!(advance(TaskStage::Store, true, 1, 1), TaskStage::Done);
    assert_eq!(advance(TaskStage::Store, false, 0, 1), TaskStage::Done);
    assert_eq!(advance(TaskStage::Expand, true, 0, 1), TaskStage::Done);
    assert_eq!(advance(TaskStage::Done, true, 0, 1), TaskStage::Done);
}

#[test]
fn repeated_link_is_enqueued_once() {
    let scraper = Scraper::new();
    let mut frontier = Frontier::new();
    let visited = VisitedSet::new();
    let task = CrawlTask::seed("https://a.test/".to_string());
    let body = page_with_links(&["/b", "/b", "https://a.test/b"]);
    scraper.expand(&mut frontier, &visited, &task, 1, &body, "a.test.html");
    assert_eq!(frontier.len(), 1);
    let child = frontier.try_pop().unwrap();
    assert_eq!(child.url, "https://a.test/b");
    assert_eq!(child.depth, 1);
    assert_eq!(child.parent_directory.as_deref(), Some("a.test"));
}
