use conan_cleanup::query::QueryError;
use conan_cleanup::session::{answer_of, classify_answer, Event, Notice, Phase, Request, Session, ToolCall};

struct Cache {
    recipes: Vec<(String, Vec<String>)>,
}

impl Cache {
    fn new(recipes: &[(&str, &[&str])]) -> Cache {
        Cache {
            recipes: recipes
                .iter()
                .map(|(r, ps)| (r.to_string(), ps.iter().map(|p| p.to_string()).collect()))
                .collect(),
        }
    }

    fn all(&self) -> String {
        let items: Vec<String> =
            self.recipes.iter().map(|(r, _)| format!("{{\"recipe\": {{\"id\": \"{}\"}}}}", r)).collect();
        format!("{{\"error\": false, \"results\": [{{\"remote\": null, \"items\": [{}]}}]}}", items.join(", "))
    }

    fn one(&self, recipe: &str) -> String {
        match self.recipes.iter().find(|(r, _)| r == recipe) {
            Some((_, ps)) if !ps.is_empty() => {
                let packages: Vec<String> = ps.iter().map(|p| format!("{{\"id\": \"{}\"}}", p)).collect();
                format!(
                    "{{\"results\": [{{\"items\": [{{\"recipe\": {{\"id\": \"{}\"}}, \"packages\": [{}]}}]}}]}}",
                    recipe,
                    packages.join(", ")
                )
            }
            _ => format!("{{\"results\": [{{\"items\": [{{\"recipe\": {{\"id\": \"{}\"}}}}]}}]}}", recipe),
        }
    }
}

/// Runs a session against a simulated cache; logs each request and notice.
fn run(force: bool, in_use: &[&str], cache: &mut Cache, answers: &[&str], broken: Option<&str>) -> Vec<String> {
    let in_use = in_use.iter().map(|s| s.to_string()).collect();
    let (mut session, mut step) = Session::start(force, in_use);
    let mut log = Vec::new();
    let mut answers = answers.iter();
    for _ in 0..100 {
        for notice in &step.notices {
            log.push(match notice {
                Notice::ShowPlan => format!("plan {}", session.plan.len()),
                Notice::NothingUnused => "nothing".to_string(),
                Notice::Ask(_) => "ask".to_string(),
                Notice::AskAgain => "again".to_string(),
                Notice::RemovingRecipe(r) => format!("removing {}", r),
            });
        }
        let event = match &step.request {
            Request::Run(ToolCall::SearchAll) => {
                log.push("search".to_string());
                Event::Output(broken.map(|b| b.to_string()).unwrap_or_else(|| cache.all()))
            }
            Request::Run(ToolCall::SearchRecipe(r)) => {
                log.push(format!("search {}", r));
                Event::Output(cache.one(r))
            }
            Request::Run(ToolCall::RemovePackage(r, p)) => {
                log.push(format!("remove {} {}", r, p));
                for entry in cache.recipes.iter_mut().filter(|(x, _)| x == r) {
                    entry.1.retain(|q| q != p);
                }
                Event::Ran
            }
            Request::Run(ToolCall::RemoveRecipe(r)) => {
                log.push(format!("remove {}", r));
                cache.recipes.retain(|(x, _)| x != r);
                Event::Ran
            }
            Request::ReadAnswer => Event::Answer(answers.next().expect("an answer").to_string()),
            Request::Abort(_) => {
                log.push("abort".to_string());
                let after = session.step(Event::Ran);
                assert!(matches!(after.request, Request::Finish));
                assert!(matches!(session.phase, Phase::Aborted));
                return log;
            }
            Request::Finish => {
                log.push("finish".to_string());
                return log;
            }
        };
        step = session.step(event);
    }
    panic!("the session did not end");
}

#[test]
fn forced_run_removes_unused_then_empty_recipes() {
    let mut cache = Cache::new(&[("R1", &["P1"]), ("R2", &["P2", "P3"])]);
    let log = run(true, &["P3"], &mut cache, &[], None);
    assert_eq!(
        log,
        vec![
            "search", "search R1", "search R2", "plan 2", "remove R1 P1", "remove R2 P2",
            "search R1", "removing R1", "remove R1", "search R2", "finish",
        ]
    );
    assert_eq!(cache.recipes.len(), 1);
    assert_eq!(cache.recipes[0].1, vec!["P3"]);
}

#[test]
fn forced_run_never_asks() {
    let mut cache = Cache::new(&[("R1", &["P1", "P2"]), ("R2", &[])]);
    let log = run(true, &[], &mut cache, &[], None);
    assert!(!log.iter().any(|l| l == "ask" || l == "again"));
    assert!(log.contains(&"remove R1 P1".to_string()));
    assert!(log.contains(&"remove R2".to_string()));
    assert!(cache.recipes.is_empty());
}

#[test]
fn recipe_with_packages_left_is_kept() {
    let mut cache = Cache::new(&[("R1", &["P1"])]);
    let log = run(false, &["P1"], &mut cache, &["yes"], None);
    assert_eq!(log, vec!["search", "search R1", "nothing", "ask", "search R1", "finish"]);
    assert_eq!(cache.recipes.len(), 1);
}

#[test]
fn empty_recipe_is_removed_after_its_packages() {
    let mut cache = Cache::new(&[("R1", &["P1"])]);
    let log = run(false, &[], &mut cache, &["y", "Y"], None);
    assert_eq!(
        log,
        vec!["search", "search R1", "plan 1", "ask", "remove R1 P1", "ask", "search R1", "removing R1", "remove R1", "finish"]
    );
    assert!(cache.recipes.is_empty());
}

#[test]
fn declined_gates_change_nothing() {
    let mut cache = Cache::new(&[("R1", &["P1"]), ("R2", &[])]);
    let log = run(false, &[], &mut cache, &["no", "N"], None);
    assert_eq!(log, vec!["search", "search R1", "search R2", "plan 1", "ask", "ask", "finish"]);
    assert_eq!(cache.recipes.len(), 2);
}

#[test]
fn unclear_answer_is_asked_again() {
    let mut cache = Cache::new(&[]);
    let log = run(false, &[], &mut cache, &["maybe", "  n  \n"], None);
    assert_eq!(log, vec!["search", "nothing", "ask", "again", "finish"]);
}

#[test]
fn malformed_listing_aborts_before_any_command() {
    let mut cache = Cache::new(&[("R1", &["P1"])]);
    let log = run(true, &[], &mut cache, &[], Some(r#"{"error": false}"#));
    assert_eq!(log, vec!["search", "abort"]);
    assert_eq!(cache.recipes[0].1, vec!["P1"]);
}

#[test]
fn abort_carries_the_shape_error() {
    let (mut session, _) = Session::start(true, Vec::new());
    let step = session.step(Event::Output(String::from(r#"{"results": []}"#)));
    assert!(matches!(step.request, Request::Abort(QueryError::Shape(_))));
    let step = session.step(Event::Output(String::from(r#"{"results": [{"items": []}]}"#)));
    assert!(matches!(step.request, Request::Finish));
}

#[test]
fn unreadable_output_aborts() {
    let (mut session, _) = Session::start(false, Vec::new());
    let step = session.step(Event::Unreadable(String::from("no such file")));
    match step.request {
        Request::Abort(QueryError::Unreadable(m)) => assert_eq!(m, "no such file"),
        _ => panic!("expected an abort"),
    }
}

#[test]
fn unexpected_event_repeats_the_request() {
    let (mut session, _) = Session::start(false, Vec::new());
    let step = session.step(Event::Ran);
    assert!(matches!(step.request, Request::Run(ToolCall::SearchAll)));
    assert!(matches!(session.phase, Phase::ListRecipes));
}

#[test]
fn answers_are_read_after_trimming() {
    assert_eq!(classify_answer(" yes\n"), Some(true));
    assert_eq!(classify_answer("Y"), Some(true));
    assert_eq!(classify_answer("\tNo \r\n"), Some(false));
    assert_eq!(classify_answer("n"), Some(false));
    assert_eq!(classify_answer("YES"), None);
    assert_eq!(classify_answer(""), None);
    assert_eq!(answer_of(&String::from(" yes")), None);
}
