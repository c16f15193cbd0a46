use vstd::prelude::*;
use crate::plan::{plan_of, plan_view, removal_plan};
use crate::query::{json_document, package_ids, parse_package_ids, parse_recipe_ids, recipe_ids, QueryError, ShapeError};
use crate::usage::views;

verus! {

/// A run of the external cache tool that the session asks for.
#[derive(Debug)]
pub enum ToolCall {
    /// List every cached recipe into the result file.
    SearchAll,
    /// List the cached packages of one recipe into the result file.
    SearchRecipe(String),
    /// Remove one package of a recipe, without asking.
    RemovePackage(String, String),
    /// Remove a whole recipe, without asking.
    RemoveRecipe(String),
}

/// The two yes/no questions of a run.
#[derive(Debug)]
pub enum Question {
    RemovePackages,
    RemoveEmptyRecipes,
}

/// Something to tell the user before the request is carried out.
#[derive(Debug)]
pub enum Notice {
    /// The removal plan (the session's `plan`) is to be shown.
    ShowPlan,
    /// No recipe has an unused package.
    NothingUnused,
    /// A question to put.
    Ask(Question),
    /// The last answer was neither yes nor no.
    AskAgain,
    /// A recipe with no packages left is being removed.
    RemovingRecipe(String),
}

/// What the session needs next.
#[derive(Debug)]
pub enum Request {
    /// Run the tool; hand back `Output` or `Unreadable` after a search, `Ran` after a removal.
    Run(ToolCall),
    /// Read one line of the user's answer and hand it back as `Answer`.
    ReadAnswer,
    /// Stop the run as failed.
    Abort(QueryError),
    /// The run is over.
    Finish,
}

/// One step of the session: notices to show, then a request.
pub struct Step {
    pub notices: Vec<Notice>,
    pub request: Request,
}

/// What happened since the last request.
pub enum Event {
    /// A search ran and its result file holds this text.
    Output(String),
    /// A search ran but its result file could not be read, for this reason.
    Unreadable(String),
    /// A removal ran, whatever its exit status.
    Ran,
    /// The user typed this line.
    Answer(String),
}

/// Where a session stands.
#[derive(Debug)]
pub enum Phase {
    /// Waiting for the listing of all recipes.
    ListRecipes,
    /// Waiting for the packages of recipe `i`.
    ListPackages(usize),
    /// Waiting for the answer to the question on removing packages.
    ConfirmRemoval,
    /// Waiting for the removal of package `j` of plan entry `i`.
    RemovePackages(usize, usize),
    /// Waiting for the answer to the question on removing empty recipes.
    ConfirmCleanup,
    /// Waiting for the fresh package list of recipe `i`.
    CheckRecipe(usize),
    /// Waiting for the removal of recipe `i`.
    DropRecipe(usize),
    Finished,
    Aborted,
}

/// A cleanup run: what it has learnt so far and where it stands.
pub struct Session {
    /// Proceed without asking.
    pub force: bool,
    /// The usage set.
    pub in_use: Vec<String>,
    /// Every recipe of the cache, as first listed.
    pub recipes: Vec<String>,
    /// The packages of each recipe listed so far.
    pub inventory: Vec<(String, Vec<String>)>,
    /// The removal plan, once the inventory is complete.
    pub plan: Vec<(String, Vec<String>)>,
    pub phase: Phase,
}

/// The word a trimmed answer is: `Some(true)` for yes, `Some(false)` for no.
pub open spec fn answer_word(t: Seq<char>) -> Option<bool> {
    if t == "Yes"@ || t == "yes"@ || t == "y"@ || t == "Y"@ {
        Some(true)
    } else if t == "No"@ || t == "no"@ || t == "n"@ || t == "N"@ {
        Some(false)
    } else {
        None
    }
}

/// `char::is_whitespace`: the characters with Unicode's White_Space property.
pub open spec fn white(c: char) -> bool {
    let u = c as u32;
    ||| 0x09 <= u <= 0x0d
    ||| u == 0x20 || u == 0x85 || u == 0xa0 || u == 0x1680
    ||| 0x2000 <= u <= 0x200a
    ||| u == 0x2028 || u == 0x2029 || u == 0x202f || u == 0x205f || u == 0x3000
}

/// The text without its leading white space.
pub open spec fn trim_start(s: Seq<char>) -> Seq<char>
    decreases s.len(),
{
    if s.len() > 0 && white(s[0]) {
        trim_start(s.drop_first())
    } else {
        s
    }
}

/// The text without its trailing white space.
pub open spec fn trim_end(s: Seq<char>) -> Seq<char>
    decreases s.len(),
{
    if s.len() > 0 && white(s.last()) {
        trim_end(s.drop_last())
    } else {
        s
    }
}

/// The text without leading and trailing white space.
pub open spec fn trimmed(s: Seq<char>) -> Seq<char> {
    trim_end(trim_start(s))
}

/// Relies on str::trim: strips leading and trailing characters for which
/// `char::is_whitespace` holds.
#[verifier::external_body]
fn trim_line(line: &str) -> (r: String)
    ensures
        r@ == trimmed(line@),
{
    line.trim().to_owned()
}

fn text_is(t: &String, word: &str) -> (r: bool)
    ensures
        r == (t@ == word@),
{
    t.eq(&word.to_owned())
}

/// Reads an already trimmed answer.
pub fn answer_of(t: &String) -> (r: Option<bool>)
    ensures
        r == answer_word(t@),
{
    if text_is(t, "Yes") || text_is(t, "yes") || text_is(t, "y") || text_is(t, "Y") {
        Some(true)
    } else if text_is(t, "No") || text_is(t, "no") || text_is(t, "n") || text_is(t, "N") {
        Some(false)
    } else {
        None
    }
}

/// Reads a line typed at a yes/no question.
pub fn classify_answer(line: &str) -> (r: Option<bool>)
    ensures
        r == answer_word(trimmed(line@)),
{
    let t = trim_line(line);
    answer_of(&t)
}

/// What a step amounts to: the phase it leaves, its notices and its request.
pub type Outcome = (Phase, Seq<Notice>, Request);

/// What a listing of all recipes amounts to: `None` where it is no JSON document.
pub open spec fn recipes_parsed(t: Seq<char>) -> Option<Result<Seq<String>, ShapeError>> {
    match json_document(t) {
        Some(doc) => Some(recipe_ids(doc)),
        None => None,
    }
}

/// What a listing of one recipe amounts to: `None` where it is no JSON document.
pub open spec fn packages_parsed(t: Seq<char>) -> Option<Result<Seq<String>, ShapeError>> {
    match json_document(t) {
        Some(doc) => Some(package_ids(doc)),
        None => None,
    }
}

/// `err` is the error of a listing that amounts to `o`.
pub open spec fn fails_as(err: QueryError, o: Option<Result<Seq<String>, ShapeError>>) -> bool {
    match err {
        QueryError::Decode(_) => o is None,
        QueryError::Shape(e) => o == Some(Err::<Seq<String>, ShapeError>(e)),
        QueryError::Unreadable(_) => false,
    }
}

/// Everything but the phase is the same in `s` and `n`.
pub open spec fn same_data(s: Session, n: Session) -> bool {
    &&& n.force == s.force
    &&& n.in_use == s.in_use
    &&& n.recipes == s.recipes
    &&& n.inventory == s.inventory
    &&& n.plan == s.plan
}

/// The session's plan is that of its inventory and usage set.
pub open spec fn plan_done(s: Session) -> bool {
    plan_view(s.plan@) == plan_of(s.inventory@, views(s.in_use@))
}

/// `n` and `r` are the outcome `o`.
pub open spec fn yields(n: Session, r: Step, o: Outcome) -> bool {
    &&& n.phase == o.0
    &&& r.notices@ == o.1
    &&& r.request == o.2
}

pub open spec fn finish(notices: Seq<Notice>) -> Outcome {
    (Phase::Finished, notices, Request::Finish)
}

/// Re-query recipe `j` and those after it; finish after the last.
pub open spec fn check_from(s: Session, j: int, notices: Seq<Notice>) -> Outcome {
    if 0 <= j < s.recipes@.len() {
        (Phase::CheckRecipe(j as usize), notices, Request::Run(ToolCall::SearchRecipe(s.recipes@[j])))
    } else {
        finish(notices)
    }
}

/// Before recipes left empty are removed: ask, unless the run is forced.
pub open spec fn gate_cleanup(s: Session, notices: Seq<Notice>) -> Outcome {
    if s.force {
        check_from(s, 0, notices)
    } else {
        (Phase::ConfirmCleanup, notices.push(Notice::Ask(Question::RemoveEmptyRecipes)), Request::ReadAnswer)
    }
}

/// Remove package `j` of plan entry `i`; past the plan's end, go on to the empty recipes.
pub open spec fn removal_at(s: Session, i: int, j: int, notices: Seq<Notice>) -> Outcome {
    if 0 <= i < s.plan@.len() && 0 <= j < s.plan@[i].1@.len() {
        (
            Phase::RemovePackages(i as usize, j as usize),
            notices,
            Request::Run(ToolCall::RemovePackage(s.plan@[i].0, s.plan@[i].1@[j])),
        )
    } else {
        gate_cleanup(s, notices)
    }
}

/// The removal after package `j` of plan entry `i`.
pub open spec fn next_removal(s: Session, i: int, j: int) -> Outcome {
    if 0 <= i < s.plan@.len() && j + 1 < s.plan@[i].1@.len() {
        removal_at(s, i, j + 1, Seq::empty())
    } else {
        removal_at(s, i + 1, 0, Seq::empty())
    }
}

/// With the inventory complete: show the plan and ask before removing, or say that there is
/// nothing to remove and go on to the empty recipes.
pub open spec fn after_inventory(s: Session) -> Outcome {
    if s.plan@.len() > 0 {
        let shown = seq![Notice::ShowPlan];
        if s.force {
            removal_at(s, 0, 0, shown)
        } else {
            (Phase::ConfirmRemoval, shown.push(Notice::Ask(Question::RemovePackages)), Request::ReadAnswer)
        }
    } else {
        gate_cleanup(s, seq![Notice::NothingUnused])
    }
}

/// List the packages of recipe `j`; after the last, go on with the complete inventory.
pub open spec fn list_from(s: Session, j: int) -> Outcome {
    if 0 <= j < s.recipes@.len() {
        (Phase::ListPackages(j as usize), Seq::empty(), Request::Run(ToolCall::SearchRecipe(s.recipes@[j])))
    } else {
        after_inventory(s)
    }
}

/// `n` goes on listing at recipe `j`; the plan is made once the listing is over.
pub open spec fn lists_on(s: Session, n: Session, j: int, r: Step) -> bool {
    &&& j < n.recipes@.len() ==> n.plan == s.plan
    &&& j >= n.recipes@.len() ==> plan_done(n)
    &&& yields(n, r, list_from(n, j))
}

/// The session stops on a listing that amounts to `o`, and asks for nothing more.
pub open spec fn aborts(s: Session, n: Session, r: Step, o: Option<Result<Seq<String>, ShapeError>>) -> bool {
    &&& same_data(s, n)
    &&& n.phase is Aborted
    &&& r.notices@.len() == 0
    &&& r.request matches Request::Abort(err) && fails_as(err, o)
}

/// What the session still waits for.
pub open spec fn pending(s: Session) -> Request {
    match s.phase {
        Phase::ListRecipes => Request::Run(ToolCall::SearchAll),
        Phase::ListPackages(i) => Request::Run(ToolCall::SearchRecipe(s.recipes@[i as int])),
        Phase::ConfirmRemoval => Request::ReadAnswer,
        Phase::RemovePackages(i, j) => Request::Run(ToolCall::RemovePackage(s.plan@[i as int].0, s.plan@[i as int].1@[j as int])),
        Phase::ConfirmCleanup => Request::ReadAnswer,
        Phase::CheckRecipe(i) => Request::Run(ToolCall::SearchRecipe(s.recipes@[i as int])),
        Phase::DropRecipe(i) => Request::Run(ToolCall::RemoveRecipe(s.recipes@[i as int])),
        Phase::Finished => Request::Finish,
        Phase::Aborted => Request::Finish,
    }
}

/// A session whose phase fits what it holds; a forced one never waits for an answer.
pub open spec fn wf(s: Session) -> bool {
    &&& forall|k: int| 0 <= k < s.plan@.len() ==> #[trigger] s.plan@[k].1@.len() > 0
    &&& match s.phase {
        Phase::ListRecipes => s.inventory@.len() == 0,
        Phase::ListPackages(i) => i < s.recipes@.len() && s.inventory@.len() == i,
        Phase::RemovePackages(i, j) => i < s.plan@.len() && j < s.plan@[i as int].1@.len(),
        Phase::CheckRecipe(i) => i < s.recipes@.len(),
        Phase::DropRecipe(i) => i < s.recipes@.len(),
        Phase::ConfirmRemoval => !s.force,
        Phase::ConfirmCleanup => !s.force,
        _ => true,
    }
}

/// One step from `s` on event `e` leads to `n` and `r`.
pub open spec fn transition(s: Session, e: Event, n: Session, r: Step) -> bool {
    let unchanged = same_data(s, n) && n.phase == s.phase && r.notices@.len() == 0 && r.request == pending(s);
    match s.phase {
        Phase::ListRecipes => match e {
            Event::Output(t) => match recipes_parsed(t@) {
                Some(Ok(ids)) => {
                    &&& n.force == s.force && n.in_use == s.in_use && n.inventory == s.inventory
                    &&& n.recipes@ == ids
                    &&& lists_on(s, n, 0, r)
                },
                o => aborts(s, n, r, o),
            },
            Event::Unreadable(m) => same_data(s, n) && n.phase is Aborted && r.notices@.len() == 0
                && r.request == Request::Abort(QueryError::Unreadable(m)),
            _ => unchanged,
        },
        Phase::ListPackages(i) => match e {
            Event::Output(t) => match packages_parsed(t@) {
                Some(Ok(ps)) => {
                    &&& n.force == s.force && n.in_use == s.in_use && n.recipes == s.recipes
                    &&& n.inventory@.len() == s.inventory@.len() + 1
                    &&& n.inventory@.drop_last() == s.inventory@
                    &&& n.inventory@.last().0 == s.recipes@[i as int]
                    &&& n.inventory@.last().1@ == ps
                    &&& lists_on(s, n, i + 1, r)
                },
                o => aborts(s, n, r, o),
            },
            Event::Unreadable(m) => same_data(s, n) && n.phase is Aborted && r.notices@.len() == 0
                && r.request == Request::Abort(QueryError::Unreadable(m)),
            _ => unchanged,
        },
        Phase::ConfirmRemoval => match e {
            Event::Answer(line) => same_data(s, n) && match answer_word(trimmed(line@)) {
                Some(true) => yields(n, r, removal_at(n, 0, 0, Seq::empty())),
                Some(false) => yields(n, r, gate_cleanup(n, Seq::empty())),
                None => n.phase == s.phase && r.notices@ == seq![Notice::AskAgain] && r.request == Request::ReadAnswer,
            },
            _ => unchanged,
        },
        Phase::RemovePackages(i, j) => match e {
            Event::Ran => same_data(s, n) && yields(n, r, next_removal(n, i as int, j as int)),
            _ => unchanged,
        },
        Phase::ConfirmCleanup => match e {
            Event::Answer(line) => same_data(s, n) && match answer_word(trimmed(line@)) {
                Some(true) => yields(n, r, check_from(n, 0, Seq::empty())),
                Some(false) => yields(n, r, finish(Seq::empty())),
                None => n.phase == s.phase && r.notices@ == seq![Notice::AskAgain] && r.request == Request::ReadAnswer,
            },
            _ => unchanged,
        },
        Phase::CheckRecipe(i) => match e {
            Event::Output(t) => match packages_parsed(t@) {
                Some(Ok(ps)) => same_data(s, n) && if ps.len() == 0 {
                    yields(n, r, (
                        Phase::DropRecipe(i),
                        seq![Notice::RemovingRecipe(s.recipes@[i as int])],
                        Request::Run(ToolCall::RemoveRecipe(s.recipes@[i as int])),
                    ))
                } else {
                    yields(n, r, check_from(n, i + 1, Seq::empty()))
                },
                o => aborts(s, n, r, o),
            },
            Event::Unreadable(m) => same_data(s, n) && n.phase is Aborted && r.notices@.len() == 0
                && r.request == Request::Abort(QueryError::Unreadable(m)),
            _ => unchanged,
        },
        Phase::DropRecipe(i) => match e {
            Event::Ran => same_data(s, n) && yields(n, r, check_from(n, i + 1, Seq::empty())),
            _ => unchanged,
        },
        _ => unchanged,
    }
}

impl Session {
    /// A new run with the given usage set; its first step asks for the listing of all recipes.
    pub fn start(force: bool, in_use: Vec<String>) -> (r: (Session, Step))
        ensures
            wf(r.0),
            r.0.force == force,
            r.0.in_use == in_use,
            r.0.recipes@.len() == 0,
            r.0.plan@.len() == 0,
            r.0.phase is ListRecipes,
            r.1.notices@.len() == 0,
            r.1.request == Request::Run(ToolCall::SearchAll),
    {
        let session = Session {
            force,
            in_use,
            recipes: Vec::new(),
            inventory: Vec::new(),
            plan: Vec::new(),
            phase: Phase::ListRecipes,
        };
        (session, Step { notices: Vec::new(), request: Request::Run(ToolCall::SearchAll) })
    }

    fn finish_with(&mut self, notices: Vec<Notice>) -> (r: Step)
        ensures
            same_data(*old(self), *final(self)),
            yields(*final(self), r, finish(notices@)),
    {
        self.phase = Phase::Finished;
        Step { notices, request: Request::Finish }
    }

    fn check_from(&mut self, j: usize, notices: Vec<Notice>) -> (r: Step)
        ensures
            same_data(*old(self), *final(self)),
            yields(*final(self), r, check_from(*final(self), j as int, notices@)),
    {
        if j < self.recipes.len() {
            self.phase = Phase::CheckRecipe(j);
            Step { notices, request: Request::Run(ToolCall::SearchRecipe(self.recipes[j].clone())) }
        } else {
            self.finish_with(notices)
        }
    }

    fn gate_cleanup(&mut self, notices: Vec<Notice>) -> (r: Step)
        ensures
            same_data(*old(self), *final(self)),
            yields(*final(self), r, gate_cleanup(*final(self), notices@)),
    {
        if self.force {
            self.check_from(0, notices)
        } else {
            let mut notices = notices;
            notices.push(Notice::Ask(Question::RemoveEmptyRecipes));
            self.phase = Phase::ConfirmCleanup;
            Step { notices, request: Request::ReadAnswer }
        }
    }

    fn removal_at(&mut self, i: usize, j: usize, notices: Vec<Notice>) -> (r: Step)
        ensures
            same_data(*old(self), *final(self)),
            yields(*final(self), r, removal_at(*final(self), i as int, j as int, notices@)),
    {
        if i < self.plan.len() && j < self.plan[i].1.len() {
            self.phase = Phase::RemovePackages(i, j);
            let call = ToolCall::RemovePackage(self.plan[i].0.clone(), self.plan[i].1[j].clone());
            Step { notices, request: Request::Run(call) }
        } else {
            self.gate_cleanup(notices)
        }
    }

    fn after_inventory(&mut self) -> (r: Step)
        ensures
            final(self).force == old(self).force,
            final(self).in_use == old(self).in_use,
            final(self).recipes == old(self).recipes,
            final(self).inventory == old(self).inventory,
            plan_done(*final(self)),
            forall|k: int| 0 <= k < final(self).plan@.len() ==> #[trigger] final(self).plan@[k].1@.len() > 0,
            yields(*final(self), r, after_inventory(*final(self))),
    {
        self.plan = removal_plan(&self.in_use, &self.inventory);
        let mut notices: Vec<Notice> = Vec::new();
        if self.plan.len() > 0 {
            notices.push(Notice::ShowPlan);
            if self.force {
                self.removal_at(0, 0, notices)
            } else {
                notices.push(Notice::Ask(Question::RemovePackages));
                self.phase = Phase::ConfirmRemoval;
                Step { notices, request: Request::ReadAnswer }
            }
        } else {
            notices.push(Notice::NothingUnused);
            self.gate_cleanup(notices)
        }
    }

    fn list_from(&mut self, j: usize) -> (r: Step)
        ensures
            final(self).force == old(self).force,
            final(self).in_use == old(self).in_use,
            final(self).recipes == old(self).recipes,
            final(self).inventory == old(self).inventory,
            lists_on(*old(self), *final(self), j as int, r),
            (forall|k: int| 0 <= k < old(self).plan@.len() ==> #[trigger] old(self).plan@[k].1@.len() > 0)
                ==> (forall|k: int| 0 <= k < final(self).plan@.len() ==> #[trigger] final(self).plan@[k].1@.len() > 0),
    {
        if j < self.recipes.len() {
            self.phase = Phase::ListPackages(j);
            Step { notices: Vec::new(), request: Request::Run(ToolCall::SearchRecipe(self.recipes[j].clone())) }
        } else {
            self.after_inventory()
        }
    }

    fn abort_with(&mut self, err: QueryError) -> (r: Step)
        ensures
            same_data(*old(self), *final(self)),
            final(self).phase is Aborted,
            r.notices@.len() == 0,
            r.request == Request::Abort(err),
    {
        self.phase = Phase::Aborted;
        Step { notices: Vec::new(), request: Request::Abort(err) }
    }

    fn pending(&self) -> (r: Request)
        requires
            wf(*self),
        ensures
            r == pending(*self),
    {
        match self.phase {
            Phase::ListRecipes => Request::Run(ToolCall::SearchAll),
            Phase::ListPackages(i) => Request::Run(ToolCall::SearchRecipe(self.recipes[i].clone())),
            Phase::ConfirmRemoval => Request::ReadAnswer,
            Phase::RemovePackages(i, j) => Request::Run(
                ToolCall::RemovePackage(self.plan[i].0.clone(), self.plan[i].1[j].clone()),
            ),
            Phase::ConfirmCleanup => Request::ReadAnswer,
            Phase::CheckRecipe(i) => Request::Run(ToolCall::SearchRecipe(self.recipes[i].clone())),
            Phase::DropRecipe(i) => Request::Run(ToolCall::RemoveRecipe(self.recipes[i].clone())),
            Phase::Finished => Request::Finish,
            Phase::Aborted => Request::Finish,
        }
    }

    fn unchanged(&self) -> (r: Step)
        requires
            wf(*self),
        ensures
            r.notices@.len() == 0,
            r.request == pending(*self),
    {
        Step { notices: Vec::new(), request: self.pending() }
    }

    /// Takes what happened since the last request and says what to do next.
    pub fn step(&mut self, event: Event) -> (r: Step)
        requires
            wf(*old(self)),
        ensures
            wf(*final(self)),
            transition(*old(self), event, *final(self), r),
    {
        match self.phase {
            Phase::ListRecipes => match event {
                Event::Output(t) => match parse_recipe_ids(t.as_str()) {
                    Ok(ids) => {
                        self.recipes = ids;
                        self.list_from(0)
                    },
                    Err(e) => self.abort_with(e),
                },
                Event::Unreadable(m) => self.abort_with(QueryError::Unreadable(m)),
                _ => self.unchanged(),
            },
            Phase::ListPackages(i) => match event {
                Event::Output(t) => match parse_package_ids(t.as_str()) {
                    Ok(ps) => {
                        let count = self.recipes.len();
                        assert(i < count);
                        let recipe = self.recipes[i].clone();
                        let ghost before = self.inventory@;
                        self.inventory.push((recipe, ps));
                        assert(self.inventory@.drop_last() =~= before);
                        self.list_from(i + 1)
                    },
                    Err(e) => self.abort_with(e),
                },
                Event::Unreadable(m) => self.abort_with(QueryError::Unreadable(m)),
                _ => self.unchanged(),
            },
            Phase::ConfirmRemoval => match event {
                Event::Answer(line) => match classify_answer(line.as_str()) {
                    Some(true) => self.removal_at(0, 0, Vec::new()),
                    Some(false) => self.gate_cleanup(Vec::new()),
                    None => {
                        let mut notices: Vec<Notice> = Vec::new();
                        notices.push(Notice::AskAgain);
                        Step { notices, request: Request::ReadAnswer }
                    },
                },
                _ => self.unchanged(),
            },
            Phase::RemovePackages(i, j) => match event {
                Event::Ran => {
                    let entries = self.plan.len();
                    let count = self.plan[i].1.len();
                    assert(i < entries && j < count);
                    if j + 1 < count {
                        self.removal_at(i, j + 1, Vec::new())
                    } else {
                        self.removal_at(i + 1, 0, Vec::new())
                    }
                },
                _ => self.unchanged(),
            },
            Phase::ConfirmCleanup => match event {
                Event::Answer(line) => match classify_answer(line.as_str()) {
                    Some(true) => self.check_from(0, Vec::new()),
                    Some(false) => self.finish_with(Vec::new()),
                    None => {
                        let mut notices: Vec<Notice> = Vec::new();
                        notices.push(Notice::AskAgain);
                        Step { notices, request: Request::ReadAnswer }
                    },
                },
                _ => self.unchanged(),
            },
            Phase::CheckRecipe(i) => match event {
                Event::Output(t) => match parse_package_ids(t.as_str()) {
                    Ok(ps) => {
                        if ps.len() == 0 {
                            let mut notices: Vec<Notice> = Vec::new();
                            notices.push(Notice::RemovingRecipe(self.recipes[i].clone()));
                            self.phase = Phase::DropRecipe(i);
                            Step { notices, request: Request::Run(ToolCall::RemoveRecipe(self.recipes[i].clone())) }
                        } else {
                            let count = self.recipes.len();
                            assert(i < count);
                            self.check_from(i + 1, Vec::new())
                        }
                    },
                    Err(e) => self.abort_with(e),
                },
                Event::Unreadable(m) => self.abort_with(QueryError::Unreadable(m)),
                _ => self.unchanged(),
            },
            Phase::DropRecipe(i) => match event {
                Event::Ran => {
                    let count = self.recipes.len();
                    assert(i < count);
                    self.check_from(i + 1, Vec::new())
                },
                _ => self.unchanged(),
            },
            Phase::Finished => self.unchanged(),
            Phase::Aborted => self.unchanged(),
        }
    }
}

} // verus!
