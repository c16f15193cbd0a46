use vstd::prelude::*;
use crate::session::{
    after_inventory, check_from, gate_cleanup, packages_parsed, recipes_parsed, same_data,
    pending, transition, wf, Event, Notice, Phase, Request, Session, Step, ToolCall,
};
use crate::query::ShapeError;

verus! {

/// A forced session never waits for an answer and never puts a question.
pub proof fn lemma_forced_never_asks(s: Session, e: Event, n: Session, r: Step)
    requires
        wf(s),
        s.force,
        transition(s, e, n, r),
    ensures
        n.force,
        !(r.request is ReadAnswer),
        forall|k: int| 0 <= k < r.notices@.len() ==> !(#[trigger] r.notices@[k] is Ask),
{
}

/// A forced session passes both gates: with an unused package it removes the first one
/// right after listing, and the second phase starts with the first recipe's re-query.
pub proof fn lemma_forced_proceeds(s: Session, notes: Seq<Notice>)
    requires
        s.force,
        s.plan@.len() > 0,
        s.plan@[0].1@.len() > 0,
    ensures
        after_inventory(s).2 == Request::Run(ToolCall::RemovePackage(s.plan@[0].0, s.plan@[0].1@[0])),
        s.recipes@.len() > 0 ==> gate_cleanup(s, notes).2 == Request::Run(ToolCall::SearchRecipe(s.recipes@[0])),
{
}

/// A listing that is no JSON document, or lacks a part of the expected shape, stops the
/// session at once: it asks for an abort and changes nothing else.
pub proof fn lemma_malformed_output_aborts(s: Session, t: String, n: Session, r: Step)
    requires
        wf(s),
        transition(s, Event::Output(t), n, r),
        match s.phase {
            Phase::ListRecipes => !(recipes_parsed(t@) matches Some(Ok(_))),
            Phase::ListPackages(_) => !(packages_parsed(t@) matches Some(Ok(_))),
            Phase::CheckRecipe(_) => !(packages_parsed(t@) matches Some(Ok(_))),
            _ => false,
        },
    ensures
        same_data(s, n),
        n.phase is Aborted,
        r.request is Abort,
        r.notices@.len() == 0,
{
}

/// Once aborted, a session stays so and asks for no further command.
pub proof fn lemma_aborted_is_final(s: Session, e: Event, n: Session, r: Step)
    requires
        s.phase is Aborted,
        transition(s, e, n, r),
    ensures
        n.phase is Aborted,
        r.request is Finish,
        r.notices@.len() == 0,
{
}

/// In the second phase a recipe whose fresh listing holds no package is removed whole; one
/// that still holds a package is left alone and the next recipe is re-queried.
pub proof fn lemma_cleanup_decision(s: Session, t: String, n: Session, r: Step, ps: Seq<String>)
    requires
        wf(s),
        s.phase is CheckRecipe,
        transition(s, Event::Output(t), n, r),
        packages_parsed(t@) == Some(Ok::<Seq<String>, ShapeError>(ps)),
    ensures
        ps.len() == 0 ==> r.request == Request::Run(ToolCall::RemoveRecipe(s.recipes@[s.phase->CheckRecipe_0 as int])),
        ps.len() > 0 ==> !(r.request matches Request::Run(ToolCall::RemoveRecipe(_))),
        ps.len() > 0 ==> r.request == check_from(n, s.phase->CheckRecipe_0 + 1, Seq::empty()).2,
{
}

/// How many package removals the plan lists before entry `i`.
pub open spec fn offset(plan: Seq<(String, Vec<String>)>, i: int) -> int
    decreases i,
{
    if i <= 0 {
        0
    } else {
        offset(plan, i - 1) + plan[i - 1].1@.len()
    }
}

/// How many package removals the plan lists.
pub open spec fn total(plan: Seq<(String, Vec<String>)>) -> int {
    offset(plan, plan.len() as int)
}

/// The place, among the plan's removals, of the one a session waits for.
pub open spec fn position(s: Session) -> int {
    match s.phase {
        Phase::RemovePackages(i, j) => offset(s.plan@, i as int) + j,
        _ => -1,
    }
}

/// The session's lengths are those a `Vec` can have.
pub open spec fn fits(s: Session) -> bool {
    &&& s.plan@.len() <= usize::MAX
    &&& s.recipes@.len() <= usize::MAX
    &&& forall|k: int| 0 <= k < s.plan@.len() ==> #[trigger] s.plan@[k].1@.len() <= usize::MAX
}

/// `ss` are the sessions of a forced run, each well formed (as `step` keeps them), with
/// `es` the events between them and `rs` the steps that those give.
pub open spec fn forced_run(ss: Seq<Session>, es: Seq<Event>, rs: Seq<Step>) -> bool {
    &&& ss.len() == es.len() + 1
    &&& rs.len() == es.len()
    &&& ss[0].force
    &&& forall|k: int| 0 <= k < ss.len() ==> wf(#[trigger] ss[k]) && fits(ss[k])
    &&& forall|k: int| 0 <= k < es.len() ==> transition(ss[k], #[trigger] es[k], ss[k + 1], rs[k])
}

proof fn lemma_offset_grows(plan: Seq<(String, Vec<String>)>, a: int, b: int)
    requires
        0 <= a <= b <= plan.len(),
    ensures
        offset(plan, a) <= offset(plan, b),
    decreases b - a,
{
    if a < b {
        lemma_offset_grows(plan, a, b - 1);
    }
}

proof fn lemma_position_unique(plan: Seq<(String, Vec<String>)>, i: int, j: int, i2: int, j2: int)
    requires
        0 <= i < plan.len(),
        0 <= j < plan[i].1@.len(),
        0 <= i2 < plan.len(),
        0 <= j2 < plan[i2].1@.len(),
        offset(plan, i) + j == offset(plan, i2) + j2,
    ensures
        i == i2 && j == j2,
{
    if i < i2 {
        lemma_offset_grows(plan, i + 1, i2);
    } else if i2 < i {
        lemma_offset_grows(plan, i2 + 1, i);
    }
}

/// In a forced session each finished package removal leads to the next one of the plan, in
/// plan order; after the last, the empty recipes are looked for without asking.
pub proof fn lemma_forced_removal_step(s: Session, n: Session, r: Step)
    requires
        wf(s),
        fits(s),
        s.force,
        s.phase is RemovePackages,
        transition(s, Event::Ran, n, r),
    ensures
        same_data(s, n),
        position(s) + 1 < total(s.plan@) ==> n.phase is RemovePackages && position(n) == position(s) + 1,
        position(s) + 1 >= total(s.plan@) ==> n.phase == check_from(n, 0, Seq::empty()).0,
{
    let i = s.phase->RemovePackages_0 as int;
    let j = s.phase->RemovePackages_1 as int;
    let plan = s.plan@;
    assert(offset(plan, i + 1) == offset(plan, i) + plan[i].1@.len());
    lemma_offset_grows(plan, i + 1, plan.len() as int);
    if j + 1 < plan[i].1@.len() {
        assert(n.phase == Phase::RemovePackages(i as usize, (j + 1) as usize));
    } else if i + 1 < plan.len() {
        assert(plan[i + 1].1@.len() > 0);
        assert(n.phase == Phase::RemovePackages((i + 1) as usize, 0));
        assert(position(n) == offset(plan, i + 1));
        assert(offset(plan, i + 2) == offset(plan, i + 1) + plan[i + 1].1@.len());
        lemma_offset_grows(plan, i + 2, plan.len() as int);
    } else {
        assert(offset(plan, i + 1) == total(plan));
        assert(n.force);
        assert(n.phase == gate_cleanup(n, Seq::empty()).0);
    }
}

proof fn lemma_forced_removal_prefix(ss: Seq<Session>, es: Seq<Event>, rs: Seq<Step>, k: int)
    requires
        forced_run(ss, es, rs),
        ss[0].phase is RemovePackages,
        forall|m: int| 0 <= m < es.len() ==> #[trigger] es[m] is Ran,
        0 <= k <= es.len(),
        k < total(ss[0].plan@) - position(ss[0]),
    ensures
        same_data(ss[0], ss[k]),
        ss[k].phase is RemovePackages,
        position(ss[k]) == position(ss[0]) + k,
    decreases k,
{
    if k > 0 {
        lemma_forced_removal_prefix(ss, es, rs, k - 1);
        assert(es[k - 1] is Ran);
        assert(es[k - 1] == Event::Ran);
        assert(wf(ss[k - 1]) && fits(ss[k - 1]));
        lemma_forced_removal_step(ss[k - 1], ss[k], rs[k - 1]);
    }
}

/// A forced run that starts removing at the plan's first package, and whose removals all
/// finish, removes every package of the plan, then goes on to the empty recipes without
/// asking: it re-queries the first recipe, or finishes where there is none.
pub proof fn lemma_forced_removes_every_pair(ss: Seq<Session>, es: Seq<Event>, rs: Seq<Step>)
    requires
        forced_run(ss, es, rs),
        ss[0].phase == Phase::RemovePackages(0, 0),
        forall|m: int| 0 <= m < es.len() ==> #[trigger] es[m] is Ran,
        es.len() == total(ss[0].plan@),
    ensures
        forall|i: int, j: int| 0 <= i < ss[0].plan@.len() && 0 <= j < ss[0].plan@[i].1@.len()
            ==> exists|k: int| 0 <= k < es.len() && #[trigger] pending(ss[k])
                == Request::Run(ToolCall::RemovePackage(ss[0].plan@[i].0, #[trigger] ss[0].plan@[i].1@[j])),
        ss[es.len() as int].phase == check_from(ss[0], 0, Seq::empty()).0,
{
    let plan = ss[0].plan@;
    let t = es.len() as int;
    assert(position(ss[0]) == 0);
    assert forall|i: int, j: int| 0 <= i < plan.len() && 0 <= j < plan[i].1@.len()
        implies exists|k: int| 0 <= k < es.len() && #[trigger] pending(ss[k])
            == Request::Run(ToolCall::RemovePackage(plan[i].0, #[trigger] plan[i].1@[j])) by {
        let p = offset(plan, i) + j;
        assert(offset(plan, i + 1) == offset(plan, i) + plan[i].1@.len());
        lemma_offset_grows(plan, i + 1, plan.len() as int);
        lemma_offset_grows(plan, 0, i);
        assert(0 <= p < es.len());
        assert(position(ss[0]) == 0);
        assert(p < total(ss[0].plan@) - position(ss[0]));
        lemma_forced_removal_prefix(ss, es, rs, p);
        assert(wf(ss[p]) && fits(ss[p]));
        let i2 = ss[p].phase->RemovePackages_0 as int;
        let j2 = ss[p].phase->RemovePackages_1 as int;
        lemma_position_unique(plan, i, j, i2, j2);
        assert(pending(ss[p]) == Request::Run(ToolCall::RemovePackage(plan[i].0, plan[i].1@[j])));
    }
    assert(t > 0) by {
        assert(plan.len() > 0);
        assert(plan[0].1@.len() > 0);
        assert(offset(plan, 1) == plan[0].1@.len());
        lemma_offset_grows(plan, 1, plan.len() as int);
    }
    lemma_forced_removal_prefix(ss, es, rs, t - 1);
    assert(es[t - 1] == Event::Ran);
    assert(wf(ss[t - 1]) && fits(ss[t - 1]));
    lemma_forced_removal_step(ss[t - 1], ss[t], rs[t - 1]);
}

/// How many recipes a session in the cleanup has re-queried.
pub open spec fn checked(s: Session) -> int {
    match s.phase {
        Phase::CheckRecipe(c) => c + 1,
        Phase::DropRecipe(c) => c + 1,
        _ => s.recipes@.len() as int,
    }
}

/// Each re-query of the run gives a package list and each recipe removal finishes.
pub open spec fn cleanup_answered(ss: Seq<Session>, es: Seq<Event>) -> bool {
    forall|k: int| 0 <= k < es.len() ==> {
        &&& (ss[k].phase is CheckRecipe ==> (#[trigger] es[k] matches Event::Output(t)
            && packages_parsed(t@) matches Some(Ok(_))))
        &&& (ss[k].phase is DropRecipe ==> es[k] is Ran)
    }
}

/// Some session among the first `k + 1` of the run waits for the re-query of recipe `i`.
pub open spec fn requeried(ss: Seq<Session>, k: int, i: int) -> bool {
    exists|m: int| 0 <= m <= k && #[trigger] ss[m].phase == Phase::CheckRecipe(i as usize)
}

proof fn lemma_cleanup_prefix(ss: Seq<Session>, es: Seq<Event>, rs: Seq<Step>, k: int)
    requires
        forced_run(ss, es, rs),
        ss[0].phase == Phase::CheckRecipe(0),
        cleanup_answered(ss, es),
        0 <= k <= es.len(),
    ensures
        same_data(ss[0], ss[k]),
        ss[k].phase is CheckRecipe || ss[k].phase is DropRecipe || ss[k].phase is Finished,
        forall|i: int| 0 <= i < checked(ss[k]) ==> #[trigger] requeried(ss, k, i),
    decreases k,
{
    if k == 0 {
        assert forall|i: int| 0 <= i < checked(ss[0]) implies #[trigger] requeried(ss, 0, i) by {
            assert(ss[0].phase == Phase::CheckRecipe(i as usize));
        }
    } else {
        lemma_cleanup_prefix(ss, es, rs, k - 1);
        let s = ss[k - 1];
        let n = ss[k];
        assert(wf(s) && fits(s));
        assert(transition(s, es[k - 1], n, rs[k - 1]));
        assert(es[k - 1] == es[k - 1]);
        assert forall|i: int| 0 <= i < checked(n) implies #[trigger] requeried(ss, k, i) by {
            if i < checked(s) {
                assert(requeried(ss, k - 1, i));
                let m = choose|m: int| 0 <= m <= k - 1 && #[trigger] ss[m].phase == Phase::CheckRecipe(i as usize);
                assert(0 <= m <= k);
            } else {
                assert(ss[k].phase == Phase::CheckRecipe(i as usize));
            }
        }
    }
}

/// A forced run that starts the cleanup at the first recipe, in which every re-query gives a
/// package list and every recipe removal finishes, re-queries every recipe before it finishes.
pub proof fn lemma_forced_requeries_every_recipe(ss: Seq<Session>, es: Seq<Event>, rs: Seq<Step>)
    requires
        forced_run(ss, es, rs),
        ss[0].phase == Phase::CheckRecipe(0),
        cleanup_answered(ss, es),
        ss[es.len() as int].phase is Finished,
    ensures
        forall|i: int| 0 <= i < ss[0].recipes@.len()
            ==> exists|k: int| 0 <= k <= es.len()
                && #[trigger] pending(ss[k]) == Request::Run(ToolCall::SearchRecipe(#[trigger] ss[0].recipes@[i])),
{
    let t = es.len() as int;
    lemma_cleanup_prefix(ss, es, rs, t);
    assert forall|i: int| 0 <= i < ss[0].recipes@.len()
        implies exists|k: int| 0 <= k <= es.len()
            && #[trigger] pending(ss[k]) == Request::Run(ToolCall::SearchRecipe(#[trigger] ss[0].recipes@[i])) by {
        assert(requeried(ss, t, i));
        let m = choose|m: int| 0 <= m <= t && #[trigger] ss[m].phase == Phase::CheckRecipe(i as usize);
        lemma_cleanup_prefix(ss, es, rs, m);
        assert(fits(ss[0]));
        assert(pending(ss[m]) == Request::Run(ToolCall::SearchRecipe(ss[0].recipes@[i])));
    }
}

} // verus!
