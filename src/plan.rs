use vstd::prelude::*;
use crate::usage::views;

verus! {

/// The first `n` packages that the usage set does not hold, in order.
pub open spec fn unused_upto(packages: Seq<String>, n: nat, in_use: Seq<Seq<char>>) -> Seq<String>
    decreases n,
{
    if n == 0 {
        Seq::empty()
    } else {
        let before = unused_upto(packages, (n - 1) as nat, in_use);
        if in_use.contains(packages[n - 1]@) {
            before
        } else {
            before.push(packages[n - 1])
        }
    }
}

/// The packages of a recipe that no manifest requires.
pub open spec fn unused(packages: Seq<String>, in_use: Seq<Seq<char>>) -> Seq<String> {
    unused_upto(packages, packages.len(), in_use)
}

/// The plan for the first `n` recipes: each recipe with its unused packages, where it has any.
pub open spec fn plan_upto(inventory: Seq<(String, Vec<String>)>, n: nat, in_use: Seq<Seq<char>>) -> Seq<(String, Seq<String>)>
    decreases n,
{
    if n == 0 {
        Seq::empty()
    } else {
        let before = plan_upto(inventory, (n - 1) as nat, in_use);
        let removable = unused(inventory[n - 1].1@, in_use);
        if removable.len() == 0 {
            before
        } else {
            before.push((inventory[n - 1].0, removable))
        }
    }
}

/// The removal plan of an inventory.
pub open spec fn plan_of(inventory: Seq<(String, Vec<String>)>, in_use: Seq<Seq<char>>) -> Seq<(String, Seq<String>)> {
    plan_upto(inventory, inventory.len(), in_use)
}

/// A plan's entries with their package lists as sequences.
pub open spec fn plan_view(plan: Seq<(String, Vec<String>)>) -> Seq<(String, Seq<String>)> {
    plan.map_values(|e: (String, Vec<String>)| (e.0, e.1@))
}

proof fn lemma_unused_members(packages: Seq<String>, n: nat, in_use: Seq<Seq<char>>)
    requires
        n <= packages.len(),
    ensures
        forall|p: String| unused_upto(packages, n, in_use).contains(p)
            <==> (packages.take(n as int).contains(p) && !in_use.contains(p@)),
    decreases n,
{
    if n > 0 {
        lemma_unused_members(packages, (n - 1) as nat, in_use);
        let before = unused_upto(packages, (n - 1) as nat, in_use);
        let x = packages[n - 1];
        let t0 = packages.take(n - 1);
        let t1 = packages.take(n as int);
        assert(t1 =~= t0.push(x));
        assert forall|p: String| unused_upto(packages, n, in_use).contains(p)
            <==> (packages.take(n as int).contains(p) && !in_use.contains(p@)) by {
            if t0.contains(p) {
                let i = choose|i: int| 0 <= i < t0.len() && #[trigger] t0[i] == p;
                assert(t1[i] == p);
            }
            if t1.contains(p) {
                let i = choose|i: int| 0 <= i < t1.len() && #[trigger] t1[i] == p;
                if i < n - 1 {
                    assert(t0[i] == p);
                }
            }
            if !in_use.contains(x@) {
                assert(before.push(x)[before.len() as int] == x);
                if before.contains(p) {
                    let i = choose|i: int| 0 <= i < before.len() && #[trigger] before[i] == p;
                    assert(before.push(x)[i] == p);
                }
                if before.push(x).contains(p) {
                    let i = choose|i: int| 0 <= i < before.len() + 1 && #[trigger] before.push(x)[i] == p;
                    if i < before.len() {
                        assert(before[i] == p);
                    }
                }
            }
            assert(t1[n - 1] == x);
        }
    }
}

/// Every package that a plan lists for a recipe is one of its cached packages that no
/// manifest requires, and every such package is listed.
pub proof fn lemma_unused_exact(packages: Seq<String>, in_use: Seq<Seq<char>>)
    ensures
        forall|p: String| unused(packages, in_use).contains(p)
            <==> (packages.contains(p) && !in_use.contains(p@)),
{
    lemma_unused_members(packages, packages.len(), in_use);
    assert(packages.take(packages.len() as int) =~= packages);
}

/// No entry of a plan has an empty package list.
pub proof fn lemma_plan_entries_nonempty(inventory: Seq<(String, Vec<String>)>, n: nat, in_use: Seq<Seq<char>>)
    requires
        n <= inventory.len(),
    ensures
        forall|i: int| 0 <= i < plan_upto(inventory, n, in_use).len()
            ==> #[trigger] plan_upto(inventory, n, in_use)[i].1.len() > 0,
    decreases n,
{
    if n > 0 {
        lemma_plan_entries_nonempty(inventory, (n - 1) as nat, in_use);
        let before = plan_upto(inventory, (n - 1) as nat, in_use);
        let removable = unused(inventory[n - 1].1@, in_use);
        if removable.len() > 0 {
            let after = before.push((inventory[n - 1].0, removable));
            assert forall|i: int| 0 <= i < after.len() implies #[trigger] after[i].1.len() > 0 by {
                if i < before.len() {
                    assert(after[i] == before[i]);
                }
            }
        }
    }
}

/// Whether `id` is one of `set`'s texts.
pub fn holds(set: &Vec<String>, id: &String) -> (r: bool)
    ensures
        r == views(set@).contains(id@),
{
    let mut i: usize = 0;
    while i < set.len()
        invariant
            0 <= i <= set.len(),
            forall|k: int| 0 <= k < i ==> set@[k]@ != id@,
        decreases set.len() - i,
    {
        if set[i].eq(id) {
            assert(views(set@)[i as int] == id@);
            return true;
        }
        i = i + 1;
    }
    assert forall|k: int| 0 <= k < views(set@).len() implies views(set@)[k] != id@ by {
        assert(views(set@)[k] == set@[k]@);
    }
    false
}

/// The packages of one recipe that the usage set does not hold, in inventory order.
pub fn unused_packages(in_use: &Vec<String>, packages: &Vec<String>) -> (r: Vec<String>)
    ensures
        r@ == unused(packages@, views(in_use@)),
{
    let mut out: Vec<String> = Vec::new();
    let mut i: usize = 0;
    while i < packages.len()
        invariant
            0 <= i <= packages.len(),
            out@ == unused_upto(packages@, i as nat, views(in_use@)),
        decreases packages.len() - i,
    {
        if !holds(in_use, &packages[i]) {
            out.push(packages[i].clone());
        }
        i = i + 1;
    }
    out
}

/// The removal plan: for each recipe, in inventory order, the cached packages that no
/// manifest requires; a recipe with none is left out.
pub fn removal_plan(in_use: &Vec<String>, inventory: &Vec<(String, Vec<String>)>) -> (r: Vec<(String, Vec<String>)>)
    ensures
        plan_view(r@) == plan_of(inventory@, views(in_use@)),
        forall|i: int| 0 <= i < r@.len() ==> #[trigger] r@[i].1@.len() > 0,
{
    let mut plan: Vec<(String, Vec<String>)> = Vec::new();
    let mut i: usize = 0;
    while i < inventory.len()
        invariant
            0 <= i <= inventory.len(),
            plan_view(plan@) == plan_upto(inventory@, i as nat, views(in_use@)),
        decreases inventory.len() - i,
    {
        let removable = unused_packages(in_use, &inventory[i].1);
        if removable.len() > 0 {
            let ghost before = plan@;
            plan.push((inventory[i].0.clone(), removable));
            assert(plan_view(plan@) =~= plan_view(before).push((plan@[before.len() as int].0, plan@[before.len() as int].1@)));
        }
        i = i + 1;
    }
    proof {
        lemma_plan_entries_nonempty(inventory@, inventory@.len(), views(in_use@));
        assert forall|i: int| 0 <= i < plan@.len() implies #[trigger] plan@[i].1@.len() > 0 by {
            assert(plan_view(plan@)[i].1 == plan@[i].1@);
        }
    }
    plan
}

} // verus!
