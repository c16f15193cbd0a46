use conan_cleanup::plan::{holds, removal_plan, unused_packages};

fn strings(v: &[&str]) -> Vec<String> {
    v.iter().map(|s| s.to_string()).collect()
}

#[test]
fn plan_keeps_unused_packages() {
    let inventory = vec![(String::from("R1"), strings(&["P1", "P2", "P3"]))];
    let plan = removal_plan(&strings(&["P2"]), &inventory);
    assert_eq!(plan.len(), 1);
    assert_eq!(plan[0].0, "R1");
    let mut packages = plan[0].1.clone();
    packages.sort();
    assert_eq!(packages, vec!["P1", "P3"]);
}

#[test]
fn plan_omits_fully_used_recipe() {
    let inventory = vec![(String::from("R1"), strings(&["P1"]))];
    let plan = removal_plan(&strings(&["P1"]), &inventory);
    assert!(plan.is_empty());
}

#[test]
fn plan_over_several_recipes() {
    let inventory = vec![
        (String::from("R1"), strings(&["P1"])),
        (String::from("R2"), strings(&[])),
        (String::from("R3"), strings(&["P4", "P5"])),
    ];
    let plan = removal_plan(&strings(&["P1", "P5", "P9"]), &inventory);
    assert_eq!(plan.len(), 1);
    assert_eq!(plan[0].0, "R3");
    assert_eq!(plan[0].1, vec!["P4"]);
}

#[test]
fn unused_packages_keep_inventory_order() {
    assert_eq!(unused_packages(&strings(&[]), &strings(&["b", "a"])), vec!["b", "a"]);
}

#[test]
fn membership() {
    let set = strings(&["a", "b"]);
    assert!(holds(&set, &String::from("b")));
    assert!(!holds(&set, &String::from("c")));
}
