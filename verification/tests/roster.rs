use chapter_exercises::roster::Roster;

fn names(list: &[&str]) -> Vec<String> {
    list.iter().map(|s| s.to_string()).collect()
}

fn pair(department: &str, name: &str) -> (String, String) {
    (department.to_string(), name.to_string())
}

#[test]
fn members_keep_insertion_order_under_any_casing() {
    let mut roster = Roster::new();
    roster.add("Engineering", "Rajneesh");
    roster.add("engineering", "Sachin");
    assert_eq!(roster.list_department("ENGINEERING"), Some(names(&["rajneesh", "sachin"])));
}

#[test]
fn unknown_department_is_none() {
    let mut roster = Roster::new();
    assert_eq!(roster.list_department("nonexistent"), None);
    roster.add("Sales", "Priya");
    assert_eq!(roster.list_department("nonexistent"), None);
    assert_eq!(roster.list_department(""), None);
}

#[test]
fn duplicates_are_kept() {
    let mut roster = Roster::new();
    roster.add("Sales", "Priya");
    roster.add("sales", "PRIYA");
    roster.add("SALES", "Amir");
    roster.add("Sales", "priya");
    assert_eq!(
        roster.list_department("sales"),
        Some(names(&["priya", "priya", "amir", "priya"]))
    );
}

#[test]
fn departments_do_not_mix() {
    let mut roster = Roster::new();
    roster.add("Sales", "Priya");
    roster.add("Engineering", "Rajneesh");
    roster.add("Sales", "Amir");
    assert_eq!(roster.list_department("Sales"), Some(names(&["priya", "amir"])));
    assert_eq!(roster.list_department("Engineering"), Some(names(&["rajneesh"])));
}

#[test]
fn empty_roster_lists_nothing() {
    let roster = Roster::new();
    assert!(roster.list_all().is_empty());
}

#[test]
fn list_all_holds_every_pair_once() {
    let mut roster = Roster::new();
    roster.add("Sales", "Priya");
    roster.add("Engineering", "Rajneesh");
    roster.add("sales", "Amir");
    roster.add("Engineering", "Sachin");
    roster.add("Legal", "Priya");
    // The order of the departments is not specified: compare sorted.
    let mut listed = roster.list_all();
    listed.sort();
    let mut expected = vec![
        pair("sales", "priya"),
        pair("engineering", "rajneesh"),
        pair("sales", "amir"),
        pair("engineering", "sachin"),
        pair("legal", "priya"),
    ];
    expected.sort();
    assert_eq!(listed, expected);
}

#[test]
fn list_all_keeps_the_members_of_a_department_together_and_in_order() {
    let mut roster = Roster::new();
    roster.add("Sales", "Zoe");
    roster.add("Engineering", "Rajneesh");
    roster.add("Sales", "Amir");
    roster.add("Sales", "Mia");
    let listed = roster.list_all();
    let sales: Vec<String> =
        listed.iter().filter(|p| p.0 == "sales").map(|p| p.1.clone()).collect();
    assert_eq!(sales, names(&["zoe", "amir", "mia"]));
    let first = listed.iter().position(|p| p.0 == "sales").unwrap();
    assert!(listed[first..first + 3].iter().all(|p| p.0 == "sales"));
    assert_eq!(listed.len(), 4);
}

#[test]
fn names_are_stored_in_lowercase() {
    let mut roster = Roster::new();
    roster.add("CAFÉ", "ÉMILE");
    assert_eq!(roster.list_all(), vec![pair("café", "émile")]);
    assert_eq!(roster.list_department("Café"), Some(names(&["émile"])));
}
