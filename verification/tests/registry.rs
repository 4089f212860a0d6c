use ray_tracing::registry::Registry;

#[test]
fn empty_registry_has_nothing() {
    let reg: Registry<i32> = Registry::new();
    assert_eq!(reg.len(), 0);
    assert!(!reg.contains_key(&String::from("ground")));
    assert!(reg.get(&String::from("ground")).is_none());
}

#[test]
fn add_then_get() {
    let mut reg: Registry<i32> = Registry::new();
    reg.add(String::from("ground"), 7);
    reg.add(String::from("main1"), 42);
    assert_eq!(reg.len(), 2);
    assert!(reg.contains_key(&String::from("ground")));
    assert!(reg.contains_key(&String::from("main1")));
    assert_eq!(reg.get(&String::from("ground")), Some(&7));
    assert_eq!(reg.get(&String::from("main1")), Some(&42));
    assert!(reg.get(&String::from("main2")).is_none());
}

#[test]
fn add_replaces_under_same_name() {
    let mut reg: Registry<i32> = Registry::new();
    reg.add(String::from("main1"), 1);
    reg.add(String::from("main1"), 2);
    assert_eq!(reg.len(), 1);
    assert_eq!(reg.get(&String::from("main1")), Some(&2));
}

#[test]
fn from_single_object() {
    let reg: Registry<&str> = Registry::from(String::from("ground"), "sphere");
    assert_eq!(reg.len(), 1);
    assert_eq!(reg.get(&String::from("ground")), Some(&"sphere"));
}

#[test]
fn take_then_add_replaces_an_object() {
    let mut reg: Registry<i32> = Registry::new();
    reg.add(String::from("main1"), 10);
    reg.add(String::from("main2"), 20);
    let taken = reg.take(&String::from("main1"));
    assert_eq!(taken, Some(10));
    assert_eq!(reg.len(), 1);
    assert!(!reg.contains_key(&String::from("main1")));
    reg.add(String::from("main1"), 11);
    assert_eq!(reg.get(&String::from("main1")), Some(&11));
    assert_eq!(reg.get(&String::from("main2")), Some(&20));
}

#[test]
fn take_of_missing_name_changes_nothing() {
    let mut reg: Registry<i32> = Registry::new();
    reg.add(String::from("ground"), 5);
    assert_eq!(reg.take(&String::from("main1")), None);
    assert_eq!(reg.len(), 1);
    assert_eq!(reg.get(&String::from("ground")), Some(&5));
}

#[test]
fn entries_list_every_object_once() {
    let mut reg: Registry<i32> = Registry::new();
    reg.add(String::from("a"), 1);
    reg.add(String::from("b"), 2);
    reg.add(String::from("a"), 3);
    let mut seen: Vec<(String, i32)> = reg
        .as_entries()
        .iter()
        .map(|(name, v)| (name.clone(), *v))
        .collect();
    seen.sort();
    assert_eq!(seen, vec![(String::from("a"), 3), (String::from("b"), 2)]);
}
