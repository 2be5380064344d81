use nacm_validator::{GroupMap, NacmGroup};

fn make_group(name: &str, users: &[&str], gid: Option<i32>) -> NacmGroup {
    NacmGroup { name: name.to_string(), users: users.iter().map(|u| u.to_string()).collect(), gid }
}

#[test]
fn a_new_map_is_empty() {
    let map = GroupMap::new();
    assert_eq!(map.len(), 0);
    assert!(map.is_empty());
    assert!(!map.contains_key("admin"));
    assert!(map.get("admin").is_none());
    assert!(map.keys().is_empty());
    assert_eq!(map.groups_of("alice"), Vec::<&str>::new());
}

#[test]
fn insert_adds_or_replaces() {
    let mut map = GroupMap::new();
    assert!(map.insert("admin".to_string(), make_group("admin", &["alice"], Some(1))).is_none());
    assert!(map.insert("oper".to_string(), make_group("oper", &["bob"], None)).is_none());
    assert_eq!(map.len(), 2);
    assert!(!map.is_empty());
    assert!(map.contains_key("admin"));
    assert!(map.contains_key("oper"));
    assert!(!map.contains_key("Admin"));
    assert_eq!(map.get("admin").unwrap().gid, Some(1));
    let mut keys = map.keys();
    keys.sort();
    assert_eq!(keys, vec!["admin", "oper"]);
    let old = map.insert("admin".to_string(), make_group("admin", &["carol"], Some(7))).unwrap();
    assert_eq!(old.users, vec!["alice"]);
    assert_eq!(old.gid, Some(1));
    assert_eq!(map.len(), 2);
    assert_eq!(map.get("admin").unwrap().users, vec!["carol"]);
    assert_eq!(map.get("admin").unwrap().gid, Some(7));
    assert_eq!(map.get("oper").unwrap().users, vec!["bob"]);
}

#[test]
fn a_user_belongs_to_the_groups_that_list_it() {
    let mut map = GroupMap::new();
    map.insert("admin".to_string(), make_group("admin", &["alice", "bob"], None));
    map.insert("oper".to_string(), make_group("oper", &["bob"], None));
    map.insert("empty".to_string(), make_group("empty", &[], None));
    let mut of_bob = map.groups_of("bob");
    of_bob.sort();
    assert_eq!(of_bob, vec!["admin", "oper"]);
    assert_eq!(map.groups_of("alice"), vec!["admin"]);
    assert_eq!(map.groups_of("carol"), Vec::<&str>::new());
    assert_eq!(map.groups_of("Alice"), Vec::<&str>::new());
    assert_eq!(map.groups_of(""), Vec::<&str>::new());
}

#[test]
fn membership_is_by_exact_name() {
    let group = make_group("g", &["alice", "bob", ""], None);
    assert!(group.has_user("alice"));
    assert!(group.has_user("bob"));
    assert!(group.has_user(""));
    assert!(!group.has_user("alic"));
    assert!(!group.has_user("alice "));
    assert!(!group.has_user("ALICE"));
    assert!(!make_group("g", &[], None).has_user(""));
}

#[test]
fn a_copy_has_the_same_groups() {
    let mut map = GroupMap::new();
    map.insert("admin".to_string(), make_group("admin", &["alice"], Some(3)));
    let copy = map.clone();
    map.insert("oper".to_string(), make_group("oper", &["bob"], None));
    assert_eq!(copy.len(), 1);
    assert_eq!(copy.get("admin").unwrap().users, vec!["alice"]);
    assert_eq!(copy.get("admin").unwrap().gid, Some(3));
    assert!(!copy.contains_key("oper"));
    assert_eq!(map.len(), 2);
}

#[test]
fn a_copied_group_keeps_its_fields() {
    let group = make_group("g", &["alice", "bob"], Some(42));
    let copy = group.clone();
    assert_eq!(copy.name, "g");
    assert_eq!(copy.users, vec!["alice", "bob"]);
    assert_eq!(copy.gid, Some(42));
}
