use minisudo::identity::Identity;
use minisudo::path::ResolvedPath;
use minisudo::policy::{Matcher, Policy, PolicyMalformed, Rule, RuleEntry};

fn user(name: &str, groups: &[&str]) -> Identity {
    Identity {
        name: name.as_bytes().to_vec(),
        groups: groups.iter().map(|g| g.as_bytes().to_vec()).collect(),
    }
}

fn path(bytes: &str) -> ResolvedPath {
    ResolvedPath::new(bytes.as_bytes().to_vec()).unwrap()
}

fn user_rule(name: &str, program: &str) -> Rule {
    Rule {
        matcher: Matcher::UserByName { user: name.as_bytes().to_vec() },
        program: program.as_bytes().to_vec(),
    }
}

fn group_rule(name: &str, program: &str) -> Rule {
    Rule {
        matcher: Matcher::GroupByName { group: name.as_bytes().to_vec() },
        program: program.as_bytes().to_vec(),
    }
}

fn entry(user: Option<&str>, group: Option<&str>, program: Option<&str>) -> RuleEntry {
    RuleEntry {
        user: user.map(|s| s.as_bytes().to_vec()),
        group: group.map(|s| s.as_bytes().to_vec()),
        program: program.map(|s| s.as_bytes().to_vec()),
    }
}

#[test]
fn empty_policy_denies() {
    let policy = Policy { rules: vec![] };
    assert!(!policy.test(&user("alice", &["wheel"]), &path("/bin/ls")));
}

#[test]
fn no_matching_rule_denies() {
    let policy = Policy {
        rules: vec![user_rule("alice", "*"), group_rule("wheel", "*"), user_rule("carol", "/bin/ls")],
    };
    let bob = user("bob", &["users", "audio"]);
    assert!(!policy.test(&bob, &path("/bin/ls")));
    assert!(!policy.test(&bob, &path("/usr/bin/id")));
    assert!(!policy.test(&bob, &path("/")));
}

#[test]
fn wildcard_allows_every_path() {
    let policy = Policy { rules: vec![user_rule("carol", "/bin/ls"), user_rule("alice", "*")] };
    let alice = user("alice", &[]);
    assert!(policy.test(&alice, &path("/bin/ls")));
    assert!(policy.test(&alice, &path("/usr/sbin/shutdown")));
    assert!(policy.test(&alice, &path("/")));
    assert!(policy.test(&alice, &path("/home/alice/./x")));
}

#[test]
fn wildcard_for_a_group_allows_its_members() {
    let policy = Policy { rules: vec![group_rule("wheel", "*")] };
    assert!(policy.test(&user("bob", &["users", "wheel"]), &path("/bin/ls")));
    assert!(!policy.test(&user("bob", &["users"]), &path("/bin/ls")));
    assert!(!policy.test(&user("wheel", &["users"]), &path("/bin/ls")));
}

#[test]
fn exact_specifier_is_byte_exact() {
    let policy = Policy { rules: vec![user_rule("alice", "/bin/ls")] };
    let alice = user("alice", &[]);
    assert!(policy.test(&alice, &path("/bin/ls")));
    assert!(!policy.test(&alice, &path("/bin/lS")));
    assert!(!policy.test(&alice, &path("/bin/ls2")));
    assert!(!policy.test(&alice, &path("/bin/l")));
    assert!(!policy.test(&alice, &path("/bin/ls/")));
    assert!(!policy.test(&alice, &path("/bin//ls")));
    assert!(!policy.test(&alice, &path("/BIN/LS")));
    assert!(!policy.test(&alice, &path("/bin/lt")));
}

#[test]
fn only_the_lone_star_is_the_wildcard() {
    let alice = user("alice", &[]);
    let stars = Policy { rules: vec![user_rule("alice", "**")] };
    assert!(!stars.test(&alice, &path("/bin/ls")));
    let glob = Policy { rules: vec![user_rule("alice", "/bin/*")] };
    assert!(!glob.test(&alice, &path("/bin/ls")));
    assert!(glob.test(&alice, &path("/bin/*")));
    let empty = Policy { rules: vec![user_rule("alice", "")] };
    assert!(!empty.test(&alice, &path("/bin/ls")));
}

#[test]
fn user_names_are_byte_exact() {
    let policy = Policy { rules: vec![user_rule("alice", "*")] };
    assert!(!policy.test(&user("Alice", &[]), &path("/bin/ls")));
    assert!(!policy.test(&user("alice2", &[]), &path("/bin/ls")));
    assert!(!policy.test(&user("alic", &[]), &path("/bin/ls")));
    assert!(!policy.test(&user("", &[]), &path("/bin/ls")));
}

#[test]
fn a_user_rule_is_not_for_a_group_of_that_name() {
    let policy = Policy { rules: vec![user_rule("staff", "*")] };
    assert!(!policy.test(&user("bob", &["staff"]), &path("/bin/ls")));
    assert!(policy.test(&user("staff", &[]), &path("/bin/ls")));
}

#[test]
fn the_order_of_the_rules_means_nothing() {
    let one = Policy { rules: vec![user_rule("alice", "/bin/ls"), group_rule("wheel", "/bin/id")] };
    let two = Policy { rules: vec![group_rule("wheel", "/bin/id"), user_rule("alice", "/bin/ls")] };
    for who in [user("alice", &[]), user("bob", &["wheel"]), user("carol", &["users"])] {
        for what in ["/bin/ls", "/bin/id", "/bin/sh"] {
            assert_eq!(one.test(&who, &path(what)), two.test(&who, &path(what)));
        }
    }
    assert!(one.test(&user("alice", &[]), &path("/bin/ls")));
    assert!(!one.test(&user("alice", &[]), &path("/bin/id")));
    assert!(one.test(&user("bob", &["wheel"]), &path("/bin/id")));
}

#[test]
fn matcher_tests_name_and_groups() {
    let alice = user("alice", &["users", "wheel"]);
    assert!(Matcher::UserByName { user: b"alice".to_vec() }.test(&alice));
    assert!(!Matcher::UserByName { user: b"users".to_vec() }.test(&alice));
    assert!(Matcher::GroupByName { group: b"wheel".to_vec() }.test(&alice));
    assert!(Matcher::GroupByName { group: b"users".to_vec() }.test(&alice));
    assert!(!Matcher::GroupByName { group: b"alice".to_vec() }.test(&alice));
    assert!(!Matcher::GroupByName { group: b"whee".to_vec() }.test(&alice));
}

#[test]
fn rule_covers_and_permits() {
    let rule = group_rule("wheel", "/bin/id");
    assert!(rule.covers(b"/bin/id"));
    assert!(!rule.covers(b"/bin/ls"));
    assert!(rule.permits(&user("bob", &["wheel"]), b"/bin/id"));
    assert!(!rule.permits(&user("bob", &["wheel"]), b"/bin/ls"));
    assert!(!rule.permits(&user("bob", &[]), b"/bin/id"));
}

#[test]
fn entries_make_rules_in_order() {
    let entries = vec![
        entry(Some("alice"), None, Some("*")),
        entry(None, Some("wheel"), Some("/bin/id")),
    ];
    let policy = Policy::from_entries(&entries).unwrap();
    assert_eq!(policy, Policy { rules: vec![user_rule("alice", "*"), group_rule("wheel", "/bin/id")] });
}

#[test]
fn no_entries_make_the_empty_policy() {
    assert_eq!(Policy::from_entries(&[]), Ok(Policy { rules: vec![] }));
}

#[test]
fn entry_with_user_and_group_is_malformed() {
    let entries = vec![
        entry(Some("alice"), None, Some("*")),
        entry(Some("bob"), Some("wheel"), Some("*")),
    ];
    assert_eq!(Policy::from_entries(&entries), Err(PolicyMalformed { entry: 1 }));
}

#[test]
fn entry_without_matcher_is_malformed() {
    let entries = vec![entry(None, None, Some("/bin/ls"))];
    assert_eq!(Policy::from_entries(&entries), Err(PolicyMalformed { entry: 0 }));
}

#[test]
fn entry_without_program_is_malformed() {
    let entries = vec![
        entry(Some("alice"), None, Some("*")),
        entry(None, Some("wheel"), Some("*")),
        entry(None, Some("wheel"), None),
        entry(None, None, None),
    ];
    assert_eq!(Policy::from_entries(&entries), Err(PolicyMalformed { entry: 2 }));
}

#[test]
fn entry_to_rule() {
    assert_eq!(entry(Some("alice"), None, Some("/bin/ls")).to_rule(), Some(user_rule("alice", "/bin/ls")));
    assert_eq!(entry(None, Some("wheel"), Some("*")).to_rule(), Some(group_rule("wheel", "*")));
    assert_eq!(entry(Some("alice"), Some("wheel"), Some("*")).to_rule(), None);
    assert_eq!(entry(Some("alice"), None, None).to_rule(), None);
}
