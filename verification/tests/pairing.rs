use std::collections::HashSet;

use pairandomizer::catalog::Scene;
use pairandomizer::names::Names;
use pairandomizer::pairing::RandomizedMsg;

fn scene(messages: &[&str]) -> Scene {
    Scene { name: "scene".to_string(), messages: messages.iter().map(|m| m.to_string()).collect() }
}

fn names(ns: &[&str]) -> Vec<String> {
    ns.iter().map(|n| n.to_string()).collect()
}

#[test]
fn four_names_give_two_disjoint_pairings() {
    let sc = scene(&["%1$s hugs %2$s"]);
    let input = names(&["A", "B", "C", "D"]);
    for _ in 0..50 {
        let pairings = sc.randomize(&input).expect("templates exist");
        assert_eq!(pairings.len(), 2);
        let mut used: HashSet<String> = HashSet::new();
        for p in &pairings {
            assert!(input.contains(&p.names.0));
            assert!(input.contains(&p.names.1));
            assert!(used.insert(p.names.0.clone()), "name reused across pairings");
            assert!(used.insert(p.names.1.clone()), "name reused across pairings");
        }
    }
}

#[test]
fn odd_leftover_name_is_dropped() {
    let sc = scene(&["%1$s and %2$s"]);
    let pairings = sc.randomize(&names(&["A", "B", "C"])).expect("templates exist");
    assert_eq!(pairings.len(), 1);
}

#[test]
fn one_or_zero_names_give_empty_result() {
    let sc = scene(&["%1$s and %2$s"]);
    assert!(sc.randomize(&names(&["A"])).expect("templates exist").is_empty());
    assert!(sc.randomize(&names(&[])).expect("templates exist").is_empty());
}

#[test]
fn empty_template_list_is_an_error() {
    let sc = scene(&[]);
    assert!(sc.randomize(&names(&["A", "B"])).is_err());
}

#[test]
fn short_name_lists_never_consult_the_template_list() {
    // With fewer than two names no pair forms, so even an empty template
    // list yields the empty result rather than an error.
    let sc = scene(&[]);
    assert!(sc.randomize(&names(&["A"])).expect("no draw is needed").is_empty());
    assert!(sc.randomize(&names(&[])).expect("no draw is needed").is_empty());
}

#[test]
fn chosen_template_comes_from_the_scene() {
    let sc = scene(&["one %1$s %2$s", "two %1$s %2$s"]);
    for _ in 0..20 {
        let pairings = sc.randomize(&names(&["A", "B"])).expect("templates exist");
        assert_eq!(pairings.len(), 1);
        assert!(sc.messages.contains(&pairings[0].message));
    }
}

#[test]
fn render_substitutes_both_placeholders() {
    let msg = RandomizedMsg {
        message: "%1$s hugs %2$s".to_string(),
        names: ("Alice".to_string(), "Bob".to_string()),
    };
    assert_eq!(msg.render(), "Alice hugs Bob");
}

#[test]
fn render_replaces_every_occurrence() {
    let msg = RandomizedMsg {
        message: "%1$s, %1$s and %2$s!".to_string(),
        names: ("A".to_string(), "B".to_string()),
    };
    assert_eq!(msg.render(), "A, A and B!");
}

#[test]
fn render_without_placeholders_keeps_the_template() {
    let msg = RandomizedMsg {
        message: "no places here".to_string(),
        names: ("A".to_string(), "B".to_string()),
    };
    assert_eq!(msg.render(), "no places here");
}

#[test]
fn names_are_trimmed_deduplicated_and_kept_in_order() {
    let lines = vec![
        "  Alice  ".to_string(),
        "Bob".to_string(),
        "".to_string(),
        "   ".to_string(),
        "Alice".to_string(),
        "Carol".to_string(),
    ];
    let names = Names::from_lines(&lines);
    assert_eq!(names.0, vec!["Alice".to_string(), "Bob".to_string(), "Carol".to_string()]);
}

#[test]
fn names_from_no_lines_is_empty() {
    let names = Names::from_lines(&Vec::new());
    assert!(names.0.is_empty());
}
