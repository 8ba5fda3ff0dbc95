use pairandomizer::catalog::{Index, Scenario, Scene, ScenarioMeta};
use pairandomizer::errors::FetchError;
use pairandomizer::generate::Generated;
use pairandomizer::load::{CatalogLoader, State};
use pairandomizer::settings::Settings;

fn meta(name: &str, filename: &str) -> ScenarioMeta {
    ScenarioMeta { name: name.to_string(), lang: Some("en".to_string()), filename: filename.to_string() }
}

fn body(template: &str) -> Scenario {
    Scenario {
        scenes: vec![Scene { name: "opening".to_string(), messages: vec![template.to_string()] }],
    }
}

fn index(beta: bool) -> Index {
    Index {
        server_name: "server".to_string(),
        comment: "a comment".to_string(),
        scenarios: vec![meta("first", "first.json"), meta("second", "second.json")],
        beta: if beta { Some(meta("beta", "beta.json")) } else { None },
    }
}

#[test]
fn load_assembles_all_scenarios_in_order() {
    let mut loader = CatalogLoader::new(index(false));
    assert_eq!(loader.next_filename().map(String::as_str), Some("first.json"));
    loader.supply(body("a %1$s %2$s"));
    assert_eq!(loader.next_filename().map(String::as_str), Some("second.json"));
    loader.supply(body("b %1$s %2$s"));
    assert_eq!(loader.next_filename(), None);
    assert!(loader.is_complete());
    let catalog = loader.finish().expect("load is complete");
    assert_eq!(catalog.scenarios.len(), 2);
    assert_eq!(catalog.scenarios[0].0.name, "first");
    assert_eq!(catalog.scenarios[1].0.name, "second");
}

#[test]
fn beta_scenario_is_fetched_last() {
    let mut loader = CatalogLoader::new(index(true));
    loader.supply(body("a %1$s %2$s"));
    loader.supply(body("b %1$s %2$s"));
    assert_eq!(loader.next_filename().map(String::as_str), Some("beta.json"));
    loader.supply(body("c %1$s %2$s"));
    assert!(loader.is_complete());
    let catalog = loader.finish().expect("load is complete");
    assert_eq!(catalog.scenarios.len(), 3);
    assert_eq!(catalog.scenarios[2].0.name, "beta");
}

#[test]
fn load_scenarios_pairs_bodies_with_candidates() {
    let catalog = index(true)
        .load_scenarios(vec![body("a %1$s %2$s"), body("b %1$s %2$s"), body("c %1$s %2$s")])
        .expect("one body per candidate");
    assert_eq!(catalog.scenarios.len(), 3);
    assert_eq!(catalog.scenarios[0].0.name, "first");
    assert_eq!(catalog.scenarios[2].0.name, "beta");
    assert_eq!(catalog.scenarios[1].1.scenes[0].messages[0], "b %1$s %2$s");
}

#[test]
fn load_scenarios_rejects_a_body_count_mismatch() {
    assert!(index(false).load_scenarios(vec![body("a %1$s %2$s")]).is_none());
    assert!(index(false)
        .load_scenarios(vec![body("a %1$s %2$s"), body("b %1$s %2$s"), body("c %1$s %2$s")])
        .is_none());
}

#[test]
fn incomplete_load_yields_no_catalog() {
    let mut loader = CatalogLoader::new(index(false));
    loader.supply(body("a %1$s %2$s"));
    assert!(!loader.is_complete());
    assert!(loader.finish().is_none());
}

#[test]
fn failed_fetch_means_no_catalog_at_all() {
    let mut loader = CatalogLoader::new(index(true));
    loader.supply(body("a %1$s %2$s"));
    // The fetch of the second body fails: the application stops supplying,
    // keeps only the error state, and the loader yields nothing — the one
    // successful fetch is not observable as a partial catalog.
    let state = State::Error(FetchError::Status(404));
    assert!(matches!(state, State::Error(FetchError::Status(404))));
    assert!(!loader.is_complete());
    assert!(loader.finish().is_none());
}

#[test]
fn a_new_load_starts_only_from_the_initial_state() {
    assert!(State::Initial.is_initial());
    assert!(!State::Loading.is_initial());
    assert!(!State::Loaded.is_initial());
    assert!(!State::Error(FetchError::Network("offline".to_string())).is_initial());
}

#[test]
fn generate_runs_the_whole_pipeline() {
    let mut loader = CatalogLoader::new(index(false));
    loader.supply(body("%1$s greets %2$s"));
    loader.supply(body("%1$s greets %2$s"));
    let catalog = loader.finish().expect("load is complete");
    let settings = Settings { ignore_language: false, scenario_index: Some(0), scene_index: None };
    let names = vec!["Alice".to_string(), "Bob".to_string()];
    let out: Generated = catalog.generate(&settings, "en", &names).expect("catalog is well formed");
    assert_eq!(out.title, "first - opening");
    assert_eq!(out.lines.len(), 1);
    assert!(out.lines[0] == "Alice greets Bob" || out.lines[0] == "Bob greets Alice");
}

#[test]
fn generate_surfaces_empty_message_lists_as_an_error() {
    let mut loader = CatalogLoader::new(Index {
        server_name: "server".to_string(),
        comment: String::new(),
        scenarios: vec![meta("quiet", "quiet.json")],
        beta: None,
    });
    loader.supply(Scenario {
        scenes: vec![Scene { name: "silent".to_string(), messages: Vec::new() }],
    });
    let catalog = loader.finish().expect("load is complete");
    let settings = Settings::default();
    let names = vec!["Alice".to_string(), "Bob".to_string()];
    assert!(catalog.generate(&settings, "en", &names).is_err());
}

#[test]
fn beta_scenario_can_be_pinned() {
    let mut loader = CatalogLoader::new(index(true));
    loader.supply(body("a %1$s %2$s"));
    loader.supply(body("b %1$s %2$s"));
    loader.supply(body("c %1$s %2$s"));
    let catalog = loader.finish().expect("load is complete");
    let settings = Settings { ignore_language: false, scenario_index: Some(2), scene_index: None };
    let picked = catalog.pick_scenario(&settings, "en");
    assert_eq!(picked.0.name, "beta");
}

#[test]
fn generate_on_an_empty_catalog_is_an_empty_choice_error() {
    let catalog = Index {
        server_name: "server".to_string(),
        comment: String::new(),
        scenarios: Vec::new(),
        beta: None,
    }
    .load_scenarios(Vec::new())
    .expect("nothing to fetch");
    let names = vec!["Alice".to_string(), "Bob".to_string()];
    assert!(catalog.generate(&Settings::default(), "en", &names).is_err());
}

#[test]
fn generate_honours_a_valid_scene_pin() {
    let mut loader = CatalogLoader::new(index(false));
    loader.supply(Scenario {
        scenes: vec![
            Scene { name: "opening".to_string(), messages: vec!["%1$s waves at %2$s".to_string()] },
            Scene { name: "finale".to_string(), messages: vec!["%1$s bows to %2$s".to_string()] },
        ],
    });
    loader.supply(body("b %1$s %2$s"));
    let catalog = loader.finish().expect("load is complete");
    let settings = Settings { ignore_language: false, scenario_index: Some(0), scene_index: Some(1) };
    let names = vec!["Alice".to_string(), "Bob".to_string()];
    for _ in 0..10 {
        let out = catalog.generate(&settings, "en", &names).expect("catalog is well formed");
        assert_eq!(out.title, "first - finale");
        assert!(out.lines[0] == "Alice bows to Bob" || out.lines[0] == "Bob bows to Alice");
    }
}

#[test]
fn generate_surfaces_empty_scenes_as_an_error() {
    let mut loader = CatalogLoader::new(Index {
        server_name: "server".to_string(),
        comment: String::new(),
        scenarios: vec![meta("empty", "empty.json")],
        beta: None,
    });
    loader.supply(Scenario { scenes: Vec::new() });
    let catalog = loader.finish().expect("load is complete");
    let settings = Settings::default();
    let names = vec!["Alice".to_string(), "Bob".to_string()];
    assert!(catalog.generate(&settings, "en", &names).is_err());
}
