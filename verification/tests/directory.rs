use openrouter_api::directory::{diff_tier, is_alive, knows, merge};
use openrouter_api::model::Model;

fn model(id: &str, name: &str) -> Model {
    Model {
        id: id.to_string(),
        name: name.to_string(),
        created: 0,
        description: None,
        context_length: None,
        pricing: None,
        architecture: None,
        top_provider: None,
        supported_parameters: None,
    }
}

fn ids(models: &[Model]) -> Vec<&str> {
    models.iter().map(|m| m.id.as_str()).collect()
}

#[test]
fn probe_counts_success_and_busy_as_alive() {
    for status in [200, 201, 204, 299, 429] {
        assert!(is_alive(status));
    }
    for status in [0, 100, 199, 300, 301, 400, 401, 404, 428, 430, 500, 502, 503] {
        assert!(!is_alive(status));
    }
}

#[test]
fn identifier_is_known_where_a_model_bears_it() {
    let models = vec![model("a", "A"), model("b", "B")];
    assert!(knows(&models, "a"));
    assert!(knows(&models, "b"));
    assert!(!knows(&models, "A"));
    assert!(!knows(&models, ""));
    assert!(!knows(&[], "a"));
}

#[test]
fn refresh_keeps_adds_and_removes_by_identifier() {
    let old = vec![model("a", "old a"), model("b", "old b"), model("c", "old c")];
    let fresh = vec![model("d", "new d"), model("c", "new c"), model("a", "new a"), model("e", "new e")];
    let diff = diff_tier(&old, &fresh);
    assert_eq!(ids(&diff.kept), vec!["a", "c"]);
    assert_eq!(diff.kept[0].name, "old a");
    assert_eq!(ids(&diff.added), vec!["d", "e"]);
    assert_eq!(diff.added[0].name, "new d");
    assert_eq!(ids(&diff.removed), vec!["b"]);
}

#[test]
fn refresh_of_nothing_changes_nothing() {
    let same = vec![model("a", "A"), model("b", "B")];
    let diff = diff_tier(&same, &same);
    assert_eq!(diff.kept, same);
    assert!(diff.added.is_empty());
    assert!(diff.removed.is_empty());
    let diff = diff_tier(&[], &same);
    assert!(diff.kept.is_empty());
    assert_eq!(diff.added, same);
    let diff = diff_tier(&same, &[]);
    assert!(diff.kept.is_empty() && diff.added.is_empty());
    assert_eq!(diff.removed, same);
}

#[test]
fn merged_tier_holds_kept_then_healthy() {
    let merged = merge(vec![model("a", "A")], vec![model("d", "D"), model("e", "E")]);
    assert_eq!(ids(&merged), vec!["a", "d", "e"]);
    assert!(merge(vec![], vec![]).is_empty());
}
