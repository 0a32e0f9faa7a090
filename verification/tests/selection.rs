use notemanager::select::select;

fn strings(items: &[&str]) -> Vec<String> {
    items.iter().map(|s| s.to_string()).collect()
}

#[test]
fn empty_pattern_keeps_all_candidates() {
    let candidates = strings(&["notes/today.md", "b/c.md", "z.md"]);
    let result = select(&candidates, &String::new());
    assert_eq!(result, candidates);
}

#[test]
fn subsequence_pattern_matches_non_contiguously() {
    let candidates = strings(&["notes/today.md"]);
    let result = select(&candidates, &"tdy".to_string());
    assert_eq!(result, candidates);
}

#[test]
fn pattern_without_alignment_matches_nothing() {
    let candidates = strings(&["notes/today.md"]);
    let result = select(&candidates, &"xyz".to_string());
    assert!(result.is_empty());
}

#[test]
fn selection_preserves_discovery_order() {
    let candidates = strings(&["beta.md", "alpha.md", "bravado.md"]);
    let result = select(&candidates, &"amd".to_string());
    assert_eq!(result, strings(&["beta.md", "alpha.md", "bravado.md"]));
    let narrowed = select(&candidates, &"brav".to_string());
    assert_eq!(narrowed, strings(&["bravado.md"]));
}

#[test]
fn no_candidates_yields_no_matches() {
    let result = select(&Vec::new(), &"anything".to_string());
    assert!(result.is_empty());
}
