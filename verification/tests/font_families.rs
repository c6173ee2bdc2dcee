use insulator::fonts::installed_font_families;

fn names(v: &[&str]) -> Vec<String> {
    v.iter().map(|s| s.to_string()).collect()
}

#[test]
fn families_are_sorted_case_insensitively() {
    let out = installed_font_families(names(&["Zapfino", "arial", "Menlo", "Helvetica"]));
    assert_eq!(out, names(&["arial", "Helvetica", "Menlo", "Zapfino"]));
}

#[test]
fn ascii_case_duplicates_are_kept_once() {
    let out = installed_font_families(names(&["b", "A", "a", "B", "c"]));
    let lowered: Vec<String> = out.iter().map(|s| s.to_lowercase()).collect();
    assert_eq!(lowered, names(&["a", "b", "c"]));
}

#[test]
fn names_equal_only_under_unicode_case_folding_are_both_kept() {
    let out = installed_font_families(names(&["Σans", "σans"]));
    assert_eq!(out.len(), 2);
    assert!(installed_font_families(Vec::new()).is_empty());
}

#[test]
fn ascii_case_duplicates_apart_in_the_sorted_list_are_kept_once() {
    let out = installed_font_families(names(&["Aé", "aÉ", "aé"]));
    assert_eq!(out, names(&["Aé", "aÉ"]));
}
