use compass_lunch::split_component_suffix;
use compass_lunch::normalize_text;

#[test]
fn extracts_compass_suffix_with_parentheses() {
    let (main, suffix) = split_component_suffix(
        "Organic tofu and vegetables in teriyaki sauce (*, A, G, ILM, L, M, Veg, VS)",
    );
    assert_eq!(main, "Organic tofu and vegetables in teriyaki sauce");
    assert_eq!(suffix, "(*, A, G, ILM, L, M, Veg, VS)");
}

#[test]
fn extracts_suffix_when_newline_precedes_parentheses() {
    let (main, suffix) = split_component_suffix(
        "Roasted rainbow trout in teriyaki sauce\n (*, A, G, ILM, L, M, VS)",
    );
    assert_eq!(main, "Roasted rainbow trout in teriyaki sauce");
    assert_eq!(suffix, "(*, A, G, ILM, L, M, VS)");
}

#[test]
fn extracts_inline_suffix_without_parentheses() {
    let (main, suffix) =
        split_component_suffix("Chili and sesame-spiced organic tofu A, ILM, L, M, Veg, VS");
    assert_eq!(main, "Chili and sesame-spiced organic tofu");
    assert_eq!(suffix, "(A, ILM, L, M, Veg, VS)");
}

#[test]
fn removes_empty_trailing_group_and_normalizes_spacing() {
    let (main, suffix) = split_component_suffix("Juustoista pinaattikastiketta ( A, L) ()");
    assert_eq!(main, "Juustoista pinaattikastiketta");
    assert_eq!(suffix, "(A, L)");
}

#[test]
fn keeps_non_allergen_tail_as_main_text() {
    let (main, suffix) = split_component_suffix("Juusto, edam, viipale, sk ()");
    assert_eq!(main, "Juusto, edam, viipale, sk");
    assert_eq!(suffix, "");
}

#[test]
fn extracts_huomen_style_suffix_with_comma_in_main() {
    let (main, suffix) =
        split_component_suffix("Lihapullia, pippuri-rakuunakastiketta ja kermaperunaa (G, L)");
    assert_eq!(main, "Lihapullia, pippuri-rakuunakastiketta ja kermaperunaa");
    assert_eq!(suffix, "(G, L)");
}

#[test]
fn whitespace_normalization_collapses_runs_and_is_idempotent() {
    let once = normalize_text("a\n\n  b\t c");
    assert_eq!(once, "a b c");
    let twice = normalize_text(&once);
    assert_eq!(twice, once);
}

#[test]
fn splits_simple_inline_suffix_and_plain_text() {
    let (main, suffix) = split_component_suffix("Tofu curry A, ILM, L, Veg");
    assert_eq!(main, "Tofu curry");
    assert_eq!(suffix, "(A, ILM, L, Veg)");
    let (main2, suffix2) = split_component_suffix("Cheese platter");
    assert_eq!(main2, "Cheese platter");
    assert_eq!(suffix2, "");
}

#[test]
fn deduplicates_tokens_case_insensitively() {
    let (main, suffix) = split_component_suffix("Soup (L, veg) (Veg, G)");
    assert_eq!(main, "Soup");
    assert_eq!(suffix, "(L, Veg, G)");
}

#[test]
fn empty_component_splits_to_empty_parts() {
    let (main, suffix) = split_component_suffix("   \t ");
    assert_eq!(main, "");
    assert_eq!(suffix, "");
}
