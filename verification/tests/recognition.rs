use what3words::did_you_mean;
use what3words::find_possible_3wa;
use what3words::is_possible_3wa;

#[test]
fn test_is_possible_3wa_true() {
    assert!(is_possible_3wa("filled.count.soap"));
}

#[test]
fn test_is_possible_3wa_false() {
    assert!(!is_possible_3wa("filled count soap"));
}

#[test]
fn test_did_you_mean_true() {
    // the halfwidth ideographic full stop is a valid separator, so the
    // string is a well-formed address, not a near miss
    assert!(!did_you_mean("filled\u{FF61}count\u{FF61}soap"));
    assert!(did_you_mean("filled count soap"));
}

#[test]
fn test_did_you_mean_false() {
    assert!(!did_you_mean("filledcountsoap"));
}

#[test]
fn test_find_possible_3wa_true() {
    let result = find_possible_3wa("This is a test with filled.count.soap in it.");
    assert_eq!(result.len(), 1);
    assert_eq!(result[0], "filled.count.soap");
}

#[test]
fn test_find_possible_3wa_false() {
    let result = find_possible_3wa("This is a test with filled count soap in it.");
    assert_eq!(result.len(), 0);
}

#[test]
fn is_possible_rejects_missing_third_group() {
    assert!(is_possible_3wa("filled.count.soap"));
    assert!(!is_possible_3wa("filled.count."));
    assert!(!is_possible_3wa("not a 3wa"));
    assert!(!is_possible_3wa("not.a 3wa"));
}

#[test]
fn is_possible_accepts_slash_prefixes() {
    assert!(is_possible_3wa("/filled.count.soap"));
    assert!(is_possible_3wa("//filled.count.soap"));
    assert!(is_possible_3wa("///filled.count.soap"));
    assert!(!is_possible_3wa("///"));
}

#[test]
fn is_possible_accepts_unicode_separators() {
    assert!(is_possible_3wa("filled\u{3002}count\u{3002}soap"));
    assert!(is_possible_3wa("filled\u{FF61}count\u{FF61}soap"));
    assert!(is_possible_3wa("filled\u{0964}count\u{30FB}soap"));
}

#[test]
fn is_possible_rejects_digits_and_punctuation_in_words() {
    assert!(!is_possible_3wa("fill3d.count.soap"));
    assert!(!is_possible_3wa("fil!ed.count.soap"));
    assert!(!is_possible_3wa(""));
}

#[test]
fn is_possible_accepts_multi_token_groups() {
    // every group two to four space-joined sub-words
    assert!(is_possible_3wa("aaa bbb.ccc ddd.eee fff"));
    assert!(is_possible_3wa("aaa\u{00A0}bbb.ccc ddd.eee fff"));
    assert!(is_possible_3wa("a b c d.e f.g h"));
    // each group counts its sub-words on its own, so single- and
    // multi-token groups may stand side by side
    assert!(is_possible_3wa("a.b c.d"));
    assert!(is_possible_3wa("filled.count count.soap"));
    // a group of five sub-words is too loose
    assert!(!is_possible_3wa("a b c d e.f g.h i"));
    // double space makes an empty sub-word
    assert!(!is_possible_3wa("aaa  bbb.ccc ddd.eee fff"));
}

#[test]
fn did_you_mean_accepts_common_typo_separators() {
    assert!(did_you_mean("filled-count-soap"));
    assert!(did_you_mean("filled_count_soap"));
    assert!(did_you_mean("filled, count, soap"));
    assert!(did_you_mean("filled/count/soap"));
    assert!(did_you_mean("/filled count soap"));
}

#[test]
fn did_you_mean_rejects_plain_text() {
    assert!(!did_you_mean(""));
    assert!(!did_you_mean("filled"));
    assert!(!did_you_mean("filled count"));
    assert!(!did_you_mean("filled count soap dust"));
}

#[test]
fn did_you_mean_excludes_well_formed_addresses() {
    // a string joined by the valid separators is already shape-valid,
    // so the near-miss classifier answers false for it
    assert!(is_possible_3wa("filled.count.soap"));
    assert!(!did_you_mean("filled.count.soap"));
    assert!(is_possible_3wa("filled\u{3002}count\u{3002}soap"));
    assert!(!did_you_mean("filled\u{3002}count\u{3002}soap"));
}

#[test]
fn find_collects_matches_in_first_occurrence_order() {
    let result = find_possible_3wa(
        "Meet me at filled.count.soap or deed.tulip.judge tomorrow",
    );
    assert_eq!(result, vec!["filled.count.soap", "deed.tulip.judge"]);
}

#[test]
fn find_keeps_duplicates_as_separate_entries() {
    let result = find_possible_3wa("filled.count.soap and filled.count.soap");
    assert_eq!(result, vec!["filled.count.soap", "filled.count.soap"]);
}

#[test]
fn find_returns_empty_without_separators() {
    assert_eq!(find_possible_3wa("Please leave by my porch").len(), 0);
    assert_eq!(find_possible_3wa("").len(), 0);
}

#[test]
fn find_extracts_single_embedded_address() {
    let result = find_possible_3wa("Please leave by my porch at filled.count.soap");
    assert_eq!(result, vec!["filled.count.soap"]);
}

#[test]
fn find_commits_to_leftmost_longest_match() {
    // four dot-joined words: the first three are taken, the rest is rescanned
    assert_eq!(find_possible_3wa("a.b.c.d"), vec!["a.b.c"]);
    assert_eq!(find_possible_3wa("aa.bb.cc.dd.ee.ff"), vec!["aa.bb.cc", "dd.ee.ff"]);
}

#[test]
fn scanners_are_pure() {
    let text = "Please leave by my porch at filled.count.soap";
    assert_eq!(is_possible_3wa(text), is_possible_3wa(text));
    assert_eq!(did_you_mean(text), did_you_mean(text));
    assert_eq!(find_possible_3wa(text), find_possible_3wa(text));
}

#[test]
fn extracted_matches_are_possible_addresses() {
    let texts = [
        "Please leave by my porch at filled.count.soap",
        "filled.count.soap or deed.tulip.judge",
        "a.b.c.d and filled\u{3002}count\u{3002}soap",
    ];
    for text in texts {
        for found in find_possible_3wa(text) {
            assert!(is_possible_3wa(&found));
        }
    }
}
