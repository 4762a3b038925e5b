use what3words::LookupReply;
use what3words::confirm_reply;
use what3words::decide_valid_3wa;
use what3words::is_possible_3wa;

#[test]
fn test_is_valid_3wa_true() {
    let words = "filled.count.soap";
    let reply = LookupReply::Suggestions(vec![words.to_string()]);
    assert!(decide_valid_3wa(words, &reply));
}

#[test]
fn test_is_valid_3wa_false() {
    let words = "filled.count";
    // the shape check already fails, so no lookup reply can validate it
    assert!(!is_possible_3wa(words));
    assert!(!decide_valid_3wa(words, &LookupReply::Failed));
    let reply = LookupReply::Suggestions(vec![words.to_string()]);
    assert!(!decide_valid_3wa(words, &reply));
}

#[test]
fn test_is_valid_3wa_false_doesnt_match() {
    let words = "rust.is.cool";
    let reply = LookupReply::Suggestions(vec!["rust.this.cool".to_string()]);
    assert!(!decide_valid_3wa(words, &reply));
}

#[test]
fn confirm_compares_only_the_top_suggestion() {
    let reply = LookupReply::Suggestions(vec![
        "rust.this.cool".to_string(),
        "rust.is.cool".to_string(),
    ]);
    assert!(!confirm_reply("rust.is.cool", &reply));
    assert!(confirm_reply("rust.this.cool", &reply));
}

#[test]
fn confirm_rejects_empty_and_failed_replies() {
    assert!(!confirm_reply("filled.count.soap", &LookupReply::Suggestions(vec![])));
    assert!(!confirm_reply("filled.count.soap", &LookupReply::Failed));
}

#[test]
fn failed_lookup_degrades_to_false() {
    // shape-valid candidate, but the lookup failed: absorbed into `false`
    assert!(is_possible_3wa("filled.count.soap"));
    assert!(!decide_valid_3wa("filled.count.soap", &LookupReply::Failed));
}
