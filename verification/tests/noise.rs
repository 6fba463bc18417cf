use live_transcript::noise::{filler_phrase_list, filter_noise, remove_phrase, trim_noise_text};
use live_transcript::text::replace_all;

#[test]
fn filler_alone_becomes_empty() {
    assert_eq!(trim_noise_text("ありがとうございました".to_string()), "");
    assert_eq!(trim_noise_text("ご視聴ありがとうございました".to_string()), "");
}

#[test]
fn text_without_filler_is_kept() {
    assert_eq!(trim_noise_text("こんにちは".to_string()), "こんにちは");
    assert_eq!(trim_noise_text(String::new()), "");
    assert_eq!(trim_noise_text("ありがとう".to_string()), "ありがとう");
    assert_eq!(trim_noise_text("ありがとうございます".to_string()), "ありがとうございます");
    assert_eq!(trim_noise_text("ご視聴".to_string()), "ご視聴");
}

#[test]
fn filler_inside_text_is_cut_out() {
    assert_eq!(
        trim_noise_text("今日はありがとうございました。また明日".to_string()),
        "今日は。また明日"
    );
    assert_eq!(
        trim_noise_text("ご視聴ありがとうございましたありがとうございました!".to_string()),
        "!"
    );
}

#[test]
fn every_occurrence_is_removed() {
    assert_eq!(
        trim_noise_text("はいありがとうございました。ありがとうございましたね".to_string()),
        "はい。ね"
    );
}

#[test]
fn trim_adds_nothing() {
    let inputs = ["", "こんにちは", "ありがとうございました", "最後までご視聴ありがとうございました"];
    for input in inputs {
        let trimmed = trim_noise_text(input.to_string());
        assert!(trimmed.chars().count() <= input.chars().count());
        assert!(!trimmed.ends_with('\n'));
    }
}

#[test]
fn trim_agrees_with_plain_replacement_where_one_pass_is_enough() {
    let inputs = ["", "こんにちは", "ありがとうございました", "最後までご視聴ありがとうございました"];
    for input in inputs {
        let plain =
            input.replace("ご視聴ありがとうございました", "").replace("ありがとうございました", "");
        assert_eq!(trim_noise_text(input.to_string()), plain);
    }
}

#[test]
fn filter_is_idempotent() {
    let phrases = filler_phrase_list();
    let inputs = [
        "",
        "こんにちは",
        "ありがとうございました",
        "abcご視聴ありがとうございましたdef",
        "ありがとうございありがとうございましたました",
        "あありがとうございましたりがとうございました",
        "ご視ご視聴ありがとうございました聴ありがとうございました。",
    ];
    for input in inputs {
        let once = filter_noise(input, &phrases);
        let twice = filter_noise(&once, &phrases);
        assert_eq!(once, twice);
        assert_eq!(trim_noise_text(trim_noise_text(input.to_string())), once);
    }
}

#[test]
fn filter_leaves_clean_text_unchanged() {
    let phrases = filler_phrase_list();
    for input in ["こんにちは", "ありがとうございます", "ご視聴", "plain ascii"] {
        assert_eq!(filter_noise(input, &phrases), input);
    }
}

#[test]
fn phrase_brought_together_by_a_removal_is_removed_too() {
    let phrases = filler_phrase_list();
    assert_eq!(filter_noise("ありがとうございありがとうございましたました", &phrases), "");
    assert_eq!(filter_noise("あありがとうございましたりがとうございました", &phrases), "");
    assert_eq!(filter_noise("xあありがとうございましたりがとうございましたy", &phrases), "xy");
    let nested = vec!["ab".to_string()];
    assert_eq!(filter_noise("aaabbb", &nested), "");
    assert_eq!(filter_noise("aaabbbc", &nested), "c");
    // a single removal keeps what it brings together
    assert_eq!(remove_phrase("aaabbb", "ab"), "aabb");
}

#[test]
fn filler_list_holds_the_longer_phrase_first() {
    assert_eq!(
        filler_phrase_list(),
        vec!["ご視聴ありがとうございました".to_string(), "ありがとうございました".to_string()]
    );
}

#[test]
fn phrases_are_removed_in_list_order() {
    let phrases = vec!["ab".to_string(), "bc".to_string()];
    assert_eq!(filter_noise("abc", &phrases), "c");
    let reversed = vec!["bc".to_string(), "ab".to_string()];
    assert_eq!(filter_noise("abc", &reversed), "a");
    assert_eq!(filter_noise("abc", &Vec::new()), "abc");
    // a later pass finds what an earlier phrase of the list left together
    let late = vec!["ab".to_string(), "c".to_string()];
    assert_eq!(filter_noise("acb", &late), "");
}

#[test]
fn removal_is_case_sensitive_and_literal() {
    assert_eq!(remove_phrase("Thanks thanks THANKS", "thanks"), "Thanks  THANKS");
    assert_eq!(remove_phrase("a.b", "."), "ab");
    assert_eq!(remove_phrase("abc", ""), "abc");
    assert_eq!(remove_phrase("ab", "abc"), "ab");
    assert_eq!(remove_phrase("aaa", "aa"), "a");
    assert_eq!(remove_phrase("aabb", "ab"), "ab");
}

#[test]
fn replace_all_agrees_with_std_replace() {
    let texts = ["", "a", "aaaa", "abcabc", "xaby", "data/in.m4a", "ござありがとうございましたいました", "aXbXc"];
    let phrases = ["a", "aa", "abc", "X", ".m4a", "ありがとうございました", "zzz"];
    let replacements = ["", "-", "aa", "ありがとう"];
    for text in texts {
        for phrase in phrases {
            for replacement in replacements {
                assert_eq!(replace_all(text, phrase, replacement), text.replace(phrase, replacement));
            }
        }
    }
}

#[test]
fn replace_all_with_empty_phrase_changes_nothing() {
    assert_eq!(replace_all("abc", "", "-"), "abc");
    assert_eq!(replace_all("", "", "-"), "");
}

#[test]
fn shorter_filler_first_would_leave_a_rest() {
    let reversed = vec!["ありがとうございました".to_string(), "ご視聴ありがとうございました".to_string()];
    assert_eq!(filter_noise("ご視聴ありがとうございました", &reversed), "ご視聴");
    assert_eq!(filter_noise("ご視聴ありがとうございました", &filler_phrase_list()), "");
}
