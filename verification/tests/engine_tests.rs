use rustle::adversary::get_adversarial_step;
use rustle::hard_mode::{check_hard_mode, check_hard_mode_internal};
use rustle::status::{calculate_status_mask, calculate_statuses, get_guess_statuses};
use rustle::words::{get_ai_word_list, get_solution, is_word_in_list, WordList};

fn sample_list() -> WordList {
    WordList::from_texts(
        "apple\ncrane\nslate\ntrace\narise\nmaple\n",
        "plumb\nghost\naudio\r\n\nbread\n",
    )
}

fn rows(rows: &[&[&str]]) -> Vec<Vec<String>> {
    rows.iter().map(|r| r.iter().map(|s| s.to_string()).collect()).collect()
}

#[test]
fn test_calculate_status_mask() {
    let mask = calculate_status_mask("apple", "maple");

    let mut expected_mask: u16 = 0;
    expected_mask |= 1 << 2;
    expected_mask |= 2 << (2 * 2);
    expected_mask |= 2 << (3 * 2);
    expected_mask |= 2 << (4 * 2);

    assert_eq!(mask, expected_mask);

    let mask_all_correct = calculate_status_mask("words", "words");
    let mut all_correct_mask: u16 = 0;
    for i in 0..5 {
        all_correct_mask |= 2 << (i * 2);
    }
    assert_eq!(mask_all_correct, all_correct_mask);
}

#[test]
fn test_is_word_in_list() {
    let list = sample_list();
    assert!(is_word_in_list(&list, "apple"));
    assert!(is_word_in_list(&list, "APPLE"));
    assert!(!is_word_in_list(&list, "zzzzz"));
    assert!(!is_word_in_list(&list, "abcde"));
}

#[test]
fn test_calculate_statuses() {
    assert_eq!(
        calculate_statuses("apple", "apple"),
        vec!["correct", "correct", "correct", "correct", "correct"]
    );
    assert_eq!(
        calculate_statuses("apple", "ghost"),
        vec!["absent", "absent", "absent", "absent", "absent"]
    );
    assert_eq!(
        calculate_statuses("apple", "maple"),
        vec!["absent", "present", "correct", "correct", "correct"]
    );
    assert_eq!(
        calculate_statuses("apple", "plumb"),
        vec!["present", "present", "absent", "absent", "absent"]
    );
    assert_eq!(
        calculate_statuses("maple", "apple"),
        vec!["present", "absent", "correct", "correct", "correct"]
    );
}

#[test]
fn test_check_hard_mode_correct_position() {
    let prev_g = vec!["APPLE".to_string()];
    let prev_s = rows(&[&["correct", "absent", "absent", "absent", "absent"]]);

    let err_valid = check_hard_mode_internal("AUDIO", prev_g.clone(), prev_s.clone());
    assert_eq!(err_valid, "");

    let err_invalid = check_hard_mode_internal("GHOST", prev_g.clone(), prev_s.clone());
    assert_eq!(err_invalid, "1ST LETTER MUST BE A.");
}

#[test]
fn test_check_hard_mode_must_contain_present() {
    let prev_g = vec!["APPLE".to_string()];
    let prev_s = rows(&[&["present", "absent", "absent", "absent", "absent"]]);

    let err_valid = check_hard_mode_internal("BREAD", prev_g.clone(), prev_s.clone());
    assert_eq!(err_valid, "");

    let err_invalid = check_hard_mode_internal("GHOST", prev_g.clone(), prev_s.clone());
    assert_eq!(err_invalid, "GUESS MUST CONTAIN A.");
}

#[test]
fn test_is_word_in_list_valid_words() {
    let list = sample_list();
    let test_words = ["apple", "crane", "slate", "trace", "arise"];
    for word in test_words {
        assert!(is_word_in_list(&list, word), "{} should be in word list", word);
    }
}

#[test]
fn test_is_word_in_list_case_insensitive() {
    let list = sample_list();
    assert!(is_word_in_list(&list, "APPLE"));
    assert!(is_word_in_list(&list, "Apple"));
    assert!(is_word_in_list(&list, "ApPlE"));
}

#[test]
fn test_is_word_in_list_invalid_words() {
    let list = sample_list();
    let invalid_words = ["zzzzz", "xxxxx", "qqqqq", "abcde", "fghij"];
    for word in invalid_words {
        assert!(!is_word_in_list(&list, word), "{} should NOT be in word list", word);
    }
}

#[test]
fn test_hard_mode_requires_correct_letter_position() {
    let prev_guesses = vec!["APPLE".to_string()];
    let prev_statuses = rows(&[&["correct", "absent", "absent", "absent", "absent"]]);
    assert!(check_hard_mode_internal("AUDIO", prev_guesses.clone(), prev_statuses.clone()).is_empty());
    let result = check_hard_mode_internal("GHOST", prev_guesses, prev_statuses);
    assert!(result.contains("1ST LETTER MUST BE A"));
}

#[test]
fn test_hard_mode_requires_present_letters() {
    let prev_guesses = vec!["APPLE".to_string()];
    let prev_statuses = rows(&[&["present", "absent", "absent", "absent", "absent"]]);
    assert!(check_hard_mode_internal("BREAD", prev_guesses.clone(), prev_statuses.clone()).is_empty());
    let result = check_hard_mode_internal("GHOST", prev_guesses, prev_statuses);
    assert!(result.contains("GUESS MUST CONTAIN A"));
}

#[test]
fn test_hard_mode_multiple_requirements() {
    let prev_guesses = vec!["APPLE".to_string(), "CRANE".to_string()];
    let prev_statuses = rows(&[
        &["correct", "absent", "absent", "absent", "absent"],
        &["absent", "absent", "present", "absent", "absent"],
    ]);
    let result = check_hard_mode_internal("AXE", prev_guesses, prev_statuses);
    assert!(result.is_empty(), "Should satisfy both requirements");
}

#[test]
fn statuses_always_five_valid_names() {
    for (s, g) in [("apple", "zzzzz"), ("crane", "nacre"), ("eerie", "eeeee"), ("abcde", "ab")] {
        let result = calculate_statuses(s, g);
        assert_eq!(result.len(), 5);
        for st in &result {
            assert!(["correct", "present", "absent"].contains(&st.as_str()));
        }
    }
}

#[test]
fn exact_match_is_all_correct() {
    for w in ["apple", "crane", "zzzzz", "eerie"] {
        assert!(calculate_statuses(w, w).iter().all(|s| s == "correct"));
    }
}

#[test]
fn short_guess_is_padded_with_absent() {
    assert_eq!(calculate_statuses("apple", "pa"), vec!["present", "present", "absent", "absent", "absent"]);
    assert_eq!(calculate_statuses("apple", "a"), vec!["correct", "absent", "absent", "absent", "absent"]);
}

#[test]
fn revealed_letters_match_the_smaller_count() {
    // solution has one 'e' at the end; guess has three: only one is revealed
    assert_eq!(calculate_statuses("crane", "eerie"), vec!["absent", "absent", "present", "absent", "correct"]);
    // two copies in both: both revealed
    assert_eq!(calculate_statuses("llama", "alley"), vec!["present", "correct", "present", "absent", "absent"]);
}

#[test]
fn guess_statuses_match_calculate_statuses() {
    assert_eq!(get_guess_statuses("apple", "plumb"), calculate_statuses("apple", "plumb"));
}

#[test]
fn hard_mode_empty_history_accepts_anything() {
    assert_eq!(check_hard_mode_internal("qqqqq", vec![], vec![]), "");
    assert_eq!(check_hard_mode("zz", vec![], vec![]), "");
}

#[test]
fn hard_mode_reports_later_positions_and_counts() {
    let prev = vec!["SPEED".to_string()];
    let st = rows(&[&["absent", "absent", "present", "present", "correct"]]);
    assert_eq!(check_hard_mode("ABCDD", prev.clone(), st.clone()), "GUESS MUST CONTAIN E.");
    assert_eq!(check_hard_mode("EXEED", prev.clone(), st.clone()), "");
    assert_eq!(check_hard_mode("EEXDA", prev, st), "5TH LETTER MUST BE D.");
}

#[test]
fn hard_mode_solution_always_passes() {
    let sol = "CRANE";
    let guesses = ["TRACE", "NACRE", "EERIE"];
    let prev: Vec<String> = guesses.iter().map(|g| g.to_string()).collect();
    let st: Vec<Vec<String>> = guesses.iter().map(|g| calculate_statuses(sol, g)).collect();
    assert_eq!(check_hard_mode(sol, prev, st), "");
}

#[test]
fn solution_of_the_day() {
    let list = sample_list();
    let day = 86400000u64;
    let s = get_solution(&list, 0);
    assert_eq!(s.solution, "APPLE");
    assert_eq!(s.solution_game_date, 0);
    assert_eq!(s.solution_index, 0);
    assert_eq!(s.tomorrow, day);
    let s = get_solution(&list, 8 * day + 5);
    assert_eq!(s.solution, "SLATE");
    assert_eq!(s.solution_game_date, 8);
    assert_eq!(s.solution_index, 2);
    assert_eq!(s.tomorrow, 9 * day);
}

#[test]
fn word_list_skips_empty_lines_and_carriage_returns() {
    let list = sample_list();
    assert_eq!(list.words.len(), 6);
    assert_eq!(list.valid_guesses, vec!["plumb", "ghost", "audio", "bread"]);
    assert!(is_word_in_list(&list, "Audio"));
}

#[test]
fn ai_word_list_is_upper_case() {
    let list = sample_list();
    assert_eq!(get_ai_word_list(&list), vec!["APPLE", "CRANE", "SLATE", "TRACE", "ARISE", "MAPLE"]);
}

#[test]
fn adversary_keeps_largest_bucket() {
    let pool: Vec<String> = ["APPLE", "AMPLE", "GHOST", "CRANE"].iter().map(|s| s.to_string()).collect();
    let r = get_adversarial_step("BUMPY", pool).unwrap();
    // APPLE: P present; AMPLE: M and P present; GHOST and CRANE: all absent.
    assert_eq!(r.pattern, vec!["absent", "absent", "absent", "absent", "absent"]);
    assert_eq!(r.new_pool, vec!["GHOST", "CRANE"]);
    assert!(get_adversarial_step("BUMPY", vec![]).is_none());
}

#[test]
fn adversary_tie_goes_to_earliest_word() {
    let pool: Vec<String> = ["APPLE", "GHOST"].iter().map(|s| s.to_string()).collect();
    let r = get_adversarial_step("APPLE", pool).unwrap();
    assert_eq!(r.pattern, vec!["correct"; 5]);
    assert_eq!(r.new_pool, vec!["APPLE"]);
}

#[test]
fn adversary_feedback_fits_every_kept_word() {
    let pool: Vec<String> = ["CRANE", "TRACE", "CRATE", "GRACE", "BRACE", "SLATE"].iter().map(|s| s.to_string()).collect();
    let guess = "CRONY";
    let r = get_adversarial_step(guess, pool.clone()).unwrap();
    assert!(!r.new_pool.is_empty());
    for w in &r.new_pool {
        assert!(pool.contains(w));
        assert_eq!(calculate_statuses(w, guess), r.pattern);
    }
}

#[test]
fn solution_repeats_after_the_list() {
    let list = sample_list();
    let day = 86400000u64;
    let a = get_solution(&list, 3 * day + 10);
    let b = get_solution(&list, 3 * day + 10 + 6 * day);
    let c = get_solution(&list, 4 * day - 1);
    assert_eq!(a.solution, "TRACE");
    assert_eq!(b.solution, a.solution);
    assert_eq!(b.solution_game_date, a.solution_game_date + 6);
    assert_eq!(c.solution, a.solution);
}
