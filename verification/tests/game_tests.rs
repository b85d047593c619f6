use rustle::game::{
    dispatch_key, finish_delete, get_on_key, get_start_ng_plus, join_team, letter_hint, share_refusal, toggle_hard_mode, GameState,
    KeyAction, KeyOutcome, NewGamePlusOutcome,
};
use rustle::share::get_share_results;
use rustle::words::WordList;

fn list() -> WordList {
    WordList::from_texts("apple\ncrane\nslate\n", "ghost\nzebra\n")
}

fn type_word(state: &mut GameState, w: &str, words: &WordList) {
    for c in w.chars() {
        let k = c.to_string();
        match get_on_key(state, &k, words, "apple", 0) {
            KeyOutcome::Typed(_, _) => {}
            _ => panic!("expected the letter to be typed"),
        }
    }
}

fn played(o: KeyOutcome) -> (Vec<i32>, bool, bool, String) {
    match o {
        KeyOutcome::Played(t) => (t.posts, t.won, t.lost, t.comment),
        _ => panic!("expected a played row"),
    }
}

#[test]
fn typing_and_deleting() {
    let words = list();
    let mut s = GameState::new();
    assert!(matches!(get_on_key(&mut s, "DELETE", &words, "apple", 0), KeyOutcome::Ignored));
    match get_on_key(&mut s, "x", &words, "apple", 0) {
        KeyOutcome::Typed(0, 'X') => {}
        _ => panic!("expected X typed at 0"),
    }
    assert_eq!(s.current_input, "X");
    match get_on_key(&mut s, "DELETE", &words, "apple", 0) {
        KeyOutcome::Deleting(0) => {}
        _ => panic!("expected deleting at 0"),
    }
    finish_delete(&mut s);
    assert_eq!(s.current_input, "");
    type_word(&mut s, "abcde", &words);
    assert!(matches!(get_on_key(&mut s, "f", &words, "apple", 0), KeyOutcome::Ignored));
    assert_eq!(s.current_input, "ABCDE");
}

#[test]
fn short_and_unknown_words_are_refused() {
    let words = list();
    let mut s = GameState::new();
    type_word(&mut s, "ab", &words);
    assert!(matches!(get_on_key(&mut s, "ENTER", &words, "apple", 0), KeyOutcome::TooShort));
    type_word(&mut s, "zzz", &words);
    match get_on_key(&mut s, "ENTER", &words, "apple", 0) {
        KeyOutcome::NotAWord(c) => assert_eq!(c, "DICTIONARY SAYS NO 📚"),
        _ => panic!("expected a refusal"),
    }
    assert!(s.guesses.is_empty());
}

#[test]
fn a_full_daily_game() {
    let words = list();
    let mut s = GameState::new();
    type_word(&mut s, "crane", &words);
    let (posts, won, lost, comment) = played(get_on_key(&mut s, "ENTER", &words, "apple", 0));
    assert_eq!(posts, vec![3]);
    assert!(!won && !lost);
    assert_eq!(comment, "IF YOU SAY SO... (+3 PTS)");
    assert_eq!(s.guesses, vec!["CRANE"]);
    assert_eq!(s.statuses, vec![vec!["absent", "absent", "present", "absent", "correct"]]);
    assert_eq!(s.point_locked_team, Some("yellow".to_string()));

    type_word(&mut s, "apple", &words);
    let (posts, won, lost, comment) = played(get_on_key(&mut s, "ENTER", &words, "apple", 0));
    assert_eq!(posts, vec![8, 1]);
    assert!(won && !lost);
    assert_eq!(comment, "BIG BRAIN ENERGY 🧠 (+9 PTS)");
    assert!(s.game_won && s.daily_game_done);
    // every posted change shows in the session: 3 + 8 + 1
    assert_eq!(s.session_points, 12);
    assert_eq!(s.stats.total_games, 1);
    assert_eq!(s.stats.wins, 1);
    assert_eq!(s.stats.best_streak, 1);
    assert_eq!(s.stats.distribution, [0, 1, 0, 0, 0, 0]);
    assert_eq!(s.stats.scored_words, vec!["APPLE"]);

    assert!(matches!(get_on_key(&mut s, "ENTER", &words, "apple", 0), KeyOutcome::StartNewGamePlus));
    assert!(matches!(get_on_key(&mut s, "q", &words, "apple", 0), KeyOutcome::OpenStats));
    assert!(matches!(get_on_key(&mut s, "DELETE", &words, "apple", 0), KeyOutcome::Ignored));

    assert_eq!(
        get_share_results(&s, 0),
        "RUSTLE 0 2/6 \n\n⬛⬛🟨⬛🟩\n🟩🟩🟩🟩🟩\n\nTEAM YELLOW: +12 pts"
    );
    assert!(share_refusal(&s, 0).is_none());

    let stored = s.stored_state("APPLE");
    assert_eq!(stored.guesses, s.guesses);
    assert_eq!(stored.statuses, s.statuses);
    assert_eq!(stored.solution, "APPLE");
    assert!(stored.daily_done);
    assert_eq!(stored.locked_team, Some("yellow".to_string()));
}

#[test]
fn losing_costs_a_point() {
    let words = WordList::from_texts("apple\n", "ghost\n");
    let mut s = GameState::new();
    for i in 0..6 {
        type_word(&mut s, "ghost", &words);
        let (posts, won, lost, comment) = played(get_on_key(&mut s, "ENTER", &words, "apple", 0));
        assert!(!won);
        if i < 5 {
            assert!(!lost);
            assert!(posts.is_empty());
        } else {
            assert!(lost);
            assert_eq!(posts, vec![-1]);
            assert_eq!(comment, "BETTER LUCK NEXT TIME, GENIUS 🧠 THE WORD WAS APPLE. (-1 PTS)");
        }
    }
    assert!(s.game_lost && s.daily_game_done);
    assert_eq!(s.session_points, -1);
    assert_eq!(s.stats.total_games, 1);
    assert_eq!(s.stats.wins, 0);
    assert_eq!(
        get_share_results(&s, -3),
        "RUSTLE -3 X/6 \n\n⬛⬛⬛⬛⬛\n⬛⬛⬛⬛⬛\n⬛⬛⬛⬛⬛\n⬛⬛⬛⬛⬛\n⬛⬛⬛⬛⬛\n⬛⬛⬛⬛⬛\n\nTEAM YELLOW: -1 pts"
    );
}

#[test]
fn hard_mode_rules() {
    let words = list();
    let mut s = GameState::new();
    assert_eq!(toggle_hard_mode(&mut s, 0), "A GLUTTON FOR PUNISHMENT.");
    assert!(s.hard_mode);
    type_word(&mut s, "crane", &words);
    played(get_on_key(&mut s, "ENTER", &words, "apple", 0));
    assert_eq!(toggle_hard_mode(&mut s, 0), "TOO LATE TO CHANGE NOW.");
    assert!(s.hard_mode);
    type_word(&mut s, "ghost", &words);
    match get_on_key(&mut s, "ENTER", &words, "apple", 0) {
        KeyOutcome::BreaksHardMode(c) => assert_eq!(c, "READ THE RULES DUMMY 📖 5TH LETTER MUST BE E."),
        _ => panic!("expected a hard-mode refusal"),
    }
    assert_eq!(s.guesses.len(), 1);
}

#[test]
fn hard_mode_can_be_switched_off_before_the_first_guess() {
    let mut s = GameState::new();
    toggle_hard_mode(&mut s, 0);
    assert_eq!(toggle_hard_mode(&mut s, 1), "TOO HARD FOR YOU?");
    assert!(!s.hard_mode);
}

#[test]
fn new_game_plus() {
    let words = list();
    let mut s = GameState::new();
    match get_start_ng_plus(&mut s, &words, 1) {
        NewGamePlusOutcome::Locked(c) => assert_eq!(c, "ADULTING MEANS FINISHING TASKS 📋"),
        _ => panic!("expected New Game+ to be locked"),
    }
    assert_eq!(share_refusal(&s, 2), Some("NOTHING TO SHARE YET.".to_string()));
    type_word(&mut s, "apple", &words);
    played(get_on_key(&mut s, "ENTER", &words, "apple", 0));
    match get_start_ng_plus(&mut s, &words, 0) {
        NewGamePlusOutcome::Started(Some(c)) => assert_eq!(c, "NEW GAME+ ENABLED 🎮"),
        _ => panic!("expected New Game+ to start"),
    }
    assert!(s.is_ng_plus && s.hard_mode);
    assert!(s.guesses.is_empty() && !s.game_won);
    assert_eq!(s.session_points, 0);
    assert_eq!(s.ai_pool, vec!["APPLE", "CRANE", "SLATE"]);
    assert_eq!(toggle_hard_mode(&mut s, 0), "NO ESCAPE FROM THE SYSTEM.");

    // The opponent keeps the largest group of words giving the same feedback:
    // APPLE and CRANE share no letter with GHOST, SLATE would show S and T.
    type_word(&mut s, "ghost", &words);
    let (posts, won, _, comment) = played(get_on_key(&mut s, "ENTER", &words, "apple", 0));
    assert!(!won);
    assert!(posts.is_empty());
    assert_eq!(s.statuses[0], vec!["absent"; 5]);
    assert_eq!(s.ai_pool, vec!["APPLE", "CRANE"]);
    assert_eq!(comment, "ERROR 404: LUCK NOT FOUND.");
    match get_start_ng_plus(&mut s, &words, 0) {
        NewGamePlusOutcome::Started(None) => {}
        _ => panic!("expected a silent restart"),
    }
}

#[test]
fn joining_a_team() {
    let mut s = GameState::new();
    assert!(join_team(&mut s, "yellow", 0).is_none());
    let c = join_team(&mut s, "green", 0);
    assert!(c.is_some());
    assert_eq!(s.theme, "green");
}

#[test]
fn keyboard_hints_keep_the_best_status() {
    let guesses = vec!["CRANE".to_string(), "CHEAP".to_string()];
    let statuses: Vec<Vec<String>> = vec![
        ["absent", "absent", "present", "absent", "correct"].iter().map(|s| s.to_string()).collect(),
        ["absent", "absent", "present", "correct", "absent"].iter().map(|s| s.to_string()).collect(),
    ];
    assert_eq!(letter_hint(&guesses, &statuses, 'E'), Some("correct".to_string()));
    assert_eq!(letter_hint(&guesses, &statuses, 'A'), Some("correct".to_string()));
    assert_eq!(letter_hint(&guesses, &statuses, 'C'), Some("absent".to_string()));
    assert_eq!(letter_hint(&guesses, &statuses, 'Z'), None);
}

fn press_of(a: KeyAction) -> Option<String> {
    match a {
        KeyAction::Press(s) => Some(s),
        _ => None,
    }
}

#[test]
fn page_keys_are_routed() {
    assert_eq!(press_of(dispatch_key("Enter", false, false, false, false)), Some("ENTER".to_string()));
    assert_eq!(press_of(dispatch_key("Backspace", false, false, false, false)), Some("DELETE".to_string()));
    assert_eq!(press_of(dispatch_key("q", false, false, false, false)), Some("Q".to_string()));
    assert!(matches!(dispatch_key("Shift", false, false, false, false), KeyAction::Ignore));
    assert!(matches!(dispatch_key("1", false, false, false, false), KeyAction::Ignore));
    assert!(matches!(dispatch_key("é", false, false, false, false), KeyAction::Ignore));
    assert!(matches!(dispatch_key("q", false, true, false, false), KeyAction::Ignore));
    assert!(matches!(dispatch_key("Enter", true, false, true, false), KeyAction::ShareResults));
    assert!(matches!(dispatch_key("Enter", true, false, false, false), KeyAction::Ignore));
    assert!(matches!(dispatch_key("q", true, false, true, false), KeyAction::Ignore));
}

#[test]
fn typed_row_stays_within_five_letters() {
    let words = list();
    let mut s = GameState::new();
    for c in ["a", "b", "c", "d", "e", "f", "g"] {
        get_on_key(&mut s, c, &words, "apple", 0);
        assert!(s.current_input.len() <= 5);
    }
    assert_eq!(s.current_input, "ABCDE");
}

#[test]
fn new_session_is_blank() {
    let s = GameState::new();
    assert_eq!(s.stats.distribution, [0; 6]);
    assert!(s.stats.scored_words.is_empty());
}
