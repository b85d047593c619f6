use rustle::comments::{get_80s_comment, get_theme_emojis, pick_line};
use rustle::share::get_theme_emojis as share_emojis;

#[test]
fn board_emojis_by_theme() {
    assert_eq!(get_theme_emojis("red"), ("🔴", "🔺", "⬛"));
    assert_eq!(get_theme_emojis("purple"), ("🟣", "💠", "⬛"));
    assert_eq!(get_theme_emojis("halloween-x"), ("🟩", "🟨", "⬛"));
}

#[test]
fn share_squares_by_theme() {
    assert_eq!(share_emojis("green"), ("🟩", "⬜", "⬛"));
    assert_eq!(share_emojis("blue"), ("🟦", "🟨", "⬛"));
    assert_eq!(share_emojis(""), ("🟩", "🟨", "⬛"));
}

#[test]
fn comments_follow_the_situation() {
    assert_eq!(get_80s_comment(1, false, false, false, true, "red", 0), "SYSTEM OVERLOADED.");
    assert_eq!(get_80s_comment(6, false, true, false, false, "yellow", 0), "BETTER LUCK NEXT TIME, GENIUS 🧠");
    assert_eq!(get_80s_comment(3, true, false, true, false, "yellow", 0), "BIG BRAIN ENERGY 🧠 (HARD MODE ⚡)");
    assert_eq!(get_80s_comment(3, true, false, false, false, "yellow", 1), "YOU ACTUALLY DID IT 🙃");
    assert_eq!(get_80s_comment(2, false, false, false, false, "yellow", 1), "SURE, JAN.");
    assert_eq!(get_80s_comment(2, false, false, false, false, "nobody", 5), "WICKED.");
    assert_eq!(get_80s_comment(2, false, false, false, true, "nobody", 5), "CALCULATING...");
}

#[test]
fn lines_are_picked_round_robin() {
    let v = vec!["a", "b", "c"];
    assert_eq!(pick_line(&v, 0), "a");
    assert_eq!(pick_line(&v, 4), "b");
    assert_eq!(pick_line(&v, u32::MAX), "a");
}

#[test]
fn test_theme_emojis() {
    let (c, p, a) = get_theme_emojis("red");
    assert_eq!(c, "🔴");
    assert_eq!(p, "🔺");
    assert_eq!(a, "⬛");
}

#[test]
fn test_snarky_comment_win() {
    for roll in 0..8 {
        let comment = get_80s_comment(1, true, false, false, false, "red", roll);
        assert!(!comment.is_empty());
    }
}

#[test]
fn test_game_stats_default() {
    let stats = rustle::game::GameStats::new();
    assert_eq!(stats.total_games, 0);
    assert_eq!(stats.distribution, [0; 6]);
}
