use rustle::display::{
    cell_class, cell_label, empty_row_count, key_class, row_cells, row_label, toast_color, win_percentage,
};
use rustle::game::GameStats;

#[test]
fn empty_rows_below_the_board() {
    assert_eq!(empty_row_count(0, false), 5);
    assert_eq!(empty_row_count(2, false), 3);
    assert_eq!(empty_row_count(2, true), 4);
    assert_eq!(empty_row_count(5, false), 0);
    assert_eq!(empty_row_count(6, false), 0);
    assert_eq!(empty_row_count(9, true), 0);
}

#[test]
fn win_percentage_rounds_down() {
    let mut s = GameStats::new();
    assert_eq!(win_percentage(&s), 0);
    s.total_games = 3;
    s.wins = 2;
    assert_eq!(win_percentage(&s), 66);
    s.wins = 3;
    assert_eq!(win_percentage(&s), 100);
}

#[test]
fn key_classes() {
    assert_eq!(key_class("correct"), "correct");
    assert_eq!(key_class("present"), "present");
    assert_eq!(key_class("absent"), "absent");
    assert_eq!(key_class(""), "key-neutral");
    assert_eq!(key_class("Correct"), "key-neutral");
}

#[test]
fn labels_and_cells() {
    assert_eq!(cell_label(' ', "correct"), "Empty cell");
    assert_eq!(cell_label('A', "present"), "A present");
    assert_eq!(cell_label('B', ""), "B");
    assert_eq!(row_label(""), "Empty guess row");
    assert_eq!(row_label("CRANE"), "Guess: CRANE");
    assert_eq!(row_cells("AB"), vec!['A', 'B', ' ', ' ', ' ']);
    assert_eq!(row_cells("ABCDEFG"), vec!['A', 'B', 'C', 'D', 'E']);
}

#[test]
fn cell_classes() {
    let base = "cell text-2xl sm:text-3xl font-black flex items-center justify-center rounded-lg sm:rounded-xl border-2 transition-all duration-500 uppercase select-none";
    assert_eq!(cell_class('A', "correct", false, true, false), format!("{} correct", base));
    assert_eq!(cell_class('A', "", true, false, false), format!("{} revealing cell-neutral", base));
    assert_eq!(
        cell_class('A', "", false, false, true),
        format!("{} border-theme-primary text-theme-primary pop-animation", base)
    );
    assert_eq!(cell_class(' ', "", false, false, false), format!("{} border-gray-700 text-gray-500 opacity-20", base));
}

#[test]
fn toast_colors() {
    assert_eq!(toast_color(true, false), "text-green-400");
    assert_eq!(toast_color(false, true), "text-red-400");
    assert_eq!(toast_color(false, false), "text-theme-primary");
}
