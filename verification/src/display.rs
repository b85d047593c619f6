//! What the board, the keyboard and the statistics panel show.
use vstd::prelude::*;

use crate::game::GameStats;
use crate::text::{chars_of, push_char, push_text, string_of};

verus! {

/// Empty rows drawn below the board: six minus the guesses made, minus the
/// row being typed while the game is on.
pub open spec fn empty_rows_spec(guesses: nat, game_won: bool) -> nat {
    let used = guesses + if guesses < 6 && !game_won {
        1nat
    } else {
        0nat
    };
    if used >= 6 {
        0
    } else {
        (6 - used) as nat
    }
}

/// The number of empty rows to draw (see [`empty_rows_spec`]).
pub fn empty_row_count(guesses: usize, game_won: bool) -> (r: usize)
    ensures
        r as nat == empty_rows_spec(guesses as nat, game_won),
{
    let typing: usize = if guesses < 6 && !game_won {
        1
    } else {
        0
    };
    if guesses >= 6 || guesses + typing >= 6 {
        0
    } else {
        6 - guesses - typing
    }
}

/// The share of games won, in whole percent (0 before any game).
pub fn win_percentage(stats: &GameStats) -> (r: u32)
    requires
        stats.wins * 100 <= u32::MAX,
    ensures
        stats.total_games == 0 ==> r == 0,
        stats.total_games > 0 ==> r as int == (stats.wins * 100) as int / stats.total_games as int,
{
    if stats.total_games > 0 {
        stats.wins * 100 / stats.total_games
    } else {
        0
    }
}

/// The style of a keyboard key for the best status its letter has shown.
pub open spec fn key_class_spec(status: Seq<char>) -> Seq<char> {
    if status == "correct"@ {
        "correct"@
    } else if status == "present"@ {
        "present"@
    } else if status == "absent"@ {
        "absent"@
    } else {
        "key-neutral"@
    }
}

fn same(a: &str, b: &str) -> (r: bool)
    ensures
        r == (a@ == b@),
{
    string_of(a) == string_of(b)
}

/// The style of a keyboard key (see [`key_class_spec`]).
pub fn key_class(status: &str) -> (r: &'static str)
    ensures
        r@ == key_class_spec(status@),
{
    if same(status, "correct") {
        "correct"
    } else if same(status, "present") {
        "present"
    } else if same(status, "absent") {
        "absent"
    } else {
        "key-neutral"
    }
}

/// The accessible name of a board cell: `Empty cell` for a blank, the
/// letter and its status once scored, the letter alone while typed.
pub open spec fn cell_label_spec(value: char, status: Seq<char>) -> Seq<char> {
    if value == ' ' {
        "Empty cell"@
    } else if status.len() > 0 {
        seq![value] + " "@ + status
    } else {
        seq![value]
    }
}

/// The accessible name of a board cell (see [`cell_label_spec`]).
pub fn cell_label(value: char, status: &str) -> (r: String)
    ensures
        r@ == cell_label_spec(value, status@),
{
    if value == ' ' {
        return string_of("Empty cell");
    }
    let mut r = String::new();
    push_char(&mut r, value);
    if !status.is_empty() {
        push_text(&mut r, " ");
        push_text(&mut r, status);
    }
    proof {
        assert(Seq::<char>::empty().push(value) == seq![value]);
    }
    r
}

/// The accessible name of a board row.
pub open spec fn row_label_spec(guess: Seq<char>) -> Seq<char> {
    if guess.len() == 0 {
        "Empty guess row"@
    } else {
        "Guess: "@ + guess
    }
}

/// The accessible name of a board row (see [`row_label_spec`]).
pub fn row_label(guess: &str) -> (r: String)
    ensures
        r@ == row_label_spec(guess@),
{
    if guess.is_empty() {
        return string_of("Empty guess row");
    }
    let mut r = string_of("Guess: ");
    push_text(&mut r, guess);
    r
}

/// The five cells of a row: the first five characters of the guess, then
/// blanks.
pub open spec fn row_cells_spec(guess: Seq<char>) -> Seq<char> {
    Seq::new(5, |i: int| if i < guess.len() { guess[i] } else { ' ' })
}

/// The five cells of a row (see [`row_cells_spec`]).
pub fn row_cells(guess: &str) -> (r: Vec<char>)
    ensures
        r@ == row_cells_spec(guess@),
{
    let g = chars_of(guess);
    let mut r: Vec<char> = Vec::new();
    let mut i: usize = 0;
    while i < 5
        invariant
            g@ == guess@,
            i <= 5,
            r.len() == i,
            forall|k: int| 0 <= k < i ==> #[trigger] r@[k] == (if k < g.len() { g@[k] } else { ' ' }),
        decreases 5 - i,
    {
        if i < g.len() {
            r.push(g[i]);
        } else {
            r.push(' ');
        }
        i = i + 1;
    }
    proof {
        assert(r@ =~= row_cells_spec(guess@));
    }
    r
}

/// The style classes every board cell has.
pub open spec fn cell_base() -> Seq<char> {
    "cell text-2xl sm:text-3xl font-black flex items-center justify-center rounded-lg sm:rounded-xl border-2 transition-all duration-500 uppercase select-none"@
}

/// The style classes of a board cell: the base classes; `revealing` while
/// its row turns; once scored (or turning) its status, or `cell-neutral`
/// without one; a typed letter in the theme colour, popping when it is the
/// last one typed; a blank dimmed.
pub open spec fn cell_class_spec(
    value: char,
    status: Seq<char>,
    is_revealing: bool,
    is_completed: bool,
    is_last: bool,
) -> Seq<char> {
    cell_base() + (if is_revealing { " revealing"@ } else { Seq::empty() }) + if is_completed || is_revealing {
        if status.len() > 0 {
            " "@ + status
        } else {
            " cell-neutral"@
        }
    } else if value != ' ' {
        " border-theme-primary text-theme-primary"@ + if is_last {
            " pop-animation"@
        } else {
            Seq::empty()
        }
    } else {
        " border-gray-700 text-gray-500 opacity-20"@
    }
}

/// The style classes of a board cell (see [`cell_class_spec`]).
pub fn cell_class(value: char, status: &str, is_revealing: bool, is_completed: bool, is_last: bool) -> (r: String)
    ensures
        r@ == cell_class_spec(value, status@, is_revealing, is_completed, is_last),
{
    let mut r = string_of(
        "cell text-2xl sm:text-3xl font-black flex items-center justify-center rounded-lg sm:rounded-xl border-2 transition-all duration-500 uppercase select-none",
    );
    let ghost base = r@;
    if is_revealing {
        push_text(&mut r, " revealing");
    }
    let ghost head = r@;
    if is_completed || is_revealing {
        if !status.is_empty() {
            push_text(&mut r, " ");
            push_text(&mut r, status);
        } else {
            push_text(&mut r, " cell-neutral");
        }
    } else if value != ' ' {
        push_text(&mut r, " border-theme-primary text-theme-primary");
        if is_last {
            push_text(&mut r, " pop-animation");
        }
    } else {
        push_text(&mut r, " border-gray-700 text-gray-500 opacity-20");
    }
    proof {
        assert(base == cell_base());
        if !is_revealing {
            assert(head == base + Seq::<char>::empty());
        }
        if !(is_completed || is_revealing) && value != ' ' && !is_last {
            assert(r@ == head + (" border-theme-primary text-theme-primary"@ + Seq::<char>::empty()));
        }
        if (is_completed || is_revealing) && status@.len() > 0 {
            assert(r@ == head + (" "@ + status@));
        }
        if !(is_completed || is_revealing) && value != ' ' && is_last {
            assert(r@ == head + (" border-theme-primary text-theme-primary"@ + " pop-animation"@));
        }
    }
    r
}

/// The colour of the comment toast: green after a win, red after a loss,
/// the theme colour otherwise.
pub fn toast_color(game_won: bool, game_lost: bool) -> (r: &'static str)
    ensures
        r@ == (if game_won {
            "text-green-400"@
        } else if game_lost {
            "text-red-400"@
        } else {
            "text-theme-primary"@
        }),
{
    if game_won {
        "text-green-400"
    } else if game_lost {
        "text-red-400"
    } else {
        "text-theme-primary"
    }
}

} // verus!
