//! The shareable summary of a finished game.
use vstd::prelude::*;

use crate::game::GameState;
use crate::teams::{team_named, team_of, Team};
use crate::text::{
    decimal, decimal_text, push_char, push_text, signed_decimal, signed_decimal_text, string_of,
    to_upper, unicode_uppercase,
};

verus! {

/// The (correct, present, absent) squares of a theme, for shared results.
pub open spec fn share_emoji_set(team: Option<Team>) -> (Seq<char>, Seq<char>, Seq<char>) {
    match team {
        Some(Team::Red) => ("🟥"@, "🟧"@, "⬛"@),
        Some(Team::Orange) => ("🟧"@, "🟨"@, "⬛"@),
        Some(Team::Yellow) => ("🟩"@, "🟨"@, "⬛"@),
        Some(Team::Green) => ("🟩"@, "⬜"@, "⬛"@),
        Some(Team::Blue) => ("🟦"@, "🟨"@, "⬛"@),
        Some(Team::Purple) => ("🟪"@, "🟨"@, "⬛"@),
        None => ("🟩"@, "🟨"@, "⬛"@),
    }
}

/// Returns the (correct, present, absent) squares for the current theme.
pub fn get_theme_emojis(theme: &str) -> (r: (&'static str, &'static str, &'static str))
    ensures
        (r.0@, r.1@, r.2@) == share_emoji_set(team_named(theme@)),
{
    match team_of(theme) {
        Some(Team::Red) => ("🟥", "🟧", "⬛"),
        Some(Team::Orange) => ("🟧", "🟨", "⬛"),
        Some(Team::Yellow) => ("🟩", "🟨", "⬛"),
        Some(Team::Green) => ("🟩", "⬜", "⬛"),
        Some(Team::Blue) => ("🟦", "🟨", "⬛"),
        Some(Team::Purple) => ("🟪", "🟨", "⬛"),
        None => ("🟩", "🟨", "⬛"),
    }
}

/// The square for one stored status.
pub open spec fn square_for(s: Seq<char>, e: (Seq<char>, Seq<char>, Seq<char>)) -> Seq<char> {
    if s == "correct"@ {
        e.0
    } else if s == "present"@ {
        e.1
    } else {
        e.2
    }
}

/// The squares of the first `n` statuses of a row.
pub open spec fn row_squares(row: Seq<Seq<char>>, e: (Seq<char>, Seq<char>, Seq<char>), n: int) -> Seq<char>
    decreases n,
{
    if n <= 0 {
        Seq::empty()
    } else {
        row_squares(row, e, n - 1) + square_for(row[n - 1], e)
    }
}

/// The first `n` rows of squares, each ended by a newline.
pub open spec fn board_squares(rows: Seq<Seq<Seq<char>>>, e: (Seq<char>, Seq<char>, Seq<char>), n: int) -> Seq<char>
    decreases n,
{
    if n <= 0 {
        Seq::empty()
    } else {
        board_squares(rows, e, n - 1) + row_squares(rows[n - 1], e, rows[n - 1].len() as int) + "\n"@
    }
}

/// The shared text: `RUSTLE <index> <guesses or X>/6 <⚡ in hard mode><+ in
/// New Game+>`, a blank line, the rows of squares, a blank line and
/// `TEAM <THEME>: <signed points> pts`.
pub open spec fn share_text(
    solution_index: i64,
    won: bool,
    guess_count: nat,
    hard: bool,
    ng: bool,
    rows: Seq<Seq<Seq<char>>>,
    theme: Seq<char>,
    points: int,
) -> Seq<char> {
    "RUSTLE "@ + signed_decimal(solution_index as int) + " "@ + (if won {
        decimal(guess_count)
    } else {
        "X"@
    }) + "/6 "@ + (if hard { "⚡"@ } else { Seq::empty() }) + (if ng { "+"@ } else { Seq::empty() })
        + "\n\n"@ + board_squares(rows, share_emoji_set(team_named(theme)), rows.len() as int) + "\nTEAM "@
        + unicode_uppercase(theme) + ": "@ + (if points >= 0 {
        "+"@ + decimal(points as nat)
    } else {
        signed_decimal(points)
    }) + " pts"@
}

/// The text copied when the player shares a game: see [`share_text`]; hard
/// means hard mode or New Game+.
pub fn get_share_results(state: &GameState, solution_index: i64) -> (r: String)
    ensures
        r@ == share_text(
            solution_index,
            state.game_won,
            state.guesses.len() as nat,
            state.hard_mode || state.is_ng_plus,
            state.is_ng_plus,
            state.statuses.deep_view(),
            state.theme@,
            state.session_points as int,
        ),
{
    let is_hard = state.hard_mode || state.is_ng_plus;
    let pts = state.session_points;
    let e = get_theme_emojis(state.theme.as_str());
    let ghost es = (e.0@, e.1@, e.2@);
    let mut text = string_of("RUSTLE ");
    let idx = signed_decimal_text(solution_index);
    push_text(&mut text, idx.as_str());
    push_text(&mut text, " ");
    if state.game_won {
        let n = decimal_text(state.guesses.len() as u64);
        push_text(&mut text, n.as_str());
    } else {
        push_text(&mut text, "X");
    }
    push_text(&mut text, "/6 ");
    if is_hard {
        push_text(&mut text, "⚡");
    } else {
        proof { assert(text@ + Seq::<char>::empty() == text@); }
    }
    if state.is_ng_plus {
        push_text(&mut text, "+");
    } else {
        proof { assert(text@ + Seq::<char>::empty() == text@); }
    }
    push_text(&mut text, "\n\n");
    let ghost head = text@;
    let ghost rows = state.statuses.deep_view();
    let mut k: usize = 0;
    while k < state.statuses.len()
        invariant
            rows == state.statuses.deep_view(),
            es == share_emoji_set(team_named(state.theme@)),
            es == (e.0@, e.1@, e.2@),
            k <= state.statuses.len(),
            text@ == head + board_squares(rows, es, k as int),
        decreases state.statuses.len() - k,
    {
        let row = &state.statuses[k];
        let ghost before = text@;
        let mut j: usize = 0;
        while j < row.len()
            invariant
                row.deep_view() == rows[k as int],
                es == (e.0@, e.1@, e.2@),
                j <= row.len(),
                text@ == before + row_squares(rows[k as int], es, j as int),
            decreases row.len() - j,
        {
            let ghost t0 = text@;
            if row[j] == string_of("correct") {
                push_text(&mut text, e.0);
            } else if row[j] == string_of("present") {
                push_text(&mut text, e.1);
            } else {
                push_text(&mut text, e.2);
            }
            proof {
                assert(rows[k as int][j as int] == row@[j as int]@);
                assert(text@ =~= before + row_squares(rows[k as int], es, j as int + 1));
            }
            j = j + 1;
        }
        push_char(&mut text, '\n');
        proof {
            reveal_strlit("\n");
            assert(text@ =~= head + board_squares(rows, es, k as int + 1));
        }
        k = k + 1;
    }
    push_text(&mut text, "\nTEAM ");
    let t = to_upper(state.theme.as_str());
    push_text(&mut text, t.as_str());
    push_text(&mut text, ": ");
    if pts >= 0 {
        push_text(&mut text, "+");
        let d = decimal_text(pts as u64);
        push_text(&mut text, d.as_str());
    } else {
        let d = signed_decimal_text(pts as i64);
        push_text(&mut text, d.as_str());
    }
    push_text(&mut text, " pts");
    proof {
        assert(text@ =~= share_text(
            solution_index,
            state.game_won,
            state.guesses.len() as nat,
            is_hard,
            state.is_ng_plus,
            rows,
            state.theme@,
            pts as int,
        ));
    }
    text
}

/// The header of a shared result: `RUSTLE <index> <guesses or X>/6 `, then
/// the hard-mode mark ⚡ exactly when the game was played in hard mode (or
/// New Game+), then `+` exactly in New Game+, then a blank line.
pub proof fn lemma_share_header_marks(
    solution_index: i64,
    won: bool,
    guess_count: nat,
    hard: bool,
    ng: bool,
    rows: Seq<Seq<Seq<char>>>,
    theme: Seq<char>,
    points: int,
)
    ensures
        ({
            let t = share_text(solution_index, won, guess_count, hard, ng, rows, theme, points);
            let head = "RUSTLE "@ + signed_decimal(solution_index as int) + " "@ + (if won {
                decimal(guess_count)
            } else {
                "X"@
            }) + "/6 "@;
            let k = head.len() + if hard { 1int } else { 0int };
            let j = k + if ng { 1int } else { 0int };
            &&& t.len() > j + 1
            &&& t.subrange(0, head.len() as int) == head
            &&& (t[head.len() as int] == '\u{26A1}' <==> hard)
            &&& (t[k] == '+' <==> ng)
            &&& t[j] == '\n' && t[j + 1] == '\n'
        }),
{
    reveal_strlit("\u{26A1}");
    reveal_strlit("+");
    reveal_strlit("\n\n");
    let t = share_text(solution_index, won, guess_count, hard, ng, rows, theme, points);
    let head = "RUSTLE "@ + signed_decimal(solution_index as int) + " "@ + (if won {
        decimal(guess_count)
    } else {
        "X"@
    }) + "/6 "@;
    let x: Seq<char> = if hard { "\u{26A1}"@ } else { Seq::empty() };
    let y: Seq<char> = if ng { "+"@ } else { Seq::empty() };
    let rest = board_squares(rows, share_emoji_set(team_named(theme)), rows.len() as int) + "\nTEAM "@
        + unicode_uppercase(theme) + ": "@ + (if points >= 0 {
        "+"@ + decimal(points as nat)
    } else {
        signed_decimal(points)
    }) + " pts"@;
    assert(t =~= head + x + y + "\n\n"@ + rest);
    assert((head + x + y + "\n\n"@ + rest).subrange(0, head.len() as int) =~= head);
}

/// The footer of a shared result: a new line, `TEAM `, the upper-cased
/// theme, `: `, the session points with an explicit sign (`+` from zero up,
/// `-` below) and ` pts`.
pub proof fn lemma_share_footer(
    solution_index: i64,
    won: bool,
    guess_count: nat,
    hard: bool,
    ng: bool,
    rows: Seq<Seq<Seq<char>>>,
    theme: Seq<char>,
    points: int,
)
    ensures
        ({
            let t = share_text(solution_index, won, guess_count, hard, ng, rows, theme, points);
            let tail = "\nTEAM "@ + unicode_uppercase(theme) + ": "@ + (if points >= 0 {
                seq!['+']
            } else {
                seq!['-']
            }) + decimal((if points >= 0 { points } else { -points }) as nat) + " pts"@;
            &&& t.len() >= tail.len()
            &&& t.subrange(t.len() - tail.len(), t.len() as int) == tail
        }),
{
    reveal_strlit("+");
    let t = share_text(solution_index, won, guess_count, hard, ng, rows, theme, points);
    let sign: Seq<char> = if points >= 0 { seq!['+'] } else { seq!['-'] };
    let tail = "\nTEAM "@ + unicode_uppercase(theme) + ": "@ + sign + decimal((if points >= 0 { points } else { -points }) as nat) + " pts"@;
    let head = "RUSTLE "@ + signed_decimal(solution_index as int) + " "@ + (if won {
        decimal(guess_count)
    } else {
        "X"@
    }) + "/6 "@ + (if hard { "\u{26A1}"@ } else { Seq::empty() }) + (if ng { "+"@ } else { Seq::empty() })
        + "\n\n"@ + board_squares(rows, share_emoji_set(team_named(theme)), rows.len() as int);
    assert("+"@ =~= seq!['+']);
    assert(t =~= head + tail);
    assert((head + tail).subrange(head.len() as int, (head + tail).len() as int) =~= tail);
}

/// The square a share row shows for a stored status: the theme's first
/// square for `correct`, its second for `present`, its third for anything
/// else.
pub open spec fn square_char(s: Seq<char>, e: (Seq<char>, Seq<char>, Seq<char>)) -> char {
    if s == "correct"@ {
        e.0[0]
    } else if s == "present"@ {
        e.1[0]
    } else {
        e.2[0]
    }
}

/// Every theme's share squares are single characters.
pub proof fn lemma_share_squares_single(team: Option<Team>)
    ensures
        share_emoji_set(team).0.len() == 1,
        share_emoji_set(team).1.len() == 1,
        share_emoji_set(team).2.len() == 1,
{
    reveal_strlit("🟥");
    reveal_strlit("🟧");
    reveal_strlit("⬛");
    reveal_strlit("🟨");
    reveal_strlit("🟩");
    reveal_strlit("⬜");
    reveal_strlit("🟦");
    reveal_strlit("🟪");
}

/// A share row shows one square per status, in order: with single-character
/// squares, the row text has one character per status and character `i` is
/// the square of status `i`.
pub proof fn lemma_row_squares_in_order(row: Seq<Seq<char>>, e: (Seq<char>, Seq<char>, Seq<char>), n: int)
    requires
        0 <= n <= row.len(),
        e.0.len() == 1,
        e.1.len() == 1,
        e.2.len() == 1,
    ensures
        row_squares(row, e, n).len() == n,
        forall|i: int| 0 <= i < n ==> #[trigger] row_squares(row, e, n)[i] == square_char(row[i], e),
    decreases n,
{
    if n > 0 {
        lemma_row_squares_in_order(row, e, n - 1);
    }
}

/// The board of a shared result: with rows of five statuses and
/// single-character squares, row `k` takes characters `6k` to `6k + 5`:
/// the squares of its statuses in order, then a line break.
pub proof fn lemma_board_squares_layout(rows: Seq<Seq<Seq<char>>>, e: (Seq<char>, Seq<char>, Seq<char>), n: int)
    requires
        0 <= n <= rows.len(),
        forall|k: int| 0 <= k < rows.len() ==> (#[trigger] rows[k]).len() == 5,
        e.0.len() == 1,
        e.1.len() == 1,
        e.2.len() == 1,
    ensures
        board_squares(rows, e, n).len() == 6 * n,
        forall|k: int, i: int|
            0 <= k < n && 0 <= i < 5 ==> #[trigger] board_squares(rows, e, n)[6 * k + i] == square_char(rows[k][i], e),
        forall|k: int| 0 <= k < n ==> #[trigger] board_squares(rows, e, n)[6 * k + 5] == '\n',
    decreases n,
{
    reveal_strlit("\n");
    if n > 0 {
        lemma_board_squares_layout(rows, e, n - 1);
        lemma_row_squares_in_order(rows[n - 1], e, 5);
        let prev = board_squares(rows, e, n - 1);
        let line = row_squares(rows[n - 1], e, 5);
        let b = board_squares(rows, e, n);
        assert(b == prev + line + "\n"@);
        assert forall|k: int, i: int| 0 <= k < n && 0 <= i < 5 implies #[trigger] b[6 * k + i] == square_char(
            rows[k][i],
            e,
        ) by {
            if k < n - 1 {
                assert(b[6 * k + i] == prev[6 * k + i]);
            } else {
                assert(b[6 * k + i] == line[i]);
            }
        }
        assert forall|k: int| 0 <= k < n implies #[trigger] b[6 * k + 5] == '\n' by {
            if k < n - 1 {
                assert(b[6 * k + 5] == prev[6 * k + 5]);
            }
        }
    }
}

} // verus!
