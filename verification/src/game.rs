//! The game session: typing, submitting guesses, scoring, New Game+.
use vstd::prelude::*;

use crate::adversary::{opponent_move, opponent_step};
use crate::comments::{comment_for, get_80s_comment, picked, pick_line};
use crate::hard_mode::{hard_mode_complaint, hard_mode_message};
use crate::messages::{
    hard_mode_forced_lines, hard_mode_forced_options, hard_mode_off_lines, hard_mode_off_options,
    hard_mode_on_lines, hard_mode_on_options, hard_mode_rejected_lines, hard_mode_rejected_options,
    hard_mode_too_late_lines, hard_mode_too_late_options, join_team_lines, join_team_options,
    new_game_plus_locked_lines, new_game_plus_locked_options, new_game_plus_started_lines,
    new_game_plus_started_options, not_a_word_lines, not_a_word_options, share_locked_lines,
    share_locked_options,
};
use crate::status::{evaluate_chars, status_at, status_name, status_string};
use crate::teams::{team_named, team_of};
use crate::text::{
    all_ascii, ascii_upper, byte_len, chars_of, decimal, decimal_text, push_char, push_text, string_of, to_upper, unicode_lowercase,
    unicode_uppercase,
};
use crate::words::{get_ai_word_list, is_word_in_list, WordList};

verus! {

/// Folds one revealed status `s` into the best status known for a letter:
/// `correct` always wins, `present` wins over anything but `correct`,
/// `absent` only over what is neither `correct` nor `present`; the first
/// status seen is kept otherwise.
pub open spec fn hint_step(cur: Option<Seq<char>>, s: Seq<char>) -> Option<Seq<char>> {
    match cur {
        None => Some(s),
        Some(v) => if s == "correct"@ || (s == "present"@ && v != "correct"@) || (s == "absent"@ && v
            != "correct"@ && v != "present"@) {
            Some(s)
        } else {
            Some(v)
        },
    }
}

/// The hint for letter `c` after the first `n` letter/status pairs of one
/// guess row.
pub open spec fn row_hint(
    cur: Option<Seq<char>>,
    g: Seq<char>,
    row: Seq<Seq<char>>,
    c: char,
    n: int,
) -> Option<Seq<char>>
    decreases n,
{
    if n <= 0 {
        cur
    } else {
        let prev = row_hint(cur, g, row, c, n - 1);
        if g[n - 1] == c {
            hint_step(prev, row[n - 1])
        } else {
            prev
        }
    }
}

/// Letter/status pairs of a guess row: up to the shorter of the two.
pub open spec fn row_pairs(g: Seq<char>, row: Seq<Seq<char>>) -> int {
    if g.len() < row.len() {
        g.len() as int
    } else {
        row.len() as int
    }
}

/// The hint for letter `c` after the first `n` guess rows.
pub open spec fn board_hint_upto(gs: Seq<Seq<char>>, ss: Seq<Seq<Seq<char>>>, c: char, n: int) -> Option<Seq<char>>
    decreases n,
{
    if n <= 0 {
        None
    } else {
        row_hint(board_hint_upto(gs, ss, c, n - 1), gs[n - 1], ss[n - 1], c, row_pairs(gs[n - 1], ss[n - 1]))
    }
}

/// The best status revealed so far for letter `c` (what the keyboard shows),
/// guesses being paired with status rows up to the shorter list.
pub open spec fn board_hint(gs: Seq<Seq<char>>, ss: Seq<Seq<Seq<char>>>, c: char) -> Option<Seq<char>> {
    board_hint_upto(gs, ss, c, if gs.len() < ss.len() { gs.len() as int } else { ss.len() as int })
}

proof fn lemma_row_hint_keeps_correct(g: Seq<char>, row: Seq<Seq<char>>, c: char, n: int)
    ensures
        row_hint(Some("correct"@), g, row, c, n) == Some("correct"@),
    decreases n,
{
    if n > 0 {
        lemma_row_hint_keeps_correct(g, row, c, n - 1);
    }
}

proof fn lemma_board_hint_prefix(
    gs: Seq<Seq<char>>,
    ss: Seq<Seq<Seq<char>>>,
    g: Seq<char>,
    row: Seq<Seq<char>>,
    c: char,
    n: int,
)
    requires
        0 <= n <= gs.len(),
        n <= ss.len(),
    ensures
        board_hint_upto(gs.push(g), ss.push(row), c, n) == board_hint_upto(gs, ss, c, n),
    decreases n,
{
    if n > 0 {
        lemma_board_hint_prefix(gs, ss, g, row, c, n - 1);
        assert(gs.push(g)[n - 1] == gs[n - 1]);
        assert(ss.push(row)[n - 1] == ss[n - 1]);
    }
}

/// A letter the keyboard shows as correct stays correct: adding a guess row
/// never takes that hint back.
pub proof fn lemma_correct_hint_sticks(
    gs: Seq<Seq<char>>,
    ss: Seq<Seq<Seq<char>>>,
    g: Seq<char>,
    row: Seq<Seq<char>>,
    c: char,
)
    requires
        gs.len() == ss.len(),
        board_hint(gs, ss, c) == Some("correct"@),
    ensures
        board_hint(gs.push(g), ss.push(row), c) == Some("correct"@),
{
    let n = gs.len() as int;
    lemma_board_hint_prefix(gs, ss, g, row, c, n);
    assert(gs.push(g)[n] == g);
    assert(ss.push(row)[n] == row);
    lemma_row_hint_keeps_correct(g, row, c, row_pairs(g, row));
}

/// A hint that shows the letter is in the solution.
pub open spec fn hint_in_word(o: Option<Seq<char>>) -> bool {
    o == Some("present"@) || o == Some("correct"@)
}

proof fn lemma_row_hint_keeps_in_word(cur: Option<Seq<char>>, g: Seq<char>, row: Seq<Seq<char>>, c: char, n: int)
    requires
        hint_in_word(cur),
    ensures
        hint_in_word(row_hint(cur, g, row, c, n)),
    decreases n,
{
    if n > 0 {
        lemma_row_hint_keeps_in_word(cur, g, row, c, n - 1);
    }
}

proof fn lemma_row_hint_hits(cur: Option<Seq<char>>, g: Seq<char>, row: Seq<Seq<char>>, c: char, n: int, j: int)
    requires
        0 <= j < n,
        j < g.len(),
        g[j] == c,
        row[j] == "present"@ || row[j] == "correct"@,
    ensures
        hint_in_word(row_hint(cur, g, row, c, n)),
        row[j] == "correct"@ ==> row_hint(cur, g, row, c, n) == Some("correct"@),
    decreases n,
{
    if n - 1 > j {
        lemma_row_hint_hits(cur, g, row, c, n - 1, j);
        lemma_row_hint_keeps_in_word(row_hint(cur, g, row, c, n - 1), g, row, c, 0);
        if row[j] == "correct"@ {
            lemma_row_hint_keeps_correct(g, row, c, 0);
        }
    }
}

proof fn lemma_board_hint_upto_keeps(gs: Seq<Seq<char>>, ss: Seq<Seq<Seq<char>>>, c: char, k: int, n: int)
    requires
        0 <= k <= n,
        hint_in_word(board_hint_upto(gs, ss, c, k)),
    ensures
        hint_in_word(board_hint_upto(gs, ss, c, n)),
        board_hint_upto(gs, ss, c, k) == Some("correct"@) ==> board_hint_upto(gs, ss, c, n) == Some("correct"@),
    decreases n,
{
    if n > k {
        lemma_board_hint_upto_keeps(gs, ss, c, k, n - 1);
        let prev = board_hint_upto(gs, ss, c, n - 1);
        let pairs = row_pairs(gs[n - 1], ss[n - 1]);
        lemma_row_hint_keeps_in_word(prev, gs[n - 1], ss[n - 1], c, pairs);
        if prev == Some("correct"@) {
            lemma_row_hint_keeps_correct(gs[n - 1], ss[n - 1], c, pairs);
        }
    }
}

/// Keyboard hints never hide a revealed letter: when some guess position
/// holding `c` (paired with its feedback row) got `present` or `correct`,
/// the hint for `c` is `present` or `correct`, and `correct` when some such
/// position got `correct`.
pub proof fn lemma_hint_shows_revealed_letter(gs: Seq<Seq<char>>, ss: Seq<Seq<Seq<char>>>, c: char, k: int, j: int)
    requires
        0 <= k < gs.len(),
        k < ss.len(),
        0 <= j < gs[k].len(),
        j < ss[k].len(),
        gs[k][j] == c,
        ss[k][j] == "present"@ || ss[k][j] == "correct"@,
    ensures
        board_hint(gs, ss, c) == Some("present"@) || board_hint(gs, ss, c) == Some("correct"@),
        ss[k][j] == "correct"@ ==> board_hint(gs, ss, c) == Some("correct"@),
{
    reveal_strlit("correct");
    reveal_strlit("present");
    assert("correct"@[0] != "present"@[0]);
    let n = if gs.len() < ss.len() { gs.len() as int } else { ss.len() as int };
    let prev = board_hint_upto(gs, ss, c, k);
    lemma_row_hint_hits(prev, gs[k], ss[k], c, row_pairs(gs[k], ss[k]), j);
    assert(board_hint_upto(gs, ss, c, k + 1) == row_hint(prev, gs[k], ss[k], c, row_pairs(gs[k], ss[k])));
    lemma_board_hint_upto_keeps(gs, ss, c, k + 1, n);
}

/// Some guess position (among the first `n` rows, each paired with its
/// feedback row) holds `c`.
pub open spec fn letter_seen(gs: Seq<Seq<char>>, ss: Seq<Seq<Seq<char>>>, c: char, n: int) -> bool {
    exists|k: int, j: int|
        0 <= k < n && k < gs.len() && k < ss.len() && 0 <= j < gs[k].len() && j < ss[k].len() && #[trigger] gs[k][j]
            == c
}

proof fn lemma_row_hint_some(cur: Option<Seq<char>>, g: Seq<char>, row: Seq<Seq<char>>, c: char, n: int)
    requires
        0 <= n,
    ensures
        row_hint(cur, g, row, c, n) is Some <==> (cur is Some || exists|j: int| 0 <= j < n && #[trigger] g[j] == c),
    decreases n,
{
    if n > 0 {
        lemma_row_hint_some(cur, g, row, c, n - 1);
        if exists|j: int| 0 <= j < n && #[trigger] g[j] == c {
            let j = choose|j: int| 0 <= j < n && #[trigger] g[j] == c;
            if j < n - 1 {
                assert(exists|j2: int| 0 <= j2 < n - 1 && #[trigger] g[j2] == c);
            }
        }
        if exists|j: int| 0 <= j < n - 1 && #[trigger] g[j] == c {
            let j = choose|j: int| 0 <= j < n - 1 && #[trigger] g[j] == c;
            assert(0 <= j < n && g[j] == c);
        }
    }
}

proof fn lemma_board_hint_some(gs: Seq<Seq<char>>, ss: Seq<Seq<Seq<char>>>, c: char, n: int)
    requires
        0 <= n <= gs.len(),
        n <= ss.len(),
    ensures
        board_hint_upto(gs, ss, c, n) is Some <==> letter_seen(gs, ss, c, n),
    decreases n,
{
    if n > 0 {
        lemma_board_hint_some(gs, ss, c, n - 1);
        let g = gs[n - 1];
        let row = ss[n - 1];
        let pairs = row_pairs(g, row);
        lemma_row_hint_some(board_hint_upto(gs, ss, c, n - 1), g, row, c, pairs);
        if letter_seen(gs, ss, c, n) {
            let (k, j) = choose|k: int, j: int|
                0 <= k < n && k < gs.len() && k < ss.len() && 0 <= j < gs[k].len() && j < ss[k].len() && #[trigger] gs[k][j]
                    == c;
            if k < n - 1 {
                assert(letter_seen(gs, ss, c, n - 1));
            } else {
                assert(0 <= j < pairs && g[j] == c);
            }
        }
        if exists|j: int| 0 <= j < pairs && #[trigger] g[j] == c {
            let j = choose|j: int| 0 <= j < pairs && #[trigger] g[j] == c;
            assert(gs[n - 1][j] == c);
        }
        if letter_seen(gs, ss, c, n - 1) {
            let (k, j) = choose|k: int, j: int|
                0 <= k < n - 1 && k < gs.len() && k < ss.len() && 0 <= j < gs[k].len() && j < ss[k].len()
                    && #[trigger] gs[k][j] == c;
            assert(gs[k][j] == c);
        }
    }
}

/// A letter has a keyboard hint exactly when some guess position (paired
/// with its feedback) holds it.
pub proof fn lemma_hint_exists_iff_letter_guessed(gs: Seq<Seq<char>>, ss: Seq<Seq<Seq<char>>>, c: char)
    ensures
        board_hint(gs, ss, c) is Some <==> letter_seen(
            gs,
            ss,
            c,
            if gs.len() < ss.len() { gs.len() as int } else { ss.len() as int },
        ),
{
    lemma_board_hint_some(gs, ss, c, if gs.len() < ss.len() { gs.len() as int } else { ss.len() as int });
}

/// Some guess position (among the first `n` paired rows) holding `c` got
/// status `v`.
pub open spec fn letter_got(gs: Seq<Seq<char>>, ss: Seq<Seq<Seq<char>>>, c: char, v: Seq<char>, n: int) -> bool {
    exists|k: int, j: int|
        0 <= k < n && k < gs.len() && k < ss.len() && 0 <= j < gs[k].len() && j < ss[k].len() && #[trigger] gs[k][j]
            == c && ss[k][j] == v
}

proof fn lemma_row_hint_from(
    gs: Seq<Seq<char>>,
    ss: Seq<Seq<Seq<char>>>,
    c: char,
    k: int,
    cur: Option<Seq<char>>,
    n: int,
)
    requires
        0 <= k < gs.len(),
        k < ss.len(),
        0 <= n <= row_pairs(gs[k], ss[k]),
        cur matches Some(v) ==> letter_got(gs, ss, c, v, k + 1),
    ensures
        row_hint(cur, gs[k], ss[k], c, n) matches Some(v) ==> letter_got(gs, ss, c, v, k + 1),
    decreases n,
{
    if n > 0 {
        lemma_row_hint_from(gs, ss, c, k, cur, n - 1);
        let j = n - 1;
        if gs[k][j] == c {
            assert(gs[k][j] == c && ss[k][j] == ss[k][j]);
            assert(letter_got(gs, ss, c, ss[k][j], k + 1));
        }
    }
}

proof fn lemma_letter_got_grows(gs: Seq<Seq<char>>, ss: Seq<Seq<Seq<char>>>, c: char, v: Seq<char>, n: int, n2: int)
    requires
        n <= n2,
        letter_got(gs, ss, c, v, n),
    ensures
        letter_got(gs, ss, c, v, n2),
{
    let (k, j) = choose|k: int, j: int|
        0 <= k < n && k < gs.len() && k < ss.len() && 0 <= j < gs[k].len() && j < ss[k].len() && #[trigger] gs[k][j]
            == c && ss[k][j] == v;
    assert(gs[k][j] == c);
}

proof fn lemma_board_hint_from(gs: Seq<Seq<char>>, ss: Seq<Seq<Seq<char>>>, c: char, n: int)
    requires
        0 <= n <= gs.len(),
        n <= ss.len(),
    ensures
        board_hint_upto(gs, ss, c, n) matches Some(v) ==> letter_got(gs, ss, c, v, n),
    decreases n,
{
    if n > 0 {
        lemma_board_hint_from(gs, ss, c, n - 1);
        let prev = board_hint_upto(gs, ss, c, n - 1);
        if let Some(v) = prev {
            lemma_letter_got_grows(gs, ss, c, v, n - 1, n);
        }
        lemma_row_hint_from(gs, ss, c, n - 1, prev, row_pairs(gs[n - 1], ss[n - 1]));
    }
}

/// A keyboard hint is always a status the letter actually got: when the
/// hint for `c` is `v`, some guess position holding `c` (paired with its
/// feedback) has status `v`.
pub proof fn lemma_hint_is_a_status_seen(gs: Seq<Seq<char>>, ss: Seq<Seq<Seq<char>>>, c: char)
    ensures
        board_hint(gs, ss, c) matches Some(v) ==> letter_got(
            gs,
            ss,
            c,
            v,
            if gs.len() < ss.len() { gs.len() as int } else { ss.len() as int },
        ),
{
    lemma_board_hint_from(gs, ss, c, if gs.len() < ss.len() { gs.len() as int } else { ss.len() as int });
}

/// The text of an optional string.
pub open spec fn opt_view(o: Option<String>) -> Option<Seq<char>> {
    match o {
        Some(x) => Some(x@),
        None => None,
    }
}

fn named(s: &String, name: &str) -> (r: bool)
    ensures
        r == (s@ == name@),
{
    *s == crate::text::string_of(name)
}

fn fold_hint(cur: Option<String>, s: &String) -> (r: Option<String>)
    ensures
        opt_view(r) == hint_step(opt_view(cur), s@),
{
    match cur {
        None => Some(s.clone()),
        Some(v) => {
            let correct = named(s, "correct");
            let present = named(s, "present");
            let absent = named(s, "absent");
            let v_correct = named(&v, "correct");
            let v_present = named(&v, "present");
            if correct || (present && !v_correct) || (absent && !v_correct && !v_present) {
                Some(s.clone())
            } else {
                Some(v)
            }
        },
    }
}

/// The best status revealed so far for a letter (see [`board_hint`]).
pub fn letter_hint(guesses: &Vec<String>, statuses: &Vec<Vec<String>>, c: char) -> (r: Option<String>)
    ensures
        opt_view(r) == board_hint(guesses.deep_view(), statuses.deep_view(), c),
{
    let ghost gs = guesses.deep_view();
    let ghost ss = statuses.deep_view();
    let n = if guesses.len() < statuses.len() {
        guesses.len()
    } else {
        statuses.len()
    };
    let mut cur: Option<String> = None;
    let mut k: usize = 0;
    while k < n
        invariant
            gs == guesses.deep_view(),
            ss == statuses.deep_view(),
            n as int == (if gs.len() < ss.len() { gs.len() as int } else { ss.len() as int }),
            k <= n,
            opt_view(cur) == board_hint_upto(gs, ss, c, k as int),
        decreases n - k,
    {
        let g = chars_of(guesses[k].as_str());
        let row = &statuses[k];
        let m = if g.len() < row.len() {
            g.len()
        } else {
            row.len()
        };
        let ghost start = opt_view(cur);
        let mut j: usize = 0;
        while j < m
            invariant
                gs == guesses.deep_view(),
                ss == statuses.deep_view(),
                k < n,
                n as int == (if gs.len() < ss.len() { gs.len() as int } else { ss.len() as int }),
                g@ == gs[k as int],
                row.deep_view() == ss[k as int],
                m as int == row_pairs(gs[k as int], ss[k as int]),
                j <= m,
                opt_view(cur) == row_hint(start, gs[k as int], ss[k as int], c, j as int),
            decreases m - j,
        {
            if g[j] == c {
                cur = fold_hint(cur, &row[j]);
            }
            j = j + 1;
        }
        k = k + 1;
    }
    cur
}

/// Points a played row earns for letter `i` on: 2 for each `correct`
/// letter the keyboard did not show as correct yet, 1 for each `present`
/// letter the keyboard showed as neither correct nor present.
pub open spec fn turn_points_from(
    pattern: Seq<Seq<char>>,
    input: Seq<char>,
    gs: Seq<Seq<char>>,
    ss: Seq<Seq<Seq<char>>>,
    i: int,
) -> int
    decreases pattern.len() - i,
{
    if i < 0 || i >= pattern.len() {
        0
    } else {
        let c = if i < input.len() { input[i] } else { ' ' };
        let e = board_hint(gs, ss, c);
        let here = if pattern[i] == "correct"@ && e != Some("correct"@) {
            2int
        } else if pattern[i] == "present"@ && e != Some("correct"@) && e != Some("present"@) {
            1int
        } else {
            0int
        };
        here + turn_points_from(pattern, input, gs, ss, i + 1)
    }
}

proof fn lemma_turn_points_bound(
    pattern: Seq<Seq<char>>,
    input: Seq<char>,
    gs: Seq<Seq<char>>,
    ss: Seq<Seq<Seq<char>>>,
    i: int,
)
    requires
        0 <= i <= pattern.len(),
    ensures
        0 <= turn_points_from(pattern, input, gs, ss, i) <= 2 * (pattern.len() - i),
    decreases pattern.len() - i,
{
    if i < pattern.len() {
        lemma_turn_points_bound(pattern, input, gs, ss, i + 1);
    }
}

/// The row's positions below `n` with status `name`.
pub open spec fn status_count(pattern: Seq<Seq<char>>, name: Seq<char>, n: int) -> nat {
    crate::status::count_below(n, status_is(pattern, name))
}

/// Position `i` of the row has status `name`.
pub open spec fn status_is(pattern: Seq<Seq<char>>, name: Seq<char>) -> spec_fn(int) -> bool {
    |i: int| pattern[i] == name
}

proof fn lemma_fresh_points_from(pattern: Seq<Seq<char>>, input: Seq<char>, i: int)
    requires
        0 <= i <= pattern.len(),
    ensures
        turn_points_from(pattern, input, Seq::empty(), Seq::empty(), i) == 2 * (status_count(
            pattern,
            "correct"@,
            pattern.len() as int,
        ) - status_count(pattern, "correct"@, i)) + (status_count(pattern, "present"@, pattern.len() as int)
            - status_count(pattern, "present"@, i)),
    decreases pattern.len() - i,
{
    reveal_strlit("correct");
    reveal_strlit("present");
    assert("correct"@[0] != "present"@[0]);
    if i < pattern.len() {
        lemma_fresh_points_from(pattern, input, i + 1);
        let c = if i < input.len() { input[i] } else { ' ' };
        assert(board_hint(Seq::<Seq<char>>::empty(), Seq::<Seq<Seq<char>>>::empty(), c) is None);
        assert(status_count(pattern, "correct"@, i + 1) == status_count(pattern, "correct"@, i) + if pattern[i]
            == "correct"@ {
            1nat
        } else {
            0nat
        });
        assert(status_count(pattern, "present"@, i + 1) == status_count(pattern, "present"@, i) + if pattern[i]
            == "present"@ {
            1nat
        } else {
            0nat
        });
    }
}

/// On a board with no guesses yet, a row earns 2 points per `correct`
/// status and 1 per `present` status.
pub proof fn lemma_first_row_points(pattern: Seq<Seq<char>>, input: Seq<char>)
    ensures
        turn_points_from(pattern, input, Seq::empty(), Seq::empty(), 0) == 2 * status_count(
            pattern,
            "correct"@,
            pattern.len() as int,
        ) + status_count(pattern, "present"@, pattern.len() as int),
{
    lemma_fresh_points_from(pattern, input, 0);
}

proof fn lemma_replay_points_from(
    pattern: Seq<Seq<char>>,
    input: Seq<char>,
    gs: Seq<Seq<char>>,
    ss: Seq<Seq<Seq<char>>>,
    k: int,
    i: int,
)
    requires
        0 <= k < gs.len(),
        k < ss.len(),
        gs[k] == input,
        ss[k] == pattern,
        pattern.len() <= input.len(),
        0 <= i <= pattern.len(),
    ensures
        turn_points_from(pattern, input, gs, ss, i) == 0,
    decreases pattern.len() - i,
{
    if i < pattern.len() {
        lemma_replay_points_from(pattern, input, gs, ss, k, i + 1);
        if pattern[i] == "correct"@ || pattern[i] == "present"@ {
            lemma_hint_shows_revealed_letter(gs, ss, input[i], k, i);
        }
    }
}

/// Replaying a row the board already shows earns nothing: a guess whose
/// letters and feedback repeat an earlier row scores 0 points.
pub proof fn lemma_replayed_row_earns_nothing(
    pattern: Seq<Seq<char>>,
    input: Seq<char>,
    gs: Seq<Seq<char>>,
    ss: Seq<Seq<Seq<char>>>,
    k: int,
)
    requires
        0 <= k < gs.len(),
        k < ss.len(),
        gs[k] == input,
        ss[k] == pattern,
        pattern.len() <= input.len(),
    ensures
        turn_points_from(pattern, input, gs, ss, 0) == 0,
{
    lemma_replay_points_from(pattern, input, gs, ss, k, 0);
}

/// Points a played row earns (see [`turn_points_from`]).
pub fn turn_points(
    pattern: &Vec<String>,
    input: &String,
    guesses: &Vec<String>,
    statuses: &Vec<Vec<String>>,
) -> (r: i32)
    requires
        pattern.len() <= 5,
    ensures
        r as int == turn_points_from(pattern.deep_view(), input@, guesses.deep_view(), statuses.deep_view(), 0),
        0 <= r <= 10,
{
    let ghost pv = pattern.deep_view();
    let ghost gs = guesses.deep_view();
    let ghost ss = statuses.deep_view();
    let chars = chars_of(input.as_str());
    let mut total: i32 = 0;
    let mut i: usize = pattern.len();
    proof {
        lemma_turn_points_bound(pv, input@, gs, ss, 0);
    }
    while i > 0
        invariant
            pv == pattern.deep_view(),
            gs == guesses.deep_view(),
            ss == statuses.deep_view(),
            chars@ == input@,
            pattern.len() <= 5,
            i <= pattern.len(),
            total as int == turn_points_from(pv, input@, gs, ss, i as int),
            0 <= total <= 2 * (pattern.len() - i),
        decreases i,
    {
        i = i - 1;
        let c = if i < chars.len() {
            chars[i]
        } else {
            ' '
        };
        let e = letter_hint(guesses, statuses, c);
        let e_correct = match &e {
            Some(x) => named(x, "correct"),
            None => false,
        };
        let e_present = match &e {
            Some(x) => named(x, "present"),
            None => false,
        };
        proof {
            reveal_strlit("correct");
            reveal_strlit("present");
            assert("correct"@[0] != "present"@[0]);
            assert("correct"@ != "present"@);
        }
        if named(&pattern[i], "correct") && !e_correct {
            total = total + 2;
        } else if named(&pattern[i], "present") && !e_correct && !e_present {
            total = total + 1;
        }
    }
    total
}


/// A player's own record, kept in the browser.
pub struct GameStats {
    pub total_games: u32,
    pub wins: u32,
    pub current_streak: u32,
    pub best_streak: u32,
    /// Wins by number of guesses (1 to 6).
    pub distribution: [u32; 6],
    /// Words already rewarded with a win bonus (each at most once).
    pub scored_words: Vec<String>,
}

/// The mathematical content of [`GameStats`].
pub struct StatsView {
    pub total_games: nat,
    pub wins: nat,
    pub current_streak: nat,
    pub best_streak: nat,
    pub distribution: Seq<nat>,
    pub scored_words: Seq<Seq<char>>,
}

impl View for GameStats {
    type V = StatsView;

    open spec fn view(&self) -> StatsView {
        StatsView {
            total_games: self.total_games as nat,
            wins: self.wins as nat,
            current_streak: self.current_streak as nat,
            best_streak: self.best_streak as nat,
            distribution: self.distribution@.map_values(|x: u32| x as nat),
            scored_words: self.scored_words.deep_view(),
        }
    }
}

impl GameStats {
    /// A record with nothing played yet.
    pub fn new() -> (r: GameStats)
        ensures
            r@.total_games == 0,
            r@.wins == 0,
            r@.current_streak == 0,
            r@.best_streak == 0,
            r@.distribution == seq![0nat, 0nat, 0nat, 0nat, 0nat, 0nat],
            r@.scored_words == Seq::<Seq<char>>::empty(),
    {
        let r = GameStats {
            total_games: 0,
            wins: 0,
            current_streak: 0,
            best_streak: 0,
            distribution: [0, 0, 0, 0, 0, 0],
            scored_words: Vec::new(),
        };
        proof {
            assert(r@.distribution =~= seq![0nat, 0nat, 0nat, 0nat, 0nat, 0nat]);
            assert(r@.scored_words =~= Seq::<Seq<char>>::empty());
        }
        r
    }
}

/// The state of a game session.
pub struct GameState {
    pub guesses: Vec<String>,
    /// The feedback row of each guess.
    pub statuses: Vec<Vec<String>>,
    pub current_input: String,
    pub game_won: bool,
    pub game_lost: bool,
    pub hard_mode: bool,
    pub is_ng_plus: bool,
    /// The words the New Game+ opponent still considers.
    pub ai_pool: Vec<String>,
    pub daily_game_done: bool,
    pub session_points: i32,
    /// The team the session's points were first credited to.
    pub point_locked_team: Option<String>,
    /// The team the player plays for.
    pub theme: String,
    pub stats: GameStats,
}

/// The mathematical content of [`GameState`].
pub struct GameView {
    pub guesses: Seq<Seq<char>>,
    pub statuses: Seq<Seq<Seq<char>>>,
    pub current_input: Seq<char>,
    pub game_won: bool,
    pub game_lost: bool,
    pub hard_mode: bool,
    pub is_ng_plus: bool,
    pub ai_pool: Seq<Seq<char>>,
    pub daily_game_done: bool,
    pub session_points: int,
    pub point_locked_team: Option<Seq<char>>,
    pub theme: Seq<char>,
    pub stats: StatsView,
}

impl View for GameState {
    type V = GameView;

    open spec fn view(&self) -> GameView {
        GameView {
            guesses: self.guesses.deep_view(),
            statuses: self.statuses.deep_view(),
            current_input: self.current_input@,
            game_won: self.game_won,
            game_lost: self.game_lost,
            hard_mode: self.hard_mode,
            is_ng_plus: self.is_ng_plus,
            ai_pool: self.ai_pool.deep_view(),
            daily_game_done: self.daily_game_done,
            session_points: self.session_points as int,
            point_locked_team: opt_view(self.point_locked_team),
            theme: self.theme@,
            stats: self.stats@,
        }
    }
}

/// Every status of a row is `correct`.
pub open spec fn all_correct(row: Seq<Seq<char>>) -> bool {
    forall|i: int| 0 <= i < row.len() ==> #[trigger] row[i] == "correct"@
}

/// The invariant of a game session: each guess has a feedback row of five
/// statuses, at most six guesses are made, a game is won exactly when its
/// last row is all correct and lost when the sixth row is not, and an
/// unfinished game has fewer than six guesses; no word is rewarded twice.
pub open spec fn well_formed(m: GameView) -> bool {
    &&& m.guesses.len() == m.statuses.len()
    &&& m.guesses.len() <= 6
    &&& forall|i: int| 0 <= i < m.statuses.len() ==> (#[trigger] m.statuses[i]).len() == 5
    &&& !(m.game_won && m.game_lost)
    &&& (m.game_won ==> m.statuses.len() > 0 && all_correct(m.statuses.last()))
    &&& (m.game_lost ==> m.statuses.len() == 6 && !all_correct(m.statuses.last()))
    &&& (!m.game_won && !m.game_lost ==> m.guesses.len() < 6 && forall|i: int|
        0 <= i < m.statuses.len() ==> !all_correct(#[trigger] m.statuses[i]))
    &&& m.stats.wins <= m.stats.total_games
    &&& m.stats.current_streak <= m.stats.best_streak
    &&& m.stats.scored_words.no_duplicates()
}

/// Counters have room for one more game.
pub open spec fn counters_have_room(m: GameView) -> bool {
    &&& m.stats.total_games < u32::MAX
    &&& m.stats.wins < u32::MAX
    &&& m.stats.current_streak < u32::MAX
    &&& forall|i: int| 0 <= i < 6 ==> #[trigger] m.stats.distribution[i] < u32::MAX
    &&& i32::MIN < m.session_points <= i32::MAX - 15
}

/// The result of one scored guess.
pub struct Turn {
    /// Points to credit to the player's team, in order.
    pub posts: Vec<i32>,
    pub won: bool,
    pub lost: bool,
    /// The comment to show.
    pub comment: String,
}

/// What a key press leads to.
pub enum KeyOutcome {
    /// Nothing happens.
    Ignored,
    /// Enter after the daily game: New Game+ is to start.
    StartNewGamePlus,
    /// A letter after the game ended: the statistics are to be shown.
    OpenStats,
    /// Enter with fewer than five letters: the row shakes.
    TooShort,
    /// Enter on a word outside the lists: this comment, and the row shakes.
    NotAWord(String),
    /// Enter on a guess that breaks a hard-mode hint: this comment, and the row shakes.
    BreaksHardMode(String),
    /// The New Game+ opponent had no word left to answer with.
    NoFeedback,
    /// The guess was scored.
    Played(Turn),
    /// Delete: the letter at this byte index starts to vanish; [`finish_delete`] removes it.
    Deleting(usize),
    /// Typed text was appended at this byte index; the key shown pulsing.
    Typed(usize, char),
}

/// The mathematical content of [`KeyOutcome`].
pub enum OutcomeView {
    Ignored,
    StartNewGamePlus,
    OpenStats,
    TooShort,
    NotAWord(Seq<char>),
    BreaksHardMode(Seq<char>),
    NoFeedback,
    Played { posts: Seq<int>, won: bool, lost: bool, comment: Seq<char> },
    Deleting(nat),
    Typed(nat, char),
}

impl View for KeyOutcome {
    type V = OutcomeView;

    open spec fn view(&self) -> OutcomeView {
        match self {
            KeyOutcome::Ignored => OutcomeView::Ignored,
            KeyOutcome::StartNewGamePlus => OutcomeView::StartNewGamePlus,
            KeyOutcome::OpenStats => OutcomeView::OpenStats,
            KeyOutcome::TooShort => OutcomeView::TooShort,
            KeyOutcome::NotAWord(c) => OutcomeView::NotAWord(c@),
            KeyOutcome::BreaksHardMode(c) => OutcomeView::BreaksHardMode(c@),
            KeyOutcome::NoFeedback => OutcomeView::NoFeedback,
            KeyOutcome::Played(t) => OutcomeView::Played {
                posts: t.posts@.map_values(|p: i32| p as int),
                won: t.won,
                lost: t.lost,
                comment: t.comment@,
            },
            KeyOutcome::Deleting(i) => OutcomeView::Deleting(*i as nat),
            KeyOutcome::Typed(i, c) => OutcomeView::Typed(*i as nat, *c),
        }
    }
}

/// An ASCII letter.
pub open spec fn ascii_letter(c: char) -> bool {
    (65 <= (c as int) <= 90) || (97 <= (c as int) <= 122)
}

/// Scoring a played row: points, win bonus, statistics and the comment.
pub open spec fn play_row(
    m: GameView,
    input: Seq<char>,
    pattern: Seq<Seq<char>>,
    sol: Seq<char>,
    roll: u32,
) -> (GameView, OutcomeView) {
    let turn = turn_points_from(pattern, input, m.guesses, m.statuses, 0);
    let guesses = m.guesses.push(input);
    let statuses = m.statuses.push(pattern);
    let n = guesses.len() as int;
    let is_win = all_correct(pattern);
    let is_loss = n >= 6 && !is_win;
    let base = comment_for(is_win, is_loss, m.hard_mode, m.is_ng_plus, m.theme, roll);
    let final_word = if m.is_ng_plus && m.ai_pool.len() > 0 {
        m.ai_pool[0]
    } else {
        sol
    };
    let fresh = !m.stats.scored_words.contains(final_word);
    let bonus: int = if is_win && fresh {
        if m.is_ng_plus {
            5
        } else if m.hard_mode {
            2
        } else {
            1
        }
    } else {
        0
    };
    let posts = (if turn > 0 { seq![turn] } else { Seq::empty() }) + (if bonus > 0 {
        seq![bonus]
    } else {
        Seq::empty()
    }) + (if is_loss { seq![-1int] } else { Seq::empty() });
    let comment = if is_win {
        if turn + bonus > 0 {
            base + " (+"@ + decimal((turn + bonus) as nat) + " PTS)"@
        } else {
            base
        }
    } else if is_loss {
        base + " THE WORD WAS "@ + final_word + ". (-1 PTS)"@
    } else if turn > 0 {
        base + " (+"@ + decimal(turn as nat) + " PTS)"@
    } else {
        base
    };
    let st = m.stats;
    let stats = if is_win {
        StatsView {
            total_games: st.total_games + 1,
            wins: st.wins + 1,
            current_streak: st.current_streak + 1,
            best_streak: if st.current_streak + 1 > st.best_streak {
                st.current_streak + 1
            } else {
                st.best_streak
            },
            distribution: st.distribution.update(n - 1, st.distribution[n - 1] + 1),
            scored_words: if fresh {
                st.scored_words.push(final_word)
            } else {
                st.scored_words
            },
        }
    } else if is_loss {
        StatsView { total_games: st.total_games + 1, current_streak: 0, ..st }
    } else {
        st
    };
    (
        GameView {
            guesses,
            statuses,
            current_input: Seq::empty(),
            game_won: m.game_won || is_win,
            game_lost: m.game_lost || is_loss,
            daily_game_done: m.daily_game_done || ((is_win || is_loss) && !m.is_ng_plus),
            session_points: m.session_points + turn + bonus - (if is_loss { 1int } else { 0int }),
            stats,
            ..m
        },
        OutcomeView::Played { posts, won: is_win, lost: is_loss, comment },
    )
}

/// Enter: the typed word, upper-cased, is checked and, when accepted, scored
/// against the solution (or, in New Game+, answered by the opponent).
pub open spec fn enter_step(
    m: GameView,
    words: Seq<Seq<char>>,
    valid_guesses: Seq<Seq<char>>,
    solution: Seq<char>,
    roll: u32,
) -> (GameView, OutcomeView) {
    let input = unicode_uppercase(m.current_input);
    let sol = unicode_uppercase(solution);
    let team = team_named(m.theme);
    let complaint = hard_mode_message(input, m.guesses, m.statuses, 0);
    if byte_len(input) < 5 {
        (m, OutcomeView::TooShort)
    } else if !(words.contains(unicode_lowercase(input)) || valid_guesses.contains(unicode_lowercase(input))) {
        (m, OutcomeView::NotAWord(picked(not_a_word_lines(team), roll)))
    } else if (m.hard_mode || m.is_ng_plus) && complaint.len() > 0 {
        (m, OutcomeView::BreaksHardMode(picked(hard_mode_rejected_lines(team), roll) + " "@ + complaint))
    } else {
        let m1 = GameView {
            point_locked_team: if m.point_locked_team is None {
                Some(m.theme)
            } else {
                m.point_locked_team
            },
            ..m
        };
        if m.is_ng_plus {
            match opponent_move(input, m.ai_pool) {
                None => (m1, OutcomeView::NoFeedback),
                Some((pattern, pool)) => play_row(GameView { ai_pool: pool, ..m1 }, input, pattern, sol, roll),
            }
        } else {
            play_row(m1, input, Seq::new(5, |i: int| status_name(status_at(sol, input, i))), sol, roll)
        }
    }
}

/// The effect of a key press (`"ENTER"`, `"DELETE"` or typed text) on a
/// session, as the game's keyboard handler defines it.
pub open spec fn key_step(
    m: GameView,
    key: Seq<char>,
    words: Seq<Seq<char>>,
    valid_guesses: Seq<Seq<char>>,
    solution: Seq<char>,
    roll: u32,
) -> (GameView, OutcomeView) {
    let typed_len = byte_len(m.current_input);
    if m.game_won || m.game_lost {
        if m.daily_game_done && key == "ENTER"@ {
            (m, OutcomeView::StartNewGamePlus)
        } else if m.daily_game_done && byte_len(key) == 1 && ascii_letter(key[0]) {
            (m, OutcomeView::OpenStats)
        } else {
            (m, OutcomeView::Ignored)
        }
    } else if key == "ENTER"@ {
        enter_step(m, words, valid_guesses, solution, roll)
    } else if key == "DELETE"@ {
        if typed_len > 0 {
            (m, OutcomeView::Deleting((typed_len - 1) as nat))
        } else {
            (m, OutcomeView::Ignored)
        }
    } else if typed_len < 5 {
        let k = unicode_uppercase(key);
        (GameView { current_input: m.current_input + k, ..m }, OutcomeView::Typed(typed_len as nat, k[0]))
    } else {
        (m, OutcomeView::Ignored)
    }
}


fn contains_word(list: &Vec<String>, w: &String) -> (r: bool)
    ensures
        r == list.deep_view().contains(w@),
{
    let ghost d = list.deep_view();
    let mut i: usize = 0;
    while i < list.len()
        invariant
            d == list.deep_view(),
            i <= list.len(),
            forall|k: int| 0 <= k < i ==> d[k] != w@,
        decreases list.len() - i,
    {
        if list[i] == *w {
            proof {
                assert(d[i as int] == w@);
            }
            return true;
        }
        i = i + 1;
    }
    false
}

fn row_all_correct(row: &Vec<String>) -> (r: bool)
    ensures
        r == all_correct(row.deep_view()),
{
    let ghost d = row.deep_view();
    let mut i: usize = 0;
    while i < row.len()
        invariant
            d == row.deep_view(),
            i <= row.len(),
            forall|k: int| 0 <= k < i ==> #[trigger] d[k] == "correct"@,
        decreases row.len() - i,
    {
        if !named(&row[i], "correct") {
            proof {
                assert(d[i as int] != "correct"@);
            }
            return false;
        }
        i = i + 1;
    }
    true
}

/// Appends `" (+n PTS)"`.
fn push_points(s: &mut String, n: i32)
    requires
        n > 0,
    ensures
        final(s)@ == old(s)@ + " (+"@ + decimal(n as nat) + " PTS)"@,
{
    push_text(s, " (+");
    let d = decimal_text(n as u64);
    push_text(s, d.as_str());
    push_text(s, " PTS)");
}

#[verifier::rlimit(40)]
fn play(state: &mut GameState, input: String, pattern: Vec<String>, sol: String, roll: u32) -> (outcome: KeyOutcome)
    requires
        pattern.len() == 5,
        old(state).guesses.len() < 6,
        counters_have_room(old(state)@),
    ensures
        (final(state)@, outcome@) == play_row(old(state)@, input@, pattern.deep_view(), sol@, roll),
{
    let ghost m = state@;
    let turn = turn_points(&pattern, &input, &state.guesses, &state.statuses);
    let mut posts: Vec<i32> = Vec::new();
    if turn > 0 {
        state.session_points = state.session_points + turn;
        posts.push(turn);
    }
    let is_win = row_all_correct(&pattern);
    state.guesses.push(input.clone());
    state.statuses.push(pattern);
    state.current_input = String::new();
    let n = state.guesses.len();
    let is_loss = n >= 6 && !is_win;
    let mut comment = get_80s_comment(n, is_win, is_loss, state.hard_mode, state.is_ng_plus, state.theme.as_str(), roll);
    let final_word = if state.is_ng_plus && state.ai_pool.len() > 0 {
        state.ai_pool[0].clone()
    } else {
        sol.clone()
    };
    if is_win {
        state.game_won = true;
        if !state.is_ng_plus {
            state.daily_game_done = true;
        }
        let mut bonus: i32 = 0;
        if !contains_word(&state.stats.scored_words, &final_word) {
            bonus = if state.is_ng_plus {
                5
            } else if state.hard_mode {
                2
            } else {
                1
            };
            state.session_points = state.session_points + bonus;
            state.stats.scored_words.push(final_word);
            posts.push(bonus);
        }
        if turn + bonus > 0 {
            push_points(&mut comment, turn + bonus);
        }
        state.stats.total_games = state.stats.total_games + 1;
        state.stats.wins = state.stats.wins + 1;
        state.stats.current_streak = state.stats.current_streak + 1;
        if state.stats.current_streak > state.stats.best_streak {
            state.stats.best_streak = state.stats.current_streak;
        }
        let d = state.stats.distribution[n - 1];
        state.stats.distribution[n - 1] = d + 1;
    } else if is_loss {
        state.game_lost = true;
        if !state.is_ng_plus {
            state.daily_game_done = true;
        }
        state.session_points = state.session_points - 1;
        posts.push(-1);
        push_text(&mut comment, " THE WORD WAS ");
        push_text(&mut comment, final_word.as_str());
        push_text(&mut comment, ". (-1 PTS)");
        state.stats.total_games = state.stats.total_games + 1;
        state.stats.current_streak = 0;
    } else if turn > 0 {
        push_points(&mut comment, turn);
    }
    let outcome = KeyOutcome::Played(Turn { posts, won: is_win, lost: is_loss, comment });
    proof {
        let (m2, o2) = play_row(m, input@, pattern.deep_view(), sol@, roll);
        assert(state@.guesses =~= m2.guesses);
        assert(state@.statuses =~= m2.statuses);
        assert(state@.stats.distribution =~= m2.stats.distribution);
        assert(state@.stats.scored_words =~= m2.stats.scored_words);
        assert(state@.stats == m2.stats);
        assert(state@ == m2);
        if let OutcomeView::Played { posts: p2, won: w2, lost: l2, comment: c2 } = o2 {
            if let KeyOutcome::Played(t) = &outcome {
                assert(t.posts@.map_values(|p: i32| p as int) =~= p2);
                assert(t.comment@ == c2);
                assert(t.won == w2);
                assert(t.lost == l2);
            }
        }
        assert(outcome@ == o2);
    }
    outcome
}


fn status_names(st: &Vec<crate::status::LetterStatus>) -> (r: Vec<String>)
    requires
        st.len() == 5,
    ensures
        r.deep_view() == Seq::new(5, |i: int| status_name(st@[i])),
{
    let mut r: Vec<String> = Vec::new();
    let mut i: usize = 0;
    while i < 5
        invariant
            st.len() == 5,
            i <= 5,
            r.len() == i,
            forall|k: int| 0 <= k < i ==> #[trigger] r@[k]@ == status_name(st@[k]),
        decreases 5 - i,
    {
        r.push(status_string(st[i]));
        i = i + 1;
    }
    proof {
        assert(r.deep_view() =~= Seq::new(5, |i: int| status_name(st@[i])));
    }
    r
}

fn enter(state: &mut GameState, words: &WordList, solution: &str, roll: u32) -> (outcome: KeyOutcome)
    requires
        old(state).guesses.len() < 6,
        counters_have_room(old(state)@),
    ensures
        (final(state)@, outcome@) == enter_step(
            old(state)@,
            words.words.deep_view(),
            words.valid_guesses.deep_view(),
            solution@,
            roll,
        ),
{
    let ghost m = state@;
    let input = to_upper(state.current_input.as_str());
    let sol = to_upper(solution);
    let team = team_of(state.theme.as_str());
    if input.as_str().len() < 5 {
        return KeyOutcome::TooShort;
    }
    if !is_word_in_list(words, input.as_str()) {
        return KeyOutcome::NotAWord(pick_line(&not_a_word_options(team), roll));
    }
    if state.hard_mode || state.is_ng_plus {
        let err = hard_mode_complaint(input.as_str(), &state.guesses, &state.statuses);
        if !err.as_str().is_empty() {
            let mut msg = pick_line(&hard_mode_rejected_options(team), roll);
            push_text(&mut msg, " ");
            push_text(&mut msg, err.as_str());
            return KeyOutcome::BreaksHardMode(msg);
        }
    }
    if state.point_locked_team.is_none() {
        state.point_locked_team = Some(state.theme.clone());
    }
    if state.is_ng_plus {
        match opponent_step(input.as_str(), &state.ai_pool) {
            None => KeyOutcome::NoFeedback,
            Some(res) => {
                proof {
                    assert(res.pattern.deep_view().len() == res.pattern.len());
                }
                state.ai_pool = res.new_pool;
                play(state, input, res.pattern, sol, roll)
            },
        }
    } else {
        let sc = chars_of(sol.as_str());
        let gc = chars_of(input.as_str());
        let st = evaluate_chars(&sc, &gc);
        let pattern = status_names(&st);
        proof {
            assert(pattern.deep_view() =~= Seq::new(5, |i: int| status_name(status_at(sol@, input@, i))));
        }
        play(state, input, pattern, sol, roll)
    }
}

fn same_text(a: &str, b: &str) -> (r: bool)
    ensures
        r == (a@ == b@),
{
    string_of(a) == string_of(b)
}

proof fn lemma_play_row_keeps_well_formed(m: GameView, input: Seq<char>, pattern: Seq<Seq<char>>, sol: Seq<char>, roll: u32)
    requires
        well_formed(m),
        !m.game_won && !m.game_lost,
        pattern.len() == 5,
    ensures
        well_formed(play_row(m, input, pattern, sol, roll).0),
{
    let m2 = play_row(m, input, pattern, sol, roll).0;
    assert(m2.statuses.last() == pattern);
    assert forall|i: int| 0 <= i < m2.statuses.len() implies (#[trigger] m2.statuses[i]).len() == 5 by {
        if i < m.statuses.len() {
            assert(m2.statuses[i] == m.statuses[i]);
        }
    }
    if !m2.game_won && !m2.game_lost {
        assert forall|i: int| 0 <= i < m2.statuses.len() implies !all_correct(#[trigger] m2.statuses[i]) by {
            if i < m.statuses.len() {
                assert(m2.statuses[i] == m.statuses[i]);
            }
        }
    }
}

/// Every key press keeps a session well-formed (see [`well_formed`]).
pub proof fn lemma_key_step_keeps_well_formed(
    m: GameView,
    key: Seq<char>,
    words: Seq<Seq<char>>,
    valid_guesses: Seq<Seq<char>>,
    solution: Seq<char>,
    roll: u32,
)
    requires
        well_formed(m),
    ensures
        well_formed(key_step(m, key, words, valid_guesses, solution, roll).0),
{
    if !m.game_won && !m.game_lost && key == "ENTER"@ {
        let input = unicode_uppercase(m.current_input);
        let sol = unicode_uppercase(solution);
        let m1 = GameView {
            point_locked_team: if m.point_locked_team is None {
                Some(m.theme)
            } else {
                m.point_locked_team
            },
            ..m
        };
        if m.is_ng_plus {
            match opponent_move(input, m.ai_pool) {
                None => {},
                Some((pattern, pool)) => {
                    lemma_play_row_keeps_well_formed(GameView { ai_pool: pool, ..m1 }, input, pattern, sol, roll);
                },
            }
        } else {
            lemma_play_row_keeps_well_formed(
                m1,
                input,
                Seq::new(5, |i: int| status_name(status_at(sol, input, i))),
                sol,
                roll,
            );
        }
    }
}

/// The sum of a list of point changes.
pub open spec fn points_total(posts: Seq<int>) -> int
    decreases posts.len(),
{
    if posts.len() == 0 {
        0
    } else {
        points_total(posts.drop_last()) + posts.last()
    }
}

proof fn lemma_total_concat(a: Seq<int>, b: Seq<int>)
    ensures
        points_total(a + b) == points_total(a) + points_total(b),
    decreases b.len(),
{
    if b.len() == 0 {
        assert(a + b =~= a);
    } else {
        lemma_total_concat(a, b.drop_last());
        assert((a + b).drop_last() =~= a + b.drop_last());
    }
}

proof fn lemma_total_one(x: int)
    ensures
        points_total(seq![x]) == x,
{
    let s = seq![x];
    assert(s.drop_last() =~= Seq::<int>::empty());
    assert(s.last() == x);
    assert(points_total(s.drop_last()) == 0);
}

proof fn lemma_play_row_posts(m: GameView, input: Seq<char>, pattern: Seq<Seq<char>>, sol: Seq<char>, roll: u32)
    ensures
        play_row(m, input, pattern, sol, roll).1 matches OutcomeView::Played { posts, .. }
            && points_total(posts) == play_row(m, input, pattern, sol, roll).0.session_points - m.session_points,
{
    let turn = turn_points_from(pattern, input, m.guesses, m.statuses, 0);
    let n = m.guesses.len() + 1;
    let is_win = all_correct(pattern);
    let is_loss = n >= 6 && !is_win;
    let final_word = if m.is_ng_plus && m.ai_pool.len() > 0 {
        m.ai_pool[0]
    } else {
        sol
    };
    let fresh = !m.stats.scored_words.contains(final_word);
    let bonus: int = if is_win && fresh {
        if m.is_ng_plus {
            5
        } else if m.hard_mode {
            2
        } else {
            1
        }
    } else {
        0
    };
    let a: Seq<int> = if turn > 0 { seq![turn] } else { Seq::empty() };
    let b: Seq<int> = if bonus > 0 { seq![bonus] } else { Seq::empty() };
    let c: Seq<int> = if is_loss { seq![-1int] } else { Seq::empty() };
    lemma_total_concat(a, b);
    lemma_total_concat(a + b, c);
    lemma_total_one(turn);
    lemma_total_one(bonus);
    lemma_total_one(-1);
    assert(points_total(a) == (if turn > 0 { turn } else { 0 }));
    assert(points_total(b) == bonus);
    assert(points_total(c) == (if is_loss { -1int } else { 0 }));
    lemma_turn_points_bound(pattern, input, m.guesses, m.statuses, 0);
}

/// How a key press moves the player's record: a lost game counts one more
/// game and breaks the streak (back to 0); a won game counts one more game
/// and win, extends the streak by one and raises the best streak to it if
/// needed; every other press leaves the record as it was.
pub proof fn lemma_key_step_updates_record(
    m: GameView,
    key: Seq<char>,
    words: Seq<Seq<char>>,
    valid_guesses: Seq<Seq<char>>,
    solution: Seq<char>,
    roll: u32,
)
    ensures
        ({
            let (m2, o) = key_step(m, key, words, valid_guesses, solution, roll);
            let (a, b) = (m.stats, m2.stats);
            match o {
                OutcomeView::Played { won, lost, .. } => {
                    &&& lost ==> !won && b.current_streak == 0 && b.total_games == a.total_games + 1 && b.wins
                        == a.wins && b.best_streak == a.best_streak
                    &&& won ==> !lost && b.current_streak == a.current_streak + 1 && b.total_games == a.total_games
                        + 1 && b.wins == a.wins + 1 && b.best_streak == (if a.current_streak + 1 > a.best_streak {
                        a.current_streak + 1
                    } else {
                        a.best_streak
                    })
                    &&& !won && !lost ==> b == a
                },
                _ => b == a,
            }
        }),
{
}

/// What a scored guess does to the board: it happens only on Enter in a
/// game still on; the typed word, upper-cased, is appended with its feedback
/// row (the Wordle feedback against the upper-cased solution, or in New
/// Game+ the opponent's answer, whose remaining words become the pool); the
/// typed row is cleared; the game is won exactly when all five statuses are
/// `correct` and lost exactly when the sixth guess is not a win; a finished
/// daily game marks the daily game done; a win counts one more win at the
/// number of guesses taken in the distribution.
pub proof fn lemma_key_step_played_row(
    m: GameView,
    key: Seq<char>,
    words: Seq<Seq<char>>,
    valid_guesses: Seq<Seq<char>>,
    solution: Seq<char>,
    roll: u32,
)
    requires
        well_formed(m),
    ensures
        ({
            let (m2, o) = key_step(m, key, words, valid_guesses, solution, roll);
            let input = unicode_uppercase(m.current_input);
            o matches OutcomeView::Played { won, lost, .. } ==> {
                &&& key == "ENTER"@ && !m.game_won && !m.game_lost
                &&& m2.guesses == m.guesses.push(input)
                &&& m2.statuses.len() == m.statuses.len() + 1
                &&& m2.statuses.last().len() == 5
                &&& m2.current_input == Seq::<char>::empty()
                &&& !m.is_ng_plus ==> m2.statuses.last() == Seq::new(
                    5,
                    |i: int| status_name(status_at(unicode_uppercase(solution), input, i)),
                )
                &&& m.is_ng_plus ==> opponent_move(input, m.ai_pool) == Some((m2.statuses.last(), m2.ai_pool))
                &&& won == (forall|i: int| 0 <= i < 5 ==> #[trigger] m2.statuses.last()[i] == "correct"@)
                &&& lost == (m2.guesses.len() == 6 && !won)
                &&& m2.game_won == won && m2.game_lost == lost
                &&& (won || lost) && !m.is_ng_plus ==> m2.daily_game_done
                &&& won ==> m2.stats.distribution == m.stats.distribution.update(
                    m2.guesses.len() - 1,
                    m.stats.distribution[m2.guesses.len() - 1] + 1,
                )
                &&& !won ==> m2.stats.distribution == m.stats.distribution
            }
        }),
{
}

/// The rewards of a scored guess: a loss posts -1 last; a win on a word not
/// rewarded before posts a bonus last (1, 2 in hard mode, 5 in New Game+)
/// and records the word; a win on a rewarded word posts no bonus; a guess
/// that does not end the game posts at most one positive amount, of at most
/// ten. The word is the solution, or in New Game+ the opponent's first
/// remaining word.
pub proof fn lemma_key_step_rewards(
    m: GameView,
    key: Seq<char>,
    words: Seq<Seq<char>>,
    valid_guesses: Seq<Seq<char>>,
    solution: Seq<char>,
    roll: u32,
)
    requires
        well_formed(m),
    ensures
        ({
            let (m2, o) = key_step(m, key, words, valid_guesses, solution, roll);
            let fw = if m.is_ng_plus && m2.ai_pool.len() > 0 {
                m2.ai_pool[0]
            } else {
                unicode_uppercase(solution)
            };
            let fresh = !m.stats.scored_words.contains(fw);
            o matches OutcomeView::Played { posts, won, lost, .. } ==> {
                &&& lost ==> posts.len() > 0 && posts.last() == -1 && m2.stats.scored_words == m.stats.scored_words
                &&& won && fresh ==> posts.len() > 0 && posts.last() == (if m.is_ng_plus {
                    5int
                } else if m.hard_mode {
                    2int
                } else {
                    1int
                }) && m2.stats.scored_words == m.stats.scored_words.push(fw)
                &&& won && !fresh ==> posts.len() <= 1 && m2.stats.scored_words == m.stats.scored_words
                &&& !won && !lost ==> posts.len() <= 1 && (forall|i: int|
                    0 <= i < posts.len() ==> 1 <= #[trigger] posts[i] <= 10) && m2.stats.scored_words
                    == m.stats.scored_words
            }
        }),
{
    let (m2, o) = key_step(m, key, words, valid_guesses, solution, roll);
    if !m.game_won && !m.game_lost && key == "ENTER"@ {
        let input = unicode_uppercase(m.current_input);
        let sol = unicode_uppercase(solution);
        let m1 = GameView {
            point_locked_team: if m.point_locked_team is None { Some(m.theme) } else { m.point_locked_team },
            ..m
        };
        if m.is_ng_plus {
            if let Some((pattern, pool)) = opponent_move(input, m.ai_pool) {
                let mm = GameView { ai_pool: pool, ..m1 };
                lemma_turn_points_bound(pattern, input, mm.guesses, mm.statuses, 0);
            }
        } else {
            let pattern = Seq::new(5, |i: int| status_name(status_at(sol, input, i)));
            lemma_turn_points_bound(pattern, input, m1.guesses, m1.statuses, 0);
        }
    }
}

/// Every point change the game posts for the player's team is also applied
/// to the session: after any key press, the posted changes add up to the
/// change of the session points (and nothing else changes them).
pub proof fn lemma_posted_points_match_session(
    m: GameView,
    key: Seq<char>,
    words: Seq<Seq<char>>,
    valid_guesses: Seq<Seq<char>>,
    solution: Seq<char>,
    roll: u32,
)
    ensures
        ({
            let (m2, o) = key_step(m, key, words, valid_guesses, solution, roll);
            match o {
                OutcomeView::Played { posts, .. } => points_total(posts) == m2.session_points - m.session_points,
                _ => m2.session_points == m.session_points,
            }
        }),
{
    let input = unicode_uppercase(m.current_input);
    let sol = unicode_uppercase(solution);
    let m1 = GameView {
        point_locked_team: if m.point_locked_team is None { Some(m.theme) } else { m.point_locked_team },
        ..m
    };
    if m.is_ng_plus {
        if let Some((pattern, pool)) = opponent_move(input, m.ai_pool) {
            lemma_play_row_posts(GameView { ai_pool: pool, ..m1 }, input, pattern, sol, roll);
        }
    } else {
        lemma_play_row_posts(m1, input, Seq::new(5, |i: int| status_name(status_at(sol, input, i))), sol, roll);
    }
}

/// `s` ends with `t`.
pub open spec fn has_suffix(s: Seq<char>, t: Seq<char>) -> bool {
    t.len() <= s.len() && s.subrange(s.len() - t.len(), s.len() as int) == t
}

proof fn lemma_suffix_of_concat(base: Seq<char>, tail: Seq<char>)
    ensures
        has_suffix(base + tail, tail),
{
    assert((base + tail).subrange(base.len() as int, (base + tail).len() as int) =~= tail);
}

proof fn lemma_play_row_comment(m: GameView, input: Seq<char>, pattern: Seq<Seq<char>>, sol: Seq<char>, roll: u32)
    ensures
        ({
            let (m2, o) = play_row(m, input, pattern, sol, roll);
            let fw = if m.is_ng_plus && m.ai_pool.len() > 0 {
                m.ai_pool[0]
            } else {
                sol
            };
            o matches OutcomeView::Played { posts, won, lost, comment } && {
                &&& lost ==> has_suffix(comment, " THE WORD WAS "@ + fw + ". (-1 PTS)"@)
                &&& won && points_total(posts) > 0 ==> has_suffix(
                    comment,
                    " (+"@ + decimal(points_total(posts) as nat) + " PTS)"@,
                )
                &&& !won && !lost && posts.len() > 0 ==> has_suffix(
                    comment,
                    " (+"@ + decimal(posts[0] as nat) + " PTS)"@,
                )
            }
        }),
{
    lemma_play_row_posts(m, input, pattern, sol, roll);
    let (m2, o) = play_row(m, input, pattern, sol, roll);
    if let OutcomeView::Played { posts, won, lost, comment } = o {
        let turn = turn_points_from(pattern, input, m.guesses, m.statuses, 0);
        let base = comment_for(won, lost, m.hard_mode, m.is_ng_plus, m.theme, roll);
        let fw = if m.is_ng_plus && m.ai_pool.len() > 0 { m.ai_pool[0] } else { sol };
        if lost {
            assert(comment =~= base + (" THE WORD WAS "@ + fw + ". (-1 PTS)"@));
            lemma_suffix_of_concat(base, " THE WORD WAS "@ + fw + ". (-1 PTS)"@);
        } else if won {
            if points_total(posts) > 0 {
                let tail = " (+"@ + decimal(points_total(posts) as nat) + " PTS)"@;
                assert(comment =~= base + tail);
                lemma_suffix_of_concat(base, tail);
            }
        } else if posts.len() > 0 {
            assert(turn > 0);
            assert(posts == seq![turn]);
            let tail = " (+"@ + decimal(turn as nat) + " PTS)"@;
            assert(comment =~= base + tail);
            lemma_suffix_of_concat(base, tail);
        }
    }
}

/// The comment of a scored guess reports its points: after a loss it ends
/// with ` THE WORD WAS <word>. (-1 PTS)`; after a win that earned points it
/// ends with ` (+<total posted> PTS)`; after a guess that earned points
/// without ending the game it ends with ` (+<points> PTS)`.
pub proof fn lemma_comment_reports_points(
    m: GameView,
    key: Seq<char>,
    words: Seq<Seq<char>>,
    valid_guesses: Seq<Seq<char>>,
    solution: Seq<char>,
    roll: u32,
)
    ensures
        ({
            let (m2, o) = key_step(m, key, words, valid_guesses, solution, roll);
            let fw = if m.is_ng_plus && m2.ai_pool.len() > 0 {
                m2.ai_pool[0]
            } else {
                unicode_uppercase(solution)
            };
            o matches OutcomeView::Played { posts, won, lost, comment } ==> {
                &&& lost ==> has_suffix(comment, " THE WORD WAS "@ + fw + ". (-1 PTS)"@)
                &&& won && points_total(posts) > 0 ==> has_suffix(
                    comment,
                    " (+"@ + decimal(points_total(posts) as nat) + " PTS)"@,
                )
                &&& !won && !lost && posts.len() > 0 ==> has_suffix(
                    comment,
                    " (+"@ + decimal(posts[0] as nat) + " PTS)"@,
                )
            }
        }),
{
    let input = unicode_uppercase(m.current_input);
    let sol = unicode_uppercase(solution);
    let m1 = GameView {
        point_locked_team: if m.point_locked_team is None { Some(m.theme) } else { m.point_locked_team },
        ..m
    };
    if m.is_ng_plus {
        if let Some((pattern, pool)) = opponent_move(input, m.ai_pool) {
            lemma_play_row_comment(GameView { ai_pool: pool, ..m1 }, input, pattern, sol, roll);
        }
    } else {
        lemma_play_row_comment(m1, input, Seq::new(5, |i: int| status_name(status_at(sol, input, i))), sol, roll);
    }
}

/// What a physical key press on the page leads to.
pub enum KeyAction {
    /// Nothing.
    Ignore,
    /// The results are shared (the statistics are open and the game is over).
    ShareResults,
    /// This key goes to the game's keyboard handler.
    Press(String),
}

/// The game key a page key maps to, if any: `Enter` and `Backspace` become
/// `ENTER` and `DELETE`, a single ASCII letter its upper-case form.
pub open spec fn game_key(key: Seq<char>) -> Option<Seq<char>> {
    if key == "Enter"@ {
        Some("ENTER"@)
    } else if key == "Backspace"@ {
        Some("DELETE"@)
    } else if key.len() == 1 && ascii_letter(key[0]) {
        Some(seq![ascii_upper(key[0])])
    } else {
        None
    }
}

/// Routes a key press on the page: while the statistics are open, Enter
/// shares the results of a finished game and everything else is ignored;
/// while the help is open, keys are ignored; otherwise the key goes to the
/// game as [`game_key`] maps it.
pub fn dispatch_key(key: &str, show_stats: bool, show_help: bool, game_won: bool, game_lost: bool) -> (r: KeyAction)
    ensures
        show_stats ==> (if key@ == "Enter"@ && (game_won || game_lost) {
            r is ShareResults
        } else {
            r is Ignore
        }),
        !show_stats && show_help ==> r is Ignore,
        !show_stats && !show_help ==> match game_key(key@) {
            Some(k) => r matches KeyAction::Press(s) && s@ == k,
            None => r is Ignore,
        },
        r matches KeyAction::Press(s) ==> board_key(s@),
{
    proof {
        reveal_strlit("Enter");
        reveal_strlit("Backspace");
        reveal_strlit("ENTER");
        reveal_strlit("DELETE");
    }
    if show_stats {
        if same_text(key, "Enter") && (game_won || game_lost) {
            return KeyAction::ShareResults;
        }
        return KeyAction::Ignore;
    }
    if show_help {
        return KeyAction::Ignore;
    }
    if same_text(key, "Enter") {
        return KeyAction::Press(string_of("ENTER"));
    }
    if same_text(key, "Backspace") {
        return KeyAction::Press(string_of("DELETE"));
    }
    let kc = chars_of(key);
    if kc.len() == 1 {
        let c = kc[0];
        if (c >= 'A' && c <= 'Z') || (c >= 'a' && c <= 'z') {
            let k = to_upper(key);
            proof {
                assert(all_ascii(key@));
                assert(k@ =~= seq![ascii_upper(key@[0])]);
                assert(k@ != "ENTER"@ && k@ != "DELETE"@);
            }
            return KeyAction::Press(k);
        }
    }
    KeyAction::Ignore
}

/// A key of the game's keyboard: Enter, Delete or one ASCII letter.
pub open spec fn board_key(k: Seq<char>) -> bool {
    k == "ENTER"@ || k == "DELETE"@ || (k.len() == 1 && ascii_letter(k[0]))
}

/// Bytes typed into the current row.
pub open spec fn input_bytes(m: GameView) -> nat {
    vstd::utf8::encode_utf8(m.current_input).len()
}

/// When a key press would type text, an ASCII key upper-cases letter by letter.
pub open spec fn upper_is_ascii_map(m: GameView, key: Seq<char>) -> bool {
    (!m.game_won && !m.game_lost && key != "ENTER"@ && key != "DELETE"@ && byte_len(m.current_input) < 5
        && all_ascii(key)) ==> unicode_uppercase(key) == key.map_values(|c: char| ascii_upper(c))
}

/// The row being typed never holds more than five bytes: from a row of at
/// most five bytes, a press of Enter, Delete or one ASCII letter leaves at
/// most five (the premise on `key` is what upper-casing an ASCII letter
/// gives).
pub proof fn lemma_typed_input_bounded(
    m: GameView,
    key: Seq<char>,
    words: Seq<Seq<char>>,
    valid_guesses: Seq<Seq<char>>,
    solution: Seq<char>,
    roll: u32,
)
    requires
        input_bytes(m) <= 5,
        board_key(key),
        upper_is_ascii_map(m, key),
    ensures
        input_bytes(key_step(m, key, words, valid_guesses, solution, roll).0) <= 5,
{
    let m2 = key_step(m, key, words, valid_guesses, solution, roll).0;
    assert(vstd::utf8::encode_utf8(Seq::<char>::empty()) =~= Seq::<u8>::empty());
    if !m.game_won && !m.game_lost && key != "ENTER"@ && key != "DELETE"@ && byte_len(m.current_input) < 5 {
        let k = unicode_uppercase(key);
        assert(all_ascii(key));
        assert(k.len() == 1);
        assert(vstd::utf8::is_ascii_chars(k));
        vstd::utf8::is_ascii_chars_encode_utf8(k);
        crate::text::lemma_encode_concat(m.current_input, k);
        assert(m2.current_input == m.current_input + k);
    }
}

/// The keyboard handler: applies a key press (`"ENTER"`, `"DELETE"` or typed
/// text) to the session as [`key_step`] defines, `roll` picking the comment
/// lines. Words are checked against `words`; `solution` is the day's word.
pub fn get_on_key(state: &mut GameState, key: &str, words: &WordList, solution: &str, roll: u32) -> (outcome: KeyOutcome)
    requires
        well_formed(old(state)@),
        key@ == "ENTER"@ ==> counters_have_room(old(state)@),
        key@.len() > 0 || old(state).game_won || old(state).game_lost || byte_len(
            old(state).current_input@,
        ) >= 5,
    ensures
        (final(state)@, outcome@) == key_step(
            old(state)@,
            key@,
            words.words.deep_view(),
            words.valid_guesses.deep_view(),
            solution@,
            roll,
        ),
        well_formed(final(state)@),
        input_bytes(old(state)@) <= 5 && board_key(key@) ==> input_bytes(final(state)@) <= 5,
{
    let ghost m = state@;
    let outcome = press(state, key, words, solution, roll);
    proof {
        if input_bytes(m) <= 5 && board_key(key@) {
            lemma_typed_input_bounded(m, key@, words.words.deep_view(), words.valid_guesses.deep_view(), solution@, roll);
        }
    }
    outcome
}

fn press(state: &mut GameState, key: &str, words: &WordList, solution: &str, roll: u32) -> (outcome: KeyOutcome)
    requires
        well_formed(old(state)@),
        key@ == "ENTER"@ ==> counters_have_room(old(state)@),
        key@.len() > 0 || old(state).game_won || old(state).game_lost || byte_len(
            old(state).current_input@,
        ) >= 5,
    ensures
        (final(state)@, outcome@) == key_step(
            old(state)@,
            key@,
            words.words.deep_view(),
            words.valid_guesses.deep_view(),
            solution@,
            roll,
        ),
        well_formed(final(state)@),
        upper_is_ascii_map(old(state)@, key@),
{
    proof {
        lemma_key_step_keeps_well_formed(
            state@,
            key@,
            words.words.deep_view(),
            words.valid_guesses.deep_view(),
            solution@,
            roll,
        );
    }
    let ghost m = state@;
    let typed_len = state.current_input.as_str().len();
    if state.game_won || state.game_lost {
        if state.daily_game_done {
            if same_text(key, "ENTER") {
                return KeyOutcome::StartNewGamePlus;
            }
            if key.len() == 1 {
                let kc = chars_of(key);
                proof {
                    if key@.len() == 0 {
                        assert(vstd::utf8::encode_utf8(key@) =~= Seq::<u8>::empty());
                    }
                }
                let c = kc[0];
                if (c >= 'A' && c <= 'Z') || (c >= 'a' && c <= 'z') {
                    return KeyOutcome::OpenStats;
                }
            }
        }
        return KeyOutcome::Ignored;
    }
    if same_text(key, "ENTER") {
        return enter(state, words, solution, roll);
    }
    if same_text(key, "DELETE") {
        if typed_len > 0 {
            return KeyOutcome::Deleting(typed_len - 1);
        }
        return KeyOutcome::Ignored;
    }
    if typed_len < 5 {
        let k = to_upper(key);
        assert(upper_is_ascii_map(state@, key@));
        let kc = chars_of(k.as_str());
        let c = kc[0];
        push_text(&mut state.current_input, k.as_str());
        return KeyOutcome::Typed(typed_len, c);
    }
    KeyOutcome::Ignored
}


impl GameState {
    /// A fresh session: nothing guessed, yellow team, normal mode.
    pub fn new() -> (r: GameState)
        ensures
            r@.guesses == Seq::<Seq<char>>::empty(),
            r@.statuses == Seq::<Seq<Seq<char>>>::empty(),
            r@.current_input == Seq::<char>::empty(),
            !r.game_won && !r.game_lost && !r.hard_mode && !r.is_ng_plus && !r.daily_game_done,
            r@.ai_pool == Seq::<Seq<char>>::empty(),
            r.session_points == 0,
            r.point_locked_team is None,
            r@.theme == "yellow"@,
            r@.stats.total_games == 0 && r@.stats.wins == 0,
            r@.stats.current_streak == 0 && r@.stats.best_streak == 0,
            r@.stats.distribution == seq![0nat, 0nat, 0nat, 0nat, 0nat, 0nat],
            r@.stats.scored_words == Seq::<Seq<char>>::empty(),
            well_formed(r@),
    {
        let r = GameState {
            guesses: Vec::new(),
            statuses: Vec::new(),
            current_input: String::new(),
            game_won: false,
            game_lost: false,
            hard_mode: false,
            is_ng_plus: false,
            ai_pool: Vec::new(),
            daily_game_done: false,
            session_points: 0,
            point_locked_team: None,
            theme: string_of("yellow"),
            stats: GameStats::new(),
        };
        proof {
            assert(r@.guesses =~= Seq::<Seq<char>>::empty());
            assert(r@.statuses =~= Seq::<Seq<Seq<char>>>::empty());
            assert(r@.ai_pool =~= Seq::<Seq<char>>::empty());
        }
        r
    }
}

/// The deferred half of a delete: the last typed character goes.
pub open spec fn delete_step(m: GameView) -> GameView {
    if m.current_input.len() > 0 {
        GameView { current_input: m.current_input.drop_last(), ..m }
    } else {
        m
    }
}

/// Deleting undoes typing: a key press that types one character, followed
/// by the deferred half of a delete, gives back the session as it was.
pub proof fn lemma_delete_undoes_typing(
    m: GameView,
    key: Seq<char>,
    words: Seq<Seq<char>>,
    valid_guesses: Seq<Seq<char>>,
    solution: Seq<char>,
    roll: u32,
)
    requires
        !m.game_won,
        !m.game_lost,
        key != "ENTER"@,
        key != "DELETE"@,
        byte_len(m.current_input) < 5,
        unicode_uppercase(key).len() == 1,
    ensures
        key_step(m, key, words, valid_guesses, solution, roll).1 is Typed,
        delete_step(key_step(m, key, words, valid_guesses, solution, roll).0) == m,
{
    let m2 = key_step(m, key, words, valid_guesses, solution, roll).0;
    assert(m2.current_input == m.current_input + unicode_uppercase(key));
    assert((m.current_input + unicode_uppercase(key)).drop_last() =~= m.current_input);
    assert(delete_step(m2) =~= m);
}

/// Removes the last typed character (after the delete animation).
pub fn finish_delete(state: &mut GameState)
    requires
        well_formed(old(state)@),
    ensures
        final(state)@ == delete_step(old(state)@),
        well_formed(final(state)@),
{
    let cs = chars_of(state.current_input.as_str());
    if cs.len() > 0 {
        state.current_input = crate::text::string_from_chars(&cs, cs.len() - 1);
    }
}

/// What asking for New Game+ leads to.
pub enum NewGamePlusOutcome {
    /// The daily game is not done yet: this comment.
    Locked(String),
    /// New Game+ (re)starts, with a comment when it was not on before.
    Started(Option<String>),
}

/// The mathematical content of [`NewGamePlusOutcome`].
pub enum NewGamePlusView {
    Locked(Seq<char>),
    Started(Option<Seq<char>>),
}

impl View for NewGamePlusOutcome {
    type V = NewGamePlusView;

    open spec fn view(&self) -> NewGamePlusView {
        match self {
            NewGamePlusOutcome::Locked(c) => NewGamePlusView::Locked(c@),
            NewGamePlusOutcome::Started(c) => NewGamePlusView::Started(opt_view(*c)),
        }
    }
}

/// New Game+: only after the daily game; it switches hard mode on, clears
/// the board and the session points, and gives the opponent every solution
/// word, upper-cased.
pub open spec fn new_game_plus_step(m: GameView, words: Seq<Seq<char>>, roll: u32) -> (GameView, NewGamePlusView) {
    let team = team_named(m.theme);
    if !m.daily_game_done {
        (m, NewGamePlusView::Locked(picked(new_game_plus_locked_lines(team), roll)))
    } else {
        (
            GameView {
                is_ng_plus: true,
                hard_mode: true,
                guesses: Seq::empty(),
                statuses: Seq::empty(),
                game_won: false,
                game_lost: false,
                current_input: Seq::empty(),
                session_points: 0,
                ai_pool: Seq::new(words.len(), |i: int| unicode_uppercase(words[i])),
                ..m
            },
            NewGamePlusView::Started(
                if m.is_ng_plus {
                    None
                } else {
                    Some(picked(new_game_plus_started_lines(team), roll))
                },
            ),
        )
    }
}

/// Starts New Game+ (see [`new_game_plus_step`]).
pub fn get_start_ng_plus(state: &mut GameState, words: &WordList, roll: u32) -> (outcome: NewGamePlusOutcome)
    requires
        well_formed(old(state)@),
    ensures
        (final(state)@, outcome@) == new_game_plus_step(old(state)@, words.words.deep_view(), roll),
        well_formed(final(state)@),
{
    let ghost m = state@;
    let team = team_of(state.theme.as_str());
    if !state.daily_game_done {
        return NewGamePlusOutcome::Locked(pick_line(&new_game_plus_locked_options(team), roll));
    }
    let was_active = state.is_ng_plus;
    state.is_ng_plus = true;
    state.hard_mode = true;
    state.guesses = Vec::new();
    state.statuses = Vec::new();
    state.game_won = false;
    state.game_lost = false;
    state.current_input = String::new();
    state.session_points = 0;
    let comment = if !was_active {
        Some(pick_line(&new_game_plus_started_options(team), roll))
    } else {
        None
    };
    state.ai_pool = get_ai_word_list(words);
    proof {
        let (m2, o2) = new_game_plus_step(m, words.words.deep_view(), roll);
        assert(state@.guesses =~= m2.guesses);
        assert(state@.statuses =~= m2.statuses);
        assert(state@.ai_pool =~= m2.ai_pool);
        assert(state@ == m2);
    }
    NewGamePlusOutcome::Started(comment)
}

/// Toggling hard mode: refused in New Game+ and after the first guess;
/// otherwise flipped. The comment is picked by `roll`.
pub open spec fn hard_mode_toggle_step(m: GameView, roll: u32) -> (GameView, Seq<char>) {
    if m.is_ng_plus {
        (m, picked(hard_mode_forced_lines(), roll))
    } else if m.guesses.len() == 0 {
        let on = !m.hard_mode;
        (
            GameView { hard_mode: on, ..m },
            if on {
                picked(hard_mode_on_lines(), roll)
            } else {
                picked(hard_mode_off_lines(), roll)
            },
        )
    } else {
        (m, picked(hard_mode_too_late_lines(), roll))
    }
}

/// The hard-mode button (see [`hard_mode_toggle_step`]); returns the comment.
pub fn toggle_hard_mode(state: &mut GameState, roll: u32) -> (comment: String)
    requires
        well_formed(old(state)@),
    ensures
        (final(state)@, comment@) == hard_mode_toggle_step(old(state)@, roll),
        well_formed(final(state)@),
{
    if state.is_ng_plus {
        pick_line(&hard_mode_forced_options(), roll)
    } else if state.guesses.len() == 0 {
        state.hard_mode = !state.hard_mode;
        if state.hard_mode {
            pick_line(&hard_mode_on_options(), roll)
        } else {
            pick_line(&hard_mode_off_options(), roll)
        }
    } else {
        pick_line(&hard_mode_too_late_options(), roll)
    }
}

/// The share button: `None` when the daily game is done (the results are
/// shared), otherwise the refusal comment picked by `roll`.
pub fn share_refusal(state: &GameState, roll: u32) -> (r: Option<String>)
    ensures
        state.daily_game_done ==> r is None,
        !state.daily_game_done ==> (r matches Some(c) && c@ == picked(share_locked_lines(), roll)),
{
    if state.daily_game_done {
        None
    } else {
        Some(pick_line(&share_locked_options(), roll))
    }
}

/// Joining a team: when it is not the current one, the theme switches and
/// the welcome comment for that team (picked by `roll`) is returned; the
/// caller then credits zero points to the team to register the player.
pub fn join_team(state: &mut GameState, team: &str, roll: u32) -> (r: Option<String>)
    requires
        well_formed(old(state)@),
    ensures
        old(state)@.theme == team@ ==> r is None && final(state)@ == old(state)@,
        old(state)@.theme != team@ ==> (r matches Some(c) && c@ == picked(join_team_lines(team_named(team@)), roll)
            && final(state)@ == (GameView { theme: team@, ..old(state)@ })),
        well_formed(final(state)@),
{
    if same_text(state.theme.as_str(), team) {
        return None;
    }
    state.theme = string_of(team);
    Some(pick_line(&join_team_options(team_of(team)), roll))
}

/// The part of a session that is saved between visits.
pub struct StoredState {
    pub guesses: Vec<String>,
    pub statuses: Vec<Vec<String>>,
    pub solution: String,
    pub is_ng_plus: bool,
    pub ai_pool_subset: Vec<String>,
    pub daily_done: bool,
    pub locked_team: Option<String>,
}

fn copy_texts(v: &Vec<String>) -> (r: Vec<String>)
    ensures
        r.deep_view() == v.deep_view(),
{
    let mut r: Vec<String> = Vec::new();
    let mut i: usize = 0;
    while i < v.len()
        invariant
            i <= v.len(),
            r.len() == i,
            forall|k: int| 0 <= k < i ==> #[trigger] r@[k]@ == v@[k]@,
        decreases v.len() - i,
    {
        r.push(v[i].clone());
        i = i + 1;
    }
    proof {
        assert(r.deep_view() =~= v.deep_view());
    }
    r
}

fn copy_rows(v: &Vec<Vec<String>>) -> (r: Vec<Vec<String>>)
    ensures
        r.deep_view() == v.deep_view(),
{
    let mut r: Vec<Vec<String>> = Vec::new();
    let mut i: usize = 0;
    while i < v.len()
        invariant
            i <= v.len(),
            r.len() == i,
            forall|k: int| 0 <= k < i ==> #[trigger] r@[k].deep_view() == v@[k].deep_view(),
        decreases v.len() - i,
    {
        r.push(copy_texts(&v[i]));
        i = i + 1;
    }
    proof {
        assert(r.deep_view() =~= v.deep_view());
    }
    r
}

impl GameState {
    /// The record saved after a scored guess, with the word the guesses
    /// were scored against.
    pub fn stored_state(&self, solution: &str) -> (r: StoredState)
        ensures
            r.guesses.deep_view() == self@.guesses,
            r.statuses.deep_view() == self@.statuses,
            r.solution@ == solution@,
            r.is_ng_plus == self.is_ng_plus,
            r.ai_pool_subset.deep_view() == self@.ai_pool,
            r.daily_done == self.daily_game_done,
            opt_view(r.locked_team) == self@.point_locked_team,
    {
        StoredState {
            guesses: copy_texts(&self.guesses),
            statuses: copy_rows(&self.statuses),
            solution: string_of(solution),
            is_ng_plus: self.is_ng_plus,
            ai_pool_subset: copy_texts(&self.ai_pool),
            daily_done: self.daily_game_done,
            locked_team: match &self.point_locked_team {
                Some(t) => Some(t.clone()),
                None => None,
            },
        }
    }
}

} // verus!
