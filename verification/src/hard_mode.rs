//! Hard mode: every hint revealed by an earlier guess must be used.
use vstd::prelude::*;

use crate::status::{
    count_below, correct_at, lemma_count_ext, lemma_revealed_letter_count, letter_pred, letters_in_first_five,
    revealed_count, revealed_pred, status_at, status_name, LetterStatus,
};
use crate::text::{chars_of, count_char, occurrences, push_char, push_text, string_of};

verus! {

/// Earlier guess `p` with stored feedback `st` fixed the letter at position `i`.
pub open spec fn fixed_at(p: Seq<char>, st: Seq<Seq<char>>, i: int) -> bool {
    0 <= i < 5 && i < p.len() && i < st.len() && st[i] == "correct"@
}

/// Position `i` of earlier guess `p` revealed a letter of the solution.
pub open spec fn hint_at(p: Seq<char>, st: Seq<Seq<char>>, i: int) -> bool {
    0 <= i < 5 && i < p.len() && i < st.len() && (st[i] == "correct"@ || st[i] == "present"@)
}

/// The guess moves or drops the letter fixed at position `i`.
pub open spec fn position_broken(g: Seq<char>, p: Seq<char>, st: Seq<Seq<char>>, i: int) -> bool {
    fixed_at(p, st, i) && (i >= g.len() || g[i] != p[i])
}

/// How many copies of `c` the hints of `p` reveal.
pub open spec fn required_count(p: Seq<char>, st: Seq<Seq<char>>, c: char) -> nat {
    count_below(5, hinted_as(p, st, c))
}

/// Position `i` of `p` is hinted and holds `c`.
pub open spec fn hinted_as(p: Seq<char>, st: Seq<Seq<char>>, c: char) -> spec_fn(int) -> bool {
    |i: int| hint_at(p, st, i) && p[i] == c
}

/// Positions where the guess breaks a fixed letter of `p`.
pub open spec fn broken_pred(g: Seq<char>, p: Seq<char>, st: Seq<Seq<char>>) -> spec_fn(int) -> bool {
    |i: int| position_broken(g, p, st, i)
}

/// Hinted positions of `p` whose letter the guess holds too few times.
pub open spec fn short_pred(g: Seq<char>, p: Seq<char>, st: Seq<Seq<char>>) -> spec_fn(int) -> bool {
    |i: int| letter_short(g, p, st, i)
}

/// The letter hinted at position `i` occurs in the guess fewer times than
/// the hints require.
pub open spec fn letter_short(g: Seq<char>, p: Seq<char>, st: Seq<Seq<char>>, i: int) -> bool {
    hint_at(p, st, i) && occurrences(g, p[i]) < required_count(p, st, p[i])
}

/// The first `i` in `from..5` satisfying `pred`.
pub open spec fn first_from(from: int, pred: spec_fn(int) -> bool) -> Option<int>
    decreases 5 - from,
{
    if from >= 5 {
        None
    } else if pred(from) {
        Some(from)
    } else {
        first_from(from + 1, pred)
    }
}

/// Ordinal word of a position, as the messages write it.
pub open spec fn ordinal_word(i: int) -> Seq<char> {
    if i == 0 {
        "1ST"@
    } else if i == 1 {
        "2ND"@
    } else if i == 2 {
        "3RD"@
    } else if i == 3 {
        "4TH"@
    } else {
        "5TH"@
    }
}

/// The complaint about one earlier guess, if the new guess breaks one of its
/// hints: a moved fixed letter first (the leftmost), then a missing letter
/// (the one hinted leftmost among those short).
pub open spec fn pair_complaint(g: Seq<char>, p: Seq<char>, st: Seq<Seq<char>>) -> Option<Seq<char>> {
    match first_from(0, broken_pred(g, p, st)) {
        Some(i) => Some(ordinal_word(i) + " LETTER MUST BE "@ + seq![p[i]] + "."@),
        None => match first_from(0, short_pred(g, p, st)) {
            Some(i) => Some("GUESS MUST CONTAIN "@ + seq![p[i]] + "."@),
            None => None,
        },
    }
}

/// What hard mode says of a guess: the complaint about the first earlier guess whose
/// hints the new guess breaks, or the empty text when it keeps them all.
/// Earlier guesses are paired with stored feedback rows up to the shorter
/// of the two lists.
pub open spec fn hard_mode_message(
    g: Seq<char>,
    pgs: Seq<Seq<char>>,
    pss: Seq<Seq<Seq<char>>>,
    k: int,
) -> Seq<char>
    decreases pgs.len() - k,
{
    if k < 0 || k >= pgs.len() || k >= pss.len() {
        Seq::empty()
    } else {
        match pair_complaint(g, pgs[k], pss[k]) {
            Some(m) => m,
            None => hard_mode_message(g, pgs, pss, k + 1),
        }
    }
}

fn ordinal_text(i: usize) -> (r: &'static str)
    requires
        i < 5,
    ensures
        r@ == ordinal_word(i as int),
{
    match i {
        0 => "1ST",
        1 => "2ND",
        2 => "3RD",
        3 => "4TH",
        _ => "5TH",
    }
}

fn is_named(s: &String, name: &str) -> (r: bool)
    ensures
        r == (s@ == name@),
{
    let t = string_of(name);
    *s == t
}

/// Checks one earlier guess `p` (with feedback `st`) against the guess `g`.
fn pair_check(g: &Vec<char>, p: &Vec<char>, st: &Vec<String>) -> (r: Option<String>)
    ensures
        r matches Some(m) ==> pair_complaint(g@, p@, st.deep_view()) == Some(m@),
        r is None ==> pair_complaint(g@, p@, st.deep_view()) is None,
{
    let ghost sv = st.deep_view();
    let mut fixed: Vec<bool> = Vec::new();
    let mut hint: Vec<bool> = Vec::new();
    let mut i: usize = 0;
    while i < 5
        invariant
            sv == st.deep_view(),
            i <= 5,
            fixed.len() == i,
            hint.len() == i,
            forall|k: int| 0 <= k < i ==> #[trigger] fixed@[k] == fixed_at(p@, sv, k),
            forall|k: int| 0 <= k < i ==> #[trigger] hint@[k] == hint_at(p@, sv, k),
        decreases 5 - i,
    {
        if i < p.len() && i < st.len() {
            let c = is_named(&st[i], "correct");
            let pr = is_named(&st[i], "present");
            fixed.push(c);
            hint.push(c || pr);
        } else {
            fixed.push(false);
            hint.push(false);
        }
        i = i + 1;
    }
    let ghost broken = broken_pred(g@, p@, sv);
    let mut i: usize = 0;
    while i < 5
        invariant
            sv == st.deep_view(),
            i <= 5,
            fixed.len() == 5,
            forall|k: int| 0 <= k < 5 ==> #[trigger] fixed@[k] == fixed_at(p@, sv, k),
            broken == broken_pred(g@, p@, sv),
            first_from(0, broken) == first_from(i as int, broken),
        decreases 5 - i,
    {
        if fixed[i] && (i >= g.len() || g[i] != p[i]) {
            let mut m = string_of(ordinal_text(i));
            push_text(&mut m, " LETTER MUST BE ");
            push_char(&mut m, p[i]);
            push_text(&mut m, ".");
            return Some(m);
        }
        i = i + 1;
    }
    let ghost short = short_pred(g@, p@, sv);
    let mut i: usize = 0;
    while i < 5
        invariant
            sv == st.deep_view(),
            i <= 5,
            hint.len() == 5,
            forall|k: int| 0 <= k < 5 ==> #[trigger] hint@[k] == hint_at(p@, sv, k),
            broken == broken_pred(g@, p@, sv),
            short == short_pred(g@, p@, sv),
            first_from(0, broken) is None,
            first_from(0, short) == first_from(i as int, short),
        decreases 5 - i,
    {
        if hint[i] {
            let c = p[i];
            let mut req: usize = 0;
            let mut j: usize = 0;
            while j < 5
                invariant
                    hint.len() == 5,
                    forall|k: int| 0 <= k < 5 ==> #[trigger] hint@[k] == hint_at(p@, sv, k),
                    j <= 5,
                    req <= j,
                    req as nat == count_below(j as int, hinted_as(p@, sv, c)),
                decreases 5 - j,
            {
                if hint[j] && p[j] == c {
                    req = req + 1;
                }
                j = j + 1;
            }
            let occ = count_char(g, c);
            if occ < req {
                let mut m = string_of("GUESS MUST CONTAIN ");
                push_char(&mut m, c);
                push_text(&mut m, ".");
                return Some(m);
            }
        }
        i = i + 1;
    }
    None
}

/// Checks a guess against the hints of the earlier guesses (hard mode).
/// Returns the complaint described by [`hard_mode_message`], or an empty
/// string when the guess keeps every hint.
///
/// When several letters are missing, the leftmost hinted one is named.
pub fn check_hard_mode_internal(
    guess: &str,
    prev_guesses: Vec<String>,
    prev_statuses: Vec<Vec<String>>,
) -> (r: String)
    ensures
        r@ == hard_mode_message(guess@, prev_guesses.deep_view(), prev_statuses.deep_view(), 0),
{
    hard_mode_complaint(guess, &prev_guesses, &prev_statuses)
}

/// The hard-mode check the browser calls, on the decoded earlier guesses
/// and their feedback rows; the same complaint as
/// [`check_hard_mode_internal`].
pub fn check_hard_mode(guess: &str, prev_guesses: Vec<String>, prev_statuses: Vec<Vec<String>>) -> (r: String)
    ensures
        r@ == hard_mode_message(guess@, prev_guesses.deep_view(), prev_statuses.deep_view(), 0),
{
    hard_mode_complaint(guess, &prev_guesses, &prev_statuses)
}

/// With no earlier guesses, every guess is accepted.
pub proof fn lemma_no_history_no_complaint(guess: Seq<char>)
    ensures
        hard_mode_message(guess, Seq::empty(), Seq::empty(), 0) == Seq::<char>::empty(),
{
}

/// [`check_hard_mode_internal`] on borrowed lists.
pub fn hard_mode_complaint(
    guess: &str,
    prev_guesses: &Vec<String>,
    prev_statuses: &Vec<Vec<String>>,
) -> (r: String)
    ensures
        r@ == hard_mode_message(guess@, prev_guesses.deep_view(), prev_statuses.deep_view(), 0),
{
    let ghost pgs = prev_guesses.deep_view();
    let ghost pss = prev_statuses.deep_view();
    let g = chars_of(guess);
    let n = if prev_guesses.len() < prev_statuses.len() {
        prev_guesses.len()
    } else {
        prev_statuses.len()
    };
    let mut k: usize = 0;
    while k < n
        invariant
            pgs == prev_guesses.deep_view(),
            pss == prev_statuses.deep_view(),
            g@ == guess@,
            n == (if prev_guesses.len() < prev_statuses.len() {
                prev_guesses.len()
            } else {
                prev_statuses.len()
            }),
            k <= n,
            hard_mode_message(guess@, pgs, pss, 0) == hard_mode_message(guess@, pgs, pss, k as int),
        decreases n - k,
    {
        let p = chars_of(prev_guesses[k].as_str());
        match pair_check(&g, &p, &prev_statuses[k]) {
            Some(m) => {
                return m;
            },
            None => {},
        }
        k = k + 1;
    }
    String::new()
}

/// The feedback row the game stores for guess `g` against solution `s`.
pub open spec fn feedback_row(s: Seq<char>, g: Seq<char>) -> Seq<Seq<char>> {
    Seq::new(5, |i: int| status_name(status_at(s, g, i)))
}

proof fn lemma_status_names_distinct()
    ensures
        forall|a: LetterStatus, b: LetterStatus| #[trigger] status_name(a) == #[trigger] status_name(b) ==> a == b,
        forall|a: LetterStatus| #[trigger] status_name(a) == "correct"@ ==> a == LetterStatus::Correct,
        forall|a: LetterStatus| #[trigger] status_name(a) == "present"@ ==> a == LetterStatus::Present,
{
    reveal_strlit("correct");
    reveal_strlit("present");
    reveal_strlit("absent");
    assert("correct"@[0] != "present"@[0]);
    assert("correct"@.len() != "absent"@.len());
    assert("present"@.len() != "absent"@.len());
}

proof fn lemma_first_from_none(from: int, pred: spec_fn(int) -> bool)
    requires
        forall|i: int| from <= i < 5 ==> !#[trigger] pred(i),
    ensures
        first_from(from, pred) is None,
    decreases 5 - from,
{
    if from < 5 {
        lemma_first_from_none(from + 1, pred);
    }
}

proof fn lemma_letters_upto(w: Seq<char>, c: char, n: int)
    requires
        0 <= n <= w.len(),
    ensures
        count_below(n, letter_pred(w, c)) == occurrences(w.subrange(0, n), c),
    decreases n,
{
    if n > 0 {
        lemma_letters_upto(w, c, n - 1);
        assert(w.subrange(0, n).drop_last() == w.subrange(0, n - 1));
    }
}

proof fn lemma_occurrences_prefix(w: Seq<char>, c: char, n: int)
    requires
        0 <= n <= w.len(),
    ensures
        occurrences(w.subrange(0, n), c) <= occurrences(w, c),
    decreases w.len() - n,
{
    if n < w.len() {
        lemma_occurrences_prefix(w, c, n + 1);
        assert(w.subrange(0, n + 1).drop_last() == w.subrange(0, n));
    } else {
        assert(w.subrange(0, n) == w);
    }
}

proof fn lemma_first_five_within(w: Seq<char>, c: char)
    ensures
        letters_in_first_five(w, c) <= occurrences(w, c),
{
    if w.len() >= 5 {
        lemma_letters_upto(w, c, 5);
        lemma_occurrences_prefix(w, c, 5);
    } else {
        lemma_letters_upto(w, c, w.len() as int);
        assert(w.subrange(0, w.len() as int) == w);
        assert forall|k: int| w.len() <= k < 5 implies !#[trigger] letter_pred(w, c)(k) by {}
        crate::status::lemma_count_below_tail(w.len() as int, 5, letter_pred(w, c));
    }
}

proof fn lemma_solution_meets_row(sol: Seq<char>, p: Seq<char>)
    ensures
        pair_complaint(sol, p, feedback_row(sol, p)) is None,
{
    let st = feedback_row(sol, p);
    lemma_status_names_distinct();
    assert forall|i: int| 0 <= i < 5 implies !#[trigger] broken_pred(sol, p, st)(i) by {
        if fixed_at(p, st, i) {
            assert(status_at(sol, p, i) == LetterStatus::Correct);
            assert(correct_at(sol, p, i));
        }
    }
    lemma_first_from_none(0, broken_pred(sol, p, st));
    assert forall|i: int| 0 <= i < 5 implies !#[trigger] short_pred(sol, p, st)(i) by {
        if hint_at(p, st, i) {
            let c = p[i];
            assert forall|k: int| 0 <= k < 5 implies #[trigger] hinted_as(p, st, c)(k) == revealed_pred(
                sol,
                p,
                c,
            )(k) by {
                if k < p.len() {
                    assert(st[k] == status_name(status_at(sol, p, k)));
                }
            }
            lemma_count_ext(5, hinted_as(p, st, c), revealed_pred(sol, p, c));
            lemma_revealed_letter_count(sol, p, c);
            lemma_first_five_within(sol, c);
        }
    }
    lemma_first_from_none(0, short_pred(sol, p, st));
}

proof fn lemma_solution_meets_rows(
    sol: Seq<char>,
    pgs: Seq<Seq<char>>,
    pss: Seq<Seq<Seq<char>>>,
    k: int,
)
    requires
        0 <= k,
        forall|j: int| 0 <= j < pgs.len() && j < pss.len() ==> #[trigger] pss[j] == feedback_row(sol, pgs[j]),
    ensures
        hard_mode_message(sol, pgs, pss, k) == Seq::<char>::empty(),
    decreases pgs.len() - k,
{
    if k < pgs.len() && k < pss.len() {
        assert(pss[k] == feedback_row(sol, pgs[k]));
        lemma_solution_meets_row(sol, pgs[k]);
        lemma_solution_meets_rows(sol, pgs, pss, k + 1);
    }
}

/// Hard mode never rules out the solution: when every stored row is the
/// feedback the earlier guess got against `sol`, guessing `sol` draws no
/// complaint.
pub proof fn lemma_solution_meets_hard_mode(sol: Seq<char>, pgs: Seq<Seq<char>>, pss: Seq<Seq<Seq<char>>>)
    requires
        forall|j: int| 0 <= j < pgs.len() && j < pss.len() ==> #[trigger] pss[j] == feedback_row(sol, pgs[j]),
    ensures
        hard_mode_message(sol, pgs, pss, 0) == Seq::<char>::empty(),
{
    lemma_solution_meets_rows(sol, pgs, pss, 0);
}

proof fn lemma_first_from_spec(from: int, pred: spec_fn(int) -> bool)
    requires
        0 <= from,
    ensures
        first_from(from, pred) matches Some(i) ==> from <= i < 5 && pred(i),
        first_from(from, pred) is None ==> forall|i: int| from <= i < 5 ==> !#[trigger] pred(i),
    decreases 5 - from,
{
    if from < 5 {
        lemma_first_from_spec(from + 1, pred);
    }
}

/// Position `i` of the earlier guess `p` got `correct` or `present`
/// feedback in `st` and holds `c`.
pub open spec fn revealed_at(p: Seq<char>, st: Seq<Seq<char>>, c: char) -> spec_fn(int) -> bool {
    |i: int| 0 <= i < 5 && i < p.len() && i < st.len() && (st[i] == "correct"@ || st[i] == "present"@) && p[i] == c
}

/// How many copies of `c` the earlier guess revealed: its positions among
/// the first five with `correct` or `present` feedback that hold `c`.
pub open spec fn copies_revealed(p: Seq<char>, st: Seq<Seq<char>>, c: char) -> nat {
    count_below(5, revealed_at(p, st, c))
}

/// A guess keeps the hints of earlier guess `p` with feedback `st`: every
/// letter marked `correct` stays in place, and every revealed letter occurs
/// in the guess at least as often as `p` revealed it.
pub open spec fn keeps_hints(g: Seq<char>, p: Seq<char>, st: Seq<Seq<char>>) -> bool {
    &&& forall|i: int|
        0 <= i < 5 && i < p.len() && i < st.len() && #[trigger] st[i] == "correct"@ ==> i < g.len() && g[i] == p[i]
    &&& forall|i: int|
        0 <= i < 5 && i < p.len() && i < st.len() && (#[trigger] st[i] == "correct"@ || st[i] == "present"@)
            ==> occurrences(g, p[i]) >= copies_revealed(p, st, p[i])
}

/// What hard mode requires of one earlier guess: the complaint is absent
/// exactly when the guess keeps its hints; when every green letter is kept
/// but a revealed letter is short, the complaint is `GUESS MUST CONTAIN c.`
/// for a letter `c` the guess holds fewer times than `p` revealed it.
pub proof fn lemma_pair_complaint_meaning(g: Seq<char>, p: Seq<char>, st: Seq<Seq<char>>)
    ensures
        pair_complaint(g, p, st) is None <==> keeps_hints(g, p, st),
        pair_complaint(g, p, st) matches Some(m) ==> m.len() > 0,
        (forall|i: int|
            0 <= i < 5 && i < p.len() && i < st.len() && #[trigger] st[i] == "correct"@ ==> i < g.len() && g[i]
                == p[i]) && !keeps_hints(g, p, st) ==> exists|c: char|
            occurrences(g, c) < #[trigger] copies_revealed(p, st, c) && pair_complaint(g, p, st) == Some(
                "GUESS MUST CONTAIN "@ + seq![c] + "."@,
            ),
{
    reveal_strlit("correct");
    reveal_strlit("present");
    assert("correct"@[0] != "present"@[0]);
    assert forall|c: char| #[trigger] copies_revealed(p, st, c) == required_count(p, st, c) by {
        lemma_count_ext(5, revealed_at(p, st, c), hinted_as(p, st, c));
    }
    let broken = broken_pred(g, p, st);
    let short = short_pred(g, p, st);
    lemma_first_from_spec(0, broken);
    lemma_first_from_spec(0, short);
    let fixed_kept = forall|i: int|
        0 <= i < 5 && i < p.len() && i < st.len() && #[trigger] st[i] == "correct"@ ==> i < g.len() && g[i] == p[i];
    assert(fixed_kept <==> forall|i: int| 0 <= i < 5 ==> !#[trigger] broken(i)) by {
        if fixed_kept {
            assert forall|i: int| 0 <= i < 5 implies !#[trigger] broken(i) by {
                if i < p.len() && i < st.len() && st[i] == "correct"@ {
                }
            }
        } else {
            let i = choose|i: int|
                0 <= i < 5 && i < p.len() && i < st.len() && #[trigger] st[i] == "correct"@ && !(i < g.len() && g[i] == p[i]);
            assert(broken(i));
        }
    }
    let counts_kept = forall|i: int|
        0 <= i < 5 && i < p.len() && i < st.len() && (#[trigger] st[i] == "correct"@ || st[i] == "present"@)
            ==> occurrences(g, p[i]) >= copies_revealed(p, st, p[i]);
    assert(counts_kept <==> forall|i: int| 0 <= i < 5 ==> !#[trigger] short(i)) by {
        if counts_kept {
            assert forall|i: int| 0 <= i < 5 implies !#[trigger] short(i) by {
                if hint_at(p, st, i) {
                    assert(st[i] == "correct"@ || st[i] == "present"@);
                    assert(copies_revealed(p, st, p[i]) == required_count(p, st, p[i]));
                }
            }
        } else {
            let i = choose|i: int|
                0 <= i < 5 && i < p.len() && i < st.len() && (#[trigger] st[i] == "correct"@ || st[i] == "present"@)
                    && !(occurrences(g, p[i]) >= copies_revealed(p, st, p[i]));
            assert(copies_revealed(p, st, p[i]) == required_count(p, st, p[i]));
            assert(short(i));
        }
    }
    if let Some(m) = pair_complaint(g, p, st) {
        match first_from(0, broken) {
            Some(i) => {
                assert(m == ordinal_word(i) + " LETTER MUST BE "@ + seq![p[i]] + "."@);
                assert(m.len() > 0);
            },
            None => {
                let i = first_from(0, short)->Some_0;
                assert(m == "GUESS MUST CONTAIN "@ + seq![p[i]] + "."@);
                assert(m.len() > 0);
                assert(copies_revealed(p, st, p[i]) == required_count(p, st, p[i]));
                assert(occurrences(g, p[i]) < copies_revealed(p, st, p[i]));
            },
        }
    }
}

proof fn lemma_message_from(g: Seq<char>, pgs: Seq<Seq<char>>, pss: Seq<Seq<Seq<char>>>, k: int)
    requires
        0 <= k,
    ensures
        hard_mode_message(g, pgs, pss, k) == Seq::<char>::empty() <==> forall|j: int|
            k <= j < pgs.len() && j < pss.len() ==> keeps_hints(g, #[trigger] pgs[j], pss[j]),
    decreases pgs.len() - k,
{
    if k < pgs.len() && k < pss.len() {
        lemma_pair_complaint_meaning(g, pgs[k], pss[k]);
        lemma_message_from(g, pgs, pss, k + 1);
        if let Some(m) = pair_complaint(g, pgs[k], pss[k]) {
            assert(m.len() > 0);
            assert(m != Seq::<char>::empty());
        }
    }
}

/// Hard mode accepts a guess exactly when it keeps the hints of every
/// earlier guess paired with a feedback row (see [`keeps_hints`]); any
/// other guess draws a non-empty complaint.
pub proof fn lemma_hard_mode_accepts_iff_hints_kept(g: Seq<char>, pgs: Seq<Seq<char>>, pss: Seq<Seq<Seq<char>>>)
    ensures
        hard_mode_message(g, pgs, pss, 0) == Seq::<char>::empty() <==> forall|j: int|
            0 <= j < pgs.len() && j < pss.len() ==> keeps_hints(g, #[trigger] pgs[j], pss[j]),
{
    lemma_message_from(g, pgs, pss, 0);
}

/// Position `i` of `p` is green in `st` and the guess does not hold that
/// letter there.
pub open spec fn green_moved(g: Seq<char>, p: Seq<char>, st: Seq<Seq<char>>, i: int) -> bool {
    0 <= i < 5 && i < p.len() && i < st.len() && st[i] == "correct"@ && !(i < g.len() && g[i] == p[i])
}

/// A moved green letter is named first: when `i` is the leftmost position
/// whose green letter the guess moves, the complaint is
/// `<1ST..5TH> LETTER MUST BE <letter>.` for that position.
pub proof fn lemma_moved_green_complaint(g: Seq<char>, p: Seq<char>, st: Seq<Seq<char>>, i: int)
    requires
        green_moved(g, p, st, i),
        forall|j: int| 0 <= j < i ==> !#[trigger] green_moved(g, p, st, j),
    ensures
        pair_complaint(g, p, st) == Some(
            seq!["1ST"@, "2ND"@, "3RD"@, "4TH"@, "5TH"@][i] + " LETTER MUST BE "@ + seq![p[i]] + "."@,
        ),
{
    let broken = broken_pred(g, p, st);
    assert forall|j: int| 0 <= j < i implies !#[trigger] broken(j) by {
        assert(!green_moved(g, p, st, j));
    }
    assert(broken(i));
    lemma_first_from_at(0, i, broken);
}

proof fn lemma_first_from_at(from: int, i: int, pred: spec_fn(int) -> bool)
    requires
        0 <= from <= i < 5,
        pred(i),
        forall|j: int| from <= j < i ==> !#[trigger] pred(j),
    ensures
        first_from(from, pred) == Some(i),
    decreases i - from,
{
    if from < i {
        lemma_first_from_at(from + 1, i, pred);
    }
}

/// The complaint comes from the first earlier guess whose hints are broken:
/// when the guess keeps the hints of every earlier guess before `k` and the
/// `k`-th one complains, its complaint is the answer.
pub proof fn lemma_first_broken_guess_answers(
    g: Seq<char>,
    pgs: Seq<Seq<char>>,
    pss: Seq<Seq<Seq<char>>>,
    k: int,
)
    requires
        0 <= k < pgs.len(),
        k < pss.len(),
        forall|j: int| 0 <= j < k ==> keeps_hints(g, #[trigger] pgs[j], pss[j]),
        pair_complaint(g, pgs[k], pss[k]) is Some,
    ensures
        hard_mode_message(g, pgs, pss, 0) == pair_complaint(g, pgs[k], pss[k])->Some_0,
{
    lemma_message_upto(g, pgs, pss, 0, k);
}

proof fn lemma_message_upto(g: Seq<char>, pgs: Seq<Seq<char>>, pss: Seq<Seq<Seq<char>>>, j: int, k: int)
    requires
        0 <= j <= k < pgs.len(),
        k < pss.len(),
        forall|i: int| 0 <= i < k ==> keeps_hints(g, #[trigger] pgs[i], pss[i]),
        pair_complaint(g, pgs[k], pss[k]) is Some,
    ensures
        hard_mode_message(g, pgs, pss, j) == pair_complaint(g, pgs[k], pss[k])->Some_0,
    decreases k - j,
{
    if j < k {
        lemma_pair_complaint_meaning(g, pgs[j], pss[j]);
        lemma_message_upto(g, pgs, pss, j + 1, k);
    }
}

} // verus!
