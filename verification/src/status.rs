//! Letter feedback for a guess against a solution.
use vstd::prelude::*;

use crate::text::chars_of;

verus! {

/// The feedback for one letter of a guess.
#[derive(PartialEq, Eq, Structural, Clone, Copy, Debug)]
pub enum LetterStatus {
    Absent,
    Present,
    Correct,
}

/// Number of `k` in `0..n` for which `p(k)` holds.
pub open spec fn count_below(n: int, p: spec_fn(int) -> bool) -> nat
    decreases n,
{
    if n <= 0 {
        0
    } else {
        count_below(n - 1, p) + if p(n - 1) {
            1nat
        } else {
            0nat
        }
    }
}

/// Position `i` of the guess holds the solution's letter at the same position.
pub open spec fn correct_at(s: Seq<char>, g: Seq<char>, i: int) -> bool {
    0 <= i < 5 && i < g.len() && i < s.len() && g[i] == s[i]
}

/// Occurrences of `c` among the first five solution letters that the guess
/// did not match in place.
pub open spec fn unmatched_in_solution(s: Seq<char>, g: Seq<char>, c: char) -> nat {
    count_below(scan_width(s), unmatched_pred(s, g, c))
}

/// Solution positions examined by the scoring: the first five.
pub open spec fn scan_width(s: Seq<char>) -> int {
    if s.len() < 5 {
        s.len() as int
    } else {
        5
    }
}

/// Solution position `j` holds `c` and is not matched in place.
pub open spec fn unmatched_pred(s: Seq<char>, g: Seq<char>, c: char) -> spec_fn(int) -> bool {
    |j: int| !correct_at(s, g, j) && s[j] == c
}

/// Occurrences of `c` at guess positions before `i` that are not in place.
pub open spec fn earlier_unmatched_in_guess(s: Seq<char>, g: Seq<char>, c: char, i: int) -> nat {
    count_below(i, |k: int| k < g.len() && !correct_at(s, g, k) && g[k] == c)
}

/// The Wordle rule for position `i` (`0 <= i < 5`): correct when the letter
/// is in place; present when it is not, and fewer earlier guess positions
/// claimed this letter than the solution has unmatched copies of it;
/// absent otherwise (also past the end of a short guess).
pub open spec fn status_at(s: Seq<char>, g: Seq<char>, i: int) -> LetterStatus {
    if correct_at(s, g, i) {
        LetterStatus::Correct
    } else if i < g.len() && earlier_unmatched_in_guess(s, g, g[i], i)
        < unmatched_in_solution(s, g, g[i]) {
        LetterStatus::Present
    } else {
        LetterStatus::Absent
    }
}

/// The five statuses of a guess.
pub open spec fn statuses_of(s: Seq<char>, g: Seq<char>) -> Seq<LetterStatus> {
    Seq::new(5, |i: int| status_at(s, g, i))
}

/// Scoring a guess reads a solution letter at every slot it searches; a
/// solution shorter than five letters is only safe to scan when every
/// evaluated guess letter finds its match.
pub open spec fn scan_stays_in_solution(s: Seq<char>, g: Seq<char>) -> bool {
    s.len() >= 5 || forall|i: int|
        0 <= i < 5 && i < g.len() ==> #[trigger] status_at(s, g, i) != LetterStatus::Absent
}

/// The name of a status as the game writes it.
pub open spec fn status_name(st: LetterStatus) -> Seq<char> {
    match st {
        LetterStatus::Absent => "absent"@,
        LetterStatus::Present => "present"@,
        LetterStatus::Correct => "correct"@,
    }
}

/// Free solution slots (among the first five) holding `c`.
spec fn free_slots(s: Seq<char>, used: Seq<bool>, c: char) -> nat {
    count_below(scan_width(s), free_pred(s, used, c))
}

spec fn free_pred(s: Seq<char>, used: Seq<bool>, c: char) -> spec_fn(int) -> bool {
    |j: int| !used[j] && s[j] == c
}

pub proof fn lemma_count_ext(n: int, p: spec_fn(int) -> bool, q: spec_fn(int) -> bool)
    requires
        forall|k: int| 0 <= k < n ==> #[trigger] p(k) == q(k),
    ensures
        count_below(n, p) == count_below(n, q),
    decreases n,
{
    if n > 0 {
        lemma_count_ext(n - 1, p, q);
    }
}

proof fn lemma_count_zero(n: int, p: spec_fn(int) -> bool)
    requires
        forall|k: int| 0 <= k < n ==> !#[trigger] p(k),
    ensures
        count_below(n, p) == 0,
    decreases n,
{
    if n > 0 {
        lemma_count_zero(n - 1, p);
    }
}

proof fn lemma_count_drop_one(n: int, p: spec_fn(int) -> bool, q: spec_fn(int) -> bool, j: int)
    requires
        0 <= j < n,
        p(j),
        !q(j),
        forall|k: int| 0 <= k < n && k != j ==> #[trigger] p(k) == q(k),
    ensures
        count_below(n, q) + 1 == count_below(n, p),
    decreases n,
{
    if n - 1 == j {
        lemma_count_ext(n - 1, p, q);
    } else {
        lemma_count_drop_one(n - 1, p, q, j);
    }
}

/// Scores a guess (as characters) against a solution (as characters).
pub fn evaluate_chars(sol: &Vec<char>, guess: &Vec<char>) -> (st: Vec<LetterStatus>)
    ensures
        st@ == statuses_of(sol@, guess@),
{
    let ghost s = sol@;
    let ghost g = guess@;
    let slen: usize = if sol.len() < 5 { sol.len() } else { 5 };
    let mut st: Vec<LetterStatus> = Vec::new();
    let mut used: Vec<bool> = Vec::new();
    let mut i: usize = 0;
    while i < 5
        invariant
            s == sol@,
            g == guess@,
            i <= 5,
            st.len() == i,
            used.len() == i,
            forall|k: int|
                0 <= k < i ==> #[trigger] st@[k] == (if correct_at(s, g, k) {
                    LetterStatus::Correct
                } else {
                    LetterStatus::Absent
                }),
            forall|k: int| 0 <= k < i ==> #[trigger] used@[k] == correct_at(s, g, k),
        decreases 5 - i,
    {
        let c = i < guess.len() && i < sol.len() && guess[i] == sol[i];
        if c {
            st.push(LetterStatus::Correct);
        } else {
            st.push(LetterStatus::Absent);
        }
        used.push(c);
        i = i + 1;
    }
    proof {
        assert forall|c: char| #[trigger] free_slots(s, used@, c) == unmatched_in_solution(s, g, c) by {
            lemma_count_ext(slen as int, free_pred(s, used@, c), unmatched_pred(s, g, c));
        }
    }
    let mut i: usize = 0;
    while i < 5
        invariant
            s == sol@,
            g == guess@,
            slen as int == (if s.len() < 5 { s.len() as int } else { 5 }),
            i <= 5,
            st.len() == 5,
            used.len() == 5,
            forall|k: int| 0 <= k < i ==> #[trigger] st@[k] == status_at(s, g, k),
            forall|k: int|
                i <= k < 5 ==> #[trigger] st@[k] == (if correct_at(s, g, k) {
                    LetterStatus::Correct
                } else {
                    LetterStatus::Absent
                }),
            forall|c: char|
                #[trigger] free_slots(s, used@, c) + (if earlier_unmatched_in_guess(s, g, c, i as int)
                    < unmatched_in_solution(s, g, c) {
                    earlier_unmatched_in_guess(s, g, c, i as int)
                } else {
                    unmatched_in_solution(s, g, c)
                }) == unmatched_in_solution(s, g, c),
        decreases 5 - i,
    {
        let ghost used0 = used@;
        let ghost st0 = st@;
        if i < guess.len() && !(i < sol.len() && guess[i] == sol[i]) {
            let gc = guess[i];
            let mut j: usize = 0;
            let mut found = false;
            while j < slen
                invariant
                    s == sol@,
                    g == guess@,
                    slen as int == (if s.len() < 5 { s.len() as int } else { 5 }),
                    i < 5,
                    i < g.len(),
                    gc == g[i as int],
                    j <= slen,
                    st.len() == 5,
                    used.len() == 5,
                    !found ==> used@ == used0 && st@ == st0,
                    !found ==> forall|k: int| 0 <= k < j ==> !(!used0[k] && s[k] == gc),
                            used0.len() == 5,
                    found ==> exists|k: int|
                        0 <= k < slen && !used0[k] && s[k] == gc && used@ == used0.update(k, true),
                    found ==> st@ == st0.update(i as int, LetterStatus::Present),
                decreases slen - j + (if found { 0int } else { 1int }),
            {
                if !found && !used[j] && gc == sol[j] {
                    proof {
                        assert(used@.update(j as int, true) == used0.update(j as int, true));
                    }
                    st.set(i, LetterStatus::Present);
                    used.set(j, true);
                    found = true;
                    j = slen;
                } else {
                    j = j + 1;
                }
            }
            proof {
                let ii = i as int;
                let c = gc;
                assert(!correct_at(s, g, ii));
                let pc = |k: int| k < g.len() && !correct_at(s, g, k) && g[k] == c;
                assert(earlier_unmatched_in_guess(s, g, c, ii + 1) == earlier_unmatched_in_guess(
                    s,
                    g,
                    c,
                    ii,
                ) + 1);
                if found {
                    let k = choose|k: int|
                        0 <= k < slen && !used0[k] && s[k] == gc && used@ == used0.update(k, true);
                    lemma_count_drop_one(slen as int, free_pred(s, used0, c), free_pred(s, used@, c), k);
                    assert(free_slots(s, used0, c) > 0);
                    assert(status_at(s, g, ii) == LetterStatus::Present);
                    assert forall|d: char| d != c implies #[trigger] free_slots(s, used@, d)
                        == free_slots(s, used0, d) by {
                        lemma_count_ext(slen as int, free_pred(s, used0, d), free_pred(s, used@, d));
                    }
                    assert forall|d: char| d != c implies #[trigger] earlier_unmatched_in_guess(
                        s,
                        g,
                        d,
                        ii + 1,
                    ) == earlier_unmatched_in_guess(s, g, d, ii) by {}
                } else {
                    lemma_count_zero(slen as int, free_pred(s, used0, c));
                    assert(free_slots(s, used0, c) == 0);
                    assert(status_at(s, g, ii) == LetterStatus::Absent);
                    assert forall|d: char| d != c implies #[trigger] earlier_unmatched_in_guess(
                        s,
                        g,
                        d,
                        ii + 1,
                    ) == earlier_unmatched_in_guess(s, g, d, ii) by {}
                }
            }
        } else {
            proof {
                let ii = i as int;
                assert forall|d: char| #[trigger] earlier_unmatched_in_guess(s, g, d, ii + 1)
                    == earlier_unmatched_in_guess(s, g, d, ii) by {}
            }
        }
        i = i + 1;
    }
    proof {
        assert(st@ == statuses_of(s, g));
    }
    st
}


/// The status as the string the game stores and compares.
pub fn status_string(st: LetterStatus) -> (r: String)
    ensures
        r@ == status_name(st),
{
    match st {
        LetterStatus::Absent => "absent".to_string(),
        LetterStatus::Present => "present".to_string(),
        LetterStatus::Correct => "correct".to_string(),
    }
}

/// The status that a stored name denotes, if any.
pub fn status_from_string(name: &String) -> (r: Option<LetterStatus>)
    ensures
        r matches Some(st) ==> status_name(st) == name@,
        r is None ==> forall|st: LetterStatus| status_name(st) != name@,
{
    let correct = "correct".to_string();
    let present = "present".to_string();
    let absent = "absent".to_string();
    if *name == correct {
        Some(LetterStatus::Correct)
    } else if *name == present {
        Some(LetterStatus::Present)
    } else if *name == absent {
        Some(LetterStatus::Absent)
    } else {
        None
    }
}

/// Whether scoring `guess` against `solution` stays inside the solution
/// (see [`scan_stays_in_solution`]): the test a caller makes before
/// [`calculate_statuses`].
pub fn scoring_in_bounds(solution: &str, guess: &str) -> (r: bool)
    ensures
        r == scan_stays_in_solution(solution@, guess@),
{
    let sol = chars_of(solution);
    if sol.len() >= 5 {
        return true;
    }
    let g = chars_of(guess);
    let st = evaluate_chars(&sol, &g);
    let mut i: usize = 0;
    while i < 5 && i < g.len()
        invariant
            st@ == statuses_of(solution@, guess@),
            g@ == guess@,
            sol@ == solution@,
            sol.len() < 5,
            i <= 5,
            forall|k: int| 0 <= k < i && k < g.len() ==> #[trigger] status_at(solution@, guess@, k) != LetterStatus::Absent,
        decreases 5 - i,
    {
        if st[i] == LetterStatus::Absent {
            assert(status_at(solution@, guess@, i as int) == LetterStatus::Absent);
            return false;
        }
        i = i + 1;
    }
    true
}

/// Feedback for `guess` against `solution`: five entries, each `"correct"`,
/// `"present"` or `"absent"`, following [`status_at`].
pub fn calculate_statuses(solution: &str, guess: &str) -> (result: Vec<String>)
    requires
        scan_stays_in_solution(solution@, guess@),
    ensures
        result.len() == 5,
        forall|i: int| 0 <= i < 5 ==> #[trigger] result@[i]@ == status_name(status_at(solution@, guess@, i)),
{
    let sol = chars_of(solution);
    let g = chars_of(guess);
    let st = evaluate_chars(&sol, &g);
    let mut result: Vec<String> = Vec::new();
    let mut i: usize = 0;
    while i < 5
        invariant
            st@ == statuses_of(solution@, guess@),
            i <= 5,
            result.len() == i,
            forall|k: int| 0 <= k < i ==> #[trigger] result@[k]@ == status_name(st@[k]),
        decreases 5 - i,
    {
        result.push(status_string(st[i]));
        i = i + 1;
    }
    result
}

/// The feedback list the browser receives for a guess: the same five names
/// as [`calculate_statuses`].
pub fn get_guess_statuses(solution: &str, guess: &str) -> (result: Vec<String>)
    requires
        scan_stays_in_solution(solution@, guess@),
    ensures
        result.len() == 5,
        forall|i: int| 0 <= i < 5 ==> #[trigger] result@[i]@ == status_name(status_at(solution@, guess@, i)),
{
    calculate_statuses(solution, guess)
}

/// A guess identical to a solution of at least five letters is correct at
/// every position.
pub proof fn lemma_exact_match_all_correct(word: Seq<char>)
    requires
        word.len() >= 5,
    ensures
        scan_stays_in_solution(word, word),
        forall|i: int| 0 <= i < 5 ==> #[trigger] status_at(word, word, i) == LetterStatus::Correct,
{
}

/// A guess is correct at all five positions exactly when its first five
/// letters are those of the solution.
pub proof fn lemma_all_correct_iff_same_word(solution: Seq<char>, guess: Seq<char>)
    ensures
        (forall|i: int| 0 <= i < 5 ==> #[trigger] status_at(solution, guess, i) == LetterStatus::Correct) <==> (
        solution.len() >= 5 && guess.len() >= 5 && guess.subrange(0, 5) == solution.subrange(0, 5)),
{
    if forall|i: int| 0 <= i < 5 ==> #[trigger] status_at(solution, guess, i) == LetterStatus::Correct {
        assert(status_at(solution, guess, 4) == LetterStatus::Correct);
        assert forall|i: int| 0 <= i < 5 implies guess.subrange(0, 5)[i] == solution.subrange(0, 5)[i] by {
            assert(status_at(solution, guess, i) == LetterStatus::Correct);
        }
        assert(guess.subrange(0, 5) =~= solution.subrange(0, 5));
    }
    if solution.len() >= 5 && guess.len() >= 5 && guess.subrange(0, 5) == solution.subrange(0, 5) {
        assert forall|i: int| 0 <= i < 5 implies #[trigger] status_at(solution, guess, i) == LetterStatus::Correct by {
            assert(guess.subrange(0, 5)[i] == solution.subrange(0, 5)[i]);
        }
    }
}

/// Positions past the end of a short guess are absent.
pub proof fn lemma_short_guess_padding(solution: Seq<char>, guess: Seq<char>)
    requires
        guess.len() < 5,
    ensures
        forall|i: int| guess.len() <= i < 5 ==> #[trigger] status_at(solution, guess, i) == LetterStatus::Absent,
{
}

/// The two-bit code of a status: absent 0, present 1, correct 2.
pub open spec fn status_code(st: LetterStatus) -> nat {
    match st {
        LetterStatus::Absent => 0,
        LetterStatus::Present => 1,
        LetterStatus::Correct => 2,
    }
}

/// The statuses from position `i` on, packed two bits per position, position
/// `i` in the lowest bits.
pub open spec fn mask_from(st: Seq<LetterStatus>, i: int) -> nat
    decreases 5 - i,
{
    if i >= 5 || i < 0 {
        0
    } else {
        status_code(st[i]) + 4 * mask_from(st, i + 1)
    }
}

/// The packed feedback of a guess: the status at position `i` occupies bits
/// `2 * i` and `2 * i + 1`.
pub open spec fn status_mask(s: Seq<char>, g: Seq<char>) -> nat {
    mask_from(statuses_of(s, g), 0)
}

pub proof fn lemma_mask_bound(st: Seq<LetterStatus>, i: int)
    requires
        0 <= i <= 5,
    ensures
        mask_from(st, i) < 1024,
        i == 4 ==> mask_from(st, i) < 4,
        i == 3 ==> mask_from(st, i) < 16,
        i == 2 ==> mask_from(st, i) < 64,
        i == 1 ==> mask_from(st, i) < 256,
    decreases 5 - i,
{
    if i < 5 {
        lemma_mask_bound(st, i + 1);
    }
}

/// Every feedback mask is below 1024.
pub proof fn lemma_status_mask_bound(s: Seq<char>, g: Seq<char>)
    ensures
        status_mask(s, g) < 1024,
{
    lemma_mask_bound(statuses_of(s, g), 0);
}

/// Packs statuses computed by [`evaluate_chars`] into a mask.
pub fn pack_statuses(st: &Vec<LetterStatus>) -> (mask: u16)
    requires
        st.len() == 5,
    ensures
        mask as nat == mask_from(st@, 0),
{
    let mut mask: u16 = 0;
    let mut i: usize = 5;
    while i > 0
        invariant
            st.len() == 5,
            i <= 5,
            mask as nat == mask_from(st@, i as int),
        decreases i,
    {
        i = i - 1;
        proof {
            lemma_mask_bound(st@, i as int + 1);
        }
        let code: u16 = match st[i] {
            LetterStatus::Absent => 0,
            LetterStatus::Present => 1,
            LetterStatus::Correct => 2,
        };
        mask = code + 4 * mask;
    }
    mask
}

/// The feedback of `guess` against `solution` packed into a mask (see
/// [`status_mask`]).
pub fn calculate_status_mask(solution: &str, guess: &str) -> (mask: u16)
    requires
        scan_stays_in_solution(solution@, guess@),
    ensures
        mask as nat == status_mask(solution@, guess@),
{
    let sol = chars_of(solution);
    let g = chars_of(guess);
    let st = evaluate_chars(&sol, &g);
    pack_statuses(&st)
}

/// Position `i` (among the first five) of `w` holds `c`.
pub open spec fn letter_pred(w: Seq<char>, c: char) -> spec_fn(int) -> bool {
    |i: int| i < w.len() && w[i] == c
}

/// Copies of `c` among the first five letters of `w`.
pub open spec fn letters_in_first_five(w: Seq<char>, c: char) -> nat {
    count_below(5, letter_pred(w, c))
}

/// Guess position `i` holds `c` and its feedback is not absent.
pub open spec fn revealed_pred(s: Seq<char>, g: Seq<char>, c: char) -> spec_fn(int) -> bool {
    |i: int| i < g.len() && g[i] == c && status_at(s, g, i) != LetterStatus::Absent
}

/// Guess positions holding `c` whose feedback is correct or present.
pub open spec fn revealed_count(s: Seq<char>, g: Seq<char>, c: char) -> nat {
    count_below(5, revealed_pred(s, g, c))
}

spec fn correct_pred(s: Seq<char>, g: Seq<char>, c: char) -> spec_fn(int) -> bool {
    |i: int| correct_at(s, g, i) && g[i] == c
}

spec fn spare_pred(s: Seq<char>, g: Seq<char>, c: char) -> spec_fn(int) -> bool {
    |j: int| j < s.len() && !correct_at(s, g, j) && s[j] == c
}

/// The smaller of two counts.
pub open spec fn min_nat(a: nat, b: nat) -> nat {
    if a < b {
        a
    } else {
        b
    }
}

proof fn lemma_count_prefix(m: int, n: int, p: spec_fn(int) -> bool, q: spec_fn(int) -> bool)
    requires
        0 <= m <= n,
        forall|k: int| 0 <= k < m ==> #[trigger] p(k) == q(k),
        forall|k: int| m <= k < n ==> !#[trigger] q(k),
    ensures
        count_below(n, q) == count_below(m, p),
    decreases n,
{
    if n > m {
        lemma_count_prefix(m, n - 1, p, q);
    } else {
        lemma_count_ext(n, p, q);
    }
}

proof fn lemma_revealed_upto(s: Seq<char>, g: Seq<char>, c: char, n: int)
    requires
        0 <= n <= 5,
    ensures
        count_below(n, letter_pred(g, c)) == count_below(n, correct_pred(s, g, c))
            + earlier_unmatched_in_guess(s, g, c, n),
        count_below(n, letter_pred(s, c)) == count_below(n, correct_pred(s, g, c)) + count_below(
            n,
            spare_pred(s, g, c),
        ),
        count_below(n, revealed_pred(s, g, c)) == count_below(n, correct_pred(s, g, c)) + min_nat(
            earlier_unmatched_in_guess(s, g, c, n),
            unmatched_in_solution(s, g, c),
        ),
    decreases n,
{
    if n > 0 {
        lemma_revealed_upto(s, g, c, n - 1);
        let i = n - 1;
        assert(earlier_unmatched_in_guess(s, g, c, n) == earlier_unmatched_in_guess(s, g, c, i) + if i
            < g.len() && !correct_at(s, g, i) && g[i] == c {
            1nat
        } else {
            0nat
        });
    }
}

/// For every letter, the guess positions holding it that get `correct` or
/// `present` feedback number exactly the smaller of its copies among the
/// first five letters of the guess and of the solution.
pub proof fn lemma_revealed_letter_count(s: Seq<char>, g: Seq<char>, c: char)
    ensures
        revealed_count(s, g, c) == min_nat(letters_in_first_five(g, c), letters_in_first_five(s, c)),
{
    lemma_revealed_upto(s, g, c, 5);
    lemma_count_prefix(scan_width(s), 5, unmatched_pred(s, g, c), spare_pred(s, g, c));
}

/// Counting past positions where the predicate fails adds nothing.
pub proof fn lemma_count_below_tail(m: int, n: int, p: spec_fn(int) -> bool)
    requires
        0 <= m <= n,
        forall|k: int| m <= k < n ==> !#[trigger] p(k),
    ensures
        count_below(n, p) == count_below(m, p),
    decreases n,
{
    if n > m {
        lemma_count_below_tail(m, n - 1, p);
    }
}

} // verus!
