//! The word lists: daily solutions and further accepted guesses.
use vstd::prelude::*;

use crate::text::{split_nonempty_lines, nonempty_lines, to_lower, to_upper, unicode_lowercase, unicode_uppercase};

verus! {

/// The daily solution words and the further words accepted as guesses,
/// both lower case in the shipped lists.
pub struct WordList {
    pub words: Vec<String>,
    pub valid_guesses: Vec<String>,
}

/// The solution of the day a timestamp falls in.
pub struct SolutionData {
    /// The solution word, upper case.
    pub solution: String,
    /// Days since the Unix epoch.
    pub solution_game_date: u64,
    /// Position of the solution in the solution list.
    pub solution_index: i64,
    /// Start of the next day, in milliseconds since the Unix epoch.
    pub tomorrow: u64,
}

/// Milliseconds in a day.
pub const DAY_MS: u64 = 86400000;

impl WordList {
    /// Builds the lists from their texts, one word per line (empty lines
    /// are skipped).
    pub fn from_texts(words_text: &str, guesses_text: &str) -> (r: WordList)
        ensures
            r.words.deep_view() == nonempty_lines(words_text@),
            r.valid_guesses.deep_view() == nonempty_lines(guesses_text@),
    {
        WordList { words: split_nonempty_lines(words_text), valid_guesses: split_nonempty_lines(guesses_text) }
    }
}

fn contains_string(list: &Vec<String>, w: &String) -> (r: bool)
    ensures
        r == list.deep_view().contains(w@),
{
    let ghost d = list.deep_view();
    let mut i: usize = 0;
    while i < list.len()
        invariant
            d == list.deep_view(),
            i <= list.len(),
            forall|k: int| 0 <= k < i ==> d[k] != w@,
        decreases list.len() - i,
    {
        if list[i] == *w {
            proof {
                assert(d[i as int] == w@);
            }
            return true;
        }
        i = i + 1;
    }
    false
}

/// Whether a word (in any letter case) is a solution word or an accepted
/// guess: its lower-case form is looked up in both lists.
pub fn is_word_in_list(list: &WordList, word: &str) -> (r: bool)
    ensures
        r == (list.words.deep_view().contains(unicode_lowercase(word@))
            || list.valid_guesses.deep_view().contains(unicode_lowercase(word@))),
{
    let w = to_lower(word);
    contains_string(&list.words, &w) || contains_string(&list.valid_guesses, &w)
}

/// Index of the solution of the day a timestamp (milliseconds) falls in.
pub open spec fn solution_index_for(timestamp: u64, n: nat) -> nat
    recommends
        n > 0,
{
    ((timestamp / DAY_MS) as nat) % n
}

/// The solution of the day that `timestamp` (milliseconds since the Unix
/// epoch) falls in: day `d = timestamp / 86400000` picks the word at
/// `d % words.len()`, upper-cased; `tomorrow` is `(d + 1) * 86400000`.
pub fn get_solution(list: &WordList, timestamp: u64) -> (r: SolutionData)
    requires
        0 < list.words.len() <= i64::MAX,
        (timestamp / DAY_MS + 1) * DAY_MS <= u64::MAX,
    ensures
        r.solution_game_date == timestamp / DAY_MS,
        0 <= r.solution_index < list.words.len(),
        r.solution_index as int == (timestamp / DAY_MS) as int % list.words.len() as int,
        r.solution_index as nat == solution_index_for(timestamp, list.words.len() as nat),
        r.solution@ == unicode_uppercase(list.words.deep_view()[r.solution_index as int]),
        r.solution@ == unicode_uppercase(list.words@[(timestamp / DAY_MS) as int % list.words.len() as int]@),
        r.tomorrow == (timestamp / DAY_MS + 1) * DAY_MS,
        timestamp < r.tomorrow <= timestamp + DAY_MS,
{
    let day = timestamp / DAY_MS;
    let n = list.words.len() as u64;
    let index = (day % n) as usize;
    let tomorrow = (day + 1) * DAY_MS;
    let solution = to_upper(list.words[index].as_str());
    proof {
        assert(list.words.deep_view()[index as int] == list.words@[index as int]@);
    }
    SolutionData { solution, solution_game_date: day, solution_index: index as i64, tomorrow }
}

/// The solution follows the calendar: two timestamps of the same day get the
/// same word, and with `n` words the list starts over every `n` days.
pub proof fn lemma_solution_calendar(t1: u64, t2: u64, n: nat)
    requires
        n > 0,
    ensures
        t1 / DAY_MS == t2 / DAY_MS ==> solution_index_for(t1, n) == solution_index_for(t2, n),
        t2 == t1 + n * DAY_MS ==> t2 / DAY_MS == t1 / DAY_MS + n && solution_index_for(t1, n)
            == solution_index_for(t2, n),
{
    if t2 == t1 + n * DAY_MS {
        vstd::arithmetic::div_mod::lemma_hoist_over_denominator(t1 as int, n as int, DAY_MS as nat);
        let d = (t1 / DAY_MS) as int;
        vstd::arithmetic::div_mod::lemma_mod_add_multiples_vanish(d, n as int);
    }
}

/// Every solution word, upper-cased, in list order: the opponent's starting
/// pool in New Game+.
pub fn get_ai_word_list(list: &WordList) -> (r: Vec<String>)
    ensures
        r.len() == list.words.len(),
        forall|i: int| 0 <= i < r.len() ==> #[trigger] r@[i]@ == unicode_uppercase(list.words@[i]@),
{
    let mut r: Vec<String> = Vec::new();
    let mut i: usize = 0;
    while i < list.words.len()
        invariant
            i <= list.words.len(),
            r.len() == i,
            forall|k: int| 0 <= k < i ==> #[trigger] r@[k]@ == unicode_uppercase(list.words@[k]@),
        decreases list.words.len() - i,
    {
        r.push(to_upper(list.words[i].as_str()));
        i = i + 1;
    }
    r
}

} // verus!
