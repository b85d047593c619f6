//! New Game+: an opponent that keeps the answer open as long as it can.
use vstd::prelude::*;

use crate::status::{
    count_below, evaluate_chars, lemma_status_mask_bound, mask_from, pack_statuses, scan_stays_in_solution,
    status_at, status_code, status_mask, status_name, status_string, statuses_of, LetterStatus,
};
use crate::text::chars_of;

verus! {

/// The feedback the opponent gives and the words it still considers.
pub struct AdversarialResult {
    pub pattern: Vec<String>,
    pub new_pool: Vec<String>,
}

/// Pool position `k` gets the feedback mask `m` for guess `g`.
pub open spec fn has_mask(pool: Seq<Seq<char>>, g: Seq<char>, m: nat) -> spec_fn(int) -> bool {
    |k: int| status_mask(pool[k], g) == m
}

/// How many pool words would answer guess `g` with feedback mask `m`.
pub open spec fn bucket_size(pool: Seq<Seq<char>>, g: Seq<char>, m: nat) -> nat {
    count_below(pool.len() as int, has_mask(pool, g, m))
}

/// The bucket of pool word `k`: the words answering like it.
pub open spec fn bucket_of(pool: Seq<Seq<char>>, g: Seq<char>, k: int) -> nat {
    bucket_size(pool, g, status_mask(pool[k], g))
}

/// Pool word `k` has a largest bucket, and no earlier word has one as large.
pub open spec fn is_chosen(pool: Seq<Seq<char>>, g: Seq<char>, k: int) -> bool {
    &&& 0 <= k < pool.len()
    &&& forall|j: int| 0 <= j < pool.len() ==> #[trigger] bucket_of(pool, g, j) <= bucket_of(pool, g, k)
    &&& forall|j: int| 0 <= j < k ==> #[trigger] bucket_of(pool, g, j) < bucket_of(pool, g, k)
}

/// The pool words (in pool order) answering guess `g` with mask `m`.
pub open spec fn words_with_mask(pool: Seq<Seq<char>>, g: Seq<char>, m: nat) -> Seq<Seq<char>>
    decreases pool.len(),
{
    if pool.len() == 0 {
        Seq::empty()
    } else {
        let rest = words_with_mask(pool.drop_last(), g, m);
        if status_mask(pool.last(), g) == m {
            rest.push(pool.last())
        } else {
            rest
        }
    }
}

proof fn lemma_words_with_mask_len(pool: Seq<Seq<char>>, g: Seq<char>, m: nat)
    ensures
        words_with_mask(pool, g, m).len() == bucket_size(pool, g, m),
    decreases pool.len(),
{
    if pool.len() > 0 {
        let p = pool.drop_last();
        lemma_words_with_mask_len(p, g, m);
        assert forall|k: int| 0 <= k < p.len() implies #[trigger] has_mask(p, g, m)(k) == has_mask(pool, g, m)(k) by {}
        crate::status::lemma_count_ext(p.len() as int, has_mask(p, g, m), has_mask(pool, g, m));
    }
}

/// The opponent's move as a function of the guess and the pool: `None` for
/// an empty pool; otherwise the feedback of the chosen word (see
/// [`is_chosen`]) and the words answering the same way.
pub open spec fn opponent_move(g: Seq<char>, pool: Seq<Seq<char>>) -> Option<(Seq<Seq<char>>, Seq<Seq<char>>)> {
    if pool.len() == 0 {
        None
    } else {
        let k = choose|k: int| is_chosen(pool, g, k);
        Some((
            Seq::new(5, |i: int| status_name(status_at(pool[k], g, i))),
            words_with_mask(pool, g, status_mask(pool[k], g)),
        ))
    }
}

/// At most one pool word is chosen.
pub proof fn lemma_chosen_unique(pool: Seq<Seq<char>>, g: Seq<char>, k1: int, k2: int)
    requires
        is_chosen(pool, g, k1),
        is_chosen(pool, g, k2),
    ensures
        k1 == k2,
{
    if k1 < k2 {
        assert(bucket_of(pool, g, k1) < bucket_of(pool, g, k2));
        assert(bucket_of(pool, g, k1) <= bucket_of(pool, g, k2));
        assert(bucket_of(pool, g, k2) <= bucket_of(pool, g, k1));
    } else if k2 < k1 {
        assert(bucket_of(pool, g, k2) < bucket_of(pool, g, k1));
        assert(bucket_of(pool, g, k1) <= bucket_of(pool, g, k2));
    }
}

/// One opponent move in New Game+: [`get_adversarial_step`] on a borrowed
/// pool, for any pool words.
pub fn opponent_step(guess: &str, current_pool: &Vec<String>) -> (r: Option<AdversarialResult>)
    ensures
        match (r, opponent_move(guess@, current_pool.deep_view())) {
            (None, None) => true,
            (Some(res), Some((pattern, pool))) => res.pattern.deep_view() == pattern && res.new_pool.deep_view() == pool,
            _ => false,
        },
{
    let r = opponent_step_inner(guess, current_pool);
    proof {
        let pool = current_pool.deep_view();
        if let Some(res) = &r {
            let k = choose|k: int| {
                &&& is_chosen(pool, guess@, k)
                &&& res.pattern.len() == 5
                &&& forall|i: int| 0 <= i < 5 ==> #[trigger] res.pattern@[i]@ == status_name(status_at(current_pool@[k]@, guess@, i))
                &&& res.new_pool.deep_view() == words_with_mask(pool, guess@, status_mask(current_pool@[k]@, guess@))
            };
            let k2 = choose|k: int| is_chosen(pool, guess@, k);
            lemma_chosen_unique(pool, guess@, k, k2);
            assert(pool[k] == current_pool@[k]@);
            assert(res.pattern.deep_view() =~= Seq::new(5, |i: int| status_name(status_at(pool[k], guess@, i))));
        }
    }
    r
}

/// One opponent move in New Game+. The pool words are grouped by the
/// feedback the guess would get against each; the opponent keeps the largest
/// group (on a tie, the group of the earliest pool word) and answers with
/// its feedback. An empty pool gives `None`.
pub fn get_adversarial_step(guess: &str, current_pool: Vec<String>) -> (r: Option<AdversarialResult>)
    requires
        forall|k: int| 0 <= k < current_pool.len() ==> scan_stays_in_solution(#[trigger] current_pool@[k]@, guess@),
    ensures
        match (r, opponent_move(guess@, current_pool.deep_view())) {
            (None, None) => true,
            (Some(res), Some((pattern, pool))) => res.pattern.deep_view() == pattern && res.new_pool.deep_view() == pool,
            _ => false,
        },
{
    opponent_step(guess, &current_pool)
}

fn opponent_step_inner(guess: &str, current_pool: &Vec<String>) -> (r: Option<AdversarialResult>)
    ensures
        current_pool.len() == 0 ==> r is None,
        current_pool.len() > 0 ==> (r matches Some(res) && exists|k: int| {
            &&& is_chosen(current_pool.deep_view(), guess@, k)
            &&& res.pattern.len() == 5
            &&& forall|i: int| 0 <= i < 5 ==> #[trigger] res.pattern@[i]@ == status_name(status_at(current_pool@[k]@, guess@, i))
            &&& res.new_pool.deep_view() == words_with_mask(
                current_pool.deep_view(),
                guess@,
                status_mask(current_pool@[k]@, guess@),
            )
        }),
{
    let ghost pool = current_pool.deep_view();
    let ghost g = guess@;
    let n = current_pool.len();
    if n == 0 {
        return None;
    }
    let gc = chars_of(guess);
    let mut masks: Vec<u16> = Vec::new();
    let mut i: usize = 0;
    while i < n
        invariant
            pool == current_pool.deep_view(),
            g == guess@,
            gc@ == g,
            n == current_pool.len(),
            i <= n,
            masks.len() == i,
            forall|k: int| 0 <= k < i ==> #[trigger] masks@[k] as nat == status_mask(pool[k], g),
            forall|k: int| 0 <= k < i ==> #[trigger] masks@[k] < 1024,
        decreases n - i,
    {
        let w = chars_of(current_pool[i].as_str());
        let st = evaluate_chars(&w, &gc);
        let m = pack_statuses(&st);
        proof {
            lemma_status_mask_bound(pool[i as int], g);
        }
        masks.push(m);
        i = i + 1;
    }
    let mut counts: Vec<usize> = Vec::new();
    let mut m: usize = 0;
    while m < 1024
        invariant
            m <= 1024,
            counts.len() == m,
            forall|x: int| 0 <= x < m ==> #[trigger] counts@[x] == 0,
        decreases 1024 - m,
    {
        counts.push(0);
        m = m + 1;
    }
    let mut i: usize = 0;
    while i < n
        invariant
            pool == current_pool.deep_view(),
            n == current_pool.len(),
            pool.len() == n,
            i <= n,
            masks.len() == n,
            counts.len() == 1024,
            forall|k: int| 0 <= k < n ==> #[trigger] masks@[k] as nat == status_mask(pool[k], g),
            forall|k: int| 0 <= k < n ==> #[trigger] masks@[k] < 1024,
            forall|x: int| 0 <= x < 1024 ==> #[trigger] counts@[x] as nat == count_below(i as int, has_mask(pool, g, x as nat)),
            forall|x: int| 0 <= x < 1024 ==> #[trigger] counts@[x] <= i,
        decreases n - i,
    {
        let mk = masks[i] as usize;
        let c = counts[mk];
        counts.set(mk, c + 1);
        i = i + 1;
    }
    let mut best: usize = 0;
    let mut best_size: usize = counts[masks[0] as usize];
    let mut k: usize = 1;
    while k < n
        invariant
            pool == current_pool.deep_view(),
            n == current_pool.len(),
            pool.len() == n,
            1 <= k <= n,
            best < k,
            masks.len() == n,
            counts.len() == 1024,
            forall|j: int| 0 <= j < n ==> #[trigger] masks@[j] as nat == status_mask(pool[j], g),
            forall|j: int| 0 <= j < n ==> #[trigger] masks@[j] < 1024,
            forall|x: int| 0 <= x < 1024 ==> #[trigger] counts@[x] as nat == bucket_size(pool, g, x as nat),
            best_size as nat == bucket_of(pool, g, best as int),
            forall|j: int| 0 <= j < k ==> #[trigger] bucket_of(pool, g, j) <= best_size,
            forall|j: int| 0 <= j < best ==> #[trigger] bucket_of(pool, g, j) < best_size,
        decreases n - k,
    {
        let size = counts[masks[k] as usize];
        if size > best_size {
            best = k;
            best_size = size;
        }
        k = k + 1;
    }
    let target = masks[best];
    let mut new_pool: Vec<String> = Vec::new();
    let mut i: usize = 0;
    while i < n
        invariant
            pool == current_pool.deep_view(),
            n == current_pool.len(),
            pool.len() == n,
            i <= n,
            masks.len() == n,
            forall|j: int| 0 <= j < n ==> #[trigger] masks@[j] as nat == status_mask(pool[j], g),
            new_pool.deep_view() == words_with_mask(pool.subrange(0, i as int), g, target as nat),
        decreases n - i,
    {
        proof {
            assert(pool.subrange(0, i as int + 1).drop_last() == pool.subrange(0, i as int));
            assert(pool.subrange(0, i as int + 1).last() == pool[i as int]);
        }
        if masks[i] == target {
            let ghost before = new_pool.deep_view();
            new_pool.push(current_pool[i].clone());
            proof {
                assert(new_pool.deep_view() == before.push(pool[i as int]));
            }
        }
        i = i + 1;
    }
    proof {
        assert(pool.subrange(0, n as int) == pool);
    }
    let w = chars_of(current_pool[best].as_str());
    let st = evaluate_chars(&w, &gc);
    let mut pattern: Vec<String> = Vec::new();
    let mut i: usize = 0;
    while i < 5
        invariant
            st@ == statuses_of(current_pool@[best as int]@, g),
            i <= 5,
            pattern.len() == i,
            forall|j: int| 0 <= j < i ==> #[trigger] pattern@[j]@ == status_name(st@[j]),
        decreases 5 - i,
    {
        pattern.push(status_string(st[i]));
        i = i + 1;
    }
    proof {
        assert(pool[best as int] == current_pool@[best as int]@);
        assert(is_chosen(pool, g, best as int));
    }
    Some(AdversarialResult { pattern, new_pool })
}

proof fn lemma_count_positive(n: int, p: spec_fn(int) -> bool, k: int)
    requires
        0 <= k < n,
        p(k),
    ensures
        count_below(n, p) >= 1,
    decreases n,
{
    if n - 1 > k {
        lemma_count_positive(n - 1, p, k);
    }
}

spec fn best_within(pool: Seq<Seq<char>>, g: Seq<char>, n: int, b: int) -> bool {
    &&& 0 <= b < n
    &&& forall|j: int| 0 <= j < n ==> #[trigger] bucket_of(pool, g, j) <= bucket_of(pool, g, b)
    &&& forall|j: int| 0 <= j < b ==> #[trigger] bucket_of(pool, g, j) < bucket_of(pool, g, b)
}

proof fn lemma_best_upto(pool: Seq<Seq<char>>, g: Seq<char>, n: int)
    requires
        1 <= n <= pool.len(),
    ensures
        exists|b: int| #[trigger] best_within(pool, g, n, b),
    decreases n,
{
    if n == 1 {
        assert(best_within(pool, g, 1, 0));
    } else {
        let n1 = n - 1;
        lemma_best_upto(pool, g, n1);
        let b = choose|b: int| #[trigger] best_within(pool, g, n1, b);
        if bucket_of(pool, g, n - 1) > bucket_of(pool, g, b) {
            assert forall|j: int| 0 <= j < n implies #[trigger] bucket_of(pool, g, j) <= bucket_of(pool, g, n - 1) by {
                if j < n - 1 {
                    assert(bucket_of(pool, g, j) <= bucket_of(pool, g, b));
                }
            }
            assert forall|j: int| 0 <= j < n - 1 implies #[trigger] bucket_of(pool, g, j) < bucket_of(pool, g, n - 1) by {
                assert(bucket_of(pool, g, j) <= bucket_of(pool, g, b));
            }
            assert(best_within(pool, g, n, n - 1));
        } else {
            assert forall|j: int| 0 <= j < n implies #[trigger] bucket_of(pool, g, j) <= bucket_of(pool, g, b) by {}
            assert(best_within(pool, g, n, b));
        }
    }
}

proof fn lemma_chosen_exists(pool: Seq<Seq<char>>, g: Seq<char>)
    requires
        pool.len() > 0,
    ensures
        exists|k: int| is_chosen(pool, g, k),
{
    lemma_best_upto(pool, g, pool.len() as int);
    let n = pool.len() as int;
    let b = choose|b: int| #[trigger] best_within(pool, g, n, b);
    assert(is_chosen(pool, g, b));
}

proof fn lemma_mask_from_injective(a: Seq<LetterStatus>, b: Seq<LetterStatus>, i: int)
    requires
        0 <= i <= 5,
        mask_from(a, i) == mask_from(b, i),
    ensures
        forall|j: int| i <= j < 5 ==> #[trigger] a[j] == b[j],
    decreases 5 - i,
{
    if i < 5 {
        let x = status_code(a[i]);
        let y = status_code(b[i]);
        assert(x == y);
        lemma_mask_from_injective(a, b, i + 1);
    }
}

proof fn lemma_words_with_mask_members(pool: Seq<Seq<char>>, g: Seq<char>, m: nat)
    ensures
        forall|j: int|
            0 <= j < words_with_mask(pool, g, m).len() ==> status_mask(#[trigger] words_with_mask(pool, g, m)[j], g)
                == m && pool.contains(words_with_mask(pool, g, m)[j]),
    decreases pool.len(),
{
    if pool.len() > 0 {
        let p = pool.drop_last();
        lemma_words_with_mask_members(p, g, m);
        let r = words_with_mask(pool, g, m);
        assert forall|j: int| 0 <= j < r.len() implies status_mask(#[trigger] r[j], g) == m && pool.contains(r[j]) by {
            let rest = words_with_mask(p, g, m);
            if j < rest.len() {
                assert(r[j] == rest[j]);
                let q = choose|q: int| 0 <= q < p.len() && p[q] == rest[j];
                assert(pool[q] == rest[j]);
            } else {
                assert(r[j] == pool.last());
                assert(pool[pool.len() - 1] == pool.last());
            }
        }
    }
}

/// The opponent plays fair: on a non-empty pool it always answers, it keeps
/// a largest group of words that would all give one and the same feedback,
/// every kept word comes from the pool, and the feedback it answers is
/// exactly what each kept word would give.
pub proof fn lemma_opponent_feedback_fair(g: Seq<char>, pool: Seq<Seq<char>>)
    requires
        pool.len() > 0,
    ensures
        opponent_move(g, pool) is Some,
        opponent_move(g, pool) matches Some((pattern, new_pool)) && {
            &&& new_pool.len() > 0
            &&& forall|j: int| 0 <= j < pool.len() ==> #[trigger] bucket_of(pool, g, j) <= new_pool.len()
            &&& forall|j: int|
                0 <= j < new_pool.len() ==> pool.contains(#[trigger] new_pool[j]) && Seq::new(
                    5,
                    |i: int| status_name(status_at(new_pool[j], g, i)),
                ) == pattern
        },
{
    lemma_chosen_exists(pool, g);
    let k = choose|k: int| is_chosen(pool, g, k);
    let m = status_mask(pool[k], g);
    let new_pool = words_with_mask(pool, g, m);
    let pattern = Seq::new(5, |i: int| status_name(status_at(pool[k], g, i)));
    lemma_words_with_mask_len(pool, g, m);
    lemma_count_positive(pool.len() as int, has_mask(pool, g, m), k);
    lemma_words_with_mask_members(pool, g, m);
    assert forall|j: int| 0 <= j < new_pool.len() implies pool.contains(#[trigger] new_pool[j]) && Seq::new(
        5,
        |i: int| status_name(status_at(new_pool[j], g, i)),
    ) == pattern by {
        let w = new_pool[j];
        lemma_mask_from_injective(statuses_of(w, g), statuses_of(pool[k], g), 0);
        assert forall|i: int| 0 <= i < 5 implies status_at(w, g, i) == status_at(pool[k], g, i) by {
            assert(statuses_of(w, g)[i] == statuses_of(pool[k], g)[i]);
        }
        assert(Seq::new(5, |i: int| status_name(status_at(w, g, i))) =~= pattern);
    }
}

} // verus!
