//! The scoring engine: compares a completed guess row against the target
//! word and produces one mark per cell, crediting duplicate letters of the
//! guess at most as often as they occur in the target.
//!
//! The mark of every position is pinned down by the spec function
//! [`mark_at`]: a position with the right letter in the right place is
//! `Correct`; any other position is `Present` exactly when the target still
//! has an unconsumed occurrence of that letter — occurrences are consumed
//! first by all `Correct` positions, then by earlier `Present` positions in
//! left-to-right order — and `Absent` otherwise.

use vstd::prelude::*;

verus! {

/// The outcome of scoring one cell of a submitted row.
#[derive(Clone, Copy, PartialEq, Eq, Structural, Debug)]
pub enum CellMark {
    /// Right letter in the right position.
    Correct,
    /// Letter occurs elsewhere in the target and is still unconsumed.
    Present,
    /// Letter not available at this scoring step.
    Absent,
}

/// How often `c` occurs among the first `n` letters of `s`.
pub open spec fn count_upto(s: Seq<char>, c: char, n: int) -> nat
    decreases n,
{
    if n <= 0 {
        0
    } else {
        count_upto(s, c, n - 1) + if s[n - 1] == c {
            1nat
        } else {
            0nat
        }
    }
}

/// How often `c` occurs in `s`.
pub open spec fn count_of(s: Seq<char>, c: char) -> nat {
    count_upto(s, c, s.len() as int)
}

/// Among the first `n` positions, how many are exact matches on the letter
/// `c` (guess and target agree there, and the letter is `c`).
pub open spec fn correct_upto(g: Seq<char>, t: Seq<char>, c: char, n: int) -> nat
    decreases n,
{
    if n <= 0 {
        0
    } else {
        correct_upto(g, t, c, n - 1) + if g[n - 1] == t[n - 1] && t[n - 1] == c {
            1nat
        } else {
            0nat
        }
    }
}

/// How many occurrences of `c` the exact matches consume in all.
pub open spec fn correct_uses(g: Seq<char>, t: Seq<char>, c: char) -> nat {
    correct_upto(g, t, c, g.len() as int)
}

/// The mark of position `i` when guess `g` is scored against target `t`.
///
/// An exact match is `Correct`. Otherwise the position is `Present` exactly
/// when the count of `g[i]` in the target exceeds what the exact matches and
/// the earlier `Present` positions of the same letter have already consumed,
/// and `Absent` otherwise.
pub open spec fn mark_at(g: Seq<char>, t: Seq<char>, i: int) -> CellMark
    decreases i, 1int,
{
    if g[i] == t[i] {
        CellMark::Correct
    } else if count_of(t, g[i]) > correct_uses(g, t, g[i]) + present_upto(g, t, g[i], i) {
        CellMark::Present
    } else {
        CellMark::Absent
    }
}

/// Among the first `n` positions, how many are marked `Present` and hold the
/// letter `c` in the guess.
pub open spec fn present_upto(g: Seq<char>, t: Seq<char>, c: char, n: int) -> nat
    decreases n, 0int,
{
    if n <= 0 {
        0
    } else {
        present_upto(g, t, c, n - 1) + if mark_at(g, t, n - 1) is Present && g[n - 1] == c {
            1nat
        } else {
            0nat
        }
    }
}

/// The whole mark sequence for guess `g` against target `t`.
pub open spec fn marks_of(g: Seq<char>, t: Seq<char>) -> Seq<CellMark> {
    Seq::new(g.len(), |i: int| mark_at(g, t, i))
}

/// Among the first `n` positions, how many hold the letter `c` in the guess
/// and are credited, that is, marked `Correct` or `Present`.
pub open spec fn credited_upto(g: Seq<char>, t: Seq<char>, c: char, n: int) -> nat
    decreases n,
{
    if n <= 0 {
        0
    } else {
        credited_upto(g, t, c, n - 1) + if !(mark_at(g, t, n - 1) is Absent) && g[n - 1] == c {
            1nat
        } else {
            0nat
        }
    }
}

/// How many `Correct` or `Present` marks the letter `c` receives in all.
pub open spec fn credited_of(g: Seq<char>, t: Seq<char>, c: char) -> nat {
    credited_upto(g, t, c, g.len() as int)
}

/// Exact matches on `c` never outnumber the occurrences of `c` in the
/// target: each one consumes a distinct position of the target that holds
/// `c`.
proof fn lemma_correct_le_count(g: Seq<char>, t: Seq<char>, c: char, n: int)
    ensures
        correct_upto(g, t, c, n) <= count_upto(t, c, n),
    decreases n,
{
    if n > 0 {
        lemma_correct_le_count(g, t, c, n - 1);
    }
}

/// The scoring budget: what the exact matches and the first `n` `Present`
/// marks of a letter consume together never exceeds the letter's count in
/// the target.
proof fn lemma_budget(g: Seq<char>, t: Seq<char>, c: char, n: int)
    requires
        g.len() == t.len(),
    ensures
        correct_uses(g, t, c) + present_upto(g, t, c, n) <= count_of(t, c),
    decreases n,
{
    if n <= 0 {
        lemma_correct_le_count(g, t, c, g.len() as int);
    } else {
        lemma_budget(g, t, c, n - 1);
        if mark_at(g, t, n - 1) is Present && g[n - 1] == c {
            assert(count_of(t, g[n - 1]) > correct_uses(g, t, g[n - 1]) + present_upto(
                g,
                t,
                g[n - 1],
                n - 1,
            ));
        }
    }
}

/// A credited position is either an exact match or a `Present` mark, never
/// both, so the credited count splits into the two kinds.
proof fn lemma_credited_split(g: Seq<char>, t: Seq<char>, c: char, n: int)
    ensures
        credited_upto(g, t, c, n) == correct_upto(g, t, c, n) + present_upto(g, t, c, n),
    decreases n,
{
    if n > 0 {
        lemma_credited_split(g, t, c, n - 1);
    }
}

/// Conservation of letters: for every letter, the number of `Correct` or
/// `Present` marks it receives when `g` is scored against `t` never exceeds
/// its number of occurrences in `t`. Duplicate letters of the guess are
/// never over-credited.
pub proof fn lemma_conservation(g: Seq<char>, t: Seq<char>, c: char)
    requires
        g.len() == t.len(),
    ensures
        credited_of(g, t, c) <= count_of(t, c),
{
    lemma_credited_split(g, t, c, g.len() as int);
    lemma_budget(g, t, c, g.len() as int);
}

/// A guess equal to the target is marked `Correct` at every position.
pub proof fn lemma_exact_guess_all_correct(w: Seq<char>)
    ensures
        forall|i: int| 0 <= i < w.len() ==> mark_at(w, w, i) == CellMark::Correct,
{
}

/// A position of `s` contributes to the count of its own letter.
proof fn lemma_count_at_least_one(s: Seq<char>, i: int, n: int)
    requires
        0 <= i < n,
    ensures
        count_upto(s, s[i], n) >= 1,
    decreases n,
{
    if i < n - 1 {
        lemma_count_at_least_one(s, i, n - 1);
    }
}

/// A letter of the guess that occurs nowhere in the target is marked
/// `Absent`.
pub proof fn lemma_missing_letter_absent(g: Seq<char>, t: Seq<char>, i: int)
    requires
        0 <= i < g.len(),
        g.len() == t.len(),
        count_of(t, g[i]) == 0,
    ensures
        mark_at(g, t, i) == CellMark::Absent,
{
    lemma_count_at_least_one(t, i, t.len() as int);
    assert(g[i] != t[i]);
}

/// Counts the occurrences of `c` in `s`.
fn count_char(s: &Vec<char>, c: char) -> (n: usize)
    ensures
        n == count_of(s@, c),
{
    let mut n: usize = 0;
    let mut i: usize = 0;
    while i < s.len()
        invariant
            i <= s@.len(),
            n == count_upto(s@, c, i as int),
            n <= i,
        decreases s@.len() - i,
    {
        if s[i] == c {
            n = n + 1;
        }
        i = i + 1;
    }
    n
}

/// Counts the exact matches on the letter `c`.
fn count_correct(g: &Vec<char>, t: &Vec<char>, c: char) -> (n: usize)
    requires
        g@.len() == t@.len(),
    ensures
        n == correct_uses(g@, t@, c),
{
    let mut n: usize = 0;
    let mut i: usize = 0;
    while i < g.len()
        invariant
            g@.len() == t@.len(),
            i <= g@.len(),
            n == correct_upto(g@, t@, c, i as int),
            n <= i,
        decreases g@.len() - i,
    {
        if g[i] == t[i] && t[i] == c {
            n = n + 1;
        }
        i = i + 1;
    }
    n
}

/// Among the first `n` entries of a mark sequence, how many are `Present`
/// at a position where the guess holds `c`.
pub open spec fn present_count_in(m: Seq<CellMark>, g: Seq<char>, c: char, n: int) -> nat
    decreases n,
{
    if n <= 0 {
        0
    } else {
        present_count_in(m, g, c, n - 1) + if m[n - 1] is Present && g[n - 1] == c {
            1nat
        } else {
            0nat
        }
    }
}

/// Where the first `n` marks agree with `mark_at`, counting `Present` marks
/// in the sequence is the same as `present_upto`.
proof fn lemma_present_count_matches(m: Seq<CellMark>, g: Seq<char>, t: Seq<char>, c: char, n: int)
    requires
        forall|j: int| 0 <= j < n ==> m[j] == mark_at(g, t, j),
    ensures
        present_count_in(m, g, c, n) == present_upto(g, t, c, n),
    decreases n,
{
    if n > 0 {
        lemma_present_count_matches(m, g, t, c, n - 1);
    }
}

/// Counts the `Present` marks for the letter `c` among the first `upto`
/// entries of `marks`.
fn count_present_prefix(marks: &Vec<CellMark>, g: &Vec<char>, c: char, upto: usize) -> (n: usize)
    requires
        upto <= marks@.len(),
        upto <= g@.len(),
    ensures
        n == present_count_in(marks@, g@, c, upto as int),
{
    let mut n: usize = 0;
    let mut i: usize = 0;
    while i < upto
        invariant
            upto <= marks@.len(),
            upto <= g@.len(),
            i <= upto,
            n == present_count_in(marks@, g@, c, i as int),
            n <= i,
        decreases upto - i,
    {
        if marks[i] == CellMark::Present && g[i] == c {
            n = n + 1;
        }
        i = i + 1;
    }
    n
}

/// Scores a completed guess against the target, one mark per letter.
///
/// Pure and deterministic: the result of every position equals [`mark_at`],
/// so exact matches are `Correct`, and the remaining positions are credited
/// as `Present` left to right only while the target still has unconsumed
/// occurrences of their letter.
pub fn score(guess: &Vec<char>, target: &Vec<char>) -> (marks: Vec<CellMark>)
    requires
        guess@.len() == target@.len(),
    ensures
        marks@.len() == guess@.len(),
        forall|i: int| 0 <= i < guess@.len() ==> marks@[i] == mark_at(guess@, target@, i),
        marks@ == marks_of(guess@, target@),
{
    let n = guess.len();
    let mut marks: Vec<CellMark> = Vec::new();

    // First pass: exact matches become Correct, everything else starts Absent.
    let mut i: usize = 0;
    while i < n
        invariant
            n == guess@.len(),
            n == target@.len(),
            i <= n,
            marks@.len() == i,
            forall|j: int|
                0 <= j < i ==> marks@[j] == (if guess@[j] == target@[j] {
                    CellMark::Correct
                } else {
                    CellMark::Absent
                }),
        decreases n - i,
    {
        if guess[i] == target[i] {
            marks.push(CellMark::Correct);
        } else {
            marks.push(CellMark::Absent);
        }
        i = i + 1;
    }

    // Second pass: positions that are not exact matches become Present while
    // the target still has an unconsumed occurrence of their letter.
    let mut i: usize = 0;
    while i < n
        invariant
            n == guess@.len(),
            n == target@.len(),
            i <= n,
            marks@.len() == n,
            forall|j: int| 0 <= j < i ==> marks@[j] == mark_at(guess@, target@, j),
            forall|j: int|
                i <= j < n ==> marks@[j] == (if guess@[j] == target@[j] {
                    CellMark::Correct
                } else {
                    CellMark::Absent
                }),
        decreases n - i,
    {
        if guess[i] != target[i] {
            let c = guess[i];
            let in_target = count_char(target, c);
            let by_correct = count_correct(guess, target, c);
            let by_present = count_present_prefix(&marks, guess, c, i);
            proof {
                lemma_present_count_matches(marks@, guess@, target@, c, i as int);
            }
            if in_target > by_correct && in_target - by_correct > by_present {
                marks[i] = CellMark::Present;
            } else {
                marks[i] = CellMark::Absent;
            }
        }
        i = i + 1;
    }
    proof {
        assert(marks@ =~= marks_of(guess@, target@));
    }
    marks
}

} // verus!
