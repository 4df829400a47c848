use wordle::score::{score, CellMark};

fn chars_of(s: &str) -> Vec<char> {
    s.chars().collect()
}

#[test]
fn speed_vs_abide_credits_each_target_letter_once() {
    let marks = score(&chars_of("SPEED"), &chars_of("ABIDE"));
    assert_eq!(
        marks,
        vec![
            CellMark::Absent,
            CellMark::Absent,
            CellMark::Present,
            CellMark::Absent,
            CellMark::Present,
        ]
    );
}

#[test]
fn paper_vs_apple() {
    let marks = score(&chars_of("PAPER"), &chars_of("APPLE"));
    assert_eq!(
        marks,
        vec![
            CellMark::Present,
            CellMark::Present,
            CellMark::Correct,
            CellMark::Present,
            CellMark::Absent,
        ]
    );
}

#[test]
fn returns_one_mark_per_letter() {
    let marks = score(&chars_of("PAPER"), &chars_of("APPLE"));
    assert_eq!(marks.len(), 5);
    let marks = score(&chars_of("AB"), &chars_of("CD"));
    assert_eq!(marks.len(), 2);
    let marks = score(&chars_of(""), &chars_of(""));
    assert_eq!(marks.len(), 0);
}

#[test]
fn exact_guess_is_all_correct() {
    let marks = score(&chars_of("CRANE"), &chars_of("CRANE"));
    assert!(marks.iter().all(|m| *m == CellMark::Correct));
}

#[test]
fn letters_missing_from_target_are_absent() {
    let marks = score(&chars_of("XYZZY"), &chars_of("ABIDE"));
    assert!(marks.iter().all(|m| *m == CellMark::Absent));
}

#[test]
fn conservation_never_over_credits_a_letter() {
    // The target ABIDE holds one E; the guess SPEED holds two: only one may
    // be credited.
    let guess = chars_of("SPEED");
    let marks = score(&guess, &chars_of("ABIDE"));
    let credited_e = marks
        .iter()
        .zip(guess.iter())
        .filter(|(m, g)| **g == 'E' && **m != CellMark::Absent)
        .count();
    assert_eq!(credited_e, 1);

    // The target APPLE holds two Ps; the guess PUPPY holds three.
    let guess = chars_of("PUPPY");
    let marks = score(&guess, &chars_of("APPLE"));
    let credited_p = marks
        .iter()
        .zip(guess.iter())
        .filter(|(m, g)| **g == 'P' && **m != CellMark::Absent)
        .count();
    assert_eq!(credited_p, 2);
}

#[test]
fn exact_match_wins_over_earlier_present() {
    // The only E of MOVIE is consumed by the exact match at the end of
    // EERIE, so the leading Es of the guess cannot both be credited.
    let marks = score(&chars_of("EERIE"), &chars_of("MOVIE"));
    assert_eq!(marks[4], CellMark::Correct);
    assert_eq!(marks[0], CellMark::Absent);
    assert_eq!(marks[1], CellMark::Absent);
}
