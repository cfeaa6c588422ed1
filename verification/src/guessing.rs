use vstd::prelude::*;

verus! {

/// How far the next guess goes down after a guess that was too high.
pub const STEP_DOWN: i32 = 5;

/// How far the next guess goes up after a guess that was too low.
pub const STEP_UP: i32 = 16;

/// 0 for a right guess, 1 for a guess that is too high, -1 for one that is
/// too low.
pub open spec fn guess_verdict(guess: int, secret: int) -> int {
    if guess == secret {
        0
    } else if guess > secret {
        1
    } else {
        -1
    }
}

/// Compares a guess with the secret: 0 when equal, 1 when the guess is
/// higher, -1 when it is lower.
pub fn check_guess(guess: i32, secret: i32) -> (r: i32)
    ensures
        r == guess_verdict(guess as int, secret as int),
{
    if guess == secret {
        0
    } else if guess > secret {
        1
    } else {
        -1
    }
}

/// The guess after a wrong one: five lower after "too high", sixteen higher
/// after "too low".
pub open spec fn following_guess(guess: int, verdict: int) -> int {
    if verdict == 1 {
        guess - STEP_DOWN
    } else {
        guess + STEP_UP
    }
}

/// The next guess of the guessing game, given the verdict on the last one
/// (1 or -1).
pub fn next_guess(guess: i32, verdict: i32) -> (r: i32)
    requires
        verdict == 1 || verdict == -1,
        i32::MIN <= following_guess(guess as int, verdict as int) <= i32::MAX,
    ensures
        r == following_guess(guess as int, verdict as int),
{
    if verdict == 1 {
        guess - STEP_DOWN
    } else {
        guess + STEP_UP
    }
}

/// A wrong guess moves toward the secret: down after "too high", up after
/// "too low".
pub proof fn lemma_guess_moves_toward_secret(guess: int, secret: int)
    requires
        guess != secret,
    ensures
        guess > secret ==> following_guess(guess, guess_verdict(guess, secret)) < guess,
        guess < secret ==> following_guess(guess, guess_verdict(guess, secret)) > guess,
{
}

/// The verdict is 0 exactly for the right guess, 1 exactly for a guess above
/// the secret and -1 exactly for one below it; it is always one of the three.
pub proof fn lemma_verdict_law(guess: int, secret: int)
    ensures
        guess_verdict(guess, secret) == 0 <==> guess == secret,
        guess_verdict(guess, secret) == 1 <==> guess > secret,
        guess_verdict(guess, secret) == -1 <==> guess < secret,
{
}

/// After a verdict of "too high" the next guess is five lower; after "too
/// low" it is sixteen higher.
pub proof fn lemma_next_guess_law(guess: int, verdict: int)
    ensures
        verdict == 1 ==> following_guess(guess, verdict) == guess - 5,
        verdict == -1 ==> following_guess(guess, verdict) == guess + 16,
{
}

} // verus!
