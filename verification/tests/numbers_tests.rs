use sysprog::guessing::{check_guess, next_guess};
use sysprog::mapping::process_vector;
use sysprog::numbers::{classify_number, double, is_even, largest_number, sum_numbers, NumberLabel};

const NUMS: [i32; 10] = [12, 7, 9, 10, 15, 22, 3, 5, 30, 11];

#[test]
fn double_scales_by_twenty() {
    assert_eq!(double(5), 100);
    assert_eq!(double(0), 0);
    assert_eq!(double(-3), -60);
}

#[test]
fn is_even_on_signs() {
    assert!(is_even(4));
    assert!(!is_even(7));
    assert!(is_even(0));
    assert!(is_even(-2));
    assert!(!is_even(-3));
}

#[test]
fn classify_analyzer_numbers() {
    let labels: Vec<NumberLabel> = NUMS.iter().map(|n| classify_number(*n)).collect();
    assert_eq!(
        labels,
        vec![
            NumberLabel::Fizz,
            NumberLabel::Odd,
            NumberLabel::Fizz,
            NumberLabel::Buzz,
            NumberLabel::FizzBuzz,
            NumberLabel::Even,
            NumberLabel::Fizz,
            NumberLabel::Buzz,
            NumberLabel::FizzBuzz,
            NumberLabel::Odd,
        ]
    );
}

#[test]
fn classify_negative_numbers() {
    assert_eq!(classify_number(-15), NumberLabel::FizzBuzz);
    assert_eq!(classify_number(-9), NumberLabel::Fizz);
    assert_eq!(classify_number(-10), NumberLabel::Buzz);
    assert_eq!(classify_number(-4), NumberLabel::Even);
    assert_eq!(classify_number(-7), NumberLabel::Odd);
    assert_eq!(classify_number(0), NumberLabel::FizzBuzz);
}

#[test]
fn sum_and_largest_of_analyzer_numbers() {
    assert_eq!(sum_numbers(&NUMS), 124);
    assert_eq!(largest_number(&NUMS), 30);
    assert_eq!(sum_numbers(&[]), 0);
    assert_eq!(largest_number(&[-5, -2, -9]), -2);
}

#[test]
fn guess_verdicts() {
    assert_eq!(check_guess(42, 42), 0);
    assert_eq!(check_guess(50, 42), 1);
    assert_eq!(check_guess(10, 42), -1);
}

#[test]
fn guessing_game_reaches_secret() {
    let secret = 42;
    let mut guess = 10;
    let mut taken = 0;
    let mut seen = Vec::new();
    loop {
        taken += 1;
        seen.push(guess);
        let verdict = check_guess(guess, secret);
        if verdict == 0 {
            break;
        }
        guess = next_guess(guess, verdict);
    }
    assert_eq!(taken, 3);
    assert_eq!(seen, vec![10, 26, 42]);
    assert_eq!(next_guess(50, 1), 45);
}

#[test]
fn process_vector_doubles_and_replaces() {
    let numbers = vec![1, 2, 3];
    let doubled = process_vector(numbers.clone(), |x| x * 2);
    assert_eq!(doubled, vec![2, 4, 6]);
    let replaced = process_vector(numbers, |x| if x > 2 { 0 } else { x });
    assert_eq!(replaced, vec![1, 2, 0]);
    assert_eq!(process_vector(Vec::new(), |x| x + 1), Vec::<i32>::new());
}
