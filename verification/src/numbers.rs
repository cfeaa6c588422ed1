use vstd::prelude::*;

verus! {

/// Twenty times `x`: twice `x`, scaled by ten.
pub open spec fn doubled_times_ten(x: int) -> int {
    x * 2 * 10
}

/// Computes `x * 2 * 10`.
pub fn double(x: i32) -> (r: i32)
    requires
        i32::MIN <= doubled_times_ten(x as int) <= i32::MAX,
    ensures
        r == doubled_times_ten(x as int),
{
    let y: i32 = 10;
    x * 2 * y
}

/// Whether `n` is divisible by two.
pub open spec fn spec_even(n: int) -> bool {
    n % 2 == 0
}

/// Tells whether `n` is even.
pub fn is_even(n: i32) -> (r: bool)
    ensures
        r == spec_even(n as int),
{
    n % 2 == 0
}

/// How the number analyzer describes a number.
#[derive(Clone, Copy, Debug, PartialEq, Eq, Structural)]
pub enum NumberLabel {
    FizzBuzz,
    Fizz,
    Buzz,
    Even,
    Odd,
}

/// The label of `n`: divisibility by both 3 and 5, by 3, by 5 comes first;
/// otherwise its parity.
pub open spec fn label_of(n: int) -> NumberLabel {
    if n % 3 == 0 && n % 5 == 0 {
        NumberLabel::FizzBuzz
    } else if n % 3 == 0 {
        NumberLabel::Fizz
    } else if n % 5 == 0 {
        NumberLabel::Buzz
    } else if spec_even(n) {
        NumberLabel::Even
    } else {
        NumberLabel::Odd
    }
}

/// Whether 3 divides `n`.
fn divisible_by_three(n: i32) -> (b: bool)
    ensures
        b == ((n as int) % 3 == 0),
{
    n % 3 == 0
}

/// Whether 5 divides `n`.
fn divisible_by_five(n: i32) -> (b: bool)
    ensures
        b == ((n as int) % 5 == 0),
{
    n % 5 == 0
}

/// Labels `n` as FizzBuzz, Fizz, Buzz, even or odd.
pub fn classify_number(n: i32) -> (l: NumberLabel)
    ensures
        l == label_of(n as int),
{
    let by3 = divisible_by_three(n);
    let by5 = divisible_by_five(n);
    if by3 && by5 {
        NumberLabel::FizzBuzz
    } else if by3 {
        NumberLabel::Fizz
    } else if by5 {
        NumberLabel::Buzz
    } else if is_even(n) {
        NumberLabel::Even
    } else {
        NumberLabel::Odd
    }
}

/// The sum of the numbers.
pub open spec fn seq_sum(s: Seq<i32>) -> int
    decreases s.len(),
{
    if s.len() == 0 {
        0
    } else {
        seq_sum(s.drop_last()) + s.last()
    }
}

/// Every running sum, from left to right, fits an `i32`.
pub open spec fn running_sums_fit(s: Seq<i32>) -> bool {
    forall|k: int| 0 <= k <= s.len() ==> i32::MIN <= #[trigger] seq_sum(s.take(k)) <= i32::MAX
}

/// Adds up the numbers from left to right.
pub fn sum_numbers(nums: &[i32]) -> (r: i32)
    requires
        running_sums_fit(nums@),
    ensures
        r == seq_sum(nums@),
{
    let mut i: usize = 0;
    let mut sum: i32 = 0;
    assert(nums@.take(0) =~= Seq::<i32>::empty());
    while i < nums.len()
        invariant
            i <= nums@.len(),
            running_sums_fit(nums@),
            sum == seq_sum(nums@.take(i as int)),
        decreases nums@.len() - i,
    {
        assert(nums@.take(i + 1).drop_last() =~= nums@.take(i as int));
        assert(i32::MIN <= seq_sum(nums@.take(i + 1)) <= i32::MAX);
        sum = sum + nums[i];
        i = i + 1;
    }
    assert(nums@.take(i as int) =~= nums@);
    sum
}

/// Finds the largest of a non-empty list of numbers.
pub fn largest_number(nums: &[i32]) -> (r: i32)
    requires
        nums@.len() > 0,
    ensures
        nums@.contains(r),
        forall|i: int| 0 <= i < nums@.len() ==> nums@[i] <= r,
{
    let mut i: usize = 0;
    let mut largest: i32 = nums[0];
    while i < nums.len()
        invariant
            i <= nums@.len(),
            nums@.len() > 0,
            nums@.contains(largest),
            forall|j: int| 0 <= j < i ==> nums@[j] <= largest,
        decreases nums@.len() - i,
    {
        if nums[i] > largest {
            largest = nums[i];
        }
        i = i + 1;
    }
    largest
}

/// Exactly one of even and odd: a number that is not labelled by 3 or 5 is
/// even precisely when it is divisible by two.
pub proof fn lemma_parity_label(n: int)
    requires
        n % 3 != 0,
        n % 5 != 0,
    ensures
        label_of(n) == NumberLabel::Even <==> n % 2 == 0,
        label_of(n) == NumberLabel::Odd <==> n % 2 != 0,
{
}

/// Doubling then scaling by ten is multiplying by twenty; it is additive.
pub proof fn lemma_double_law(x: int, y: int)
    ensures
        doubled_times_ten(x) == 20 * x,
        doubled_times_ten(x + y) == doubled_times_ten(x) + doubled_times_ten(y),
{
}

/// Parity alternates between neighbours, ignores the sign, and even numbers
/// are the doubles.
pub proof fn lemma_even_law(n: int)
    ensures
        spec_even(n) != spec_even(n + 1),
        spec_even(n) == spec_even(-n),
        spec_even(2 * n),
{
}

/// The labels in plain terms: FizzBuzz for multiples of 15, Fizz for other
/// multiples of 3, Buzz for other multiples of 5, and parity otherwise.
pub proof fn lemma_label_law(n: int)
    ensures
        label_of(n) == NumberLabel::FizzBuzz <==> n % 15 == 0,
        label_of(n) == NumberLabel::Fizz <==> n % 3 == 0 && n % 5 != 0,
        label_of(n) == NumberLabel::Buzz <==> n % 5 == 0 && n % 3 != 0,
        label_of(n) == NumberLabel::Even <==> n % 3 != 0 && n % 5 != 0 && n % 2 == 0,
        label_of(n) == NumberLabel::Odd <==> n % 3 != 0 && n % 5 != 0 && n % 2 != 0,
{
    assert((n % 3 == 0 && n % 5 == 0) <==> n % 15 == 0) by (nonlinear_arith);
}

/// The sum of two lists joined is the sum of their sums, and a one-element
/// list sums to its element.
pub proof fn lemma_sum_law(a: Seq<i32>, b: Seq<i32>, x: i32)
    ensures
        seq_sum(a + b) == seq_sum(a) + seq_sum(b),
        seq_sum(seq![x]) == x,
    decreases b.len(),
{
    assert(seq![x].drop_last() =~= Seq::<i32>::empty());
    assert(seq_sum(Seq::<i32>::empty()) == 0);
    if b.len() == 0 {
        assert(a + b =~= a);
    } else {
        lemma_sum_law(a, b.drop_last(), x);
        assert((a + b).drop_last() =~= a + b.drop_last());
    }
}

} // verus!
