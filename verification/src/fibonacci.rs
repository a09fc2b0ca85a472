//! Fibonacci numbers.

use vstd::prelude::*;

verus! {

/// The Fibonacci numbers: 0, 1, and from there on each the sum of the two
/// before it.
pub open spec fn fibonacci(k: nat) -> nat
    decreases k,
{
    if k == 0 {
        0
    } else if k == 1 {
        1
    } else {
        fibonacci((k - 1) as nat) + fibonacci((k - 2) as nat)
    }
}

/// What is said of a position that is not in the sequence.
pub open spec fn position_notice() -> Seq<char> {
    "Please enter the correct value of n"@
}

/// The largest position whose number fits in an `i32`.
pub const LAST_POSITION: i32 = 47;

/// The Fibonacci numbers never fall.
pub proof fn lemma_fibonacci_grows(i: nat, j: nat)
    requires
        i <= j,
    ensures
        fibonacci(i) <= fibonacci(j),
    decreases j,
{
    if i < j {
        if j >= 2 {
            lemma_fibonacci_grows(i, (j - 1) as nat);
        } else {
            assert(i == 0 && j == 1);
        }
    }
}

/// The number at index 46 is 1836311903, which an `i32` still holds.
pub proof fn lemma_fibonacci_46()
    ensures
        fibonacci(46) == 1836311903,
{
    assert(fibonacci(0) == 0);
    assert(fibonacci(1) == 1);
    assert(fibonacci(2) == 1);
    assert(fibonacci(3) == 2);
    assert(fibonacci(4) == 3);
    assert(fibonacci(5) == 5);
    assert(fibonacci(6) == 8);
    assert(fibonacci(7) == 13);
    assert(fibonacci(8) == 21);
    assert(fibonacci(9) == 34);
    assert(fibonacci(10) == 55);
    assert(fibonacci(11) == 89);
    assert(fibonacci(12) == 144);
    assert(fibonacci(13) == 233);
    assert(fibonacci(14) == 377);
    assert(fibonacci(15) == 610);
    assert(fibonacci(16) == 987);
    assert(fibonacci(17) == 1597);
    assert(fibonacci(18) == 2584);
    assert(fibonacci(19) == 4181);
    assert(fibonacci(20) == 6765);
    assert(fibonacci(21) == 10946);
    assert(fibonacci(22) == 17711);
    assert(fibonacci(23) == 28657);
    assert(fibonacci(24) == 46368);
    assert(fibonacci(25) == 75025);
    assert(fibonacci(26) == 121393);
    assert(fibonacci(27) == 196418);
    assert(fibonacci(28) == 317811);
    assert(fibonacci(29) == 514229);
    assert(fibonacci(30) == 832040);
    assert(fibonacci(31) == 1346269);
    assert(fibonacci(32) == 2178309);
    assert(fibonacci(33) == 3524578);
    assert(fibonacci(34) == 5702887);
    assert(fibonacci(35) == 9227465);
    assert(fibonacci(36) == 14930352);
    assert(fibonacci(37) == 24157817);
    assert(fibonacci(38) == 39088169);
    assert(fibonacci(39) == 63245986);
    assert(fibonacci(40) == 102334155);
    assert(fibonacci(41) == 165580141);
    assert(fibonacci(42) == 267914296);
    assert(fibonacci(43) == 433494437);
    assert(fibonacci(44) == 701408733);
    assert(fibonacci(45) == 1134903170);
    assert(fibonacci(46) == 1836311903);
}

/// The number at position `n` of the Fibonacci sequence, where position 1
/// holds 0 and position 2 holds 1.
///
/// Positions below 1 are turned down. Positions past 47 are not admitted:
/// their numbers do not fit in an `i32`.
pub fn ex_2(n: i32) -> (number: Result<i32, String>)
    requires
        n <= LAST_POSITION,
    ensures
        number is Err <==> n <= 0,
        number matches Err(notice) ==> notice@ == position_notice(),
        number matches Ok(value) ==> value == fibonacci((n - 1) as nat),
{
    if n <= 0 {
        return Err(String::from_str("Please enter the correct value of n"));
    }
    if n == 1 {
        return Ok(0);
    }
    let mut before: i32 = 0;
    let mut current: i32 = 1;
    let mut position: i32 = 2;
    while position < n
        invariant
            2 <= position <= n <= LAST_POSITION,
            before == fibonacci((position - 2) as nat),
            current == fibonacci((position - 1) as nat),
        decreases n - position,
    {
        proof {
            lemma_fibonacci_grows(position as nat, 46);
            lemma_fibonacci_46();
        }
        let next = before + current;
        before = current;
        current = next;
        position += 1;
    }
    Ok(current)
}

} // verus!
