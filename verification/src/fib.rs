//! The Fibonacci utility: day one of the sequence as this library counts it
//! is 1, and so is day two; every later entry is the sum of the two before.
//! An argument of zero is answered with 1, like an argument of one.

use vstd::prelude::*;

verus! {

/// The Fibonacci number this library's counting assigns to `n`: 1 for every
/// `n` up to two (zero included), the sum of the two predecessors after that.
pub open spec fn fib_spec(n: nat) -> nat
    decreases n,
{
    if n <= 2 {
        1
    } else {
        fib_spec((n - 1) as nat) + fib_spec((n - 2) as nat)
    }
}

/// Every Fibonacci number is at least 1.
pub proof fn lemma_fib_pos(n: nat)
    ensures
        fib_spec(n) >= 1,
    decreases n,
{
    if n > 2 {
        lemma_fib_pos((n - 1) as nat);
        lemma_fib_pos((n - 2) as nat);
    }
}

/// The Fibonacci sequence never goes down.
pub proof fn lemma_fib_monotone(i: nat, j: nat)
    requires
        i <= j,
    ensures
        fib_spec(i) <= fib_spec(j),
    decreases j,
{
    if i < j && j > 2 {
        lemma_fib_monotone(i, (j - 1) as nat);
        lemma_fib_pos((j - 2) as nat);
    }
}

/// The 47th Fibonacci number, the largest one that fits in a `u32`.
pub proof fn lemma_fib_47()
    ensures
        fib_spec(47) == 2971215073,
{
    assert(fib_spec(0) == 1);
    assert(fib_spec(1) == 1);
    assert(fib_spec(2) == 1);
    assert(fib_spec(3) == 2);
    assert(fib_spec(4) == 3);
    assert(fib_spec(5) == 5);
    assert(fib_spec(6) == 8);
    assert(fib_spec(7) == 13);
    assert(fib_spec(8) == 21);
    assert(fib_spec(9) == 34);
    assert(fib_spec(10) == 55);
    assert(fib_spec(11) == 89);
    assert(fib_spec(12) == 144);
    assert(fib_spec(13) == 233);
    assert(fib_spec(14) == 377);
    assert(fib_spec(15) == 610);
    assert(fib_spec(16) == 987);
    assert(fib_spec(17) == 1597);
    assert(fib_spec(18) == 2584);
    assert(fib_spec(19) == 4181);
    assert(fib_spec(20) == 6765);
    assert(fib_spec(21) == 10946);
    assert(fib_spec(22) == 17711);
    assert(fib_spec(23) == 28657);
    assert(fib_spec(24) == 46368);
    assert(fib_spec(25) == 75025);
    assert(fib_spec(26) == 121393);
    assert(fib_spec(27) == 196418);
    assert(fib_spec(28) == 317811);
    assert(fib_spec(29) == 514229);
    assert(fib_spec(30) == 832040);
    assert(fib_spec(31) == 1346269);
    assert(fib_spec(32) == 2178309);
    assert(fib_spec(33) == 3524578);
    assert(fib_spec(34) == 5702887);
    assert(fib_spec(35) == 9227465);
    assert(fib_spec(36) == 14930352);
    assert(fib_spec(37) == 24157817);
    assert(fib_spec(38) == 39088169);
    assert(fib_spec(39) == 63245986);
    assert(fib_spec(40) == 102334155);
    assert(fib_spec(41) == 165580141);
    assert(fib_spec(42) == 267914296);
    assert(fib_spec(43) == 433494437);
    assert(fib_spec(44) == 701408733);
    assert(fib_spec(45) == 1134903170);
    assert(fib_spec(46) == 1836311903);
    assert(fib_spec(47) == 2971215073);
}

/// Calculates the `n`th Fibonacci number by running the sequence forward.
/// Arguments above 47 are excluded: their value does not fit in a `u32`.
pub fn nth_fibonacci_number(n: u32) -> (r: u32)
    requires
        n <= 47,
    ensures
        r == fib_spec(n as nat),
{
    let mut first: u32 = 0;
    let mut second: u32 = 1;
    let mut i: u32 = 2;
    if n <= 1 {
        return second;
    }
    while i <= n
        invariant
            2 <= i <= n + 1,
            n <= 47,
            second == fib_spec((i - 1) as nat),
            i > 2 ==> first == fib_spec((i - 2) as nat),
            i == 2 ==> first == 0,
        decreases n + 1 - i,
    {
        proof {
            lemma_fib_47();
            lemma_fib_monotone(i as nat, 47);
            if i > 2 {
                assert(fib_spec(i as nat) == fib_spec((i - 1) as nat) + fib_spec((i - 2) as nat));
            }
            assert(first + second == fib_spec(i as nat));
        }
        let next = first + second;
        first = second;
        second = next;
        i = i + 1;
    }
    second
}

} // verus!
