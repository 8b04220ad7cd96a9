use guessing_game::fib::nth_fibonacci_number;

#[test]
fn small_fibonacci_numbers() {
    assert_eq!(nth_fibonacci_number(0), 1);
    assert_eq!(nth_fibonacci_number(1), 1);
    assert_eq!(nth_fibonacci_number(2), 1);
    assert_eq!(nth_fibonacci_number(3), 2);
    assert_eq!(nth_fibonacci_number(4), 3);
    assert_eq!(nth_fibonacci_number(5), 5);
    assert_eq!(nth_fibonacci_number(10), 55);
}

#[test]
fn larger_fibonacci_numbers() {
    assert_eq!(nth_fibonacci_number(20), 6765);
    assert_eq!(nth_fibonacci_number(30), 832040);
    assert_eq!(nth_fibonacci_number(47), 2971215073);
}
