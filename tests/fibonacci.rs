use fib_cursor::{Fibonacci, Natural};

fn number(n: u64) -> Natural {
    Natural::from_u64(n)
}

#[test]
fn verify_first_10_nexts() {
    let mut fibonacci = Fibonacci::new();
    assert_eq!(fibonacci.next().unwrap(), number(0));
    assert_eq!(fibonacci.next().unwrap(), number(1));
    assert_eq!(fibonacci.next().unwrap(), number(1));
    assert_eq!(fibonacci.next().unwrap(), number(2));
    assert_eq!(fibonacci.next().unwrap(), number(3));
    assert_eq!(fibonacci.next().unwrap(), number(5));
    assert_eq!(fibonacci.next().unwrap(), number(8));
    assert_eq!(fibonacci.next().unwrap(), number(13));
    assert_eq!(fibonacci.next().unwrap(), number(21));
    assert_eq!(fibonacci.next().unwrap(), number(34));
}

#[test]
fn verify_1000th() {
    let mut fibonacci = Fibonacci::new();
    let mut count = 0;
    loop {
        count += 1;

        fibonacci.next();

        if count == 1000 {
            assert_eq!(
                fibonacci.current().unwrap().to_string(),
                String::from("26863810024485359386146727202142923967616609318986952340123175997617981700247881689338369654483356564191827856161443356312976673642210350324634850410377680367334151172899169723197082763985615764450078474174626")
            );
            break;
        }
    }
}

#[test]
fn verify_first_10_currents() {
    let mut fibonacci = Fibonacci::new();
    fibonacci.next();
    assert_eq!(fibonacci.current().unwrap(), number(0));
    fibonacci.next();
    assert_eq!(fibonacci.current().unwrap(), number(1));
    fibonacci.next();
    assert_eq!(fibonacci.current().unwrap(), number(1));
    fibonacci.next();
    assert_eq!(fibonacci.current().unwrap(), number(2));
    fibonacci.next();
    assert_eq!(fibonacci.current().unwrap(), number(3));
    fibonacci.next();
    assert_eq!(fibonacci.current().unwrap(), number(5));
    fibonacci.next();
    assert_eq!(fibonacci.current().unwrap(), number(8));
    fibonacci.next();
    assert_eq!(fibonacci.current().unwrap(), number(13));
    fibonacci.next();
    assert_eq!(fibonacci.current().unwrap(), number(21));
    fibonacci.next();
    assert_eq!(fibonacci.current().unwrap(), number(34));
}

#[test]
fn verify_first_10_previouses() {
    let mut fibonacci = Fibonacci::new();
    let mut count = 0;
    loop {
        count += 1;
        fibonacci.next();
        if count == 11 {
            break;
        }
    }
    assert_eq!(fibonacci.previous().unwrap(), number(34));
    assert_eq!(fibonacci.previous().unwrap(), number(21));
    assert_eq!(fibonacci.previous().unwrap(), number(13));
    assert_eq!(fibonacci.previous().unwrap(), number(8));
    assert_eq!(fibonacci.previous().unwrap(), number(5));
    assert_eq!(fibonacci.previous().unwrap(), number(3));
    assert_eq!(fibonacci.previous().unwrap(), number(2));
    assert_eq!(fibonacci.previous().unwrap(), number(1));
    assert_eq!(fibonacci.previous().unwrap(), number(1));
    assert_eq!(fibonacci.previous().unwrap(), number(0));
    // Never below step 0.
    assert_eq!(fibonacci.previous().unwrap(), number(0));
    assert_eq!(fibonacci.previous().unwrap(), number(0));
}

#[test]
fn verify_early_forward_and_back() {
    let mut fibonacci = Fibonacci::new();
    assert_eq!(fibonacci.next().unwrap(), number(0));
    assert_eq!(fibonacci.next().unwrap(), number(1));
    assert_eq!(fibonacci.previous().unwrap(), number(0));
    assert_eq!(fibonacci.next().unwrap(), number(1));
    assert_eq!(fibonacci.next().unwrap(), number(1));
    assert_eq!(fibonacci.previous().unwrap(), number(1));
    assert_eq!(fibonacci.previous().unwrap(), number(0));
    assert_eq!(fibonacci.next().unwrap(), number(1));
    assert_eq!(fibonacci.next().unwrap(), number(1));
    assert_eq!(fibonacci.next().unwrap(), number(2));
    assert_eq!(fibonacci.previous().unwrap(), number(1));
    assert_eq!(fibonacci.previous().unwrap(), number(1));
    assert_eq!(fibonacci.previous().unwrap(), number(0));
}

#[test]
fn current_of_new_cursor_is_zero() {
    let fibonacci = Fibonacci::new();
    assert_eq!(fibonacci.current().unwrap(), number(0));
    assert_eq!(fibonacci.step(), 0);
}

#[test]
fn retreat_at_floor_stays_at_step_zero() {
    let mut fibonacci = Fibonacci::new();
    for _ in 0..5 {
        assert_eq!(fibonacci.previous().unwrap(), number(0));
        assert_eq!(fibonacci.step(), 0);
    }
    assert_eq!(fibonacci.next().unwrap(), number(0));
    assert_eq!(fibonacci.step(), 1);
}

#[test]
fn advance_then_retreat_returns_neighbouring_terms() {
    let mut fibonacci = Fibonacci::new();
    for _ in 0..20 {
        fibonacci.next();
    }
    // Step 20 holds fib(19) = 4181.
    assert_eq!(fibonacci.next().unwrap(), number(6765));
    assert_eq!(fibonacci.previous().unwrap(), number(4181));
    assert_eq!(fibonacci.step(), 20);
    assert_eq!(fibonacci.current().unwrap(), number(4181));
}

#[test]
fn peek_after_each_of_the_first_advances() {
    let mut fibonacci = Fibonacci::new();
    let expected = [0u64, 0, 1, 1, 2, 3, 5, 8];
    assert_eq!(fibonacci.current().unwrap(), number(expected[0]));
    for k in 1..expected.len() {
        fibonacci.next();
        assert_eq!(fibonacci.current().unwrap(), number(expected[k]));
    }
}

#[test]
fn round_trip_returns_to_the_same_term() {
    let mut fibonacci = Fibonacci::new();
    for _ in 0..12 {
        fibonacci.next();
    }
    let before = fibonacci.current().unwrap();
    for _ in 0..5 {
        fibonacci.previous();
    }
    fibonacci.next();
    fibonacci.previous();
    for _ in 0..5 {
        fibonacci.next();
    }
    assert_eq!(fibonacci.step(), 12);
    assert_eq!(fibonacci.current().unwrap(), before);
    assert_eq!(before, number(89));
}

#[test]
fn peek_after_retreat_from_step_three_is_zero() {
    let mut fibonacci = Fibonacci::new();
    fibonacci.next();
    fibonacci.next();
    fibonacci.next();
    assert_eq!(fibonacci.previous().unwrap(), number(1));
    assert_eq!(fibonacci.step(), 2);
    assert_eq!(fibonacci.current().unwrap(), number(0));
    assert_eq!(fibonacci.next().unwrap(), number(1));
}

#[test]
fn terms_past_u64_round_trip_exactly() {
    let mut fibonacci = Fibonacci::new();
    for _ in 0..101 {
        fibonacci.next();
    }
    // fib(100)
    assert_eq!(fibonacci.current().unwrap().to_string(), "354224848179261915075");
    assert_eq!(fibonacci.previous().unwrap().to_string(), "218922995834555169026");
    assert_eq!(fibonacci.previous().unwrap().to_string(), "135301852344706746049");
    assert_eq!(fibonacci.next().unwrap().to_string(), "218922995834555169026");
}
