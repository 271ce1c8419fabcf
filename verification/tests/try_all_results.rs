use dice_battle::try_all::TryAll;

#[test]
fn pair_of_successes() {
    let pair: (Result<u8, &str>, Result<bool, &str>) = (Ok(1), Ok(true));
    assert_eq!(pair.try_all(), Ok((1, true)));
}

#[test]
fn pair_with_one_failure() {
    let first: (Result<u8, &str>, Result<u8, &str>) = (Err("first"), Ok(2));
    assert_eq!(first.try_all(), Err("first"));
    let second: (Result<u8, &str>, Result<u8, &str>) = (Ok(1), Err("second"));
    assert_eq!(second.try_all(), Err("second"));
}

#[test]
fn pair_with_two_failures_reports_the_first() {
    let both: (Result<u8, &str>, Result<u8, &str>) = (Err("first"), Err("second"));
    assert_eq!(both.try_all(), Err("first"));
}

#[test]
fn triple_of_successes() {
    let triple: (Result<u8, &str>, Result<u16, &str>, Result<char, &str>) = (Ok(1), Ok(2), Ok('c'));
    assert_eq!(triple.try_all(), Ok((1, 2, 'c')));
}

#[test]
fn triple_reports_the_first_failure() {
    let a: (Result<u8, u8>, Result<u8, u8>, Result<u8, u8>) = (Err(1), Err(2), Err(3));
    assert_eq!(a.try_all(), Err(1));
    let b: (Result<u8, u8>, Result<u8, u8>, Result<u8, u8>) = (Ok(1), Err(2), Err(3));
    assert_eq!(b.try_all(), Err(2));
    let c: (Result<u8, u8>, Result<u8, u8>, Result<u8, u8>) = (Ok(1), Ok(2), Err(3));
    assert_eq!(c.try_all(), Err(3));
    let d: (Result<u8, u8>, Result<u8, u8>, Result<u8, u8>) = (Err(1), Ok(2), Ok(3));
    assert_eq!(d.try_all(), Err(1));
}
