use sophia::number::{Coerce, Number};
use sophia::value::Range;

fn ratio(positive: bool, top: u64, bottom: u64) -> Number {
    Number::ratio(positive, top, bottom).unwrap()
}

#[test]
fn ratio_is_in_lowest_terms() {
    assert!(ratio(true, 2, 4).equals(&ratio(true, 1, 2)));
    assert!(ratio(false, 0, 5).equals(&Number::zero()));
    assert!(Number::ratio(true, 1, 0).is_none());
    assert_eq!(ratio(true, 6, 3).to_string(), "2");
    assert_eq!(ratio(false, 3, 6).to_string(), "-1/2");
}

#[test]
fn parse_reads_fractions() {
    assert!(Number::parse("1/2").unwrap().equals(&ratio(true, 1, 2)));
    assert!(Number::parse("-4/6").unwrap().equals(&ratio(false, 2, 3)));
    assert!(Number::parse("18446744073709551616").unwrap().equals(&Number::whole(u64::MAX).plus(&Number::one())));
    assert!(Number::parse("1.5").is_none());
    assert!(Number::parse("1/0").is_none());
    assert!(Number::parse("").is_none());
}

#[test]
fn arithmetic() {
    let half = ratio(true, 1, 2);
    let third = ratio(true, 1, 3);
    assert!(half.plus(&third).equals(&ratio(true, 5, 6)));
    assert!(third.minus(&half).equals(&ratio(false, 1, 6)));
    assert!(half.times(&third).equals(&ratio(true, 1, 6)));
    assert!(half.over(&third).unwrap().equals(&ratio(true, 3, 2)));
    assert!(half.over(&Number::zero()).is_none());
    assert!(half.negated().equals(&ratio(false, 1, 2)));
    assert!(Number::zero().negated().equals(&Number::zero()));
    assert!(ratio(false, 1, 2).abs().equals(&half));
    assert!(ratio(false, 1, 2).floor().equals(&ratio(false, 1, 1)));
    assert!(ratio(true, 7, 2).floor().equals(&Number::whole(3)));
}

#[test]
fn order_and_kind() {
    let half = ratio(true, 1, 2);
    assert!(half.less_than(&Number::one()));
    assert!(!Number::one().less_than(&half));
    assert!(half.at_most(&half));
    assert!(!half.is_whole());
    assert!(Number::whole(3).is_whole());
    assert!(Number::zero().is_zero());
    assert!(!ratio(false, 1, 2).is_positive());
}

#[test]
fn coerce_rounds_towards_zero() {
    assert_eq!(ratio(true, 7, 2).to_usize(), 3);
    assert_eq!(ratio(false, 7, 2).to_usize(), 0);
    assert_eq!(ratio(false, 7, 2).to_isize(), -3);
    assert_eq!(ratio(true, 7, 2).to_isize(), 3);
    let huge = Number::whole(u64::MAX).times(&Number::whole(u64::MAX));
    assert_eq!(huge.to_usize(), usize::MAX);
    assert_eq!(huge.to_isize(), isize::MAX);
}

#[test]
fn range_members() {
    let range = Range::new(Number::whole(1), Number::whole(10), Number::whole(3));
    assert!(range.contains(&Number::whole(7)));
    assert!(!range.contains(&Number::whole(8)));
    assert!(!range.contains(&Number::whole(13)));
    assert!(range.get(&Number::whole(2)).unwrap().equals(&Number::whole(7)));
    assert!(range.get(&ratio(false, 1, 1)).unwrap().equals(&Number::whole(10)));
    assert!(range.get(&Number::whole(4)).is_none());
    assert!(range.len().unwrap().equals(&Number::whole(4)));
    assert_eq!(range.to_string(), "1:10:3");
    let still = Range::new(Number::whole(1), Number::whole(10), Number::zero());
    assert!(!still.contains(&Number::whole(1)));
    assert!(still.len().is_none());
}

#[test]
fn range_steps() {
    let mut range = Range::new(Number::whole(1), Number::whole(4), Number::whole(2));
    assert!(range.next().unwrap().equals(&Number::whole(1)));
    assert!(range.next().unwrap().equals(&Number::whole(3)));
    assert!(range.next().is_none());
}
