use conflate::{Merge, MergeFrom, MergePrecedence};

fn test<T: std::fmt::Debug + Merge + PartialEq>(expected: T, mut left: T, right: T) {
    left.merge(right);
    assert_eq!(expected, left);
}

#[derive(Debug, PartialEq)]
struct Config {
    a: Option<u8>,
    b: Option<u8>,
    c: Option<u8>,
}

impl Merge for Config {
    fn merge(&mut self, other: Self) {
        ::conflate::Merge::merge(&mut self.a, other.a);
        ::conflate::Merge::merge(&mut self.b, other.b);
        ::conflate::Merge::merge(&mut self.c, other.c);
    }
}

#[test]
fn test_option() {
    test(Some(1), Some(1), Some(2));
    test(Some(2), None, Some(2));
    test(None::<usize>, None, None);
}

#[test]
fn test_option_keeps_itself() {
    test(Some(7), Some(7), Some(7));
    test(Some(3), Some(3), None);
}

#[test]
fn test_merge_from_chains() {
    let cli = Config { a: None, b: Some(1), c: None };
    let config = Config { a: Some(2), b: Some(2), c: None };
    let defaults = Config { a: None, b: None, c: Some(4) };
    let merged = cli.merge_from(config).merge_from(defaults);
    assert_eq!(Config { a: Some(2), b: Some(1), c: Some(4) }, merged);
}

#[test]
fn test_three_way_precedence() {
    let high = Config { a: Some(1), b: None, c: None };
    let medium = Config { a: Some(2), b: Some(9), c: None };
    let low = Config { a: None, b: Some(5), c: Some(3) };
    let merged = high.merge_precedence(medium, low);
    assert_eq!(Config { a: Some(1), b: Some(9), c: Some(3) }, merged);
}
