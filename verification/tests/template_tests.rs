use taiko::num::int_to_string;
use taiko::template::split_path;

#[test]
fn paths_split_on_slashes() {
    let segs = split_path("/users/42");
    let segs: Vec<&str> = segs.iter().map(|s| s.as_str()).collect();
    assert_eq!(segs, vec!["", "users", "42"]);
    let segs = split_path("");
    let segs: Vec<&str> = segs.iter().map(|s| s.as_str()).collect();
    assert_eq!(segs, vec![""]);
    let segs = split_path("/a//b/");
    let segs: Vec<&str> = segs.iter().map(|s| s.as_str()).collect();
    assert_eq!(segs, vec!["", "a", "", "b", ""]);
}

#[test]
fn integers_print_in_decimal() {
    assert_eq!(int_to_string(0).as_str(), "0");
    assert_eq!(int_to_string(42).as_str(), "42");
    assert_eq!(int_to_string(-5).as_str(), "-5");
    assert_eq!(int_to_string(i64::MIN).as_str(), "-9223372036854775808");
    assert_eq!(int_to_string(i64::MAX).as_str(), "9223372036854775807");
}
