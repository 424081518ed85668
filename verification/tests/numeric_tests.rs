use eggsecutor::numeric::{is_i32_string, u32_to_string};

#[test]
fn i32_strings_should_match_integer_parsing() {
    for good in [
        "0", "7", "+7", "-5", "007", "0000000000000001", "2147483647", "-2147483648", "+2147483647",
    ] {
        assert!(is_i32_string(good), "{:?} should be accepted", good);
        assert!(good.parse::<i32>().is_ok());
    }
    for bad in [
        "", "+", "-", "12a", "a12", " 7", "7 ", "1.5", "2147483648", "-2147483649", "99999999999",
        "--1",
    ] {
        assert!(!is_i32_string(bad), "{:?} should be refused", bad);
        assert!(bad.parse::<i32>().is_err());
    }
}

#[test]
fn u32_rendering_should_match_decimal() {
    for n in [0u32, 7, 10, 111, 1234, 40960, u32::MAX] {
        assert_eq!(u32_to_string(n), n.to_string());
    }
}
