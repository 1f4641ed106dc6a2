use numerus::roman::{from_roman, looks_like_roman, to_roman};

#[test]
fn test_to_roman_basic() {
    assert_eq!(to_roman(1).unwrap(), "I");
    assert_eq!(to_roman(2).unwrap(), "II");
    assert_eq!(to_roman(3).unwrap(), "III");
    assert_eq!(to_roman(5).unwrap(), "V");
    assert_eq!(to_roman(10).unwrap(), "X");
    assert_eq!(to_roman(50).unwrap(), "L");
    assert_eq!(to_roman(100).unwrap(), "C");
    assert_eq!(to_roman(500).unwrap(), "D");
    assert_eq!(to_roman(1000).unwrap(), "M");
}

#[test]
fn test_to_roman_subtractive() {
    assert_eq!(to_roman(4).unwrap(), "IV");
    assert_eq!(to_roman(9).unwrap(), "IX");
    assert_eq!(to_roman(40).unwrap(), "XL");
    assert_eq!(to_roman(90).unwrap(), "XC");
    assert_eq!(to_roman(400).unwrap(), "CD");
    assert_eq!(to_roman(900).unwrap(), "CM");
}

#[test]
fn test_to_roman_complex() {
    assert_eq!(to_roman(14).unwrap(), "XIV");
    assert_eq!(to_roman(42).unwrap(), "XLII");
    assert_eq!(to_roman(1999).unwrap(), "MCMXCIX");
    assert_eq!(to_roman(2024).unwrap(), "MMXXIV");
    assert_eq!(to_roman(3999).unwrap(), "MMMCMXCIX");
}

#[test]
fn test_to_roman_boundaries() {
    assert!(to_roman(0).is_err());
    assert!(to_roman(-1).is_err());
    assert!(to_roman(4000).is_err());
}

#[test]
fn test_from_roman_basic() {
    assert_eq!(from_roman("I").unwrap(), 1);
    assert_eq!(from_roman("V").unwrap(), 5);
    assert_eq!(from_roman("X").unwrap(), 10);
    assert_eq!(from_roman("L").unwrap(), 50);
    assert_eq!(from_roman("C").unwrap(), 100);
    assert_eq!(from_roman("D").unwrap(), 500);
    assert_eq!(from_roman("M").unwrap(), 1000);
}

#[test]
fn test_from_roman_subtractive() {
    assert_eq!(from_roman("IV").unwrap(), 4);
    assert_eq!(from_roman("IX").unwrap(), 9);
    assert_eq!(from_roman("XL").unwrap(), 40);
    assert_eq!(from_roman("XC").unwrap(), 90);
    assert_eq!(from_roman("CD").unwrap(), 400);
    assert_eq!(from_roman("CM").unwrap(), 900);
}

#[test]
fn test_from_roman_complex() {
    assert_eq!(from_roman("XIV").unwrap(), 14);
    assert_eq!(from_roman("XLII").unwrap(), 42);
    assert_eq!(from_roman("MCMXCIX").unwrap(), 1999);
    assert_eq!(from_roman("MMXXIV").unwrap(), 2024);
    assert_eq!(from_roman("MMMCMXCIX").unwrap(), 3999);
}

#[test]
fn test_from_roman_invalid() {
    assert!(from_roman("IIII").is_err());
    assert!(from_roman("VV").is_err());
    assert!(from_roman("LL").is_err());
    assert!(from_roman("DD").is_err());
    assert!(from_roman("").is_err());
    assert!(from_roman("ABC").is_err());
}

#[test]
fn test_roundtrip() {
    for n in 1..=3999 {
        let roman = to_roman(n).unwrap();
        let back = from_roman(&roman).unwrap();
        assert_eq!(n, back, "Roundtrip failed for {}: {} -> {}", n, roman, back);
    }
}

#[test]
fn test_looks_like_roman() {
    assert!(looks_like_roman("XIV"));
    assert!(looks_like_roman("MCMXCIX"));
    assert!(looks_like_roman("I"));
    assert!(!looks_like_roman(""));
    assert!(!looks_like_roman("ABC"));
    assert!(!looks_like_roman("X1V"));
}
