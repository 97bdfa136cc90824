use monee::currencies::currency_code::{CurrencyCode, Error};
use monee::currencies::currency_symbol::{CurrencySymbol, Error as SymbolError};
use monee::currencies::CurrencyName;

#[test]
fn converts_to_uppercase() {
    let code: CurrencyCode = "abc".parse().unwrap();
    assert!(code.eq_str("ABC"));
}

#[test]
fn prints_as_str() {
    let code: CurrencyCode = "ABC".parse().unwrap();
    assert_eq!(&code.to_string(), "ABC");
}

#[test]
fn code_mixed_case_is_upper_cased() {
    let code: CurrencyCode = "pEn".parse().unwrap();
    assert_eq!(code.to_string(), "PEN");
    assert!(!code.eq_str("pEn"));
}

#[test]
fn code_of_wrong_length_is_refused() {
    assert_eq!("ab".parse::<CurrencyCode>().unwrap_err(), Error::InvalidLength);
    assert_eq!("abcd".parse::<CurrencyCode>().unwrap_err(), Error::InvalidLength);
    assert_eq!("".parse::<CurrencyCode>().unwrap_err(), Error::InvalidLength);
}

#[test]
fn code_with_digit_is_refused() {
    assert_eq!("a1c".parse::<CurrencyCode>().unwrap_err(), Error::NotAlphabetic);
    assert_eq!("US$".parse::<CurrencyCode>().unwrap_err(), Error::NotAlphabetic);
}

#[test]
fn code_messages() {
    assert_eq!(Error::InvalidLength.message(), "Currency code must have 3 characters");
    assert_eq!(Error::NotAlphabetic.message(), "Currency code must be alphabetic");
}

#[test]
fn symbol_is_kept() {
    let symbol: CurrencySymbol = "S/".parse().unwrap();
    assert_eq!(symbol.to_string(), "S/");
    let dollar: CurrencySymbol = "$".parse().unwrap();
    assert_eq!(dollar.to_string(), "$");
}

#[test]
fn symbol_errors() {
    assert_eq!("".parse::<CurrencySymbol>().unwrap_err(), SymbolError::InvalidLength);
    assert_eq!("S 1".parse::<CurrencySymbol>().unwrap_err(), SymbolError::InvalidChar);
    assert_eq!("S1".parse::<CurrencySymbol>().unwrap_err(), SymbolError::InvalidChar);
    assert_eq!("a b".parse::<CurrencySymbol>().unwrap_err(), SymbolError::InvalidChar);
}

#[test]
fn currency_name_keeps_text() {
    let name: CurrencyName = "sol".to_owned().into();
    assert_eq!(name.to_string(), "sol");
}

#[test]
fn code_length_counts_single_byte_characters() {
    assert_eq!("éa".parse::<CurrencyCode>().unwrap_err(), Error::InvalidLength);
    assert_eq!("éab".parse::<CurrencyCode>().unwrap_err(), Error::InvalidLength);
    assert_eq!("ébc".parse::<CurrencyCode>().unwrap_err(), Error::InvalidLength);
    assert!("usd".parse::<CurrencyCode>().unwrap().eq_str("USD"));
}
