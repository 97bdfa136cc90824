use monee::tiny_id::bytes::Error as BytesErr;
use monee::tiny_id::sede::SeqError;
use monee::ids::{CurrencyId, IdKey, WalletId};
use monee::tiny_id::bytes::Error as BytesError;
use monee::tiny_id::slice::Error as SliceError;
use monee::tiny_id::string::Error as StrError;
use monee::tiny_id::TinyId;

fn is_alnum(b: u8) -> bool {
    b.is_ascii_alphanumeric()
}

#[test]
fn new_ids_are_alphanumeric() {
    for _ in 0..50 {
        let id = TinyId::<4>::new();
        assert!(id.to_vec().iter().all(|b| is_alnum(*b)));
        assert_eq!(id.to_vec().len(), 4);
    }
}

#[test]
fn parses_alphanumeric_text() {
    let id: TinyId<4> = "aB3z".parse().unwrap();
    assert_eq!(id.to_vec(), b"aB3z".to_vec());
    assert_eq!(id.to_string(), "aB3z");
}

#[test]
fn text_of_wrong_length_is_refused() {
    assert_eq!("abc".parse::<TinyId<4>>().unwrap_err(), StrError::InvalidLength(4));
    assert_eq!("abcde".parse::<TinyId<4>>().unwrap_err(), StrError::InvalidLength(4));
}

#[test]
fn text_with_symbol_is_refused() {
    assert_eq!("ab-d".parse::<TinyId<4>>().unwrap_err(), StrError::Invalid);
}

#[test]
fn multibyte_text_runs_out_of_characters() {
    // four bytes but two characters: the third position has no character
    assert_eq!("éé".parse::<TinyId<4>>().unwrap_err(), StrError::InvalidLength(4));
    // the second character is a symbol before the characters run out
    assert_eq!("é!a".parse::<TinyId<4>>().unwrap_err(), StrError::Invalid);
}

#[test]
fn from_slice_reads_utf8() {
    let id = TinyId::<4>::from_slice(b"wxyz").unwrap();
    assert_eq!(id.to_string(), "wxyz");
    assert!(matches!(TinyId::<4>::from_slice(&[0xff, 0x61, 0x62, 0x63]), Err(SliceError::NotACII)));
    assert!(matches!(
        TinyId::<4>::from_slice(b"ab"),
        Err(SliceError::StrError(StrError::InvalidLength(4)))
    ));
}

#[test]
fn bytes_must_be_letters() {
    assert!(TinyId::<4>::try_from_bytes(*b"abCD").is_ok());
    assert_eq!(TinyId::<4>::try_from_bytes(*b"ab1D").unwrap_err(), BytesError::NotACII);
}

#[test]
fn text_round_trip() {
    for _ in 0..20 {
        let id = TinyId::<4>::new();
        let back: TinyId<4> = id.to_string().parse().unwrap();
        assert!(back == id);
    }
}

#[test]
fn error_messages() {
    assert_eq!(StrError::Invalid.message(), "invalid");
    assert_eq!(StrError::InvalidLength(4).message(), "str should be of length 4");
    assert_eq!(StrError::InvalidLength(123).message(), "str should be of length 123");
    assert_eq!(SliceError::NotACII.message(), "not ASCII");
    assert_eq!(BytesError::NotACII.message(), "not ASCII");
}

#[test]
fn ids_parse_and_compare() {
    let a: WalletId = "w001".parse().unwrap();
    let b: WalletId = "w001".parse().unwrap();
    let c: WalletId = "w002".parse().unwrap();
    assert!(a == b);
    assert!(a != c);
    assert_eq!(a.to_string(), "w001");
    assert!("w0".parse::<CurrencyId>().is_err());
}

#[test]
fn equal_ids_have_equal_codes() {
    let a: WalletId = "abcd".parse().unwrap();
    let b: WalletId = "abce".parse().unwrap();
    assert_eq!(a.code(), u32::from_le_bytes(*b"abcd"));
    assert_ne!(a.code(), b.code());
}

#[test]
fn ids_from_sequence_elements() {
    let id = TinyId::<4>::from_elements(b"abcd").unwrap();
    assert_eq!(id.to_string(), "abcd");
    assert_eq!(TinyId::<4>::from_elements(b"abc").unwrap_err(), SeqError::InvalidLength(3));
    assert_eq!(TinyId::<4>::from_elements(b"abcde").unwrap_err(), SeqError::InvalidLength(5));
    assert_eq!(TinyId::<4>::from_elements(b"ab1d").unwrap_err(), SeqError::Bytes(BytesErr::NotACII));
}

#[test]
fn only_ascii_letters_and_digits_parse() {
    assert!(TinyId::<4>::parse_str("ab-d").is_err());
    assert!(TinyId::<4>::parse_str("abé").is_err());
    assert!(TinyId::<2>::parse_str("é").is_err());
    for _ in 0..20 {
        let id = TinyId::<4>::new();
        let text = id.to_string();
        assert_eq!(TinyId::<4>::parse_str(&text).unwrap().to_string(), text);
    }
}
