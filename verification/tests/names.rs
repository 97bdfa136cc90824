use monee::actors::{ActorAlias, ActorName, ActorType, Error as ActorTypeError};
use monee::alias::{Alias, Error as AliasError};
use monee::item_tags::ItemName;
use monee::wallets::{Error as WalletNameError, WalletName};

#[test]
fn alias_accepts_letters_digits_dash_underscore() {
    let alias: Alias = "my-alias_01".parse().unwrap();
    assert_eq!(alias.as_str(), "my-alias_01");
    assert_eq!(alias.to_string(), "my-alias_01");
}

#[test]
fn alias_refuses_empty_and_invalid() {
    assert_eq!("".parse::<Alias>().unwrap_err(), AliasError::Empty);
    assert_eq!("a b".parse::<Alias>().unwrap_err(), AliasError::Invalid);
    assert_eq!("ñandu".parse::<Alias>().unwrap_err(), AliasError::Invalid);
}

#[test]
fn alias_messages() {
    assert_eq!(AliasError::Empty.message(), "Alias cannot be emtpy");
    assert_eq!(
        AliasError::Invalid.message(),
        "Alias must only contain 'a-z', 'A-Z', '0-9', '-', '_' characters"
    );
}

#[test]
fn actor_alias_and_item_name_follow_alias() {
    let a: ActorAlias = "bob".parse().unwrap();
    assert_eq!(a.to_string(), "bob");
    assert_eq!("".parse::<ActorAlias>().unwrap_err(), AliasError::Empty);
    let n: ItemName = "food".parse().unwrap();
    assert_eq!(n.to_string(), "food");
    assert_eq!("fo od".parse::<ItemName>().unwrap_err(), AliasError::Invalid);
}

#[test]
fn actor_types() {
    assert_eq!("natural".parse::<ActorType>().unwrap(), ActorType::Natural);
    assert_eq!("n".parse::<ActorType>().unwrap(), ActorType::Natural);
    assert_eq!("business".parse::<ActorType>().unwrap(), ActorType::Business);
    assert_eq!("b".parse::<ActorType>().unwrap(), ActorType::Business);
    assert_eq!("financial_entity".parse::<ActorType>().unwrap(), ActorType::FinancialEntity);
    assert_eq!("f".parse::<ActorType>().unwrap(), ActorType::FinancialEntity);
    assert_eq!("Natural".parse::<ActorType>().unwrap_err(), ActorTypeError {});
    assert_eq!("".parse::<ActorType>().unwrap_err(), ActorTypeError {});
    assert_eq!(
        ActorTypeError {}.message(),
        "invalid actor type, must be 'natural', 'business', or 'financial_entity'"
    );
}

#[test]
fn actor_name_keeps_text() {
    let name: ActorName = "Juan Pérez".to_owned().into();
    assert_eq!(name.to_string(), "Juan Pérez");
}

#[test]
fn wallet_names() {
    let name: WalletName = "wallet_1".parse().unwrap();
    assert_eq!(name.to_string(), "wallet_1");
    let empty: WalletName = "".parse().unwrap();
    assert_eq!(empty.to_string(), "");
    assert_eq!("my wallet".parse::<WalletName>().unwrap_err(), WalletNameError::InvalidCharacter(' '));
    assert_eq!(
        WalletName::try_from("a!b?".to_owned()).unwrap_err(),
        WalletNameError::InvalidCharacter('!')
    );
}

#[test]
fn alias_reads_back_as_its_text() {
    let alias: monee::alias::Alias = "my-alias_1".parse().unwrap();
    assert_eq!(alias.as_str(), "my-alias_1");
    assert_eq!(alias.to_string(), "my-alias_1");
}
