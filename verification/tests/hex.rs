use hextermbiest::Error;
use hextermbiest::Hex;

#[test]
fn test_from_str() {
    let pairs = vec![
        ("#005fff", ("00", "5f", "ff")),
        ("#ff8787", ("ff", "87", "87")),
        ("#ff87af", ("ff", "87", "af")),
        ("#ffd75f", ("ff", "d7", "5f")),
    ];

    for (a, b) in pairs {
        assert_eq!(a.parse::<Hex>().unwrap().raw(), b);
    }
}

#[test]
fn test_from_str_without_hash() {
    assert_eq!("ffd75f".parse::<Hex>().unwrap().raw(), ("ff", "d7", "5f"));
}

#[test]
fn test_from_str_preserves_case() {
    assert_eq!("#AbCdEf".parse::<Hex>().unwrap().raw(), ("Ab", "Cd", "Ef"));
}

#[test]
fn test_from_str_short_form_not_implemented() {
    assert_eq!("abc".parse::<Hex>(), Err(Error::NotImplemented));
    assert_eq!("#abc".parse::<Hex>(), Err(Error::NotImplemented));
}

#[test]
fn test_from_str_wrong_length() {
    assert_eq!("".parse::<Hex>(), Err(Error::Parse));
    assert_eq!("abcd".parse::<Hex>(), Err(Error::Parse));
    assert_eq!("#abcdef0".parse::<Hex>(), Err(Error::Parse));
}

#[test]
fn test_from_str_non_hex_digit() {
    assert_eq!("zzzzzz".parse::<Hex>(), Err(Error::Parse));
    assert_eq!("#00zzff".parse::<Hex>(), Err(Error::Parse));
    assert_eq!(
        "\u{e4}\u{e4}\u{e4}\u{e4}\u{e4}\u{e4}".parse::<Hex>(),
        Err(Error::Parse)
    );
}
