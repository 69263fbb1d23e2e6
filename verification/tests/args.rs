use dia_batching_server::args::parse_asset;
use dia_batching_server::args::parse_currency_vec;
use dia_batching_server::args::supported_assets;
use dia_batching_server::args::SupportedCurrencies;
use dia_batching_server::asset::is_selected;
use dia_batching_server::asset::AssetSpecifier;

fn asset(blockchain: &str, symbol: &str) -> AssetSpecifier {
    AssetSpecifier { blockchain: blockchain.into(), symbol: symbol.into() }
}

#[test]
fn currency_list_is_cut_at_commas() {
    assert_eq!(parse_currency_vec("Polkadot:DOT,Kusama:KSM").0, vec!["Polkadot:DOT", "Kusama:KSM"]);
    assert_eq!(parse_currency_vec("Polkadot:DOT").0, vec!["Polkadot:DOT"]);
    assert_eq!(parse_currency_vec("").0, vec![""]);
    assert_eq!(parse_currency_vec(",").0, vec!["", ""]);
    assert_eq!(parse_currency_vec("a,,b").0, vec!["a", "", "b"]);
    assert_eq!(parse_currency_vec("a, b ,").0, vec!["a", " b ", ""]);
    assert_eq!(parse_currency_vec("ü:ö,é").0, vec!["ü:ö", "é"]);
}

#[test]
fn currency_list_agrees_with_split() {
    for text in ["", ",", ",,", "a", "a,b", ",a,", "Polkadot:DOT,Kusama:KSM,Stellar:XLM,FIAT:USD-USD"] {
        let expected: Vec<String> = text.split(',').map(|s| s.to_string()).collect();
        assert_eq!(parse_currency_vec(text).0, expected);
        assert_eq!(parse_currency_vec(text).0.join(","), text);
    }
}

#[test]
fn entry_names_blockchain_and_symbol() {
    assert_eq!(parse_asset("Bitcoin:BTC"), Some(asset("Bitcoin", "BTC")));
    assert_eq!(parse_asset("FIAT:USD-USD"), Some(asset("FIAT", "USD-USD")));
    assert_eq!(parse_asset("a:b:c"), Some(asset("a", "b:c")));
    assert_eq!(parse_asset(":"), Some(asset("", "")));
    assert_eq!(parse_asset("x:"), Some(asset("x", "")));
    assert_eq!(parse_asset(":y"), Some(asset("", "y")));
}

#[test]
fn entry_without_colon_names_no_asset() {
    assert_eq!(parse_asset(""), None);
    assert_eq!(parse_asset("Bitcoin"), None);
    assert_eq!(parse_asset("   "), None);
    assert_eq!(parse_asset("Bitcoin;BTC"), None);
}

#[test]
fn white_space_around_an_entry_is_ignored() {
    assert_eq!(parse_asset("  Bitcoin:BTC \n"), Some(asset("Bitcoin", "BTC")));
    assert_eq!(parse_asset("\t\u{2003}Bitcoin:BTC\u{a0}"), Some(asset("Bitcoin", "BTC")));
    assert_eq!(parse_asset(" Bit coin : BTC "), Some(asset("Bit coin ", " BTC")));
    assert_eq!(parse_asset(" : "), Some(asset("", "")));
    assert_eq!(parse_asset("_Bitcoin:BTC_"), Some(asset("_Bitcoin", "BTC_")));
}

#[test]
fn entry_agrees_with_trim_and_split_once() {
    for text in ["", " ", "a:b", " a:b ", "a", "::", " : : ", "\n x : y \r\n", "\u{3000}k:v\u{2028}"] {
        let expected = text.trim().split_once(':').map(|(b, s)| asset(b, s));
        assert_eq!(parse_asset(text), expected, "{:?}", text);
    }
}

#[test]
fn supported_assets_of_the_usual_list() {
    let list = parse_currency_vec(
        "Polkadot:DOT,Kusama:KSM,Stellar:XLM,FIAT:USD-USD,FIAT:MXN-USD,FIAT:BRL-USD,Amplitude:AMPE",
    );
    let supported = supported_assets(&list);
    let set = supported.as_ref().unwrap();
    assert_eq!(set.len(), 7);
    assert_eq!(*set.get(0), asset("Polkadot", "DOT"));
    assert_eq!(*set.get(3), asset("FIAT", "USD-USD"));
    assert_eq!(*set.get(6), asset("Amplitude", "AMPE"));
    assert!(is_selected(&asset("Kusama", "KSM"), &supported));
    assert!(!is_selected(&asset("Bitcoin", "BTC"), &supported));
}

#[test]
fn supported_assets_pass_over_bad_entries_and_repeats() {
    let list = SupportedCurrencies(vec![
        "Bitcoin".to_string(),
        " Bitcoin:BTC".to_string(),
        "".to_string(),
        "Bitcoin:BTC ".to_string(),
        "Ethereum:ETH".to_string(),
    ]);
    let supported = supported_assets(&list).unwrap();
    assert_eq!(supported.len(), 2);
    assert_eq!(*supported.get(0), asset("Bitcoin", "BTC"));
    assert_eq!(*supported.get(1), asset("Ethereum", "ETH"));
}

#[test]
fn no_asset_named_means_every_asset_is_in_scope() {
    assert!(supported_assets(&parse_currency_vec("")).is_none());
    assert!(supported_assets(&parse_currency_vec("Bitcoin,Ethereum")).is_none());
    assert!(supported_assets(&SupportedCurrencies(vec![])).is_none());
    let supported = supported_assets(&parse_currency_vec(" , "));
    assert!(is_selected(&asset("Bitcoin", "BTC"), &supported));
}
