use dia_batching_server::asset::is_selected;
use dia_batching_server::asset::AssetSet;
use dia_batching_server::asset::AssetSpecifier;

fn asset(blockchain: &str, symbol: &str) -> AssetSpecifier {
    AssetSpecifier { blockchain: blockchain.into(), symbol: symbol.into() }
}

#[test]
fn closed_mode_selects_members_only() {
    let mut set = AssetSet::new();
    assert!(set.insert(asset("Bitcoin", "BTC")));
    let supported = Some(set);
    assert!(is_selected(&asset("Bitcoin", "BTC"), &supported));
    assert!(!is_selected(&asset("Ethereum", "ETH"), &supported));
}

#[test]
fn open_mode_selects_everything() {
    assert!(is_selected(&asset("Bitcoin", "BTC"), &None));
    assert!(is_selected(&asset("Ethereum", "ETH"), &None));
    assert!(is_selected(&asset("", ""), &None));
}

#[test]
fn match_is_exact_and_case_sensitive() {
    let mut set = AssetSet::new();
    set.insert(asset("Bitcoin", "BTC"));
    let supported = Some(set);
    assert!(!is_selected(&asset("bitcoin", "BTC"), &supported));
    assert!(!is_selected(&asset("Bitcoin", "btc"), &supported));
    assert!(!is_selected(&asset("Bitcoin", "BT"), &supported));
    assert!(!is_selected(&asset("Bitcoin", "BTCC"), &supported));
    assert!(!is_selected(&asset("BTC", "Bitcoin"), &supported));
}

#[test]
fn empty_set_selects_nothing() {
    let supported = Some(AssetSet::new());
    assert!(!is_selected(&asset("Bitcoin", "BTC"), &supported));
}

#[test]
fn set_keeps_one_copy_of_each_member_in_order() {
    let mut set = AssetSet::new();
    assert_eq!(set.len(), 0);
    assert!(set.insert(asset("Bitcoin", "BTC")));
    assert!(set.insert(asset("FIAT", "USD-USD")));
    assert!(!set.insert(asset("Bitcoin", "BTC")));
    assert_eq!(set.len(), 2);
    assert_eq!(*set.get(0), asset("Bitcoin", "BTC"));
    assert_eq!(*set.get(1), asset("FIAT", "USD-USD"));
    assert!(set.contains(&asset("FIAT", "USD-USD")));
    assert!(!set.contains(&asset("FIAT", "MXN-USD")));
    let copy = set.clone();
    assert_eq!(copy.len(), 2);
    assert_eq!(*copy.get(1), asset("FIAT", "USD-USD"));
    assert_eq!(asset("a", "b").clone(), asset("a", "b"));
}
