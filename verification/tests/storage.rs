use dia_batching_server::handlers::Currency;
use dia_batching_server::storage::CoinInfo;
use dia_batching_server::storage::CoinInfoStorage;
use dia_batching_server::storage::Snapshot;
use std::sync::Arc;

fn coin(blockchain: &str, symbol: &str) -> CoinInfo {
    CoinInfo { symbol: symbol.into(), blockchain: blockchain.into(), ..Default::default() }
}

fn currency(blockchain: &str, symbol: &str) -> Currency {
    Currency { blockchain: blockchain.into(), symbol: symbol.into() }
}

fn get_storage() -> Arc<CoinInfoStorage> {
    let storage = Arc::new(CoinInfoStorage::default());
    storage.replace_currencies_by_symbols(vec![coin("Bitcoin", "BTC"), coin("Ethereum", "ETH")]);
    storage
}

#[test]
fn test_currencies_post() {
    let storage = get_storage();
    let r = storage.get_currencies_by_blockchains_and_symbols(vec![
        currency("Bitcoin", "BTC"),
        currency("Ethereum", "ETH"),
    ]);
    assert_eq!(r.len(), 2);
}

#[test]
fn test_currencies_post_empty() {
    let storage = get_storage();
    let r = storage.get_currencies_by_blockchains_and_symbols(vec![]);
    assert_eq!(r.len(), 0);
}

#[test]
fn test_currencies_post_non_existent() {
    let storage = get_storage();
    let r = storage.get_currencies_by_blockchains_and_symbols(vec![currency("Bitcoin", "DASH")]);
    assert_eq!(r.len(), 0);
}

#[test]
fn test_currencies_post_non_existent_plus_existing() {
    let storage = get_storage();
    let r = storage.get_currencies_by_blockchains_and_symbols(vec![
        currency("Bitcoin", "DASH"),
        currency("Ethereum", "ETH"),
    ]);
    assert_eq!(r.len(), 1);
    assert_eq!(r[0].symbol, "ETH");
}

#[test]
fn test_currencies_post_empty_string() {
    let storage = get_storage();
    let r = storage.get_currencies_by_blockchains_and_symbols(Vec::<Currency>::new());
    assert_eq!(r.len(), 0);
}

#[test]
fn test_currencies_post_special_char() {
    let storage = get_storage();
    let r = storage.get_currencies_by_blockchains_and_symbols(vec![currency("Bitcoin", "$COIN")]);
    assert_eq!(r.len(), 0);
}

#[test]
fn lookup_keeps_the_order_of_the_request_and_omits_what_is_missing() {
    let storage = get_storage();
    let r = storage.get_currencies_by_blockchains_and_symbols(vec![
        currency("Bitcoin", "BTC"),
        currency("Dash", "DASH"),
        currency("Ethereum", "ETH"),
    ]);
    assert_eq!(r, vec![coin("Bitcoin", "BTC"), coin("Ethereum", "ETH")]);
    let r = storage.get_currencies_by_blockchains_and_symbols(vec![
        currency("Ethereum", "ETH"),
        currency("Bitcoin", "BTC"),
        currency("Ethereum", "ETH"),
    ]);
    assert_eq!(r, vec![coin("Ethereum", "ETH"), coin("Bitcoin", "BTC"), coin("Ethereum", "ETH")]);
}

#[test]
fn empty_store_finds_nothing() {
    let storage = CoinInfoStorage::new();
    assert!(storage.get_currencies_by_blockchains_and_symbols(vec![]).is_empty());
    let r = storage.get_currencies_by_blockchains_and_symbols(vec![
        currency("Bitcoin", "BTC"),
        currency("", ""),
    ]);
    assert!(r.is_empty());
}

#[test]
fn replace_discards_the_previous_snapshot() {
    let storage = get_storage();
    storage.replace_currencies_by_symbols(vec![coin("Dash", "DASH")]);
    let r = storage.get_currencies_by_blockchains_and_symbols(vec![
        currency("Bitcoin", "BTC"),
        currency("Dash", "DASH"),
        currency("Ethereum", "ETH"),
    ]);
    assert_eq!(r, vec![coin("Dash", "DASH")]);
    storage.replace_currencies_by_symbols(vec![]);
    assert!(storage
        .get_currencies_by_blockchains_and_symbols(vec![currency("Dash", "DASH")])
        .is_empty());
}

#[test]
fn later_record_of_the_same_identity_wins() {
    let mut first = coin("Bitcoin", "BTC");
    first.price = 1;
    let mut second = coin("Bitcoin", "BTC");
    second.price = 2;
    let other = coin("Ethereum", "BTC");
    let snapshot = Snapshot::from_records(vec![first, other.clone(), second.clone()]);
    assert_eq!(snapshot.len(), 2);
    assert_eq!(snapshot.lookup(&vec![currency("Bitcoin", "BTC")]), vec![second]);
    assert_eq!(snapshot.lookup(&vec![currency("Ethereum", "BTC")]), vec![other]);
    assert!(snapshot.lookup(&vec![currency("BTC", "Bitcoin")]).is_empty());
}

#[test]
fn empty_snapshot_has_no_records() {
    let snapshot = Snapshot::empty();
    assert_eq!(snapshot.len(), 0);
    assert!(snapshot.lookup(&vec![currency("Bitcoin", "BTC")]).is_empty());
    assert!(snapshot.lookup(&vec![]).is_empty());
}

#[test]
fn coin_info_default_and_clone() {
    let d = CoinInfo::default();
    assert_eq!(d.symbol, "");
    assert_eq!(d.name, "");
    assert_eq!(d.blockchain, "");
    assert_eq!((d.supply, d.last_update_timestamp, d.price), (0, 0, 0));
    let mut c = coin("Bitcoin", "BTC");
    c.name = "Bitcoin".into();
    c.price = 5;
    c.supply = 6;
    c.last_update_timestamp = 7;
    assert_eq!(c.clone(), c);
    let k = currency("a", "b").clone();
    assert_eq!((k.blockchain.as_str(), k.symbol.as_str()), ("a", "b"));
}
