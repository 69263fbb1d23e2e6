use dia_batching_server::asset::AssetSet;
use dia_batching_server::asset::AssetSpecifier;
use dia_batching_server::decimal::ConvertingError;
use dia_batching_server::decimal::Decimal;
use dia_batching_server::decimal_text::parse_decimal;
use dia_batching_server::dia::Asset;
use dia_batching_server::dia::Quotation;
use dia_batching_server::dia::QuotedAsset;
use dia_batching_server::handlers::Currency;
use dia_batching_server::price_updater::convert_to_coin_info;
use dia_batching_server::price_updater::PriceUpdate;
use dia_batching_server::price_updater::UpdateAction;
use dia_batching_server::price_updater::UpdateEvent;
use dia_batching_server::price_updater::UpdatePhase;
use dia_batching_server::storage::CoinInfo;
use dia_batching_server::storage::CoinInfoStorage;
use std::collections::HashMap;
use std::sync::Arc;

fn dec(text: &str) -> Decimal {
    parse_decimal(text).unwrap()
}

fn specifier(blockchain: &str, symbol: &str) -> AssetSpecifier {
    AssetSpecifier { blockchain: blockchain.into(), symbol: symbol.into() }
}

fn currency(blockchain: &str, symbol: &str) -> Currency {
    Currency { blockchain: blockchain.into(), symbol: symbol.into() }
}

fn supported(assets: &[(&str, &str)]) -> Option<AssetSet> {
    let mut set = AssetSet::new();
    for (blockchain, symbol) in assets {
        set.insert(specifier(blockchain, symbol));
    }
    Some(set)
}

fn quoted_asset(symbol: &str, name: &str, address: &str, decimals: u8, blockchain: &str, volume: &str) -> QuotedAsset {
    QuotedAsset {
        asset: Asset {
            symbol: symbol.into(),
            name: name.into(),
            address: address.into(),
            decimals,
            blockchain: blockchain.into(),
        },
        volume: dec(volume),
    }
}

fn crypto_quotation(symbol: &str, blockchain: &str, price: &str, volume: &str) -> Quotation {
    Quotation {
        name: symbol.into(),
        price: dec(price),
        price_yesterday: dec("1.000000000000"),
        symbol: symbol.into(),
        time: 1_671_888_839,
        volume_yesterday: dec(volume),
        address: Some("0x0000000000000000000000000000000000000000".into()),
        blockchain: Some(blockchain.into()),
        source: "diadata.org".into(),
    }
}

fn default_fiat_usd_quotation() -> Quotation {
    Quotation {
        symbol: "USD-USD".into(),
        name: "USD-X".into(),
        address: None,
        blockchain: None,
        price: dec("1"),
        price_yesterday: dec("1"),
        volume_yesterday: dec("0"),
        time: 1_671_888_839,
        source: "diadata.org".into(),
    }
}

struct MockDia {
    quotation: HashMap<AssetSpecifier, Quotation>,
    assets: Option<Vec<QuotedAsset>>,
}

impl MockDia {
    fn new() -> Self {
        let mut quotation = HashMap::new();
        quotation.insert(
            specifier("Bitcoin", "BTC"),
            crypto_quotation("BTC", "Bitcoin", "1.000000000000", "0.123456789012345"),
        );
        quotation.insert(
            specifier("Ethereum", "ETH"),
            crypto_quotation("ETH", "Ethereum", "1.000000000000", "298134760"),
        );
        quotation.insert(
            specifier("Ethereum", "USDT"),
            crypto_quotation("USDT", "Ethereum", "1.000000000001", "0.000000000001"),
        );
        quotation.insert(
            specifier("Ethereum", "USDC"),
            crypto_quotation("USDC", "Ethereum", "123456789.123456789012345", "298134760"),
        );
        quotation.insert(
            specifier("FIAT", "MXN-USD"),
            Quotation {
                name: "MXNUSD=X".into(),
                price: dec("0.053712327"),
                price_yesterday: dec("0.053910317166666666"),
                symbol: "MXN-USD".into(),
                time: 1_671_888_839,
                volume_yesterday: dec("0"),
                address: None,
                blockchain: None,
                source: "YahooFinance".into(),
            },
        );
        quotation.insert(specifier("FIAT", "USD-USD"), default_fiat_usd_quotation());
        let assets = vec![
            quoted_asset("BTC", "Bitcoin", "0x0000000000000000000000000000000000000000", 8, "Bitcoin", "3818975389.095178"),
            quoted_asset("ETH", "Ether", "0x0000000000000000000000000000000000000000", 18, "Ethereum", "791232743.889491"),
            quoted_asset("USDT", "Tether USD", "0xdAC17F958D2ee523a2206206994597C13D831ec7", 6, "Ethereum", "294107237.463418"),
            quoted_asset("USDC", "USD Coin", "0xA0b86991c6218b36c1d19D4a2e9Eb0cE3606eB48", 6, "Ethereum", "205584209.531937"),
        ];
        Self { quotation, assets: Some(assets) }
    }

    fn get_quotation(&self, asset: &QuotedAsset) -> Result<Quotation, String> {
        let asset = specifier(&asset.asset.blockchain, &asset.asset.symbol);
        let quotation = self.quotation.get(&asset).ok_or("Error Finding Quotation".to_string())?;
        Ok(quotation.clone())
    }

    fn get_quotable_assets(&self) -> Result<Vec<QuotedAsset>, String> {
        self.assets.clone().ok_or("network error".to_string())
    }
}

struct Trace {
    quotes: Vec<(String, String)>,
    paces: usize,
    publishes: usize,
}

fn drive(coins: &CoinInfoStorage, maybe_supported_currencies: &Option<AssetSet>, api: &MockDia) -> Trace {
    let mut trace = Trace { quotes: vec![], paces: 0, publishes: 0 };
    let (mut state, mut action) = PriceUpdate::start(maybe_supported_currencies.clone());
    loop {
        let event = match action {
            UpdateAction::Discover => UpdateEvent::Discovered(api.get_quotable_assets().ok()),
            UpdateAction::Quote(asset) => {
                trace.quotes.push((asset.asset.blockchain.clone(), asset.asset.symbol.clone()));
                UpdateEvent::Quoted(api.get_quotation(&asset).ok())
            }
            UpdateAction::Pace => {
                trace.paces += 1;
                UpdateEvent::Paced
            }
            UpdateAction::Publish(currencies) => {
                trace.publishes += 1;
                coins.replace_currencies_by_symbols(currencies);
                assert!(state.is_finished());
                return trace;
            }
            UpdateAction::Stop => {
                assert!(state.is_finished());
                return trace;
            }
        };
        let next = state.step(event);
        state = next.0;
        action = next.1;
    }
}

fn update_prices(coins: Arc<CoinInfoStorage>, maybe_supported_currencies: &Option<AssetSet>, api: &MockDia) {
    drive(&coins, maybe_supported_currencies, api);
}

#[test]
fn test_update_prices() {
    let mock_api = MockDia::new();
    let storage = Arc::new(CoinInfoStorage::default());
    let coins = Arc::clone(&storage);
    let all_currencies = None;
    update_prices(coins, &all_currencies, &mock_api);

    let c = storage.get_currencies_by_blockchains_and_symbols(vec![
        currency("Bitcoin", "BTC"),
        currency("Ethereum", "ETH"),
        currency("Ethereum", "USDT"),
        currency("Ethereum", "USDC"),
    ]);

    assert_eq!(4, c.len());
    assert_eq!(c[1].price, 1000000000000);
    assert_eq!(c[1].name, "ETH");
}

#[test]
fn test_update_prices_with_fiat_and_crypto_asset_works() {
    let mock_api = MockDia::new();
    let storage = Arc::new(CoinInfoStorage::default());
    let coins = Arc::clone(&storage);
    let all_currencies = supported(&[("Bitcoin", "BTC"), ("FIAT", "MXN-USD")]);

    update_prices(coins, &all_currencies, &mock_api);

    let c = storage.get_currencies_by_blockchains_and_symbols(vec![
        currency("Bitcoin", "BTC"),
        currency("FIAT", "MXN-USD"),
    ]);

    assert_eq!(2, c.len());
    assert_eq!(c[1].price, 53712327000);
    assert_eq!(c[1].name, "MXNUSD=X");
}

#[test]
fn test_update_prices_with_fiat_usd_works() {
    let mock_api = MockDia::new();
    let storage = Arc::new(CoinInfoStorage::default());
    let coins = Arc::clone(&storage);
    let all_currencies = supported(&[("FIAT", "USD-USD")]);

    update_prices(coins, &all_currencies, &mock_api);

    let c = storage.get_currencies_by_blockchains_and_symbols(vec![currency("FIAT", "USD-USD")]);

    assert_eq!(1, c.len());
    assert_eq!(c[0].price, 1000000000000);
    assert_eq!(c[0].name, "USD-X");
}

#[test]
fn test_update_prices_non_existent() {
    let mock_api = MockDia::new();
    let storage = Arc::new(CoinInfoStorage::default());
    let coins = Arc::clone(&storage);
    let all_currencies = None;
    update_prices(coins, &all_currencies, &mock_api);

    let c = storage.get_currencies_by_blockchains_and_symbols(vec![
        currency("Bitcoin", "BTCCash"),
        currency("Ethereum", "ETHCase"),
    ]);

    assert_eq!(0, c.len());
}

#[test]
fn test_update_prices_one_available() {
    let mock_api = MockDia::new();
    let storage = Arc::new(CoinInfoStorage::default());
    let coins = Arc::clone(&storage);
    let all_currencies = None;
    update_prices(coins, &all_currencies, &mock_api);

    let c = storage.get_currencies_by_blockchains_and_symbols(vec![
        currency("Bitcoin", "BTC"),
        currency("Ethereum", "ETHCase"),
    ]);

    assert_eq!(1, c.len());
    assert_eq!(c[0].price, 1000000000000);
    assert_eq!(c[0].name, "BTC");
}

#[test]
fn test_update_prices_get_nothing() {
    let mock_api = MockDia::new();
    let storage = Arc::new(CoinInfoStorage::default());
    let coins = Arc::clone(&storage);
    let all_currencies = None;
    update_prices(coins, &all_currencies, &mock_api);

    let c = storage.get_currencies_by_blockchains_and_symbols(vec![]);

    assert_eq!(0, c.len());
}

#[test]
fn test_update_prices_get_integers() {
    let mock_api = MockDia::new();
    let storage = Arc::new(CoinInfoStorage::default());
    let coins = Arc::clone(&storage);
    let all_currencies = None;

    update_prices(coins, &all_currencies, &mock_api);

    let c = storage.get_currencies_by_blockchains_and_symbols(vec![currency("Bitcoin", "123")]);

    assert_eq!(0, c.len());
}

#[test]
fn test_convert_result() {
    let mock_api = MockDia::new();
    let storage = Arc::new(CoinInfoStorage::default());
    let coins = Arc::clone(&storage);
    let all_currencies = None;

    update_prices(coins, &all_currencies, &mock_api);

    let c = storage.get_currencies_by_blockchains_and_symbols(vec![
        currency("Bitcoin", "BTC"),
        currency("Ethereum", "USDC"),
        currency("Ethereum", "USDT"),
    ]);

    assert_eq!(c[0].price, 1000000000000);
    assert_eq!(c[0].supply, 123456789012);

    assert_eq!(c[1].price, 123456789123456789012);
    assert_eq!(c[1].supply, 298134760000000000000);

    assert_eq!(c[2].price, 1000000000001);
    assert_eq!(c[2].supply, 1);

    assert_eq!(c[0].name, "BTC");
    assert_eq!(c[1].name, "USDC");
    assert_eq!(c[2].name, "USDT");
}

#[test]
fn round_with_one_asset_publishes_its_record() {
    let mut api = MockDia::new();
    api.assets = Some(vec![quoted_asset("BTC", "Bitcoin", "0x0", 8, "Bitcoin", "1")]);
    let storage = CoinInfoStorage::new();
    let trace = drive(&storage, &None, &api);
    assert_eq!(trace.publishes, 1);
    let c = storage.get_currencies_by_blockchains_and_symbols(vec![currency("Bitcoin", "BTC")]);
    assert_eq!(
        c,
        vec![CoinInfo {
            symbol: "BTC".into(),
            name: "BTC".into(),
            blockchain: "Bitcoin".into(),
            supply: 123456789012,
            last_update_timestamp: 1_671_888_839,
            price: 1000000000000,
        }]
    );
}

#[test]
fn failed_discovery_leaves_the_store_untouched() {
    let mut api = MockDia::new();
    let storage = CoinInfoStorage::new();
    drive(&storage, &supported(&[("Bitcoin", "BTC"), ("FIAT", "USD-USD")]), &api);
    let wanted = || vec![currency("Bitcoin", "BTC"), currency("FIAT", "USD-USD")];
    let before = storage.get_currencies_by_blockchains_and_symbols(wanted());
    assert_eq!(before.len(), 2);

    api.assets = None;
    let trace = drive(&storage, &supported(&[("Bitcoin", "BTC"), ("FIAT", "USD-USD")]), &api);
    assert_eq!(trace.publishes, 0);
    assert!(trace.quotes.is_empty());
    assert_eq!(trace.paces, 0);
    assert_eq!(storage.get_currencies_by_blockchains_and_symbols(wanted()), before);
}

#[test]
fn failed_quotation_skips_that_asset_only() {
    let mut api = MockDia::new();
    api.assets = Some(vec![
        quoted_asset("DASH", "Dash", "0x0", 8, "Dash", "1"),
        quoted_asset("ETH", "Ether", "0x0", 18, "Ethereum", "1"),
    ]);
    let storage = CoinInfoStorage::new();
    let trace = drive(&storage, &None, &api);
    assert_eq!(trace.quotes.len(), 2);
    assert_eq!(trace.paces, 2);
    let c = storage.get_currencies_by_blockchains_and_symbols(vec![
        currency("Dash", "DASH"),
        currency("Ethereum", "ETH"),
    ]);
    assert_eq!(c.len(), 1);
    assert_eq!(c[0].symbol, "ETH");
}

#[test]
fn quotation_that_cannot_be_converted_skips_that_asset_only() {
    let mut api = MockDia::new();
    api.quotation.insert(
        specifier("Bitcoin", "BTC"),
        crypto_quotation("BTC", "Bitcoin", "-1", "1"),
    );
    api.quotation.insert(
        specifier("Ethereum", "ETH"),
        crypto_quotation("ETH", "Ethereum", "1", "340282366920938463463374608"),
    );
    let storage = CoinInfoStorage::new();
    drive(&storage, &None, &api);
    let c = storage.get_currencies_by_blockchains_and_symbols(vec![
        currency("Bitcoin", "BTC"),
        currency("Ethereum", "ETH"),
        currency("Ethereum", "USDT"),
        currency("Ethereum", "USDC"),
    ]);
    assert_eq!(c.len(), 2);
    assert_eq!(c[0].symbol, "USDT");
    assert_eq!(c[1].symbol, "USDC");
}

#[test]
fn assets_out_of_scope_are_not_quoted() {
    let api = MockDia::new();
    let storage = CoinInfoStorage::new();
    let trace = drive(
        &storage,
        &supported(&[("FIAT", "MXN-USD"), ("Ethereum", "USDT"), ("FIAT", "USD-USD"), ("Bitcoin", "BTC")]),
        &api,
    );
    let expected: Vec<(String, String)> = [
        ("Bitcoin", "BTC"),
        ("Ethereum", "USDT"),
        ("FIAT", "MXN-USD"),
        ("FIAT", "USD-USD"),
    ]
    .iter()
    .map(|(b, s)| (b.to_string(), s.to_string()))
    .collect();
    assert_eq!(trace.quotes, expected);
    assert_eq!(trace.paces, 2);
    assert_eq!(trace.publishes, 1);
}

#[test]
fn fiat_request_carries_the_identity_and_nothing_else() {
    let (state, action) = PriceUpdate::start(supported(&[("FIAT", "MXN-USD")]));
    assert!(matches!(action, UpdateAction::Discover));
    let (state, action) = state.step(UpdateEvent::Discovered(Some(vec![])));
    assert_eq!(state.phase(), UpdatePhase::AwaitingFiatQuote);
    match action {
        UpdateAction::Quote(request) => {
            assert_eq!(request.asset.blockchain, "FIAT");
            assert_eq!(request.asset.symbol, "MXN-USD");
            assert_eq!(request.asset.name, "");
            assert_eq!(request.asset.address, "");
            assert_eq!(request.asset.decimals, 0);
            assert_eq!(request.volume.integer, vec![0]);
            assert!(request.volume.fraction.is_empty());
            assert!(!request.volume.negative);
        }
        other => panic!("{:?}", other),
    }
}

#[test]
fn event_out_of_turn_changes_nothing() {
    let (state, _) = PriceUpdate::start(None);
    let (state, action) = state.step(UpdateEvent::Paced);
    assert_eq!(state.phase(), UpdatePhase::AwaitingDiscovery);
    assert!(matches!(action, UpdateAction::Discover));
    assert!(matches!(state.pending(), UpdateAction::Discover));

    let assets = vec![quoted_asset("BTC", "Bitcoin", "0x0", 8, "Bitcoin", "1")];
    let (state, action) = state.step(UpdateEvent::Discovered(Some(assets)));
    assert!(matches!(action, UpdateAction::Quote(_)));
    let (state, action) = state.step(UpdateEvent::Paced);
    assert_eq!(state.phase(), UpdatePhase::AwaitingQuote);
    match action {
        UpdateAction::Quote(asset) => assert_eq!(asset.asset.symbol, "BTC"),
        other => panic!("{:?}", other),
    }
    let (state, action) = state.step(UpdateEvent::Quoted(None));
    assert_eq!(state.phase(), UpdatePhase::AwaitingPace);
    assert!(matches!(action, UpdateAction::Pace));
    let (state, action) = state.step(UpdateEvent::Quoted(None));
    assert_eq!(state.phase(), UpdatePhase::AwaitingPace);
    assert!(matches!(action, UpdateAction::Pace));
    let (state, action) = state.step(UpdateEvent::Paced);
    assert!(state.is_finished());
    match action {
        UpdateAction::Publish(records) => assert!(records.is_empty()),
        other => panic!("{:?}", other),
    }
    let (state, action) = state.step(UpdateEvent::Paced);
    assert!(state.is_finished());
    assert!(matches!(action, UpdateAction::Stop));
    assert!(matches!(state.pending(), UpdateAction::Stop));
}

#[test]
fn convert_to_coin_info_builds_the_record() {
    let info = convert_to_coin_info(crypto_quotation("BTC", "Bitcoin", "16826.489316709616", "3680339928.151318")).unwrap();
    assert_eq!(info.symbol, "BTC");
    assert_eq!(info.name, "BTC");
    assert_eq!(info.blockchain, "Bitcoin");
    assert_eq!(info.price, 16_826_489_316_709_616);
    assert_eq!(info.supply, 3_680_339_928_151_318_000_000);
    assert_eq!(info.last_update_timestamp, 1_671_888_839);
}

#[test]
fn convert_to_coin_info_tags_fiat_and_takes_the_magnitude_of_time() {
    let mut quotation = default_fiat_usd_quotation();
    quotation.time = -5;
    let info = convert_to_coin_info(quotation).unwrap();
    assert_eq!(info.blockchain, "FIAT");
    assert_eq!(info.last_update_timestamp, 5);
    let mut quotation = default_fiat_usd_quotation();
    quotation.time = i64::MIN;
    assert_eq!(convert_to_coin_info(quotation).unwrap().last_update_timestamp, 1u64 << 63);
    let mut quotation = default_fiat_usd_quotation();
    quotation.time = i64::MAX;
    assert_eq!(convert_to_coin_info(quotation).unwrap().last_update_timestamp, i64::MAX as u64);
}

#[test]
fn convert_to_coin_info_reports_the_first_failure() {
    let bad_price = crypto_quotation("BTC", "Bitcoin", "-1", "340282366920938463463374608");
    assert_eq!(convert_to_coin_info(bad_price).unwrap_err(), ConvertingError::InvalidInput);
    let bad_volume = crypto_quotation("BTC", "Bitcoin", "1", "340282366920938463463374608");
    assert_eq!(convert_to_coin_info(bad_volume).unwrap_err(), ConvertingError::Overflow);
    let bad_both = crypto_quotation("BTC", "Bitcoin", "340282366920938463463374608", "-1");
    assert_eq!(convert_to_coin_info(bad_both).unwrap_err(), ConvertingError::Overflow);
}

#[test]
fn asset_and_quotation_clone_keep_their_fields() {
    let asset = quoted_asset("BTC", "Bitcoin", "0x1", 8, "Bitcoin", "3.5");
    let copy = asset.clone();
    assert_eq!(copy.asset.symbol, "BTC");
    assert_eq!(copy.asset.name, "Bitcoin");
    assert_eq!(copy.asset.address, "0x1");
    assert_eq!(copy.asset.decimals, 8);
    assert_eq!(copy.asset.blockchain, "Bitcoin");
    assert_eq!(copy.volume.integer, vec![3]);
    assert_eq!(copy.volume.fraction, vec![5]);
    let q = crypto_quotation("BTC", "Bitcoin", "2", "3").clone();
    assert_eq!(q.symbol, "BTC");
    assert_eq!(q.blockchain.as_deref(), Some("Bitcoin"));
    assert_eq!(q.address.as_deref(), Some("0x0000000000000000000000000000000000000000"));
    assert_eq!(q.price.integer, vec![2]);
    assert_eq!(q.price_yesterday.fraction.len(), 12);
    assert_eq!(q.volume_yesterday.integer, vec![3]);
    assert_eq!(q.source, "diadata.org");
    assert_eq!(default_fiat_usd_quotation().clone().blockchain, None);
}
