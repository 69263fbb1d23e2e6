use dia_batching_server::oracle::AssetId;
use dia_batching_server::oracle::CoinInfo;
use dia_batching_server::oracle::PriceInfo;
use dia_batching_server::oracle_rpc::DiaOracleRpc;
use dia_batching_server::oracle_rpc::Error;
use std::sync::Arc;

#[test]
fn rpc_handle_keeps_its_client() {
    let client = Arc::new(42u32);
    let rpc: DiaOracleRpc<u32, ()> = DiaOracleRpc::new(client.clone());
    assert!(Arc::ptr_eq(rpc.client(), &client));
    assert_eq!(**rpc.client(), 42);
}

#[test]
fn error_codes() {
    assert_eq!(i32::from(Error::RuntimeError), 1);
    assert_eq!(i32::from(Error::DecodeError), 2);
}

#[test]
fn asset_id_new_keeps_both_parts() {
    let id = AssetId::new(vec![1, 2], vec![3]);
    assert_eq!(id.blockchain, vec![1, 2]);
    assert_eq!(id.symbol, vec![3]);
}

#[test]
fn price_info_reports_the_price() {
    assert_eq!(PriceInfo::default(), PriceInfo { value: 0 });
    let info = CoinInfo {
        symbol: vec![1],
        name: vec![1],
        blockchain: vec![2],
        supply: 9,
        last_update_timestamp: 9,
        price: 7,
    };
    assert_eq!(info.price_info(), PriceInfo { value: 7 });
}
