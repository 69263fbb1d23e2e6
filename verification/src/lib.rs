pub mod args;
pub mod asset;
pub mod decimal;
pub mod decimal_laws;
pub mod decimal_text;
pub mod dia;
pub mod handlers;
pub mod oracle;
pub mod oracle_rpc;
pub mod price_updater;
pub mod price_updater_laws;
pub mod scheduler;
pub mod storage;
