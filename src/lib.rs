pub mod bytes;
pub mod sorted_map;
pub mod cache;
pub mod gas;
pub mod store;
pub mod multi;
pub mod gas_store;
pub mod context;
pub mod mode;
pub mod num;
pub mod coin;
pub mod address;
pub mod staking;
pub mod keeper;
pub mod gov;
pub mod baseapp;
