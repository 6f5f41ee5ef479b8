pub mod constants;
pub mod errors;
pub mod interface;
pub mod attributes;

pub use interface::TxInfo;
pub use attributes::L2TxAttributes;


pub mod create_public_pool;
pub mod transfer;
pub mod withdraw;
pub mod create_order;
pub mod update_leverage;
pub mod approve_integrator;



pub mod change_pub_key;

pub mod create_grouped_orders;

pub mod request_hash;
