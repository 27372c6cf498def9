pub mod adapters;
pub mod apply;
pub mod block;
pub mod bridges;
pub mod bytes;
pub mod config;
pub mod consensus;
pub mod crypto;
pub mod errors;
pub mod field;
pub mod governance;
pub mod hexcodec;
pub mod kvmap;
pub mod ledger;
pub mod mempool;
pub mod node;
pub mod p2p;
pub mod notes;
pub mod proofs;
pub mod quorum;
pub mod rollup;
pub mod rpc;
pub mod settlement;
pub mod shielded;
pub mod slashing;
pub mod staking;
pub mod store;
pub mod state;
pub mod types;
pub mod text;
pub mod vm;
pub mod zk;
pub mod wallet;
