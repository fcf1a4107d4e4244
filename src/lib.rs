//! Validation and record lifecycle of a ticket store: a store record that
//! counts the items it has issued, and one metadata record per item.
//!
//! The processors are pure: they check the accounts of an instruction and
//! return the bytes that the host must write, leaving account creation and
//! the writes themselves to the caller.
pub mod accounts;
pub mod address;
pub mod codec;
pub mod error;
pub mod laws;
pub mod processor;
pub mod records;


pub use address::{Address, ProgramIds};
pub use error::StoreError;

pub use accounts::AccountView;
pub use processor::{create_store, mint_nft, update_mint, CreateStoreArgs, MintNFTArgs};
