//! Verified core of the TKS secret service: storage of collections and items,
//! the encrypted items file format, D-Bus object paths, sessions, prompts and the
//! KWallet import plan.

pub mod crypto;
pub mod error;
pub mod ids;
pub mod kwallet;
pub mod storage;
pub mod text;
pub mod tks_dbus;
