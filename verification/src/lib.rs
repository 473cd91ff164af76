//! A role-gated ledger of projects, their users and their expenditures.
//!
//! The ledger keeps four indexes in step: the projects of each account, the
//! accounts of each project, the accounts of each role in each project, and
//! the expenditures of each project. Every list has a capacity, an account
//! holds at most one role in a project, and an administrator holds none.
//!
//! - `model` says what a ledger holds, what always holds of it, and what
//!   each operation makes of it; `preservation` proves that every operation
//!   keeps it in order, and `laws` what the operations promise together.
//! - `ledger` holds the ledger in memory; `users`, `projects`, `membership`
//!   and `expenditures` are its operations.
//! - `pallet` puts every operation behind a check of the origin of the call
//!   and of the role of its signer, which a `RoleAuthority` answers.
//! - `bounded` and `identifiers` are where the library calls outside code:
//!   bounded vectors and the BLAKE2b-256 digest.

pub mod authority;
pub mod bounded;
pub mod builder;
pub mod expenditures;
pub mod identifiers;
pub mod laws;
pub mod ledger;
pub mod lemmas;
pub mod membership;
pub mod model;
pub mod pallet;
pub mod preservation;
pub mod projects;
pub mod table;
pub mod types;
pub mod users;

pub use authority::{RoleAuthority, RoleRegistry};
pub use builder::ExtBuilder;
pub use ledger::Ledger;
pub use pallet::Pallet;
pub use types::{DispatchError, Error, Event, Origin, ProxyRole};
