//! Credit-account building blocks: fixed-width token arithmetic, account health,
//! the two-step admin role, the reentrancy guard, vault and zapper helpers.

pub mod uint;
pub mod coin;
pub mod math;
pub mod health;
pub mod attribute;
pub mod text;
pub mod format;
pub mod admin;
pub mod error;
pub mod reentrancy_guard;
pub mod adapters;
pub mod reply;
pub mod zapper;
pub mod mock_vault;
