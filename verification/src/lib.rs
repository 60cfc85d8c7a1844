//! Core data model, proofs and execution rules of the UNITS object system.
pub mod id;
pub mod objects;
pub mod id_map;
pub mod hashing;
pub mod order;
pub mod proofs;
pub mod transaction;
pub mod vm_executor;
pub mod text;
pub mod riscv;
pub mod codec;
pub mod kernel;
pub mod token;
pub mod account;
pub mod crypto;
pub mod auth;
pub mod secure_account;
pub mod slot;
pub mod runtime;
pub mod transaction_manager;
pub mod lock_manager;
pub mod services;
pub mod allocator;
