//! Helpers without a home of their own.

pub mod arc_final_owner;
pub mod extensions;
pub mod formats;
pub mod layout;
pub mod scope_guard;
pub mod table;
pub mod version;
