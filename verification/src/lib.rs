//! An entity-persistence and change-tracking layer for reconnaissance data.
//!
//! Entities (here: email addresses) live in a relational store modelled by
//! [`store::Database`]. Every entity gets uniform CRUD access, soft-visibility
//! scoping, diff-based partial updates, recursive relationship display, and
//! validated ingestion of loosely-typed script output.

pub mod display;
pub mod email;
pub mod errors;
pub mod filter;
pub mod laws;
pub mod script;
pub mod store;

pub use display::BreachWithPassword;
pub use display::DetailedEmail;
pub use display::PrintableBreach;
pub use display::PrintableEmail;
pub use display::Segment;
pub use display::Style;
pub use email::Email;
pub use email::EmailUpdate;
pub use email::NewEmail;
pub use email::Update;
pub use errors::Error;
pub use errors::ValidationKind;
pub use filter::Filter;
pub use script::InsertEmail;
pub use script::ScriptRecord;
pub use script::ScriptValue;
pub use store::Breach;
pub use store::BreachEmail;
pub use store::Database;
pub use store::StoreModel;
