//! Settlement of option positions at expiry: the decisions a matching engine takes
//! when an option instrument expires, stated as contracts and proved with Verus.
pub mod accounts;
pub mod amounts;
pub mod apply;
pub mod apply_laws;
pub mod attempt;
pub mod decimal;
pub mod engine;
pub mod errors;
pub mod expiry;
pub mod expiry_laws;
pub mod faults;
pub mod hash;
pub mod identity;
pub mod laws;
pub mod model;
pub mod plan;
pub mod plan_laws;
pub mod price_laws;
pub mod protocol;
pub mod terms;
pub mod trace;
pub mod uuids;
pub mod view_laws;
