//! Storage for a unification table: a dense, index-addressed table of
//! per-variable values with snapshots that can be rolled back or committed.
//!
//! Two backing stores share one interface, [`UnificationStore`]:
//! [`InPlace`] keeps a growable array and rolls back by truncation, so it
//! forgets appended slots but keeps updates made to older ones;
//! [`Persistent`] keeps a structurally shared vector and rolls back by
//! putting the captured vector in place again, so it forgets both.

pub mod value;
pub mod store;
pub mod in_place;
pub mod dvec;
pub mod persistent;
pub mod laws;

pub use crate::in_place::{InPlace, InPlaceView, Snapshot, SnapshotView};
pub use crate::persistent::{Persistent, PersistentView};
pub use crate::store::{Measurable, UnificationStore};
pub use crate::value::{UnifyKey, VarValue};
