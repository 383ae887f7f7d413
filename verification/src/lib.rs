//! An in-process telemetry pipeline: labelled observations are routed to the
//! instruments that care for them, and the tree of instruments renders
//! itself into a snapshot on demand.
pub mod capability;
pub mod channel;
pub mod cockpit;
pub mod instruments;
pub mod observation;
pub mod processor;
pub mod render;
pub mod snapshot;
pub mod time;
pub mod util;

pub use crate::capability::{BoxedHandler, BoxedSnapshooter, Descriptive, HandlesObservations, PutsSnapshot};
pub use crate::channel::{Dropped, TelemetryMessage};
pub use crate::cockpit::Cockpit;
pub use crate::observation::{Observation, ObservationLike, ObservedValue};
pub use crate::processor::TelemetryTransmitter;
pub use crate::snapshot::{ItemKind, ItemView, Snapshot};
pub use crate::time::{TimeSpan, TimeUnit, Timestamp};
