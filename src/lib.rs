pub mod client_id;
pub mod datalog;
pub mod error;
pub mod path;
pub mod session;
pub mod table;
pub mod text;
pub mod value;
pub mod wire;

pub use client_id::{get_connect_client_names, NetworkTableClientId};
pub use datalog::{end_datalog_entry, start_datalog_entry, DatalogFinish, DatalogStart};
pub use error::{check_if_main_thread, EnokiError};
pub use path::MushroomPath;
pub use session::{
    pace, InboundMessage, PublishStep, SubscriptionPackage, SubscriptionStep, SyncSession,
    CADENCE_MICROS, QUEUE_CAPACITY,
};
pub use table::{MushroomEntry, MushroomTable};
pub use value::{ConversionError, MushroomValue, ValueKind};
pub use wire::WireValue;
