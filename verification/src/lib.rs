//! State synchronisation core of a terminal dashboard for containers and
//! networks: the view model with its selection cursors and log buffer, the
//! snapshot reconciliation that keeps a cursor on the same row, the
//! interaction state machine, and the decisions of the background poller.

pub mod display;
pub mod interaction;
pub mod order;
pub mod poller;
pub mod protocol;
pub mod reconcile;
pub mod sorting;
pub mod state;
pub mod summary;
pub mod text;
pub mod viewer;

pub use interaction::{bind_key, Command, Key, KeyPress, LOG_PAGE_HEIGHT};
pub use protocol::{DockerAction, DockerEvent};
pub use state::{App, Mode, Tab};
pub use summary::{ContainerSummary, Endpoint, Mount, NetworkSummary, Port};
