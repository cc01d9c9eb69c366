//! The network monitor: what it concludes from its checks, and what its dashboard shows.

pub mod helpers;
pub mod note_transport;
pub mod service_status;
pub mod view;
