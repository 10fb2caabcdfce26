pub mod assistant;
pub mod attach;
pub mod buffers;
pub mod event_laws;
pub mod events;
pub mod laws;
pub mod overlap;
pub mod poll;
pub mod poll_laws;
pub mod progress_laws;
pub mod record_laws;
pub mod registry;
pub mod replay;
pub mod replay_laws;
pub mod report_laws;
pub mod request_laws;
pub mod requests;
pub mod search;
pub mod snapshot;
pub mod state_laws;
pub mod sync_laws;
pub mod wait;
pub mod wait_laws;
pub mod wait_step_laws;
pub mod waiter;
