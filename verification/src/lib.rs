//! A verified core for a small record-management service: books are created,
//! patched under an optimistic-concurrency check, and deleted; every committed
//! mutation yields a change event that is fanned out, in order, to every
//! connected live session.
//!
//! The persistence engine, the HTTP framework, and the socket transport are
//! external collaborators; the modules here hold the decisions made between
//! them: timestamp stamping, the staleness check, partial-patch application,
//! the event wire format, the session registry with its fan-out, and the
//! per-session lifecycle machine.

pub mod active;
pub mod book;
mod clock;
pub mod errors;
pub mod events;
pub mod pipeline;
pub mod post;
pub mod registry;
pub mod session;
pub mod store;
pub mod wire;

pub use active::ActiveValue;
pub use active::ToActiveModel;
pub use active::option_into_active_value;
pub use book::Book;
pub use book::BookActiveModel;
pub use book::BookView;
pub use book::CreateBook;
pub use book::UpdateBook;
pub use book::apply_row;
pub use book::clamp_timestamp;
pub use book::lemma_next_ts_strictly_grows;
pub use book::lemma_patch_touches_only_carried_fields;
pub use book::lemma_ts_bounds;
pub use book::next_timestamp;
pub use errors::ApiError;
pub use events::DbAction;
pub use events::DbActionView;
pub use pipeline::Pipeline;
pub use pipeline::lemma_drain_delivers_in_order;
pub use pipeline::wire_frames;
pub use post::CreatePost;
pub use post::PatchPost;
pub use post::PostActiveModel;
pub use registry::Registry;
pub use registry::Session;
pub use registry::SessionView;
pub use registry::deliver_all;
pub use registry::deliver_seq;
pub use registry::lemma_deliver_seq_logs;
pub use registry::lemma_deliver_seq_snoc;
pub use registry::lemma_removed_session_is_isolated;
pub use session::FrameAction;
pub use session::Inbound;
pub use session::SessionLifecycle;
pub use session::SessionState;
pub use store::Store;
pub use wire::dec_int;
pub use wire::esc_bytes;
pub use wire::json_book;
pub use wire::json_str;
pub use wire::serialize_action;
pub use wire::wire_of;
