//! Pinlab's library: content-addressed blobs that repair their own paths,
//! the promise bridge polled once per frame, and the pinboard data model.

pub mod blob;
pub mod board;
pub mod digest;
pub mod palette;
pub mod paths;
pub mod pinboard;
pub mod promise;
pub mod workspace;
pub mod relation;
pub mod shapes;

pub use board::{BoardGraph, EdgeEntry, NodeEntry, Position};
pub use blob::{Blob, BlobType, FsEntry, PathProbe, UpdateError};
pub use digest::{digest_of, same_digest, Digest};
pub use palette::NamedColor;
pub use pinboard::{BlobTask, BoardEvent, FrameOutcome, Pinboard, PinboardBuffer, Target};
pub use promise::{handle_promise, handle_promises};
pub use relation::{Conn, Relation};
pub use shapes::{MyEdgeShape, MyNodeShape};
pub use workspace::{blob_type_for, editor_extensions, launch_for, BoardLoad, Launch, PinlabApp};
