//! The two halves of a channel pair and the values that travel on it.
use vstd::prelude::*;

pub mod common;
mod level;
pub mod recv;
pub mod send;
pub mod syncext;

pub use common::send_failed;
pub use common::recv;
pub use common::Action;
pub use common::DirEntry;
pub use common::EntryView;
pub use common::Error;
pub use common::FsData;
pub use common::FsMsg;
pub use common::Kind;
pub use common::MsgView;
pub use common::Path;
pub use common::PathView;
pub use common::Reply;

pub use send::Dir as SendDir;
pub use send::DirEntryAction as SendDirEntryAction;
pub use send::File as SendFile;
pub use send::FileAction as SendFileAction;
pub use send::FileEntryAction as SendFileEntryAction;
pub use send::Root as SendRoot;

pub use recv::Data as RecvData;
pub use recv::Dir as RecvDir;
pub use recv::DirEntryAction as RecvDirEntryAction;
pub use recv::Entry as RecvEntry;
pub use recv::File as RecvFile;
pub use recv::FileEntryAction as RecvFileEntryAction;
pub use recv::Root as RecvRoot;

verus! {

/// The sending and the receiving half of a fresh channel pair, on which the
/// contents of one directory tree can travel.
pub fn new() -> (r: (send::Root, recv::Root)) {
    let (tx, rx) = send::channel::<FsMsg>(send::CAPACITY);
    (send::new_root(tx), recv::new_root(rx))
}

} // verus!
