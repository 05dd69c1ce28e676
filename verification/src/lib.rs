//! Rules and bookkeeping for pulling data files out of a tree of task folders.
//!
//! The tree has three levels: a source root, the top-level folders in it, and the
//! subfolders of a top-level folder, which hold the files. A transfer copies the
//! eligible files of the marked subfolders of one top-level folder into a single
//! destination directory and, where asked, moves each copied file into the
//! `copied` directory of its subfolder.
//!
//! Nothing here touches the file system. [`listing`] orders the names that a
//! directory was found to hold, [`filter`] decides which files are eligible,
//! [`selection`] keeps the user's choices, and [`transfer`] leads a run one action
//! at a time: the caller performs each action and reports back. [`run`] states what
//! whole runs amount to, and [`text`] holds the helpers on names and paths.

pub mod filter;
pub mod listing;
pub mod run;
pub mod selection;
pub mod text;
pub mod transfer;
