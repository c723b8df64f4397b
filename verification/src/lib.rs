//! Silent receipt printing for a point-of-sale desk.
//!
//! A bill arrives as finished markup and leaves as a print job on the default
//! printer, without a dialog. The library makes every decision on the way and
//! proves what it promises; running commands, writing files and talking to the
//! store are left to the caller, who reports what it saw.
//!
//! - `extract` turns markup into the plain text that a dot-matrix printer takes;
//! - `directory` reads which printers there are and which is the default;
//! - `spool` writes the command that hands plain text to the spooler;
//! - `dispatch` takes one job through its strategies, step by step;
//! - `service` answers the user interface in plain messages;
//! - `catalog` decides the one-time import of the bundled medicines.
//!
//! The modules whose names end in `_laws` hold what is proved of the others.

pub mod catalog;
pub mod directory;
pub mod dispatch;
pub mod dispatch_laws;
pub mod entity_laws;
pub mod extract;
pub mod layout_laws;
pub mod model;
pub mod receipt_laws;
pub mod rules;
pub mod service;
pub mod spool;
pub mod text;
pub mod text_laws;
