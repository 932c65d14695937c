//! Bookkeeping for nested overlay surfaces, kept apart from rendering:
//!
//! - [`stack`]: LIFO stacks of overlay payloads under increasing identifiers;
//! - [`channel`]: a registry of such stacks, one per channel tag;
//! - [`focus`]: the focus-trap coordinator and the Tab-cycling rule;
//! - [`modals`], [`toast`], [`tabs`], [`shell`]: the modal hook, the queue of
//!   expiring notifications, tab sets and the shell layout stack;
//! - [`markup`], [`docs`], [`demo`]: pages described as plain markup values;
//! - [`states`], [`paging`], [`position`], [`theme`], [`util`], [`classes`], [`text`]: smaller
//!   pieces used around them.

pub mod stack;
pub mod text;
pub mod focus;
pub mod channel;
pub mod position;
pub mod toast;
pub mod markup;
pub mod docs;
pub mod classes;
pub mod demo;
pub mod modals;
pub mod tabs;
pub mod shell;
pub mod states;
pub mod util;
pub mod paging;
pub mod theme;
