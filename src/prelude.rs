//! The main items of the library in one place.
pub use crate::channel::{Channel, ChannelList};
pub use crate::client::{Client, ClientList};
pub use crate::command::{Command, Request};
pub use crate::error::{Error, SQError};
pub use crate::map::{to_map, update_from_map, StringMap};
pub use crate::query::{Goal, Next, Query, Stage};
pub use crate::session::{Phase, Session, Step};
