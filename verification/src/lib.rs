//! Manager for a four-level hierarchy of append-only messaging channels:
//! root, category, actor and daily channels. The verified core keeps the
//! in-memory directories and caches of the hierarchy, validates calendar
//! dates, derives the key material for persisted channel state, and seals
//! and restores that state as an encrypted, base64url-encoded blob.
//! Network transport for the underlying channels lives outside this crate.

mod crypto;
mod errors;
mod text;
pub mod actor_channel;
pub mod category_channel;
pub mod channels;
pub mod daily_channel;
pub mod messages;
pub mod root_channel;
pub mod utils;

pub use errors::ChannelError;
pub use actor_channel::DailyChannelMsg as DailyChannelInfo;
pub use category_channel::ActorChannelMsg as ActorChannelInfo;
