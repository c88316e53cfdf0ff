//! Chat-session registry and message router of a desktop messaging client: which
//! conversation a message belongs to, the sidebar entries that mirror the conversations,
//! the focused conversation and the layout.
pub mod avatar;
pub mod contacts;
pub mod laws;
pub mod registry;
pub mod session;
pub mod title;

pub use avatar::{avatar_file_name, avatar_path_components, avatar_url};
pub use contacts::{get_friend_remark, get_group_name, name_or_id, order_friends_groups, Config, Friend, FriendsGroup, Group};
pub use registry::{CoreError, Effect, LayoutMode, MainMsg, MainPageModel, RegistryView, ViewMsg};
pub use session::{ChatItem, Chatroom, Message, SessionKey};
pub use title::{chatroom_title, find_friend, stack_child_name};
