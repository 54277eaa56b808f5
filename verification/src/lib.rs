//! A verified core for a terminal subscription manager of video feeds:
//! channels and their videos, the filtered channel list, feeds and their
//! entries, subscriptions, settings, the playback history, the key
//! bindings and the state machine that reacts to the user's actions.

pub mod alnum;
pub mod assoc;
pub mod channel;
pub mod channel_factory;
pub mod channel_list;
pub mod clock;
pub mod config;
pub mod dates;
pub mod display;
pub mod feed;
pub mod feeds;
pub mod fetch;
pub mod history;
pub mod input;
pub mod notification;
pub mod seq_util;
pub mod sort;
pub mod state;
pub mod subscriptions;
pub mod text;
pub mod types;
pub mod video;
pub mod video_factory;
