use vstd::prelude::*;
use crate::types::{Filter, SortingMethodChannels, SortingMethodVideos};

verus! {

/// The user's settings.
#[derive(Debug)]
pub struct Config {
    pub show_empty_channels: bool,
    pub mark_on_open: bool,
    pub down_on_mark: bool,
    pub app_title: String,
    pub update_at_start: bool,
    pub sort_channels: SortingMethodChannels,
    pub message_timeout: usize,
    pub video_player: String,
    pub sort_videos: SortingMethodVideos,
    pub notify_with: String,
    pub use_dearrow_titles: bool,
}

impl Clone for Config {
    fn clone(&self) -> (r: Self)
        ensures
            r == *self,
    {
        Config {
            show_empty_channels: self.show_empty_channels,
            mark_on_open: self.mark_on_open,
            down_on_mark: self.down_on_mark,
            app_title: self.app_title.clone(),
            update_at_start: self.update_at_start,
            sort_channels: self.sort_channels,
            message_timeout: self.message_timeout,
            video_player: self.video_player.clone(),
            sort_videos: self.sort_videos,
            notify_with: self.notify_with.clone(),
            use_dearrow_titles: self.use_dearrow_titles,
        }
    }
}

impl Config {
    /// The settings used where the user wrote none.
    pub fn default() -> (c: Config)
        ensures
            c.show_empty_channels,
            c.mark_on_open,
            c.down_on_mark,
            c.app_title@ == "TYT"@,
            c.update_at_start,
            c.sort_channels == SortingMethodChannels::AlphaNumeric,
            c.message_timeout == 20,
            c.video_player@ == "mpv"@,
            c.sort_videos == SortingMethodVideos::UnseenDate,
            c.notify_with@ == "notify-send"@,
            !c.use_dearrow_titles,
    {
        Config {
            show_empty_channels: default_bool_true(),
            mark_on_open: default_bool_true(),
            down_on_mark: default_bool_true(),
            app_title: default_title(),
            update_at_start: default_bool_true(),
            sort_channels: SortingMethodChannels::default(),
            message_timeout: 20,
            video_player: String::from_str("mpv"),
            sort_videos: SortingMethodVideos::default(),
            notify_with: String::from_str("notify-send"),
            use_dearrow_titles: default_bool_false(),
        }
    }

    /// The filter that the channel list starts with: none when empty
    /// channels are to be shown, else only channels with new videos.
    pub fn initial_filter(&self) -> (f: Filter)
        ensures
            f == (if self.show_empty_channels { Filter::NoFilter } else { Filter::OnlyNew }),
    {
        if self.show_empty_channels {
            Filter::NoFilter
        } else {
            Filter::OnlyNew
        }
    }
}

/// The title of the program where the user gave none.
pub fn default_title() -> (s: String)
    ensures
        s@ == "TYT"@,
{
    String::from_str("TYT")
}

/// The default of switches that are on unless turned off.
pub fn default_bool_true() -> (b: bool)
    ensures
        b,
{
    true
}

/// The default of switches that are off unless turned on.
pub fn default_bool_false() -> (b: bool)
    ensures
        !b,
{
    false
}

/// The default number of seconds a message stays.
pub fn default_20() -> (n: u8)
    ensures
        n == 20,
{
    20
}

/// The default of texts that may be left out.
pub fn empty_string() -> (s: String)
    ensures
        s@ == Seq::<char>::empty(),
{
    String::new()
}

/// The files that the program keeps in its configuration directory.
#[derive(PartialEq, Eq, Structural, Clone, Copy, Debug)]
pub enum FileType {
    ConfigFile,
    DbFile,
    HistoryFile,
    SubscriptionsFile,
}

impl FileType {
    /// The name of the file within the configuration directory.
    pub fn file(&self) -> (r: &'static str)
        ensures
            *self == FileType::ConfigFile ==> r@ == "config.yml"@,
            *self == FileType::DbFile ==> r@ == "db.json"@,
            *self == FileType::HistoryFile ==> r@ == "history.json"@,
            *self == FileType::SubscriptionsFile ==> r@ == "subscriptions.yml"@,
    {
        match self {
            FileType::ConfigFile => "config.yml",
            FileType::DbFile => "db.json",
            FileType::HistoryFile => "history.json",
            FileType::SubscriptionsFile => "subscriptions.yml",
        }
    }
}

} // verus!
