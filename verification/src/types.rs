use vstd::prelude::*;

verus! {

/// Which channels the channel list shows.
#[derive(PartialEq, Eq, Structural, Clone, Copy, Debug)]
pub enum Filter {
    NoFilter,
    OnlyNew,
}

impl Filter {
    /// The filter that a freshly loaded list starts with.
    pub fn default() -> (f: Filter)
        ensures
            f == Filter::NoFilter,
    {
        Filter::NoFilter
    }
}

/// How the channels of a list are ordered.
#[derive(PartialEq, Eq, Structural, Clone, Copy, Debug)]
pub enum SortingMethodChannels {
    AlphaNumeric,
    ByTag,
}

impl SortingMethodChannels {
    pub fn default() -> (s: SortingMethodChannels)
        ensures
            s == SortingMethodChannels::AlphaNumeric,
    {
        SortingMethodChannels::AlphaNumeric
    }
}

/// How the videos of a channel are ordered.
#[derive(PartialEq, Eq, Structural, Clone, Copy, Debug)]
pub enum SortingMethodVideos {
    Date,
    Text,
    UnseenDate,
    UnseenText,
}

impl SortingMethodVideos {
    pub fn default() -> (s: SortingMethodVideos)
        ensures
            s == SortingMethodVideos::UnseenDate,
    {
        SortingMethodVideos::UnseenDate
    }
}

/// The sorting choices of an earlier subscription format.
#[derive(PartialEq, Eq, Structural, Clone, Copy, Debug)]
pub enum SortingMethod {
    Number,
    Text,
    Date,
}

impl SortingMethod {
    pub fn default() -> (s: SortingMethod)
        ensures
            s == SortingMethod::Date,
    {
        SortingMethod::Date
    }
}

/// The two screens of the program.
#[derive(PartialEq, Eq, Structural, Clone, Copy, Debug)]
pub enum Screen {
    Channels,
    Videos,
}

/// Everything the user can ask for.
#[derive(PartialEq, Eq, Structural, Clone, Copy, Debug)]
pub enum Action {
    Mark(bool),
    Up,
    Down,
    Enter,
    Leave,
    NextChannel,
    PrevChannel,
    Open,
    SetVideoFav,
}

/// Where the fetching of a channel stands.
#[derive(PartialEq, Eq, Structural, Clone, Copy, Debug)]
pub enum FetchState {
    DownloadsFailure(usize),
    Scheduled,
    Loading,
    FetchingDearrow,
    Fetched,
}

impl FetchState {
    pub fn default() -> (s: FetchState)
        ensures
            s == FetchState::Scheduled,
    {
        FetchState::Scheduled
    }
}

/// A day of the week.
#[derive(PartialEq, Eq, Structural, Clone, Copy, Debug)]
pub enum Weekday {
    Mon,
    Tue,
    Wed,
    Thu,
    Fri,
    Sat,
    Sun,
}

} // verus!
