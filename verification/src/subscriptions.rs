use vstd::prelude::*;
use crate::clock::today_weekday;
use crate::text::str_eq;
use crate::types::{SortingMethodVideos, Weekday};

verus! {

/// On which days a subscription is fetched.
#[derive(PartialEq, Eq, Structural, Clone, Copy, Debug)]
pub enum Date {
    Mon,
    Tue,
    Wed,
    Thu,
    Fri,
    Sat,
    Sun,
    Workday,
    Weekend,
    Always,
    Never,
}

/// The date names the weekday: itself, a workday among Monday to Friday,
/// a weekend day among Saturday and Sunday, or any day for `Always`.
pub open spec fn date_covers(d: Date, w: Weekday) -> bool {
    match d {
        Date::Mon => w == Weekday::Mon,
        Date::Tue => w == Weekday::Tue,
        Date::Wed => w == Weekday::Wed,
        Date::Thu => w == Weekday::Thu,
        Date::Fri => w == Weekday::Fri,
        Date::Sat => w == Weekday::Sat,
        Date::Sun => w == Weekday::Sun,
        Date::Workday => w != Weekday::Sat && w != Weekday::Sun,
        Date::Weekend => w == Weekday::Sat || w == Weekday::Sun,
        Date::Always => true,
        Date::Never => false,
    }
}

/// Some of the dates names the weekday.
pub open spec fn dates_cover(ds: Seq<Date>, w: Weekday) -> bool {
    exists|i: int| 0 <= i < ds.len() && date_covers(#[trigger] ds[i], w)
}

impl Date {
    pub fn default() -> (d: Date)
        ensures
            d == Date::Always,
    {
        Date::Always
    }

    /// Whether the date names the weekday.
    pub fn eq_to(&self, other: &Weekday) -> (r: bool)
        ensures
            r == date_covers(*self, *other),
    {
        match (self, other) {
            (Date::Mon, Weekday::Mon) | (Date::Tue, Weekday::Tue) | (Date::Wed, Weekday::Wed) | (
                Date::Thu,
                Weekday::Thu,
            ) | (Date::Fri, Weekday::Fri) | (Date::Sat, Weekday::Sat) | (Date::Sun, Weekday::Sun) | (
                Date::Workday,
                Weekday::Mon,
            ) | (Date::Workday, Weekday::Tue) | (Date::Workday, Weekday::Wed) | (
                Date::Workday,
                Weekday::Thu,
            ) | (Date::Workday, Weekday::Fri) | (Date::Weekend, Weekday::Sat) | (
                Date::Weekend,
                Weekday::Sun,
            ) | (Date::Always, _) => true,
            _ => false,
        }
    }
}

/// The name of a single weekday.
pub open spec fn day_name(w: Weekday) -> Date {
    match w {
        Weekday::Mon => Date::Mon,
        Weekday::Tue => Date::Tue,
        Weekday::Wed => Date::Wed,
        Weekday::Thu => Date::Thu,
        Weekday::Fri => Date::Fri,
        Weekday::Sat => Date::Sat,
        Weekday::Sun => Date::Sun,
    }
}

/// Each weekday is named by its own name and by no other single day's
/// name; a workday is one of Monday to Friday, a weekend day is Saturday
/// or Sunday, so every weekday is exactly one of the two; `Always` names
/// every day and `Never` none.
pub proof fn law_dates_name_weekdays(w: Weekday, d: Date)
    ensures
        date_covers(day_name(w), w),
        date_covers(d, w) && d != Date::Workday && d != Date::Weekend && d != Date::Always ==> d
            == day_name(w),
        date_covers(Date::Workday, w) <==> (date_covers(Date::Mon, w) || date_covers(Date::Tue, w)
            || date_covers(Date::Wed, w) || date_covers(Date::Thu, w) || date_covers(Date::Fri, w)),
        date_covers(Date::Weekend, w) <==> (date_covers(Date::Sat, w) || date_covers(Date::Sun, w)),
        date_covers(Date::Workday, w) != date_covers(Date::Weekend, w),
        date_covers(Date::Workday, w) <==> (day_name(w) != Date::Sat && day_name(w) != Date::Sun),
        date_covers(Date::Always, w),
        !date_covers(Date::Never, w),
{
}

/// Whether one of the dates names the weekday.
pub fn any_date_covers(dates: &Vec<Date>, day: Weekday) -> (r: bool)
    ensures
        r == dates_cover(dates@, day),
{
    let mut i: usize = 0;
    while i < dates.len()
        invariant
            i <= dates.len(),
            forall|k: int| 0 <= k < i ==> !date_covers(#[trigger] dates@[k], day),
        decreases dates.len() - i,
    {
        if dates[i].eq_to(&day) {
            return true;
        }
        i = i + 1;
    }
    false
}

/// One feed that is subscribed to.
#[derive(Debug)]
pub struct ChannelSubscription {
    pub url: String,
    pub block_regex: Option<String>,
    pub name: String,
    pub update_on: Vec<Date>,
    pub tag: String,
    pub sort_by: SortingMethodVideos,
    pub download: bool,
}

/// Several feeds shown as one channel, identified by its name.
#[derive(Debug)]
pub struct CustomChannelSubscription {
    pub urls: Vec<String>,
    pub name: String,
    pub block_regex: Option<String>,
    pub update_on: Vec<Date>,
    pub tag: String,
    pub sort_by: SortingMethodVideos,
}

impl ChannelSubscription {
    /// The subscription written into a fresh subscriptions file.
    pub fn default() -> (s: ChannelSubscription)
        ensures
            s.url@ == "https://www.youtube.com/feeds/videos.xml?channel_id=UCBa659QWEk1AI4Tg--mrJ2A"@,
            s.name@ == "Tom Scott"@,
            s.update_on@ == seq![Date::Always],
            s.tag@ == "Interresting"@,
            s.sort_by == SortingMethodVideos::UnseenDate,
            s.block_regex is None,
            !s.download,
    {
        let mut update_on: Vec<Date> = Vec::new();
        update_on.push(Date::default());
        ChannelSubscription {
            url: String::from_str(
                "https://www.youtube.com/feeds/videos.xml?channel_id=UCBa659QWEk1AI4Tg--mrJ2A",
            ),
            name: String::from_str("Tom Scott"),
            update_on,
            tag: String::from_str("Interresting"),
            sort_by: SortingMethodVideos::default(),
            block_regex: None,
            download: false,
        }
    }

    /// The id of the channel: its url.
    pub fn id(&self) -> (r: String)
        ensures
            r@ == self.url@,
    {
        self.url.clone()
    }

    /// Whether the channel is fetched on the weekday.
    pub fn active_on(&self, day: Weekday) -> (r: bool)
        ensures
            r == dates_cover(self.update_on@, day),
    {
        any_date_covers(&self.update_on, day)
    }

    /// Whether the channel is fetched today.
    pub fn active(&self) -> (r: bool)
        ensures
            exists|w: Weekday| r == dates_cover(self.update_on@, w),
    {
        let day = today_weekday();
        self.active_on(day)
    }

    pub fn tag(&self) -> (r: String)
        ensures
            r@ == self.tag@,
    {
        self.tag.clone()
    }

    pub fn name(&self) -> (r: String)
        ensures
            r@ == self.name@,
    {
        self.name.clone()
    }

    pub fn sorting_method(&self) -> (r: SortingMethodVideos)
        ensures
            r == self.sort_by,
    {
        self.sort_by
    }

    pub fn block_regex(&self) -> (r: &Option<String>)
        ensures
            r == &self.block_regex,
    {
        &self.block_regex
    }
}

impl CustomChannelSubscription {
    /// The id of the channel: its name.
    pub fn id(&self) -> (r: String)
        ensures
            r@ == self.name@,
    {
        self.name.clone()
    }

    /// Whether the channel is fetched on the weekday.
    pub fn active_on(&self, day: Weekday) -> (r: bool)
        ensures
            r == dates_cover(self.update_on@, day),
    {
        any_date_covers(&self.update_on, day)
    }

    /// Whether the channel is fetched today.
    pub fn active(&self) -> (r: bool)
        ensures
            exists|w: Weekday| r == dates_cover(self.update_on@, w),
    {
        let day = today_weekday();
        self.active_on(day)
    }

    pub fn tag(&self) -> (r: String)
        ensures
            r@ == self.tag@,
    {
        self.tag.clone()
    }

    pub fn name(&self) -> (r: String)
        ensures
            r@ == self.name@,
    {
        self.name.clone()
    }

    pub fn sorting_method(&self) -> (r: SortingMethodVideos)
        ensures
            r == self.sort_by,
    {
        self.sort_by
    }

    pub fn block_regex(&self) -> (r: &Option<String>)
        ensures
            r == &self.block_regex,
    {
        &self.block_regex
    }
}

/// Everything subscribed to.
#[derive(Debug)]
pub struct Subscriptions {
    pub channels: Vec<ChannelSubscription>,
    pub custom_channels: Vec<CustomChannelSubscription>,
}

/// Some subscription has the id: a channel by its url, a custom channel by
/// its name.
pub open spec fn subscribes(subs: Subscriptions, id: Seq<char>) -> bool {
    ||| exists|i: int| 0 <= i < subs.channels@.len() && (#[trigger] subs.channels@[i]).url@ == id
    ||| exists|i: int|
        0 <= i < subs.custom_channels@.len() && (#[trigger] subs.custom_channels@[i]).name@ == id
}

impl Subscriptions {
    /// The subscriptions of a fresh file: the one default channel.
    pub fn default() -> (s: Subscriptions)
        ensures
            s.channels@.len() == 1,
            s.channels@[0].url@
                == "https://www.youtube.com/feeds/videos.xml?channel_id=UCBa659QWEk1AI4Tg--mrJ2A"@,
            s.channels@[0].name@ == "Tom Scott"@,
            s.custom_channels@.len() == 0,
    {
        let mut channels: Vec<ChannelSubscription> = Vec::new();
        channels.push(ChannelSubscription::default());
        Subscriptions { channels, custom_channels: Vec::new() }
    }

    /// Whether a channel or a custom channel has the id.
    pub fn contains_channel_by_id(&self, id: &str) -> (r: bool)
        ensures
            r == subscribes(*self, id@),
    {
        let mut i: usize = 0;
        while i < self.channels.len()
            invariant
                i <= self.channels.len(),
                forall|k: int| 0 <= k < i ==> (#[trigger] self.channels@[k]).url@ != id@,
            decreases self.channels.len() - i,
        {
            if str_eq(self.channels[i].url.as_str(), id) {
                return true;
            }
            i = i + 1;
        }
        let mut j: usize = 0;
        while j < self.custom_channels.len()
            invariant
                j <= self.custom_channels.len(),
                forall|k: int| 0 <= k < self.channels@.len() ==> (#[trigger] self.channels@[k]).url@ != id@,
                forall|k: int| 0 <= k < j ==> (#[trigger] self.custom_channels@[k]).name@ != id@,
            decreases self.custom_channels.len() - j,
        {
            if str_eq(self.custom_channels[j].name.as_str(), id) {
                return true;
            }
            j = j + 1;
        }
        false
    }
}

} // verus!
