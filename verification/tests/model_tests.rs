use std::cmp::Ordering;
use tyt::channel::{sort_by_title, sort_videos, Channel};
use tyt::channel_list::{channel_sort_key, ChannelList};
use tyt::config::{
    default_20, default_bool_false, default_bool_true, default_title, empty_string, Config, FileType,
};
use tyt::subscriptions::{
    ChannelSubscription, CustomChannelSubscription, Date, Subscriptions,
};
use tyt::types::{
    FetchState, Filter, SortingMethod, SortingMethodChannels, SortingMethodVideos, Weekday,
};
use tyt::video::Video;
use tyt::video_factory::VideoFactory;

fn video(title: &str, link: &str, date: &str) -> Video {
    let mut v = Video::empty();
    v.title = title.to_string();
    v.link = link.to_string();
    v.pub_date = date.to_string();
    v
}

fn channel(id: &str, name: &str, videos: Vec<Video>) -> Channel {
    let mut c = Channel::default();
    c.id = id.to_string();
    c.name = name.to_string();
    for v in videos {
        c.push(v);
    }
    c
}

#[test]
fn video_new_is_a_placeholder() {
    let v = Video::new();
    assert_eq!(v.title(), "VideoTitle");
    assert_eq!(v.link(), "video_link");
    assert_eq!(v.origin_url(), "origin_url");
    assert_eq!(v.pub_date(), "DATUM");
    assert!(!v.marked());
    assert!(!v.is_fav());
    assert!(v.is_new());
    assert_eq!(v.get_details(), "VideoTitle");
}

#[test]
fn video_mark_fav_and_origin() {
    let mut v = Video::new();
    v.mark(true);
    assert!(v.marked());
    v.mark(false);
    assert!(!v.marked());
    v.set_fav(true);
    assert!(v.is_fav());
    v.add_origin_url("https://example.org/feed");
    assert_eq!(v.origin_url(), "https://example.org/feed");
    assert_eq!(v.title(), "VideoTitle");
}

#[test]
fn video_rank_puts_favourites_and_unmarked_first() {
    let mut v = Video::new();
    assert_eq!(v.rank(), 100);
    v.mark(true);
    assert_eq!(v.rank(), 110);
    v.set_fav(true);
    assert_eq!(v.rank(), 10);
    v.mark(false);
    assert_eq!(v.rank(), 0);
}

#[test]
fn videos_are_the_same_by_link() {
    let a = video("a", "x", "1");
    let b = video("b", "x", "2");
    let c = video("a", "y", "1");
    assert!(a.same_as(&b));
    assert!(!a.same_as(&c));
    assert!(a == b);
    assert!(a != c);
}

#[test]
fn factory_commits_when_all_set() {
    let mut f = VideoFactory::create();
    f.set_title("t".to_string());
    f.set_link("l".to_string());
    f.set_origin_url("u".to_string());
    f.set_origin_channel_name("n".to_string());
    f.set_pub_date("d".to_string());
    f.set_marked(true);
    f.set_new(false);
    f.set_fav(true);
    let v = f.commit().expect("all fields set");
    assert_eq!(v.title, "t");
    assert_eq!(v.link, "l");
    assert!(v.marked);
    assert!(v.fav);
    assert!(!v.is_new);
}

#[test]
fn factory_names_the_first_missing_field() {
    let f = VideoFactory::create();
    assert_eq!(f.commit().unwrap_err(), "Title not set");
    let mut f = VideoFactory::create();
    f.set_title("t".to_string());
    assert_eq!(f.commit().unwrap_err(), "link not set");
    let mut f = VideoFactory::create();
    f.set_title("t".to_string());
    f.set_link("l".to_string());
    f.set_origin_url("u".to_string());
    f.set_origin_channel_name("n".to_string());
    f.set_pub_date("d".to_string());
    f.set_marked(false);
    f.set_new(true);
    let v = f.commit().expect("the favourite mark may stay unset");
    assert!(!v.is_fav());
}

#[test]
fn channel_moves_within_its_videos() {
    let mut c = channel("id", "n", vec![video("a", "1", "x"), video("b", "2", "y")]);
    c.next();
    assert_eq!(c.selected(), Some(0));
    c.next();
    assert_eq!(c.selected(), Some(1));
    c.next();
    assert_eq!(c.selected(), Some(1));
    c.prev();
    c.prev();
    assert_eq!(c.selected(), Some(0));
}

#[test]
fn channel_has_new_until_all_marked() {
    let mut c = channel("id", "n", vec![video("a", "1", "x"), video("b", "2", "y")]);
    assert!(c.has_new());
    c.mark_video(0, true);
    assert!(c.has_new());
    c.mark_video(1, true);
    assert!(!c.has_new());
    c.mark_video(5, false);
    assert!(!c.has_new());
}

#[test]
fn merge_adds_unknown_videos_and_sorts() {
    let mut c = channel("id", "n", vec![video("a", "1", "2020")]);
    c.merge_videos(vec![video("a again", "1", "2021"), video("b", "2", "2022")]);
    assert_eq!(c.videos.len(), 2);
    assert_eq!(c.videos[0].link, "2");
    assert_eq!(c.videos[1].link, "1");
    assert_eq!(c.videos[1].title, "a");
}

#[test]
fn sort_by_date_puts_unmarked_newest_first() {
    let mut marked_new = video("m", "3", "2023");
    marked_new.mark(true);
    let videos = vec![video("old", "1", "2020"), marked_new, video("new", "2", "2022")];
    let sorted = sort_videos(videos, SortingMethodVideos::UnseenDate);
    let links: Vec<&str> = sorted.iter().map(|v| v.link.as_str()).collect();
    assert_eq!(links, vec!["2", "1", "3"]);
}

#[test]
fn sort_by_title_orders_numbers_by_value() {
    let videos = vec![video("part 10", "a", ""), video("part 9", "b", ""), video("intro", "c", "")];
    let sorted = sort_by_title(videos);
    let titles: Vec<&str> = sorted.iter().map(|v| v.title.as_str()).collect();
    assert_eq!(titles, vec!["intro", "part 9", "part 10"]);
}

#[test]
fn sort_by_title_puts_no_title_before_a_smaller_one() {
    let titles = ["b10", "a2", "b9", "a10", "", "b09", "Z", "a2"];
    let videos: Vec<Video> = titles.iter().enumerate().map(|(i, t)| video(t, &i.to_string(), "")).collect();
    let sorted = sort_by_title(videos);
    assert_eq!(sorted.len(), titles.len());
    for pair in sorted.windows(2) {
        assert_ne!(alphanumeric_sort::compare_str(&pair[0].title, &pair[1].title), Ordering::Greater);
    }
    let order: Vec<&str> = sorted.iter().map(|v| v.title.as_str()).collect();
    assert_eq!(order, vec!["", "Z", "a2", "a2", "a10", "b9", "b09", "b10"]);
    let links: Vec<&str> = sorted.iter().filter(|v| v.title == "a2").map(|v| v.link.as_str()).collect();
    assert_eq!(links, vec!["1", "7"]);
    let by_method = sort_videos(sorted.clone(), SortingMethodVideos::Text);
    let again: Vec<&str> = by_method.iter().map(|v| v.title.as_str()).collect();
    assert_eq!(again, order);
}

#[test]
fn channel_builder_keeps_known_videos_and_takes_new_titles() {
    let mut known = video("old title", "1", "2020");
    known.mark(true);
    let mut feed = tyt::feed::Feed::default();
    feed.add_videos(vec![video("new title", "1", "2020"), video("b", "2", "2021")]);
    feed.set_name("feed name");
    let c = Channel::builder()
        .add_from_feed(feed)
        .with_old_videos(vec![known])
        .with_id("id".to_string())
        .with_tag("tag".to_string())
        .with_sorting(SortingMethodVideos::Date)
        .build();
    assert_eq!(c.name, "feed name");
    assert_eq!(c.id, "id");
    assert_eq!(c.tag, "tag");
    assert_eq!(c.videos.len(), 2);
    let known_after = c.videos.iter().find(|v| v.link == "1").unwrap();
    assert_eq!(known_after.title, "new title");
    assert!(known_after.marked);
}

#[test]
fn channel_list_filters_and_counts() {
    let mut marked = video("m", "1", "x");
    marked.mark(true);
    let mut list = ChannelList::new();
    list.push(channel("a", "a", vec![marked]));
    list.push(channel("b", "b", vec![video("u", "2", "x")]));
    assert_eq!(list.len(), 2);
    list.set_filter(Filter::OnlyNew);
    assert_eq!(list.len(), 1);
    assert_eq!(list.get(0).unwrap().id, "b");
    assert!(list.get(1).is_none());
    assert_eq!(list.get_unfiltered(0).unwrap().id, "a");
    assert_eq!(list.get_position_by_id("b"), Some(0));
    assert_eq!(list.get_position_by_id("a"), None);
    assert_eq!(list.get_unfiltered_position_by_id("a"), Some(0));
    assert!(list.get_by_id("a").is_none());
    assert_eq!(list.get_unfiltered_by_id("a").unwrap().name, "a");
    list.toggle_filter();
    assert_eq!(list.get_filter(), Filter::NoFilter);
    let not_empty = list.get_not_empty();
    assert_eq!(not_empty.channels.len(), 1);
    assert_eq!(not_empty.channels[0].id, "b");
}

#[test]
fn channel_list_select_clamps() {
    let mut list = ChannelList::new();
    list.select(Some(3));
    assert_eq!(list.selected(), None);
    list.push(channel("a", "a", vec![]));
    list.push(channel("b", "b", vec![]));
    list.select(Some(7));
    assert_eq!(list.selected(), Some(1));
    list.next();
    assert_eq!(list.selected(), Some(1));
    list.prev();
    assert_eq!(list.state(), Some(0));
    list.select(None);
    assert_eq!(list.selected(), None);
}

#[test]
fn update_channel_merges_by_id_and_sorts_by_name() {
    let mut list = ChannelList::new();
    list.update_channel(channel("2", "Beta", vec![video("x", "1", "a")]), SortingMethodChannels::AlphaNumeric);
    list.update_channel(channel("1", "alpha", vec![]), SortingMethodChannels::AlphaNumeric);
    list.update_channel(channel("2", "Beta", vec![video("y", "2", "b")]), SortingMethodChannels::AlphaNumeric);
    assert_eq!(list.channels.len(), 2);
    assert_eq!(list.channels[0].id, "1");
    assert_eq!(list.channels[1].id, "2");
    assert_eq!(list.channels[1].videos.len(), 2);
}

#[test]
fn sort_keys_by_tag_use_upper_case() {
    let mut c = channel("1", "Name", vec![]);
    assert_eq!(channel_sort_key(&c, SortingMethodChannels::AlphaNumeric), "name");
    assert_eq!(channel_sort_key(&c, SortingMethodChannels::ByTag), "name");
    c.tag = "Music".to_string();
    assert_eq!(channel_sort_key(&c, SortingMethodChannels::ByTag), "MUSICNAME");
}

#[test]
fn fetch_state_is_set_by_id() {
    let mut list = ChannelList::new();
    list.push(channel("a", "a", vec![]));
    list.set_fetch_state_by_id("a", FetchState::DownloadsFailure(2));
    assert_eq!(list.channels[0].fetch_state, FetchState::DownloadsFailure(2));
}

fn subscriptions() -> Subscriptions {
    let mut sub = ChannelSubscription::default();
    sub.url = "url-a".to_string();
    sub.name = "Renamed".to_string();
    sub.tag = "T".to_string();
    sub.sort_by = SortingMethodVideos::Text;
    let custom = CustomChannelSubscription {
        urls: vec!["u1".to_string()],
        name: "custom".to_string(),
        block_regex: None,
        update_on: vec![Date::Always],
        tag: String::new(),
        sort_by: SortingMethodVideos::Date,
    };
    Subscriptions { channels: vec![sub], custom_channels: vec![custom] }
}

#[test]
fn subscriptions_prune_and_rename_channels() {
    let subs = subscriptions();
    assert!(subs.contains_channel_by_id("url-a"));
    assert!(subs.contains_channel_by_id("custom"));
    assert!(!subs.contains_channel_by_id("gone"));

    let mut from_u1 = video("a", "1", "x");
    from_u1.origin_url = "u1".to_string();
    let mut from_u2 = video("b", "2", "x");
    from_u2.origin_url = "u2".to_string();
    let mut list = ChannelList::new();
    list.push(channel("url-a", "old", vec![]));
    list.push(channel("gone", "g", vec![]));
    list.push(channel("custom", "custom", vec![from_u1, from_u2]));
    list.apply_url_file_changes(&subs);
    assert_eq!(list.channels.len(), 2);
    assert_eq!(list.channels[0].name, "Renamed");
    assert_eq!(list.channels[0].tag, "T");
    assert_eq!(list.channels[0].sorting_method, SortingMethodVideos::Text);
    assert_eq!(list.channels[1].videos.len(), 1);
    assert_eq!(list.channels[1].videos[0].link, "1");
}

#[test]
fn dates_cover_weekdays() {
    assert!(Date::Workday.eq_to(&Weekday::Mon));
    assert!(!Date::Workday.eq_to(&Weekday::Sun));
    assert!(Date::Weekend.eq_to(&Weekday::Sat));
    assert!(Date::Always.eq_to(&Weekday::Wed));
    assert!(!Date::Never.eq_to(&Weekday::Wed));
    assert!(Date::Fri.eq_to(&Weekday::Fri));
    assert!(!Date::Fri.eq_to(&Weekday::Thu));
    let mut sub = ChannelSubscription::default();
    sub.update_on = vec![Date::Mon, Date::Weekend];
    assert!(sub.active_on(Weekday::Mon));
    assert!(sub.active_on(Weekday::Sun));
    assert!(!sub.active_on(Weekday::Tue));
    assert_eq!(Date::default(), Date::Always);
}

#[test]
fn default_subscription_is_tom_scott() {
    let subs = Subscriptions::default();
    assert_eq!(subs.channels.len(), 1);
    assert_eq!(subs.channels[0].name(), "Tom Scott");
    assert_eq!(subs.channels[0].tag(), "Interresting");
    assert_eq!(
        subs.channels[0].id(),
        "https://www.youtube.com/feeds/videos.xml?channel_id=UCBa659QWEk1AI4Tg--mrJ2A"
    );
    assert!(subs.custom_channels.is_empty());
}

#[test]
fn config_defaults() {
    let c = Config::default();
    assert!(c.show_empty_channels);
    assert!(c.mark_on_open);
    assert!(c.down_on_mark);
    assert_eq!(c.app_title, "TYT");
    assert!(c.update_at_start);
    assert_eq!(c.sort_channels, SortingMethodChannels::AlphaNumeric);
    assert_eq!(c.message_timeout, 20);
    assert_eq!(c.video_player, "mpv");
    assert_eq!(c.sort_videos, SortingMethodVideos::UnseenDate);
    assert_eq!(c.notify_with, "notify-send");
    assert!(!c.use_dearrow_titles);
    assert_eq!(c.initial_filter(), Filter::NoFilter);
    assert_eq!(default_title(), "TYT");
    assert!(default_bool_true());
    assert!(!default_bool_false());
    assert_eq!(default_20(), 20);
    assert_eq!(empty_string(), "");
}

#[test]
fn file_names() {
    assert_eq!(FileType::ConfigFile.file(), "config.yml");
    assert_eq!(FileType::DbFile.file(), "db.json");
    assert_eq!(FileType::HistoryFile.file(), "history.json");
    assert_eq!(FileType::SubscriptionsFile.file(), "subscriptions.yml");
}

#[test]
fn enum_defaults() {
    assert_eq!(Filter::default(), Filter::NoFilter);
    assert_eq!(SortingMethod::default(), SortingMethod::Date);
    assert_eq!(SortingMethodChannels::default(), SortingMethodChannels::AlphaNumeric);
    assert_eq!(SortingMethodVideos::default(), SortingMethodVideos::UnseenDate);
    assert_eq!(FetchState::default(), FetchState::Scheduled);
}

#[test]
fn default_channel_list_holds_one_empty_channel() {
    let list = ChannelList::default();
    assert_eq!(list.channels.len(), 1);
    assert_eq!(list.channels[0].name, "");
    assert_eq!(list.selected(), None);
    assert_eq!(list.get_filter(), Filter::NoFilter);
}

#[test]
fn videos_order_by_priority() {
    let plain = video("a", "1", "x");
    let mut marked = video("b", "2", "x");
    marked.mark(true);
    let mut fav = video("c", "3", "x");
    fav.set_fav(true);
    assert_eq!(fav.partial_cmp(&plain), Some(Ordering::Less));
    assert_eq!(plain.partial_cmp(&marked), Some(Ordering::Less));
    assert_eq!(marked.partial_cmp(&plain), Some(Ordering::Greater));
    assert_eq!(plain.partial_cmp(&video("d", "4", "y")), Some(Ordering::Equal));
    assert!(fav < marked);
}
