use tyt::channel::Channel;
use tyt::channel_list::ChannelList;
use tyt::display::usize_to_decimal;
use tyt::feed::Feed;
use tyt::feeds::{
    video_id, AtomFeed, AtomVideo, ChannelFields, ChannelKey, FieldError, FieldName, RssChannel, RssFeed,
    RssVideo, VideoFields, VideoItem, VideoKey,
};
use tyt::fetch::{
    best_title, choose_name, dearrow_url, end_state, fetched_channel, fetched_channel_with_titles,
    start_state,
};
use tyt::history::{History, MinimalVideo, Stats};
use tyt::notification::{notify_error, notify_link, notify_open};
use tyt::types::{FetchState, SortingMethodVideos};
use tyt::video::Video;

fn rss_video(title: &str, link: &str, date: &str) -> RssVideo {
    RssVideo { title: title.to_string(), link: link.to_string(), pub_date: date.to_string() }
}

fn plain_video(title: &str, link: &str) -> Video {
    let mut v = Video::empty();
    v.title = title.to_string();
    v.link = link.to_string();
    v.pub_date = "2024-01-01T10:00:00+00:00".to_string();
    v
}

#[test]
fn video_fields_collect_an_entry() {
    let mut fields = VideoFields::new();
    for (key, value) in [("title", "T1"), ("link", "L"), ("guid", "x"), ("title", "T2"), ("pubDate", "D")] {
        match fields.accept(key) {
            Ok(VideoKey::Other) => {},
            Ok(k) => fields.set(k, value.to_string()),
            Err(e) => panic!("unexpected {:?}", e),
        }
    }
    let v = fields.finish().expect("complete entry");
    assert_eq!(v.title, "T2");
    assert_eq!(v.link, "L");
    assert_eq!(v.pub_date, "D");
}

#[test]
fn video_fields_refuse_a_second_link_or_date() {
    let mut fields = VideoFields::new();
    fields.set(VideoKey::Link, "L".to_string());
    assert_eq!(fields.accept("link"), Err(FieldError::Duplicate(FieldName::Link)));
    fields.set(VideoKey::PubDate, "D".to_string());
    assert_eq!(fields.accept("pubDate"), Err(FieldError::Duplicate(FieldName::PubDate)));
    assert_eq!(fields.accept("title"), Ok(VideoKey::Title));
    assert_eq!(FieldName::PubDate.as_str(), "pub_date");
}

#[test]
fn video_fields_name_the_first_missing_field() {
    assert_eq!(VideoFields::new().finish().map(|v| v.title), Err(FieldError::Missing(FieldName::Title)));
    let mut fields = VideoFields::new();
    fields.set(VideoKey::Title, "T".to_string());
    assert_eq!(fields.finish().map(|v| v.title), Err(FieldError::Missing(FieldName::Link)));
    let mut fields = VideoFields::new();
    fields.set(VideoKey::Title, "T".to_string());
    fields.set(VideoKey::Link, "L".to_string());
    assert_eq!(fields.finish().map(|v| v.title), Err(FieldError::Missing(FieldName::PubDate)));
}

#[test]
fn channel_fields_collect_a_channel() {
    let mut fields = ChannelFields::new();
    assert_eq!(fields.accept("title"), Ok(ChannelKey::Title));
    fields.set_text(ChannelKey::Title, "Name".to_string());
    assert_eq!(fields.accept("title"), Err(FieldError::Duplicate(FieldName::Title)));
    fields.set_text(ChannelKey::Link, "first".to_string());
    assert_eq!(fields.accept("link"), Ok(ChannelKey::Link));
    fields.set_text(ChannelKey::Link, "second".to_string());
    assert_eq!(fields.accept("item"), Ok(ChannelKey::Item));
    fields.push_video(rss_video("a", "b", "c"));
    assert_eq!(fields.accept("description"), Ok(ChannelKey::Other));
    let channel = fields.finish().expect("complete channel");
    assert_eq!(channel.name, "Name");
    assert_eq!(channel.link, "second");
    assert_eq!(channel.videos.len(), 1);
}

#[test]
fn channel_fields_name_what_is_missing() {
    assert_eq!(
        ChannelFields::new().finish().map(|c| c.name),
        Err(FieldError::Missing(FieldName::TitleChannel))
    );
    let mut fields = ChannelFields::new();
    fields.set_text(ChannelKey::Title, "N".to_string());
    assert_eq!(fields.finish().map(|c| c.name), Err(FieldError::Missing(FieldName::LinkChannel)));
    let mut fields = ChannelFields::new();
    fields.set_text(ChannelKey::Title, "N".to_string());
    fields.set_text(ChannelKey::Link, "L".to_string());
    assert_eq!(fields.finish().map(|c| c.name), Err(FieldError::Missing(FieldName::VideosChannel)));
    assert_eq!(FieldName::VideosChannel.as_str(), "videos_channel");
}

#[test]
fn video_item_starts_unwatched() {
    let mut item = VideoItem::new(rss_video("t", "l", "d"));
    assert!(!item.marked);
    item.mark(true);
    assert!(item.marked);
    assert_eq!(item.video.title, "t");
}

#[test]
fn atom_entries_link_to_the_watch_page() {
    let feed = AtomFeed {
        name: "Chan".to_string(),
        channel_id: "UC1".to_string(),
        videos: vec![AtomVideo {
            title: "T".to_string(),
            id: "abc".to_string(),
            pub_date: "2024-01-01T10:00:00+00:00".to_string(),
        }],
    };
    let f = Feed::from_atom(&feed);
    assert_eq!(f.name, "Chan");
    assert_eq!(f.videos[0].link, "https://www.youtube.com/watch?v=abc");
    assert_eq!(f.videos[0].pub_date, "2024-01-01T10:00:00+00:00");
    assert!(!f.videos[0].marked);
    assert!(f.videos[0].is_new);
}

#[test]
fn rss_dates_are_rewritten() {
    let feed = RssFeed {
        channel: RssChannel {
            name: "Chan".to_string(),
            link: "l".to_string(),
            videos: vec![rss_video("T", "L", "Mon, 01 Jan 2024 10:00:00 +0000")],
        },
    };
    let f = Feed::from_rss(&feed).expect("dates parse");
    assert_eq!(f.name, "Chan");
    assert_eq!(f.videos[0].pub_date, "2024-01-01T10:00:00+00:00");
    let v = rss_video("T", "L", "Mon, 01 Jan 2024 10:00:00 +0200").to_internal_video().unwrap();
    assert_eq!(v.pub_date, "2024-01-01T10:00:00+02:00");
}

#[test]
fn rss_with_a_bad_date_is_refused() {
    let feed = RssFeed {
        channel: RssChannel {
            name: "Chan".to_string(),
            link: "l".to_string(),
            videos: vec![rss_video("T", "L", "yesterday")],
        },
    };
    assert!(Feed::from_rss(&feed).is_none());
}

#[test]
fn absorbed_feeds_are_tied_to_their_url() {
    let mut total = Feed::default();
    let mut a = Feed::default();
    a.set_name("A");
    a.add_videos(vec![plain_video("x", "1"), plain_video("y", "2")]);
    total.absorb("url-a", a);
    let mut b = Feed::default();
    b.set_name("B");
    b.add_videos(vec![plain_video("x again", "1"), plain_video("z", "3")]);
    total.absorb("url-b", b);
    assert_eq!(total.name, "B");
    assert_eq!(total.videos.len(), 3);
    assert_eq!(total.videos[0].origin_url, "url-a");
    assert_eq!(total.videos[0].origin_channel_name, "A");
    assert_eq!(total.videos[2].origin_url, "url-b");
    assert_eq!(total.videos[2].origin_channel_name, "B");
}

#[test]
fn blocked_titles_are_dropped() {
    let mut feed = Feed::default();
    feed.add_videos(vec![plain_video("#shorts clip", "1"), plain_video("Long video", "2")]);
    assert!(feed.filter_videos("#shorts"));
    assert_eq!(feed.videos.len(), 1);
    assert_eq!(feed.videos[0].link, "2");
    assert!(!feed.filter_videos("(unclosed"));
    assert_eq!(feed.videos.len(), 1);
}

#[test]
fn names_are_chosen_in_order() {
    assert_eq!(choose_name("item", "feed", "known"), "item");
    assert_eq!(choose_name("", "feed", "known"), "feed");
    assert_eq!(choose_name("", "", "known"), "known");
}

#[test]
fn fetch_states() {
    assert_eq!(start_state("id"), Some(FetchState::Loading));
    assert_eq!(start_state(""), None);
    assert_eq!(end_state(0), FetchState::Fetched);
    assert_eq!(end_state(2), FetchState::DownloadsFailure(2));
}

#[test]
fn fetched_channel_merges_feed_into_history() {
    let mut known = plain_video("old", "1");
    known.mark(true);
    let mut old = Channel::default();
    old.id = "id".to_string();
    old.name = "Known".to_string();
    old.push(known);
    let mut history = ChannelList::new();
    history.push(old);

    let mut feed = Feed::default();
    feed.set_name("");
    feed.add_videos(vec![plain_video("new", "1"), plain_video("blocked #shorts", "2"), plain_video("fresh", "3")]);
    let block = Some("#shorts".to_string());
    let c = fetched_channel(&history, "id", "", "tag", SortingMethodVideos::Text, true, &block, feed)
        .expect("the pattern compiles");
    assert_eq!(c.name, "Known");
    assert_eq!(c.id, "id");
    assert_eq!(c.tag, "tag");
    assert_eq!(c.sorting_method, SortingMethodVideos::Text);
    let titles: Vec<&str> = c.videos.iter().map(|v| v.title.as_str()).collect();
    assert_eq!(titles, vec!["fresh", "new"]);
    assert!(c.videos[1].marked);

    let mut feed = Feed::default();
    feed.add_videos(vec![plain_video("fresh", "3")]);
    let inactive = fetched_channel(&history, "id", "Item", "", SortingMethodVideos::Text, false, &None, feed).unwrap();
    assert_eq!(inactive.name, "Item");
    assert_eq!(inactive.videos.len(), 1);

    let bad = Some("(".to_string());
    let mut feed = Feed::default();
    feed.add_videos(vec![plain_video("fresh", "3")]);
    assert!(fetched_channel(&history, "id", "", "", SortingMethodVideos::Text, true, &bad, feed).is_none());
}

#[test]
fn fetched_channel_keeps_every_known_video_by_link() {
    let methods = [
        SortingMethodVideos::Date,
        SortingMethodVideos::Text,
        SortingMethodVideos::UnseenDate,
        SortingMethodVideos::UnseenText,
    ];
    for method in methods {
        let mut old = Channel::default();
        old.id = "id".to_string();
        old.name = "Known".to_string();
        old.push(plain_video("first", "1"));
        old.push(plain_video("second", "2"));
        let mut history = ChannelList::new();
        history.push(old);
        let mut feed = Feed::default();
        feed.add_videos(vec![plain_video("third", "3"), plain_video("first again", "1")]);
        let c = fetched_channel(&history, "id", "", "", method, true, &None, feed).unwrap();
        let mut links: Vec<&str> = c.videos.iter().map(|v| v.link.as_str()).collect();
        links.sort();
        assert_eq!(links, vec!["1", "2", "3"]);
        let first = c.videos.iter().find(|v| v.link == "1").unwrap();
        assert_eq!(first.title, "first again");
    }
}

#[test]
fn dearrow_choice() {
    assert_eq!(best_title(&vec![]), None);
    assert_eq!(best_title(&vec![("a".to_string(), 0), ("b".to_string(), 3)]), None);
    assert_eq!(best_title(&vec![("a".to_string(), 2)]), Some("a".to_string()));
    assert_eq!(dearrow_url("xyz"), "https://sponsor.ajay.app/api/branding/?videoID=xyz");
}

#[test]
fn decimal_numbers() {
    assert_eq!(usize_to_decimal(0), "0");
    assert_eq!(usize_to_decimal(7), "7");
    assert_eq!(usize_to_decimal(120), "120");
    assert_eq!(usize_to_decimal(usize::MAX), usize::MAX.to_string());
}

#[test]
fn channel_and_video_lines() {
    let mut c = Channel::default();
    c.name = "Chan".to_string();
    c.tag = "Music".to_string();
    let mut marked = plain_video("a", "1");
    marked.mark(true);
    let mut fresh = plain_video("b", "2");
    fresh.is_new = true;
    c.push(marked);
    c.push(fresh);
    let line = c.line();
    assert_eq!(line.new_marker, " * ");
    assert_eq!(line.name, "Chan");
    assert_eq!(line.tag, " [Music]");
    assert_eq!(line.spacer, " - ");
    assert_eq!(line.count, "1/2");
    assert!(line.highlighted);

    let v = plain_video("Title", "x").line();
    assert_eq!(v.marker, " ");
    assert_eq!(v.date, "01.01.24");
    assert!(v.highlighted);
    let mut fav = plain_video("Title", "x");
    fav.set_fav(true);
    fav.pub_date = "not a date".to_string();
    let l = fav.line();
    assert_eq!(l.marker, " \u{2b50} ");
    assert_eq!(l.date, "");

    let entry = MinimalVideo { title: "T".to_string(), channel: "C".to_string() };
    let h = entry.line();
    assert_eq!(h.channel, "\u{2022} C - ");
    assert_eq!(h.title, "T");
}

#[test]
fn history_moves_reopened_videos_to_the_end() {
    let mut h = History::default();
    let a = plain_video("a", "1");
    let mut b = plain_video("b", "2");
    b.origin_channel_name = "B".to_string();
    h.video_opened_on(&a, 5);
    h.video_opened_on(&b, 5);
    h.video_opened_on(&a, 6);
    let entries = h.entries_newest_first();
    let titles: Vec<&str> = entries.iter().map(|m| m.title.as_str()).collect();
    assert_eq!(titles, vec!["a", "b"]);
    let day5 = h.stat_on(5).unwrap();
    assert_eq!(day5.watched, 2);
    assert_eq!(day5.channels.len(), 2);
    let day6 = h.stat_on(6).unwrap();
    assert_eq!(day6.watched, 1);
    assert!(h.stat_on(7).is_none());
    assert!(h.has_room_on(5));
}

#[test]
fn stats_count_per_channel() {
    let mut s = Stats::default();
    let mut v = plain_video("a", "1");
    v.origin_channel_name = "C".to_string();
    s.add(&v);
    s.add(&v);
    assert_eq!(s.watched, 2);
    assert_eq!(s.channels, vec![("C".to_string(), 2)]);
    let mut h = History::default();
    h.stat_insert_on(3, s);
    assert_eq!(h.stat_on(3).unwrap().watched, 2);
    h.stat_insert_on(3, Stats::default());
    assert_eq!(h.stat_on(3).unwrap().watched, 0);
}

#[test]
fn notifications() {
    let n = notify_link("https://x");
    assert_eq!(n.title, "Title");
    assert_eq!(n.message, "https://x");
    let n = notify_open("video");
    assert_eq!(n.title, "Video Opening");
    let n = notify_error("bad");
    assert_eq!(n.title, "Error");
    assert_eq!(n.message, "bad");
}

#[test]
fn video_ids_come_from_watch_links() {
    assert_eq!(video_id("https://www.youtube.com/watch?v=abc"), Some("abc".to_string()));
    assert_eq!(video_id("https://example.org/v/abc"), None);
    assert_eq!(video_id("short"), None);
}

#[test]
fn crowd_titles_replace_titles_after_blocking() {
    let history = ChannelList::new();
    let mut feed = Feed::default();
    feed.set_name("Chan");
    feed.add_videos(vec![
        plain_video("blocked #shorts", "1"),
        plain_video("plain", "2"),
        plain_video("kept", "3"),
    ]);
    let copy = feed.clone();
    assert_eq!(copy.name, "Chan");
    assert_eq!(copy.videos.len(), 3);
    let titles = vec![Some("crowd one".to_string()), None, Some("crowd three".to_string())];
    let block = Some("#shorts".to_string());
    let c = fetched_channel_with_titles(&history, "id", "", "", SortingMethodVideos::Text, true, &block, feed, &titles)
        .expect("the pattern compiles");
    let titles: Vec<&str> = c.videos.iter().map(|v| v.title.as_str()).collect();
    assert_eq!(titles, vec!["crowd three", "plain"]);
    assert_eq!(c.name, "Chan");
    let none = fetched_channel_with_titles(&history, "id", "", "", SortingMethodVideos::Text, false, &None, copy, &vec![]).unwrap();
    assert!(none.videos.is_empty());
}
