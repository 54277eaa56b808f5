use tyt::channel::Channel;
use tyt::channel_factory::ChannelFactory;
use tyt::channel_list::ChannelList;
use tyt::config::Config;
use tyt::history::{History, MinimalVideo};
use tyt::state::Core;
use tyt::types::{Action, SortingMethodVideos};
use tyt::video::Video;
use tyt::video_factory::VideoFactory;

fn complete_factory(title: &str, link: &str, date: &str) -> VideoFactory {
    let mut f = VideoFactory::create();
    f.set_title(title.to_string());
    f.set_link(link.to_string());
    f.set_origin_url(String::new());
    f.set_origin_channel_name(String::new());
    f.set_pub_date(date.to_string());
    f.set_marked(false);
    f.set_new(true);
    f
}

fn sample_video(title: &str, link: &str, date: &str) -> Video {
    let mut v = Video::empty();
    v.title = title.to_string();
    v.link = link.to_string();
    v.pub_date = date.to_string();
    v
}

fn ready_factory() -> ChannelFactory {
    let mut cf = ChannelFactory::create();
    cf.set_name("name".to_string());
    cf.set_id("id".to_string());
    cf.set_tag(String::new());
    cf.set_old_videos(vec![sample_video("old", "1", "2020")]);
    cf.set_sorting(SortingMethodVideos::Date);
    cf
}

#[test]
fn channel_factory_starts_with_placeholders() {
    let cf = ChannelFactory::create();
    assert_eq!(cf.channel.name, "placeholder_name");
    assert_eq!(cf.channel.id, "placeholder_id");
    assert!(!cf.name_set());
    assert!(!cf.new_videos_added());
}

#[test]
fn channel_factory_names_the_first_missing_part() {
    assert_eq!(ChannelFactory::create().commit().unwrap_err(), "name not set");
    let mut cf = ChannelFactory::create();
    cf.set_name("n".to_string());
    cf.set_id("i".to_string());
    assert_eq!(cf.commit().unwrap_err(), "tag not set");
    let cf = ready_factory();
    assert_eq!(cf.commit().unwrap_err(), "new_videos not set");
}

#[test]
fn channel_factory_refuses_an_incomplete_video() {
    let mut cf = ready_factory();
    let mut partial = VideoFactory::create();
    partial.set_title("t".to_string());
    cf.add_new_videos(vec![complete_factory("a", "2", "2021"), partial]);
    assert_eq!(cf.commit().unwrap_err(), "link not set");
}

#[test]
fn channel_factory_merges_and_sorts() {
    let mut cf = ready_factory();
    cf.add_new_videos(vec![complete_factory("again", "1", "2020"), complete_factory("b", "2", "2022")]);
    cf.add_new_videos(vec![complete_factory("b twice", "2", "2022")]);
    assert_eq!(cf.new_videos.len(), 2);
    let c = cf.commit().expect("complete");
    assert_eq!(c.name, "name");
    let links: Vec<&str> = c.videos.iter().map(|v| v.link.as_str()).collect();
    assert_eq!(links, vec!["2", "1"]);
    assert_eq!(c.videos[1].title, "old");
}

#[test]
fn videos_change_in_place() {
    let mut c = Channel::default();
    c.push(sample_video("a", "1", "x"));
    if let Some(v) = c.get_mut(0) {
        v.mark(true);
    }
    assert!(c.videos[0].marked);
    assert!(c.get_mut(3).is_none());

    let mut list = ChannelList::new();
    list.push(c);
    list.get_unfiltered_mut(0).unwrap().name = "renamed".to_string();
    assert_eq!(list.channels[0].name, "renamed");
    list.channels[0].id = "x".to_string();
    list.get_unfiltered_mut_by_id("x").unwrap().tag = "t".to_string();
    assert_eq!(list.channels[0].tag, "t");
    list.get_mut_by_id("x").unwrap().tag = "u".to_string();
    assert_eq!(list.channels[0].tag, "u");
    list.get_mut(0).unwrap().select(Some(0));
    assert_eq!(list.channels[0].selected, Some(0));
    assert!(list.get_mut(1).is_none());
}

#[test]
fn selected_video_changes_in_place() {
    let mut c = Channel::default();
    c.id = "id".to_string();
    c.push(sample_video("a", "1", "x"));
    let mut list = ChannelList::new();
    list.push(c);
    let mut core = Core::new(Config::default(), list, History::default());
    assert!(core.get_selected_video_mut().is_none());
    core.action_on(Action::Enter, 1);
    core.get_selected_video_mut().unwrap().set_fav(true);
    assert!(core.channel_list().channels[0].videos[0].fav);
    core.get_selected_channel_mut().unwrap().name = "n".to_string();
    assert_eq!(core.channel_list().channels[0].name, "n");
    core.channel_list_mut().select(None);
    assert_eq!(core.get_selected_channel_index(), None);
}

#[test]
fn channels_compare_by_id_name_tag_and_links() {
    let mut a = Channel::default();
    a.id = "id".to_string();
    a.push(sample_video("a", "1", "x"));
    let mut b = Channel::default();
    b.id = "id".to_string();
    b.push(sample_video("other title", "1", "y"));
    assert!(a == b);
    b.push(sample_video("c", "2", "z"));
    assert!(a != b);

    let mut l1 = ChannelList::new();
    l1.push(a);
    let l2 = ChannelList::new();
    assert!(l1 != l2);
    assert!(l1 == l1.get_not_empty());
}

#[test]
fn history_entries_compare_by_title_and_channel() {
    let a = MinimalVideo { title: "t".to_string(), channel: "c".to_string() };
    let b = MinimalVideo { title: "t".to_string(), channel: "c".to_string() };
    let c = MinimalVideo { title: "t".to_string(), channel: "d".to_string() };
    assert!(a == b);
    assert!(a != c);
    assert!(complete_factory("x", "1", "d") == complete_factory("y", "1", "e"));
}

#[test]
fn channel_factory_orders_by_date_only() {
    let mut cf = ChannelFactory::create();
    cf.set_name("n".to_string());
    cf.set_id("i".to_string());
    cf.set_tag(String::new());
    let mut newer = sample_video("newer", "1", "2022");
    newer.mark(true);
    cf.set_old_videos(vec![newer]);
    cf.set_sorting(SortingMethodVideos::UnseenDate);
    cf.add_new_videos(vec![complete_factory("older", "2", "2020")]);
    let c = cf.commit().expect("complete");
    let titles: Vec<&str> = c.videos.iter().map(|v| v.title.as_str()).collect();
    assert_eq!(titles, vec!["newer", "older"]);
}
