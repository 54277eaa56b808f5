use rand::distributions::Alphanumeric;
use rand::{thread_rng, Rng};
use tyt::channel::Channel;
use tyt::channel_list::ChannelList;
use tyt::config::Config;
use tyt::history::History;
use tyt::state::Core;
use tyt::types::{Action, Filter, Screen, SortingMethodChannels};
use tyt::video::Video;

fn random_string() -> String {
    thread_rng().sample_iter(&Alphanumeric).take(9).map(char::from).collect()
}

fn get_unmarked_video() -> Video {
    let mut video = Video::new();
    video.link = random_string();
    video
}

fn get_random_video() -> Video {
    let mut rng = thread_rng();
    if rng.gen::<f64>() > 0.5 {
        get_unmarked_video()
    } else {
        get_unmarked_video()
    }
}

fn get_marked_video() -> Video {
    let mut video = get_unmarked_video();
    video.mark(true);
    video
}

fn test_core() -> Core {
    Core::new(Config::default(), ChannelList::new(), History::default())
}

fn channels_with_unmarked(core: &mut Core, has_unmarked: &[bool], shown: usize, hidden: usize) {
    for unmarked in has_unmarked {
        let mut channel = Channel::default();
        channel.id = random_string();
        if *unmarked {
            channel.push(get_unmarked_video());
            for _ in 0..shown - 1 {
                channel.push(get_random_video());
            }
        } else {
            for _ in 0..hidden - 1 {
                channel.push(get_marked_video());
            }
        }
        core.update_channel(channel);
    }
}

#[test]
fn lib_test_init() {
    let mut core = test_core();
    const CHANNEL_COUNT: usize = 10;
    let channel_has_unmarked: [bool; CHANNEL_COUNT] =
        [true, true, false, false, false, true, false, true, false, false];
    let trues = 4;
    channels_with_unmarked(&mut core, &channel_has_unmarked, 30, 5);

    core.set_filter(Filter::NoFilter);
    assert_eq!(core.channel_list().len(), CHANNEL_COUNT);
    core.set_filter(Filter::OnlyNew);
    assert_eq!(core.channel_list().len(), trues);
    core.set_filter(Filter::NoFilter);
    assert_eq!(core.channel_list().len(), CHANNEL_COUNT);
}

#[test]
fn lib_test_move() {
    let channel_count = 10;
    let mut core = test_core();
    for _ in 0..channel_count {
        let mut channel = Channel::default();
        channel.id = random_string();
        for _ in 0..10 {
            channel.push(get_random_video());
        }
        core.update_channel(channel);
    }
    core.set_filter(Filter::NoFilter);

    for _ in 0..3 {
        core.action(Action::Down);
    }
    assert_eq!(core.channel_list().selected().unwrap(), 3);

    for _ in 0..2 {
        core.action(Action::Up);
    }
    assert_eq!(core.channel_list().selected().unwrap(), 1);

    for _ in 0..5 {
        core.action(Action::Up);
    }
    assert_eq!(core.channel_list().selected().unwrap(), 0);

    for _ in 0..channel_count + 1 {
        core.action(Action::Down);
    }
    assert_eq!(core.channel_list().selected().unwrap(), channel_count - 1);
}

#[test]
fn lib_test_enter_leave() {
    let mut core = test_core();
    const CHANNEL_COUNT: usize = 10;
    let channel_has_unmarked: [bool; CHANNEL_COUNT] =
        [false, false, true, false, true, true, false, true, true, false];
    channels_with_unmarked(&mut core, &channel_has_unmarked, 100, 5);
    core.set_filter(Filter::NoFilter);

    assert_eq!(core.get_selected_channel_index(), Some(0));
    core.action(Action::Down);
    core.action(Action::Down);
    core.action(Action::Down);
    assert_eq!(core.get_selected_channel_index(), Some(3));

    core.action(Action::Enter);
    assert_eq!(core.get_selected_channel_index(), Some(3));
    assert_eq!(core.current_screen, Screen::Videos);

    core.action(Action::Down);
    core.action(Action::Down);
    core.action(Action::Down);
    core.action(Action::Up);
    core.action(Action::Leave);

    assert_eq!(core.current_screen, Screen::Channels);
    assert_eq!(core.get_selected_channel_index(), Some(3));
}

fn test_app(channel_count: usize) -> Core {
    let mut channel_list = ChannelList::new();
    for i in 0..channel_count {
        let mut test_channel = Channel::default();
        test_channel.id = format!("channel {}", i);
        if i % 2 == 0 {
            let mut video = Video::new();
            if thread_rng().gen::<f64>() > 0.0 {
                video.mark(true);
            }
            test_channel.videos.push(Video::new());
        }
        channel_list.update_channel(test_channel, SortingMethodChannels::AlphaNumeric);
    }
    Core::new(Config::default(), channel_list, History::default())
}

#[test]
fn app_test_init() {
    let channel_count = 10;
    let mut core = test_app(channel_count);
    core.set_filter(Filter::NoFilter);
    assert_eq!(core.channel_list().channels.len(), channel_count);
}

#[test]
fn app_test_move() {
    let channel_count = 10;
    let mut core = test_app(channel_count);
    core.set_filter(Filter::NoFilter);

    for _ in 0..3 {
        core.action(Action::Down);
    }
    assert_eq!(core.channel_list().selected().unwrap(), 3);

    for _ in 0..2 {
        core.action(Action::Up);
    }
    assert_eq!(core.channel_list().selected().unwrap(), 1);

    for _ in 0..5 {
        core.action(Action::Up);
    }
    assert_eq!(core.channel_list().selected().unwrap(), 0);

    for _ in 0..channel_count + 1 {
        core.action(Action::Down);
    }
    assert_eq!(core.channel_list().selected().unwrap(), channel_count - 1);
}

#[test]
fn app_test_enter_leave() {
    let channel_count = 100;
    let mut core = test_app(channel_count);

    assert_eq!(core.get_selected_channel_index(), Some(0));
    core.action(Action::Down);
    core.action(Action::Down);
    core.action(Action::Down);
    assert_eq!(core.get_selected_channel_index(), Some(3));

    core.action(Action::Enter);
    assert_eq!(core.current_screen, Screen::Videos);

    core.action(Action::Down);
    core.action(Action::Down);
    core.action(Action::Down);
    core.action(Action::Leave);

    assert_eq!(core.current_screen, Screen::Channels);
    assert_eq!(core.get_selected_channel_index(), Some(3));

    core.set_filter(Filter::OnlyNew);
    for _ in 0..11 {
        core.action(Action::Down);
    }
    let channel_id = core.get_selected_channel().unwrap().id.clone();

    core.set_filter(Filter::NoFilter);
    assert_eq!(core.get_selected_channel().unwrap().id.clone(), channel_id);
}

#[test]
fn test_toggle_filter() {
    let mut rng = thread_rng();
    const CHANNEL_COUNT: usize = 30;
    let hidden_video_count = 30;
    let not_hidden_video_count = 70;
    let mut trues = 0;
    let mut falses = 0;

    let mut channel_list = ChannelList::new();
    for _ in 0..CHANNEL_COUNT {
        let mut channel = Channel::default();
        channel.id = random_string();
        channel.name = random_string();
        if rng.gen::<bool>() {
            trues += 1;
            channel.push(get_unmarked_video());
            for _ in 0..not_hidden_video_count - 1 {
                channel.push(get_random_video());
            }
        } else {
            falses += 1;
            for _ in 0..hidden_video_count {
                channel.push(get_marked_video());
            }
        }
        channel_list.push(channel);
    }
    let mut core = Core::new(Config::default(), channel_list, History::default());
    core.set_filter(Filter::NoFilter);

    assert_eq!(core.channel_list().len(), trues + falses);
    core.set_filter(Filter::OnlyNew);
    assert_eq!(core.channel_list().len(), trues);

    let number = rng.gen::<f32>() * 3.0;
    let number = number.floor() as usize + 1;
    assert_eq!(core.get_selected_channel_index(), Some(0));
    for _ in 0..number {
        core.action(Action::Down);
    }
    assert_eq!(core.get_selected_channel_index(), Some(number));

    let channel_id = core.get_selected_channel().unwrap().id.clone();
    core.set_filter(Filter::NoFilter);
    assert_eq!(core.channel_list().len(), trues + falses);
    assert_eq!(core.get_selected_channel().unwrap().id.clone(), channel_id);

    let mut channel = Channel::default();
    channel.id = random_string();
    channel.name = "zzzzzzzzzzzzzzzzzzzz".to_owned();
    channel.push(get_marked_video());
    core.update_channel(channel);

    for _ in 0..100 {
        core.action(Action::Down);
    }
    core.set_filter(Filter::OnlyNew);
    assert_eq!(core.channel_list().len() - 1, core.get_selected_channel_index().unwrap());
}

fn one_channel_core(videos: Vec<Video>) -> Core {
    let mut channel = Channel::default();
    channel.id = "id".to_string();
    channel.name = "name".to_string();
    for v in videos {
        channel.push(v);
    }
    let mut list = ChannelList::new();
    list.push(channel);
    Core::new(Config::default(), list, History::default())
}

fn titled_video(title: &str, link: &str) -> Video {
    let mut v = Video::new();
    v.title = title.to_string();
    v.link = link.to_string();
    v.origin_channel_name = "name".to_string();
    v
}

#[test]
fn mark_marks_moves_down_and_saves() {
    let mut core = one_channel_core(vec![titled_video("a", "1"), titled_video("b", "2")]);
    core.action_on(Action::Enter, 10);
    let outcome = core.action_on(Action::Mark(true), 10);
    assert!(outcome.save_channels);
    assert!(outcome.play.is_none());
    assert!(!outcome.save_history);
    assert!(core.channel_list().channels[0].videos[0].marked);
    assert!(!core.channel_list().channels[0].videos[1].marked);
    assert_eq!(core.channel_list().channels[0].selected, Some(1));
}

#[test]
fn mark_on_channels_screen_does_nothing() {
    let mut core = one_channel_core(vec![titled_video("a", "1")]);
    let outcome = core.action_on(Action::Mark(true), 10);
    assert!(!outcome.save_channels);
    assert!(!core.channel_list().channels[0].videos[0].marked);
}

#[test]
fn marking_last_new_video_under_only_new_leaves() {
    let mut core = one_channel_core(vec![titled_video("a", "1")]);
    core.set_filter(Filter::OnlyNew);
    core.action_on(Action::Enter, 10);
    assert_eq!(core.current_screen, Screen::Videos);
    let outcome = core.action_on(Action::Mark(true), 10);
    assert_eq!(core.current_screen, Screen::Channels);
    assert_eq!(core.channel_list().selected(), None);
    assert!(!outcome.save_channels);
}

#[test]
fn open_marks_plays_and_records() {
    let mut core = one_channel_core(vec![titled_video("first", "link-1")]);
    core.action_on(Action::Enter, 10);
    let outcome = core.action_on(Action::Open, 738000);
    let play = outcome.play.expect("a video to play");
    assert_eq!(play.player, "mpv");
    assert_eq!(play.link, "link-1");
    assert_eq!(play.details, "first");
    assert!(outcome.save_channels);
    assert!(outcome.save_history);
    assert!(core.channel_list().channels[0].videos[0].marked);
    let entries = core.playback_history.entries_newest_first();
    assert_eq!(entries.len(), 1);
    assert_eq!(entries[0].title, "first");
    assert_eq!(entries[0].channel, "name");
    let stats = core.playback_history.stat_on(738000).expect("counts of the day");
    assert_eq!(stats.watched, 1);
}

#[test]
fn open_without_selection_asks_nothing() {
    let mut core = one_channel_core(vec![titled_video("first", "link-1")]);
    let outcome = core.action_on(Action::Open, 1);
    assert!(outcome.play.is_none());
    assert!(!outcome.save_history);
    assert!(!outcome.save_channels);
}

#[test]
fn fav_toggles_twice_back() {
    let mut core = one_channel_core(vec![titled_video("a", "1")]);
    core.action_on(Action::Enter, 1);
    let outcome = core.action_on(Action::SetVideoFav, 1);
    assert!(outcome.save_channels);
    assert!(core.channel_list().channels[0].videos[0].fav);
    core.action_on(Action::SetVideoFav, 1);
    assert!(!core.channel_list().channels[0].videos[0].fav);
}

#[test]
fn next_and_prev_channel_move_between_channels() {
    let mut list = ChannelList::new();
    for id in ["a", "b", "c"] {
        let mut channel = Channel::default();
        channel.id = id.to_string();
        channel.push(titled_video(id, id));
        list.push(channel);
    }
    let mut core = Core::new(Config::default(), list, History::default());
    core.action_on(Action::Enter, 1);
    core.action_on(Action::NextChannel, 1);
    assert_eq!(core.get_selected_channel_index(), Some(1));
    assert_eq!(core.current_screen, Screen::Videos);
    core.action_on(Action::PrevChannel, 1);
    assert_eq!(core.get_selected_channel_index(), Some(0));
    core.action_on(Action::Leave, 1);
    core.action_on(Action::NextChannel, 1);
    assert_eq!(core.get_selected_channel_index(), Some(0));
}

#[test]
fn selected_video_link_or_none() {
    let mut core = one_channel_core(vec![titled_video("a", "link-a")]);
    assert_eq!(core.get_selected_video_link(), "none");
    core.action_on(Action::Enter, 1);
    assert_eq!(core.get_selected_video_link(), "link-a");
}

#[test]
fn status_updates_reach_the_channel() {
    let mut core = one_channel_core(vec![]);
    core.update_status_line(tyt::state::StateUpdate::new(
        "id".to_string(),
        tyt::types::FetchState::Loading,
    ));
    assert_eq!(core.channel_list().channels[0].fetch_state, tyt::types::FetchState::Loading);
    core.update_status_line(tyt::state::StateUpdate::new(
        "other".to_string(),
        tyt::types::FetchState::Fetched,
    ));
    assert_eq!(core.channel_list().channels[0].fetch_state, tyt::types::FetchState::Loading);
}

#[test]
fn new_core_starts_on_channels_with_configured_filter() {
    let mut config = Config::default();
    config.show_empty_channels = false;
    let core = Core::new(config, ChannelList::default(), History::default());
    assert_eq!(core.current_screen, Screen::Channels);
    assert_eq!(core.channel_list().get_filter(), Filter::OnlyNew);
    assert_eq!(core.channel_list().selected(), Some(0));
    assert!(core.update_at_start());
}

#[test]
fn toggle_filter_twice_restores() {
    let mut core = one_channel_core(vec![titled_video("a", "1")]);
    core.toggle_filter();
    assert_eq!(core.channel_list().get_filter(), Filter::OnlyNew);
    core.toggle_filter();
    assert_eq!(core.channel_list().get_filter(), Filter::NoFilter);
}

#[test]
fn set_filter_selects_first_position_when_nothing_is_shown() {
    let mut marked = titled_video("a", "1");
    marked.mark(true);
    let mut core = one_channel_core(vec![marked]);
    core.set_filter(Filter::OnlyNew);
    assert_eq!(core.channel_list().len(), 0);
    assert_eq!(core.get_selected_channel_index(), Some(0));
    assert!(core.get_selected_channel().is_none());
}
