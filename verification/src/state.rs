use vstd::prelude::*;
use crate::channel::{has_new_video, next_selection, prev_selection, Channel, ChannelView};
use crate::channel_list::{
    clamp_selection, has_id, selected_pos, shown_position, visible_indices, with_channel, ChannelList,
    ListState,
};
use crate::clock::today_day_number;
use crate::config::Config;
use crate::history::{history_opened, room_on, History, HistoryView};
use crate::seq_util::first_index;
use crate::types::{Action, FetchState, Filter, Screen};
use crate::video::Video;

verus! {

/// How far the fetching of the channel with the id `text` has come.
#[derive(Debug)]
pub struct StateUpdate {
    pub text: String,
    pub state: FetchState,
}

impl StateUpdate {
    pub fn new(text: String, status: FetchState) -> (u: StateUpdate)
        ensures
            u.text == text,
            u.state == status,
    {
        StateUpdate { text, state: status }
    }
}

/// A video to hand to the player: the player's command, the video's link,
/// and what the notification tells of the video.
#[derive(Debug)]
pub struct PlayRequest {
    pub player: String,
    pub link: String,
    pub details: String,
}

/// What an action asks of the world around: to write the channel list, to
/// start the player, to write the playback history.
#[derive(Debug)]
pub struct Outcome {
    pub save_channels: bool,
    pub play: Option<PlayRequest>,
    pub save_history: bool,
}

/// The value of an outcome.
pub struct OutcomeView {
    pub save_channels: bool,
    pub play: Option<(Seq<char>, Seq<char>, Seq<char>)>,
    pub save_history: bool,
}

impl View for Outcome {
    type V = OutcomeView;

    open spec fn view(&self) -> OutcomeView {
        OutcomeView {
            save_channels: self.save_channels,
            play: match self.play {
                Some(p) => Some((p.player@, p.link@, p.details@)),
                None => None,
            },
            save_history: self.save_history,
        }
    }
}

/// An outcome that asks for nothing.
pub open spec fn nothing() -> OutcomeView {
    OutcomeView { save_channels: false, play: None, save_history: false }
}

/// The state of the program: settings, screen, channels and history.
#[derive(Debug)]
pub struct Core {
    pub config: Config,
    pub current_screen: Screen,
    pub channel_list: ChannelList,
    pub playback_history: History,
}

/// The value of the state: the screen, the channel list and the history.
pub struct StateView {
    pub screen: Screen,
    pub list: ListState,
    pub history: HistoryView,
}

impl View for Core {
    type V = StateView;

    open spec fn view(&self) -> StateView {
        StateView {
            screen: self.current_screen,
            list: self.channel_list@,
            history: self.playback_history@,
        }
    }
}

/// The state with the selection within the channel at `k` set to `sel`.
pub open spec fn set_channel_selection(s: StateView, k: int, sel: Option<usize>) -> StateView {
    StateView {
        list: with_channel(s.list, k, ChannelView { selected: sel, ..s.list.channels[k] }),
        ..s
    }
}

/// The state with the video `j` of the channel at `k` replaced by `v`.
pub open spec fn set_video(s: StateView, k: int, j: int, v: Video) -> StateView {
    let c = s.list.channels[k];
    StateView { list: with_channel(s.list, k, ChannelView { videos: c.videos.update(j, v), ..c }), ..s }
}

/// The number of shown channels.
pub open spec fn shown_count(l: ListState) -> nat {
    visible_indices(l.channels, l.filter).len()
}

/// Back to the channels, with the selection kept among the shown ones.
pub open spec fn leave_step(s: StateView) -> StateView {
    StateView {
        screen: Screen::Channels,
        list: ListState { selected: clamp_selection(s.list.selected, shown_count(s.list)), ..s.list },
        ..s
    }
}

/// One up: among the channels, or among the videos of the selected one.
pub open spec fn up_step(s: StateView) -> StateView {
    match s.screen {
        Screen::Channels => StateView {
            list: ListState { selected: prev_selection(s.list.selected), ..s.list },
            ..s
        },
        Screen::Videos => match selected_pos(s.list) {
            Some(k) => set_channel_selection(s, k, prev_selection(s.list.channels[k].selected)),
            None => s,
        },
    }
}

/// One down: among the channels, or among the videos of the selected one.
pub open spec fn down_step(s: StateView) -> StateView {
    match s.screen {
        Screen::Channels => StateView {
            list: ListState {
                selected: next_selection(s.list.selected, shown_count(s.list)),
                ..s.list
            },
            ..s
        },
        Screen::Videos => match selected_pos(s.list) {
            Some(k) => set_channel_selection(
                s,
                k,
                next_selection(s.list.channels[k].selected, s.list.channels[k].videos.len()),
            ),
            None => s,
        },
    }
}

/// Into the videos of the selected channel, at its first video.
pub open spec fn enter_step(s: StateView) -> StateView {
    match selected_pos(s.list) {
        Some(k) => StateView { screen: Screen::Videos, ..set_channel_selection(s, k, Some(0)) },
        None => s,
    }
}

/// The channel's position and the video's index of the selected video.
pub open spec fn selected_video_at(s: StateView) -> Option<(int, int)> {
    match selected_pos(s.list) {
        Some(k) => match s.list.channels[k].selected {
            Some(j) => if j < s.list.channels[k].videos.len() {
                Some((k, j as int))
            } else {
                None
            },
            None => None,
        },
        None => None,
    }
}

/// Marking the selected video on the videos screen; then, when the filter
/// hides channels without new videos and none is left, back to the
/// channels, else one down if asked for. The flag says whether the channel
/// list is written, which it is when a channel is selected at the end.
pub open spec fn mark_step(s: StateView, state: bool, down_on_mark: bool) -> (StateView, bool) {
    if s.screen != Screen::Videos {
        (s, false)
    } else {
        match selected_pos(s.list) {
            None => (s, false),
            Some(k) => match s.list.channels[k].selected {
                None => (s, false),
                Some(j) => {
                    let c = s.list.channels[k];
                    let s1 = if j < c.videos.len() {
                        set_video(s, k, j as int, Video { marked: state, ..c.videos[j as int] })
                    } else {
                        s
                    };
                    let s2 = if !has_new_video(s1.list.channels[k].videos) && s1.list.filter
                        == Filter::OnlyNew {
                        leave_step(s1)
                    } else if down_on_mark {
                        match selected_pos(s1.list) {
                            Some(k2) => set_channel_selection(
                                s1,
                                k2,
                                next_selection(
                                    s1.list.channels[k2].selected,
                                    s1.list.channels[k2].videos.len(),
                                ),
                            ),
                            None => s1,
                        }
                    } else {
                        s1
                    };
                    (s2, selected_pos(s2.list) is Some)
                },
            },
        }
    }
}

/// Turning the selected video into a favourite or back; the flag says
/// whether the channel list is written.
pub open spec fn fav_step(s: StateView) -> (StateView, bool) {
    match selected_video_at(s) {
        Some((k, j)) => {
            let v = s.list.channels[k].videos[j];
            (set_video(s, k, j, Video { fav: !v.fav, ..v }), true)
        },
        None => (s, false),
    }
}

/// Opening the selected video on `day`: marked first if the settings ask
/// for it, then handed to the player and entered into the history.
pub open spec fn open_step(s: StateView, cfg: Config, day: i32) -> (StateView, OutcomeView) {
    match selected_video_at(s) {
        Some((k, j)) => {
            let v = s.list.channels[k].videos[j];
            let (s1, saved) = if cfg.mark_on_open {
                mark_step(s, true, cfg.down_on_mark)
            } else {
                (s, false)
            };
            (
                StateView {
                    history: history_opened(s1.history, (v.title@, v.origin_channel_name@), day),
                    ..s1
                },
                OutcomeView {
                    save_channels: saved,
                    play: Some((cfg.video_player@, v.link@, v.title@)),
                    save_history: true,
                },
            )
        },
        None => (s, nothing()),
    }
}

/// The shown channels, in order.
pub open spec fn shown_list(l: ListState) -> Seq<ChannelView> {
    let ix = visible_indices(l.channels, l.filter);
    Seq::new(ix.len(), |j: int| l.channels[ix[j]])
}

/// The state after the filter was switched to `f`, keeping the selected
/// channel selected where it is still shown, else keeping the position as
/// far as the shown channels reach (the first position when none is
/// shown); on the videos screen the channel is entered again, at the same
/// video, when it is still shown.
pub open spec fn set_filter_step(s: StateView, f: Filter) -> StateView {
    if s.list.channels.len() == 0 {
        s
    } else {
        let on_videos = s.screen == Screen::Videos;
        let s1 = if on_videos {
            leave_step(s)
        } else {
            s
        };
        let video_pos = match selected_pos(s1.list) {
            Some(k) => s1.list.channels[k].selected,
            None => None,
        };
        let index: nat = match s1.list.selected {
            Some(i) => i as nat,
            None => 0,
        };
        let id = match shown_position(s1.list, index as int) {
            Some(k) => Some(s1.list.channels[k].id),
            None => None,
        };
        let l2 = ListState { filter: f, ..s1.list };
        let position = match id {
            Some(x) => first_index(shown_list(l2), has_id(x)),
            None => None,
        };
        let count = shown_count(l2);
        let last: nat = if count > 1 {
            (count - 1) as nat
        } else {
            0
        };
        let selection: nat = match position {
            Some(p) => p as nat,
            None => if index < last {
                index
            } else {
                last
            },
        };
        let s3 = StateView {
            list: ListState { selected: Some(selection as usize), ..l2 },
            ..s1
        };
        if on_videos && position is Some {
            let s4 = enter_step(s3);
            match selected_pos(s4.list) {
                Some(k) => set_channel_selection(s4, k, video_pos),
                None => s4,
            }
        } else {
            s3
        }
    }
}

/// The state after the action on `day`, and what it asks of the world.
pub open spec fn step(s: StateView, cfg: Config, a: Action, day: i32) -> (StateView, OutcomeView) {
    match a {
        Action::Mark(state) => {
            let (s1, saved) = mark_step(s, state, cfg.down_on_mark);
            (s1, OutcomeView { save_channels: saved, ..nothing() })
        },
        Action::Up => (up_step(s), nothing()),
        Action::Down => (down_step(s), nothing()),
        Action::Enter => (enter_step(s), nothing()),
        Action::Leave => (leave_step(s), nothing()),
        Action::NextChannel => match s.screen {
            Screen::Channels => (s, nothing()),
            Screen::Videos => (enter_step(down_step(leave_step(s))), nothing()),
        },
        Action::PrevChannel => match s.screen {
            Screen::Channels => (s, nothing()),
            Screen::Videos => (enter_step(up_step(leave_step(s))), nothing()),
        },
        Action::SetVideoFav => {
            let (s1, saved) = fav_step(s);
            (s1, OutcomeView { save_channels: saved, ..nothing() })
        },
        Action::Open => open_step(s, cfg, day),
    }
}

impl Core {
    /// The history is well formed.
    pub open spec fn wf(self) -> bool {
        self.playback_history.wf()
    }

    /// The state at start: the channels screen, the first shown channel
    /// selected, then the filter that the settings ask for.
    pub fn new(config: Config, channel_list: ChannelList, playback_history: History) -> (c: Core)
        ensures
            c.config == config,
            c.current_screen == Screen::Channels,
            c.channel_list.all() == channel_list.all(),
            c.channel_list.selected == clamp_selection(Some(0), shown_count(channel_list@)),
            c.channel_list.filter == (if config.show_empty_channels {
                Filter::NoFilter
            } else {
                Filter::OnlyNew
            }),
            c.playback_history == playback_history,
    {
        let filter = config.initial_filter();
        let mut channel_list = channel_list;
        channel_list.select(Some(0));
        channel_list.set_filter(filter);
        Core { config, current_screen: Screen::Channels, channel_list, playback_history }
    }

    /// Whether fetching starts right away.
    pub fn update_at_start(&self) -> (r: bool)
        ensures
            r == self.config.update_at_start,
    {
        self.config.update_at_start
    }

    pub fn get_current_screen(&self) -> (r: &Screen)
        ensures
            *r == self.current_screen,
    {
        &self.current_screen
    }

    pub fn channel_list(&self) -> (r: &ChannelList)
        ensures
            *r == self.channel_list,
    {
        &self.channel_list
    }

    /// The channel list, to change in place.
    pub fn channel_list_mut(&mut self) -> (r: &mut ChannelList)
        ensures
            *r == old(self).channel_list,
            final(self).channel_list == *final(r),
            final(self).config == old(self).config,
            final(self).current_screen == old(self).current_screen,
            final(self).playback_history == old(self).playback_history,
    {
        &mut self.channel_list
    }

    /// The selected channel, if it is shown, to change in place.
    pub fn get_selected_channel_mut(&mut self) -> (r: Option<&mut Channel>)
        ensures
            selected_pos(old(self)@.list) matches Some(k) ==> (r matches Some(c) && *c
                == old(self).channel_list.channels@[k] && final(self).channel_list.channels@ == old(
                self,
            ).channel_list.channels@.update(k, *final(c))),
            selected_pos(old(self)@.list) is None ==> r is None && final(self).channel_list.channels
                == old(self).channel_list.channels,
            final(self).channel_list.selected == old(self).channel_list.selected,
            final(self).channel_list.filter == old(self).channel_list.filter,
            final(self).config == old(self).config,
            final(self).current_screen == old(self).current_screen,
            final(self).playback_history == old(self).playback_history,
    {
        match self.channel_list.selected_position() {
            Some(k) => Some(&mut self.channel_list.channels[k]),
            None => None,
        }
    }

    /// The selected video, if there is one, to change in place.
    pub fn get_selected_video_mut(&mut self) -> (r: Option<&mut Video>)
        ensures
            selected_video_at(old(self)@) matches Some((k, j)) ==> (r matches Some(v) && *v
                == old(self).channel_list.channels@[k].videos@[j] && final(self).channel_list.channels@
                == old(self).channel_list.channels@.update(
                k,
                Channel {
                    videos: final(self).channel_list.channels@[k].videos,
                    ..old(self).channel_list.channels@[k]
                },
            ) && final(self).channel_list.channels@[k].videos@ == old(
                self,
            ).channel_list.channels@[k].videos@.update(j, *final(v))),
            selected_video_at(old(self)@) is None ==> r is None && final(self).channel_list.channels
                == old(self).channel_list.channels,
            final(self).channel_list.selected == old(self).channel_list.selected,
            final(self).channel_list.filter == old(self).channel_list.filter,
            final(self).config == old(self).config,
            final(self).current_screen == old(self).current_screen,
            final(self).playback_history == old(self).playback_history,
    {
        match self.selected_video_position() {
            Some((k, j)) => Some(&mut self.channel_list.channels[k].videos[j]),
            None => None,
        }
    }

    /// The position of the selected channel among the shown ones.
    pub fn get_selected_channel_index(&self) -> (r: Option<usize>)
        ensures
            r == self.channel_list.selected,
    {
        self.channel_list.selected()
    }

    /// The selected channel, if it is shown.
    pub fn get_selected_channel(&self) -> (r: Option<&Channel>)
        ensures
            selected_pos(self@.list) matches Some(k) ==> r is Some && r.unwrap()@ == self@.list.channels[k],
            selected_pos(self@.list) is None ==> r is None,
    {
        match self.channel_list.selected_position() {
            Some(k) => Some(&self.channel_list.channels[k]),
            None => None,
        }
    }

    /// Where the selected video is: the channel's position among all and
    /// the video's index.
    fn selected_video_position(&self) -> (r: Option<(usize, usize)>)
        ensures
            r matches Some((k, j)) ==> k < self.channel_list.channels@.len() && j
                < self.channel_list.channels@[k as int].videos@.len() && selected_video_at(self@)
                == Some((k as int, j as int)),
            r is None ==> selected_video_at(self@) is None,
    {
        match self.channel_list.selected_position() {
            Some(k) => {
                assert(self@.list.channels[k as int] == self.channel_list.channels@[k as int]@);
                match self.channel_list.channels[k].selected() {
                    Some(j) => if j < self.channel_list.channels[k].videos.len() {
                        Some((k, j))
                    } else {
                        None
                    },
                    None => None,
                }
            },
            None => None,
        }
    }

    /// The selected video, if there is one.
    pub fn get_selected_video(&self) -> (r: Option<&Video>)
        ensures
            selected_video_at(self@) matches Some((k, j)) ==> r == Some(
                &self@.list.channels[k].videos[j],
            ),
            selected_video_at(self@) is None ==> r is None,
    {
        match self.selected_video_position() {
            Some((k, j)) => {
                assert(self@.list.channels[k as int] == self.channel_list.channels@[k as int]@);
                Some(&self.channel_list.channels[k].videos[j])
            },
            None => None,
        }
    }

    /// The link of the selected video, or "none".
    pub fn get_selected_video_link(&self) -> (r: String)
        ensures
            selected_video_at(self@) matches Some((k, j)) ==> r@ == self@.list.channels[k].videos[j].link@,
            selected_video_at(self@) is None ==> r@ == "none"@,
    {
        match self.get_selected_video() {
            Some(v) => v.link.clone(),
            None => String::from_str("none"),
        }
    }

    /// Takes over how far the fetching of a channel has come.
    pub fn update_status_line(&mut self, item: StateUpdate)
        ensures
            final(self).config == old(self).config,
            final(self).current_screen == old(self).current_screen,
            final(self).playback_history == old(self).playback_history,
            crate::seq_util::first_index(old(self).channel_list.all(), crate::channel_list::has_id(
                item.text@,
            )) matches Some(k) ==> final(self).channel_list@ == with_channel(
                old(self).channel_list@,
                k,
                ChannelView { fetch_state: item.state, ..old(self).channel_list.all()[k] },
            ),
            crate::seq_util::first_index(old(self).channel_list.all(), crate::channel_list::has_id(
                item.text@,
            )) is None ==> final(self).channel_list@ == old(self).channel_list@,
    {
        self.channel_list.set_fetch_state_by_id(item.text.as_str(), item.state);
    }

    /// Switches between showing all channels and only those with new videos.
    pub fn toggle_filter(&mut self)
        ensures
            final(self).config == old(self).config,
            final(self).current_screen == old(self).current_screen,
            final(self).playback_history == old(self).playback_history,
            final(self).channel_list.channels == old(self).channel_list.channels,
            final(self).channel_list.selected == old(self).channel_list.selected,
            final(self).channel_list.filter == crate::channel_list::toggled(
                old(self).channel_list.filter,
            ),
    {
        self.channel_list.toggle_filter();
    }

    /// Merges a fetched channel in, ordering the channels as the settings
    /// ask.
    pub fn update_channel(&mut self, updated_channel: Channel)
        ensures
            final(self).config == old(self).config,
            final(self).current_screen == old(self).current_screen,
            final(self).playback_history == old(self).playback_history,
            final(self).channel_list.all() == crate::channel_list::updated_channels(
                old(self).channel_list.all(),
                updated_channel@,
                old(self).config.sort_channels,
            ),
            final(self).channel_list.filter == old(self).channel_list.filter,
            final(self).channel_list.selected == old(self).channel_list.selected,
    {
        let sort = self.config.sort_channels;
        self.channel_list.update_channel(updated_channel, sort);
    }

    /// Switches the filter, keeping the selected channel selected where
    /// it is still shown.
    pub fn set_filter(&mut self, filter: Filter)
        ensures
            final(self)@ == set_filter_step(old(self)@, filter),
            final(self).config == old(self).config,
            final(self).playback_history == old(self).playback_history,
    {
        if self.channel_list.channels.len() == 0 {
            return;
        }
        let on_videos = match self.current_screen {
            Screen::Videos => true,
            Screen::Channels => false,
        };
        if on_videos {
            self.leave();
        }
        let video_pos = match self.channel_list.selected_position() {
            Some(k) => self.channel_list.channels[k].selected,
            None => None,
        };
        let index: usize = match self.channel_list.selected {
            Some(i) => i,
            None => 0,
        };
        proof {
            crate::channel_list::lemma_visible_indices(self.channel_list.all(), self.channel_list.filter);
        }
        let _n: usize = self.channel_list.channels.len();
        let id: Option<String> = match self.channel_list.unfiltered_index(index) {
            Some(k) => Some(self.channel_list.channels[k].id.clone()),
            None => None,
        };
        self.channel_list.set_filter(filter);
        let position = match &id {
            Some(x) => self.channel_list.get_position_by_id(x.as_str()),
            None => None,
        };
        assert(self.channel_list.shown_channels() == shown_list(self.channel_list@));
        let count = self.channel_list.len();
        let last: usize = if count > 1 {
            count - 1
        } else {
            0
        };
        let selection: usize = match position {
            Some(p) => p,
            None => if index < last {
                index
            } else {
                last
            },
        };
        self.channel_list.selected = Some(selection);
        if on_videos && position.is_some() {
            self.enter();
            match self.channel_list.selected_position() {
                Some(k) => {
                    let ghost before = self.channel_list.all();
                    self.channel_list.channels[k].select(video_pos);
                    assert(self.channel_list.all() =~= before.update(
                        k as int,
                        ChannelView { selected: video_pos, ..before[k as int] },
                    ));
                },
                None => {},
            }
        }
    }

    fn leave(&mut self)
        ensures
            final(self)@ == leave_step(old(self)@),
            final(self).config == old(self).config,
            final(self).playback_history == old(self).playback_history,
    {
        self.current_screen = Screen::Channels;
        let i = self.channel_list.selected();
        self.channel_list.select(i);
    }

    fn up(&mut self)
        ensures
            final(self)@ == up_step(old(self)@),
            final(self).config == old(self).config,
            final(self).playback_history == old(self).playback_history,
    {
        match self.current_screen {
            Screen::Channels => self.channel_list.prev(),
            Screen::Videos => match self.channel_list.selected_position() {
                Some(k) => {
                    let ghost before = self.channel_list.all();
                    self.channel_list.channels[k].prev();
                    assert(self.channel_list.all() =~= before.update(
                        k as int,
                        ChannelView { selected: prev_selection(before[k as int].selected), ..before[k as int] },
                    ));
                },
                None => {},
            },
        }
    }

    fn down(&mut self)
        ensures
            final(self)@ == down_step(old(self)@),
            final(self).config == old(self).config,
            final(self).playback_history == old(self).playback_history,
    {
        match self.current_screen {
            Screen::Channels => self.channel_list.next(),
            Screen::Videos => match self.channel_list.selected_position() {
                Some(k) => {
                    let ghost before = self.channel_list.all();
                    self.channel_list.channels[k].next();
                    assert(self.channel_list.all() =~= before.update(
                        k as int,
                        ChannelView {
                            selected: next_selection(
                                before[k as int].selected,
                                before[k as int].videos.len(),
                            ),
                            ..before[k as int]
                        },
                    ));
                },
                None => {},
            },
        }
    }

    fn enter(&mut self)
        ensures
            final(self)@ == enter_step(old(self)@),
            final(self).config == old(self).config,
            final(self).playback_history == old(self).playback_history,
    {
        match self.channel_list.selected_position() {
            Some(k) => {
                let ghost before = self.channel_list.all();
                self.channel_list.channels[k].select(Some(0));
                assert(self.channel_list.all() =~= before.update(
                    k as int,
                    ChannelView { selected: Some(0), ..before[k as int] },
                ));
                self.current_screen = Screen::Videos;
            },
            None => {},
        }
    }

    fn mark(&mut self, state: bool) -> (saved: bool)
        ensures
            (final(self)@, saved) == mark_step(old(self)@, state, old(self).config.down_on_mark),
            final(self).config == old(self).config,
            final(self).playback_history == old(self).playback_history,
    {
        if self.current_screen != Screen::Videos {
            return false;
        }
        let k = match self.channel_list.selected_position() {
            Some(k) => k,
            None => return false,
        };
        let j = match self.channel_list.channels[k].selected() {
            Some(j) => j,
            None => return false,
        };
        let ghost before = self.channel_list.all();
        self.channel_list.channels[k].mark_video(j, state);
        proof {
            if j < before[k as int].videos.len() {
                assert(self.channel_list.all() =~= before.update(
                    k as int,
                    ChannelView {
                        videos: before[k as int].videos.update(
                            j as int,
                            Video { marked: state, ..before[k as int].videos[j as int] },
                        ),
                        ..before[k as int]
                    },
                ));
            } else {
                assert(self.channel_list.all() =~= before);
            }
        }
        let no_new = !self.channel_list.channels[k].has_new();
        let only_new = match self.channel_list.get_filter() {
            Filter::OnlyNew => true,
            Filter::NoFilter => false,
        };
        if no_new && only_new {
            self.leave();
        } else if self.config.down_on_mark {
            match self.channel_list.selected_position() {
                Some(k2) => {
                    let ghost mid = self.channel_list.all();
                    self.channel_list.channels[k2].next();
                    assert(self.channel_list.all() =~= mid.update(
                        k2 as int,
                        ChannelView {
                            selected: next_selection(mid[k2 as int].selected, mid[k2 as int].videos.len()),
                            ..mid[k2 as int]
                        },
                    ));
                },
                None => return false,
            }
        }
        match self.channel_list.selected_position() {
            Some(_) => true,
            None => false,
        }
    }

    fn set_video_fav(&mut self) -> (saved: bool)
        ensures
            (final(self)@, saved) == fav_step(old(self)@),
            final(self).config == old(self).config,
            final(self).playback_history == old(self).playback_history,
    {
        match self.selected_video_position() {
            Some((k, j)) => {
                let ghost before = self.channel_list.all();
                let fav = self.channel_list.channels[k].videos[j].fav;
                self.channel_list.channels[k].set_video_fav(j, !fav);
                assert(self.channel_list.all() =~= before.update(
                    k as int,
                    ChannelView {
                        videos: before[k as int].videos.update(
                            j as int,
                            Video { fav: !fav, ..before[k as int].videos[j as int] },
                        ),
                        ..before[k as int]
                    },
                ));
                true
            },
            None => false,
        }
    }

    fn open(&mut self, day: i32) -> (r: Outcome)
        requires
            old(self).wf(),
            room_on(old(self)@.history, day),
        ensures
            (final(self)@, r@) == open_step(old(self)@, old(self).config, day),
            final(self).config == old(self).config,
            final(self).wf(),
    {
        match self.selected_video_position() {
            Some((k, j)) => {
                let video = self.channel_list.channels[k].videos[j].clone();
                let saved = if self.config.mark_on_open {
                    self.mark(true)
                } else {
                    false
                };
                let play = PlayRequest {
                    player: self.config.video_player.clone(),
                    link: video.link.clone(),
                    details: video.get_details(),
                };
                self.playback_history.video_opened_on(&video, day);
                Outcome { save_channels: saved, play: Some(play), save_history: true }
            },
            None => Outcome { save_channels: false, play: None, save_history: false },
        }
    }

    /// Carries out the action on `day`, and tells what it asks of the
    /// world around.
    pub fn action_on(&mut self, action: Action, day: i32) -> (r: Outcome)
        requires
            old(self).wf(),
            room_on(old(self)@.history, day),
        ensures
            (final(self)@, r@) == step(old(self)@, old(self).config, action, day),
            final(self).config == old(self).config,
            final(self).wf(),
    {
        match action {
            Action::Mark(state) => {
                let saved = self.mark(state);
                Outcome { save_channels: saved, play: None, save_history: false }
            },
            Action::Up => {
                self.up();
                Outcome { save_channels: false, play: None, save_history: false }
            },
            Action::Down => {
                self.down();
                Outcome { save_channels: false, play: None, save_history: false }
            },
            Action::Enter => {
                self.enter();
                Outcome { save_channels: false, play: None, save_history: false }
            },
            Action::Leave => {
                self.leave();
                Outcome { save_channels: false, play: None, save_history: false }
            },
            Action::NextChannel => {
                match self.current_screen {
                    Screen::Channels => {},
                    Screen::Videos => {
                        self.leave();
                        self.down();
                        self.enter();
                    },
                }
                Outcome { save_channels: false, play: None, save_history: false }
            },
            Action::PrevChannel => {
                match self.current_screen {
                    Screen::Channels => {},
                    Screen::Videos => {
                        self.leave();
                        self.up();
                        self.enter();
                    },
                }
                Outcome { save_channels: false, play: None, save_history: false }
            },
            Action::SetVideoFav => {
                let saved = self.set_video_fav();
                Outcome { save_channels: saved, play: None, save_history: false }
            },
            Action::Open => self.open(day),
        }
    }

    /// Carries out the action today.
    pub fn action(&mut self, action: Action) -> (r: Outcome)
        requires
            old(self).wf(),
            old(self).playback_history.room(),
        ensures
            exists|day: i32| (final(self)@, r@) == step(old(self)@, old(self).config, action, day),
            final(self).config == old(self).config,
            final(self).wf(),
    {
        let day = today_day_number();
        assert(room_on(self@.history, day));
        self.action_on(action, day)
    }
}

/// The moves among the videos of a channel: down for `true`, up for `false`.
pub open spec fn video_moves(s: StateView, moves: Seq<bool>) -> StateView
    decreases moves.len(),
{
    if moves.len() == 0 {
        s
    } else {
        let s1 = video_moves(s, moves.drop_last());
        if moves.last() {
            down_step(s1)
        } else {
            up_step(s1)
        }
    }
}

/// Both lists have the same filter and, channel by channel, the same videos.
pub open spec fn same_videos(l1: ListState, l2: ListState) -> bool {
    &&& l1.filter == l2.filter
    &&& l1.channels.len() == l2.channels.len()
    &&& forall|i: int| 0 <= i < l1.channels.len() ==> (#[trigger] l1.channels[i]).videos == l2.channels[i].videos
}

proof fn lemma_same_videos_shown(l1: ListState, l2: ListState)
    requires
        same_videos(l1, l2),
    ensures
        visible_indices(l1.channels, l1.filter) == visible_indices(l2.channels, l2.filter),
        shown_count(l1) == shown_count(l2),
{
    crate::channel_list::lemma_visible_same_videos(l1.channels, l2.channels, l1.filter);
}

proof fn lemma_video_moves(s: StateView, moves: Seq<bool>)
    requires
        s.screen == Screen::Videos,
    ensures
        video_moves(s, moves).screen == Screen::Videos,
        video_moves(s, moves).list.selected == s.list.selected,
        same_videos(video_moves(s, moves).list, s.list),
    decreases moves.len(),
{
    if moves.len() > 0 {
        let s1 = video_moves(s, moves.drop_last());
        lemma_video_moves(s, moves.drop_last());
        lemma_same_videos_shown(s1.list, s.list);
        crate::channel_list::lemma_visible_indices(s1.list.channels, s1.list.filter);
        let t = video_moves(s, moves);
        assert forall|i: int| 0 <= i < t.list.channels.len() implies (#[trigger] t.list.channels[i]).videos
            == s.list.channels[i].videos by {
            assert(t.list.channels[i].videos == s1.list.channels[i].videos);
        }
    }
}

/// Entering a channel, moving among its videos and leaving again lands on
/// the channel that was entered, on the channels screen; entering shows
/// the videos with the same channel selected, and no move among them
/// changes which channel is selected.
pub proof fn law_enter_moves_leave(s: StateView, moves: Seq<bool>)
    requires
        s.screen == Screen::Channels,
        selected_pos(s.list) is Some,
    ensures
        enter_step(s).screen == Screen::Videos,
        enter_step(s).list.selected == s.list.selected,
        video_moves(enter_step(s), moves).list.selected == s.list.selected,
        leave_step(video_moves(enter_step(s), moves)).screen == Screen::Channels,
        leave_step(video_moves(enter_step(s), moves)).list.selected == s.list.selected,
        same_videos(leave_step(video_moves(enter_step(s), moves)).list, s.list),
{
    let e = enter_step(s);
    crate::channel_list::lemma_visible_indices(s.list.channels, s.list.filter);
    assert(same_videos(e.list, s.list)) by {
        let k = selected_pos(s.list)->0;
        assert forall|i: int| 0 <= i < e.list.channels.len() implies (#[trigger] e.list.channels[i]).videos
            == s.list.channels[i].videos by {
            if i != k {
                assert(e.list.channels[i] == s.list.channels[i]);
            }
        }
    }
    lemma_video_moves(e, moves);
    let m = video_moves(e, moves);
    assert forall|i: int| 0 <= i < m.list.channels.len() implies (#[trigger] m.list.channels[i]).videos
        == s.list.channels[i].videos by {
        assert(m.list.channels[i].videos == e.list.channels[i].videos);
    }
    lemma_same_videos_shown(m.list, s.list);
}

/// Moving among the channels keeps a selection that is within the shown
/// channels within them: up stops at the first, down at the last.
pub proof fn law_channel_moves_stay_in_range(s: StateView)
    requires
        s.screen == Screen::Channels,
        s.list.selected matches Some(i) && i < shown_count(s.list),
    ensures
        up_step(s).list.selected matches Some(i) && i < shown_count(up_step(s).list),
        down_step(s).list.selected matches Some(i) && i < shown_count(down_step(s).list),
        s.list.selected == Some(0usize) ==> up_step(s).list.selected == Some(0usize),
        s.list.selected matches Some(i) && i + 1 == shown_count(s.list) ==> down_step(s).list.selected
            == s.list.selected,
{
}

/// Turning the selected video into a favourite twice gives back the state.
pub proof fn law_fav_twice(s: StateView)
    ensures
        fav_step(fav_step(s).0).0 == s,
{
    crate::channel_list::lemma_visible_indices(s.list.channels, s.list.filter);
    match selected_video_at(s) {
        Some((k, j)) => {
            let t = fav_step(s).0;
            let c = s.list.channels[k];
            let v = c.videos[j];
            assert forall|i: int| 0 <= i < t.list.channels.len() implies crate::channel_list::shown(
                #[trigger] t.list.channels[i],
                s.list.filter,
            ) == crate::channel_list::shown(s.list.channels[i], s.list.filter) by {
                if i == k {
                    let tv = t.list.channels[i].videos;
                    let sv = s.list.channels[i].videos;
                    assert forall|x: int| 0 <= x < tv.len() implies (#[trigger] tv[x]).marked
                        == sv[x].marked by {}
                    if has_new_video(tv) {
                        let x = choose|x: int| 0 <= x < tv.len() && !(#[trigger] tv[x]).marked;
                        assert(!sv[x].marked);
                    }
                    if has_new_video(sv) {
                        let x = choose|x: int| 0 <= x < sv.len() && !(#[trigger] sv[x]).marked;
                        assert(!tv[x].marked);
                    }
                }
            }
            crate::channel_list::lemma_visible_same_shown(s.list.channels, t.list.channels, s.list.filter);
            assert(selected_video_at(t) == Some((k, j)));
            let u = fav_step(t).0;
            assert(u.list.channels[k].videos =~= c.videos);
            assert(u.list.channels =~= s.list.channels);
        },
        None => {},
    }
}

/// Marking the selected video on the videos screen sets its flag, and
/// nothing else of any video changes.
pub proof fn law_mark_sets_flag(s: StateView, state: bool, down_on_mark: bool)
    requires
        s.screen == Screen::Videos,
        selected_video_at(s) is Some,
    ensures
        ({
            let (k, j) = selected_video_at(s)->0;
            let t = mark_step(s, state, down_on_mark).0;
            &&& t.list.channels.len() == s.list.channels.len()
            &&& t.list.channels[k].videos == s.list.channels[k].videos.update(
                j,
                Video { marked: state, ..s.list.channels[k].videos[j] },
            )
            &&& forall|i: int|
                0 <= i < s.list.channels.len() && i != k ==> (#[trigger] t.list.channels[i]).videos
                    == s.list.channels[i].videos
        }),
{
    crate::channel_list::lemma_visible_indices(s.list.channels, s.list.filter);
    let (k, j) = selected_video_at(s)->0;
    let c = s.list.channels[k];
    let s1 = set_video(s, k, j, Video { marked: state, ..c.videos[j] });
    assert(s1.list.channels.len() == s.list.channels.len());
    crate::channel_list::lemma_visible_indices(s1.list.channels, s1.list.filter);
    let t = mark_step(s, state, down_on_mark).0;
    assert forall|i: int| 0 <= i < s.list.channels.len() implies (#[trigger] t.list.channels[i]).videos
        == s1.list.channels[i].videos by {}
}

/// Switching the filter on the channels screen keeps a channel with the
/// selected one's id selected, as long as the selected channel is shown
/// under the new filter.
pub proof fn law_set_filter_keeps_channel(s: StateView, f: Filter)
    requires
        s.screen == Screen::Channels,
        s.list.channels.len() <= usize::MAX,
        selected_pos(s.list) is Some,
        crate::channel_list::shown(s.list.channels[selected_pos(s.list)->0], f),
    ensures
        selected_pos(set_filter_step(s, f).list) matches Some(k2) && set_filter_step(s, f).list.channels[k2].id
            == s.list.channels[selected_pos(s.list)->0].id,
        set_filter_step(s, f).screen == Screen::Channels,
{
    let k = selected_pos(s.list)->0;
    let id = s.list.channels[k].id;
    let l2 = ListState { filter: f, ..s.list };
    crate::channel_list::lemma_visible_indices(s.list.channels, s.list.filter);
    crate::channel_list::lemma_visible_indices(l2.channels, f);
    let vi2 = visible_indices(l2.channels, f);
    let j = choose|j: int| 0 <= j < vi2.len() && vi2[j] == k;
    let sl = shown_list(l2);
    assert(has_id(id)(sl[j]));
    crate::seq_util::lemma_first_index(sl, has_id(id));
    let p = first_index(sl, has_id(id))->0;
    let t = set_filter_step(s, f);
    assert(t.list.selected == Some(p as usize));
    assert(shown_position(t.list, p) == Some(vi2[p]));
}

/// Opening the selected video on the videos screen hands its link to the
/// player, marks it when the settings ask for that, and makes its entry the
/// newest of the history.
pub proof fn law_open_plays_marks_and_records(s: StateView, cfg: Config, day: i32)
    requires
        s.screen == Screen::Videos,
        selected_video_at(s) is Some,
    ensures
        ({
            let (k, j) = selected_video_at(s)->0;
            let v = s.list.channels[k].videos[j];
            let (t, o) = open_step(s, cfg, day);
            &&& o.play == Some((cfg.video_player@, v.link@, v.title@))
            &&& o.save_history
            &&& t.history.list.last() == (v.title@, v.origin_channel_name@)
            &&& cfg.mark_on_open ==> t.list.channels[k].videos[j].marked
            &&& !cfg.mark_on_open ==> t.list == s.list
        }),
{
    if cfg.mark_on_open {
        law_mark_sets_flag(s, true, cfg.down_on_mark);
        crate::channel_list::lemma_visible_indices(s.list.channels, s.list.filter);
    }
}

/// Turning the selected video into a favourite flips its mark and nothing
/// else of it or of any other video, keeps screen, selection and history,
/// and asks for the channel list to be written; with no video selected it
/// changes nothing and asks for nothing.
pub proof fn law_fav_flips_selected(s: StateView)
    ensures
        selected_video_at(s) matches Some((k, j)) ==> {
            let v = s.list.channels[k].videos[j];
            let t = fav_step(s).0;
            &&& fav_step(s).1
            &&& t.list.channels[k].videos[j] == Video { fav: !v.fav, ..v }
            &&& t.list.channels.len() == s.list.channels.len()
            &&& t.list.channels[k].videos.len() == s.list.channels[k].videos.len()
            &&& forall|x: int|
                0 <= x < s.list.channels[k].videos.len() && x != j ==> (#[trigger] t.list.channels[k].videos[x])
                    == s.list.channels[k].videos[x]
            &&& forall|i: int|
                0 <= i < s.list.channels.len() && i != k ==> (#[trigger] t.list.channels[i]) == s.list.channels[i]
            &&& t.screen == s.screen
            &&& t.list.selected == s.list.selected
            &&& t.list.filter == s.list.filter
            &&& t.history == s.history
        },
        selected_video_at(s) is None ==> fav_step(s) == (s, false),
{
    crate::channel_list::lemma_visible_indices(s.list.channels, s.list.filter);
}

} // verus!
