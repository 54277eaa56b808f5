use vstd::prelude::*;
use crate::assoc::{
    assoc_map, has_key, lemma_assoc_at, lemma_assoc_empty, lemma_assoc_push, lemma_assoc_update,
    unique_keys,
};
use std::collections::HashMap;
use vstd::std_specs::hash::spec_keys_iter;
use vstd::std_specs::iter::IteratorSpec;
use crate::clock::today_day_number;
use crate::seq_util::{first_index, lemma_first_index, lemma_first_index_at, lemma_first_index_none};
use crate::text::str_eq;
use crate::video::Video;

verus! {

broadcast use vstd::std_specs::hash::group_hash_axioms;

/// What the playback history keeps of a video.
#[derive(Debug)]
pub struct MinimalVideo {
    pub title: String,
    pub channel: String,
}

impl Clone for MinimalVideo {
    fn clone(&self) -> (r: Self)
        ensures
            r == *self,
    {
        MinimalVideo { title: self.title.clone(), channel: self.channel.clone() }
    }
}

impl PartialEq for MinimalVideo {
    fn eq(&self, other: &Self) -> (r: bool) {
        self.same_as(other)
    }
}

impl vstd::std_specs::cmp::PartialEqSpecImpl for MinimalVideo {
    open spec fn obeys_eq_spec() -> bool {
        true
    }

    open spec fn eq_spec(&self, other: &Self) -> bool {
        self.key() == other.key()
    }
}

impl MinimalVideo {
    /// The title and the channel's name.
    pub open spec fn key(self) -> (Seq<char>, Seq<char>) {
        (self.title@, self.channel@)
    }

    /// The entry for a video: its title and the name of its channel.
    pub fn of_video(video: &Video) -> (m: MinimalVideo)
        ensures
            m.key() == (video.title@, video.origin_channel_name@),
    {
        MinimalVideo { title: video.title.clone(), channel: video.origin_channel_name.clone() }
    }

    /// Both entries have the same title and channel.
    pub fn same_as(&self, other: &MinimalVideo) -> (r: bool)
        ensures
            r == (self.key() == other.key()),
    {
        str_eq(self.title.as_str(), other.title.as_str()) && str_eq(
            self.channel.as_str(),
            other.channel.as_str(),
        )
    }
}

/// The counts of one day.
#[derive(Debug)]
pub struct Stats {
    pub watched: usize,
    pub channels: Vec<(String, usize)>,
}

/// The counts of one day: videos watched in all, and per channel name.
pub struct StatsView {
    pub watched: usize,
    pub channels: Map<Seq<char>, usize>,
}

/// The pairs with their names as texts.
pub open spec fn name_pairs(s: Seq<(String, usize)>) -> Seq<(Seq<char>, usize)> {
    s.map_values(|p: (String, usize)| (p.0@, p.1))
}

/// The counts after one more video of the channel was watched.
pub open spec fn stats_added(s: StatsView, channel: Seq<char>) -> StatsView {
    StatsView {
        watched: (s.watched + 1) as usize,
        channels: s.channels.insert(
            channel,
            if s.channels.contains_key(channel) {
                (s.channels[channel] + 1) as usize
            } else {
                1
            },
        ),
    }
}

/// The counts of a day on which nothing was watched.
pub open spec fn no_stats() -> StatsView {
    StatsView { watched: 0, channels: Map::empty() }
}

/// No count can grow by one without overflow.
pub open spec fn stats_room(s: StatsView) -> bool {
    &&& s.watched < usize::MAX
    &&& forall|k: Seq<char>| #[trigger] s.channels.contains_key(k) ==> s.channels[k] < usize::MAX
}

impl View for Stats {
    type V = StatsView;

    open spec fn view(&self) -> StatsView {
        StatsView { watched: self.watched, channels: assoc_map(name_pairs(self.channels@)) }
    }
}

impl Clone for Stats {
    fn clone(&self) -> (r: Self)
        ensures
            r@ == self@,
            r.channels@.len() == self.channels@.len(),
            name_pairs(r.channels@) == name_pairs(self.channels@),
    {
        let mut channels: Vec<(String, usize)> = Vec::new();
        let mut i: usize = 0;
        while i < self.channels.len()
            invariant
                i <= self.channels.len(),
                channels@.len() == i,
                forall|j: int|
                    0 <= j < i ==> (#[trigger] channels@[j]).0@ == self.channels@[j].0@
                        && channels@[j].1 == self.channels@[j].1,
            decreases self.channels.len() - i,
        {
            let name = self.channels[i].0.clone();
            channels.push((name, self.channels[i].1));
            i = i + 1;
        }
        assert(name_pairs(channels@) =~= name_pairs(self.channels@));
        Stats { watched: self.watched, channels }
    }
}

impl Stats {
    /// No channel name occurs twice.
    pub open spec fn wf(self) -> bool {
        unique_keys(name_pairs(self.channels@))
    }

    /// Nothing counted.
    pub fn default() -> (s: Stats)
        ensures
            s.wf(),
            s@ == no_stats(),
    {
        let s = Stats { watched: 0, channels: Vec::new() };
        proof {
            lemma_assoc_empty(name_pairs(s.channels@));
        }
        s
    }

    /// Whether no channel name occurs twice.
    pub fn is_well_formed(&self) -> (r: bool)
        ensures
            r == self.wf(),
    {
        let ghost ps = name_pairs(self.channels@);
        let mut i: usize = 0;
        while i < self.channels.len()
            invariant
                i <= self.channels.len(),
                ps == name_pairs(self.channels@),
                forall|a: int, b: int| 0 <= a < b < i ==> (#[trigger] ps[a]).0 != (#[trigger] ps[b]).0,
            decreases self.channels.len() - i,
        {
            let mut j: usize = 0;
            while j < i
                invariant
                    j <= i,
                    i < self.channels.len(),
                    ps == name_pairs(self.channels@),
                    forall|a: int| 0 <= a < j ==> (#[trigger] ps[a]).0 != ps[i as int].0,
                decreases i - j,
            {
                if str_eq(self.channels[j].0.as_str(), self.channels[i].0.as_str()) {
                    assert(ps[j as int].0 == ps[i as int].0);
                    return false;
                }
                j = j + 1;
            }
            i = i + 1;
        }
        true
    }

    /// Counts one more watched video of the video's channel.
    pub fn add(&mut self, video: &Video)
        requires
            old(self).wf(),
            stats_room(old(self)@),
        ensures
            final(self).wf(),
            final(self)@ == stats_added(old(self)@, video.origin_channel_name@),
    {
        let ghost ps = name_pairs(self.channels@);
        proof {
            assert forall|j: int| 0 <= j < ps.len() implies (#[trigger] ps[j]).1 < usize::MAX by {
                lemma_assoc_at(ps, j);
                assert(old(self)@.channels.contains_key(ps[j].0));
            }
        }
        let name = video.origin_channel_name.as_str();
        self.watched = self.watched + 1;
        let mut i: usize = 0;
        while i < self.channels.len()
            invariant
                i <= self.channels.len(),
                ps == name_pairs(self.channels@),
                unique_keys(ps),
                ps == name_pairs(old(self).channels@),
                forall|j: int| 0 <= j < ps.len() ==> (#[trigger] ps[j]).1 < usize::MAX,
                self.watched == old(self).watched + 1,
                name@ == video.origin_channel_name@,
                forall|j: int| 0 <= j < i ==> (#[trigger] ps[j]).0 != name@,
            decreases self.channels.len() - i,
        {
            if str_eq(self.channels[i].0.as_str(), name) {
                proof {
                    lemma_assoc_at(ps, i as int);
                    assert(old(self)@.channels.contains_key(name@));
                }
                let count = self.channels[i].1;
                assert(ps[i as int].1 == count);
                let key = self.channels[i].0.clone();
                self.channels.set(i, (key, count + 1));
                proof {
                    lemma_assoc_update(ps, i as int, (count + 1) as usize);
                    assert(name_pairs(self.channels@) =~= ps.update(
                        i as int,
                        (ps[i as int].0, (count + 1) as usize),
                    ));
                }
                return;
            }
            i = i + 1;
        }
        proof {
            if has_key(ps, name@) {
                let j = choose|j: int| 0 <= j < ps.len() && (#[trigger] ps[j]).0 == name@;
                assert(ps[j].0 != name@);
            }
            lemma_assoc_push(ps, name@, 1usize);
        }
        self.channels.push((String::from_str(name), 1));
        assert(name_pairs(self.channels@) =~= ps.push((name@, 1usize)));
    }
}

/// The videos opened, oldest first, and the counts of each day, keyed by
/// the day's number counted from the first day of the common era.
#[derive(Debug)]
pub struct History {
    pub list: Vec<MinimalVideo>,
    pub stats: HashMap<i32, Stats>,
}

/// The entries of the history and the counts by day.
pub struct HistoryView {
    pub list: Seq<(Seq<char>, Seq<char>)>,
    pub stats: Map<i32, StatsView>,
}

/// The position of the first entry with the same title and channel.
fn entry_position(list: &Vec<MinimalVideo>, m: &MinimalVideo) -> (r: Option<usize>)
    ensures
        r matches Some(i) ==> i < list@.len() && first_index(
            entry_keys(list@),
            equals(m.key()),
        ) == Some(i as int),
        r is None ==> first_index(entry_keys(list@), equals(m.key()))
            is None,
{
    let ghost keys = entry_keys(list@);
    let mut i: usize = 0;
    while i < list.len()
        invariant
            i <= list.len(),
            keys == entry_keys(list@),
            forall|j: int| 0 <= j < i ==> !equals(m.key())(#[trigger] keys[j]),
        decreases list.len() - i,
    {
        if list[i].same_as(m) {
            assert(keys[i as int] == list@[i as int].key());
            proof {
                lemma_first_index_at(keys, equals(m.key()), i as int);
            }
            return Some(i);
        }
        assert(keys[i as int] == list@[i as int].key());
        i = i + 1;
    }
    proof {
        lemma_first_index_none(keys, equals(m.key()));
    }
    None
}

/// The element equals `x`.
pub open spec fn equals<A>(x: A) -> spec_fn(A) -> bool {
    |y: A| y == x
}

/// The entries as pairs of title and channel name.
pub open spec fn entry_keys(s: Seq<MinimalVideo>) -> Seq<(Seq<char>, Seq<char>)> {
    s.map_values(|m: MinimalVideo| m.key())
}

/// The counts of each day, as views.
pub open spec fn day_views(m: Map<i32, Stats>) -> Map<i32, StatsView> {
    m.map_values(|s: Stats| s@)
}

/// `s` without the first element equal to `x`, if there is one.
pub open spec fn without_first<A>(s: Seq<A>, x: A) -> Seq<A> {
    match first_index(s, equals(x)) {
        Some(i) => s.remove(i),
        None => s,
    }
}

/// The history after the video `m`, a title and a channel name, was opened
/// on `day`: its entry moves to the end, and the day counts it.
pub open spec fn history_opened(h: HistoryView, m: (Seq<char>, Seq<char>), day: i32) -> HistoryView {
    HistoryView {
        list: without_first(h.list, m).push(m),
        stats: h.stats.insert(
            day,
            stats_added(
                if h.stats.contains_key(day) {
                    h.stats[day]
                } else {
                    no_stats()
                },
                m.1,
            ),
        ),
    }
}

/// The counts of `day` can grow by one without overflow.
pub open spec fn room_on(h: HistoryView, day: i32) -> bool {
    h.stats.contains_key(day) ==> stats_room(h.stats[day])
}

impl View for History {
    type V = HistoryView;

    open spec fn view(&self) -> HistoryView {
        HistoryView { list: entry_keys(self.list@), stats: day_views(self.stats@) }
    }
}

impl History {
    /// Each day's counts are well formed.
    pub open spec fn wf(self) -> bool {
        forall|d: i32| #[trigger] self.stats@.contains_key(d) ==> self.stats@[d].wf()
    }

    /// The counts of no day can overflow.
    pub open spec fn room(self) -> bool {
        forall|d: i32| room_on(self@, d)
    }

    /// An empty history.
    pub fn default() -> (h: History)
        ensures
            h.wf(),
            h@.list == Seq::<(Seq<char>, Seq<char>)>::empty(),
            h@.stats == Map::<i32, StatsView>::empty(),
    {
        let h = History { list: Vec::new(), stats: HashMap::new() };
        assert(entry_keys(h.list@) =~= Seq::<(Seq<char>, Seq<char>)>::empty());
        assert(day_views(h.stats@) =~= Map::<i32, StatsView>::empty());
        h
    }

    /// The counts of the day, if anything was counted on it.
    pub fn stat_on(&self, day: i32) -> (r: Option<&Stats>)
        requires
            self.wf(),
        ensures
            self@.stats.contains_key(day) ==> r is Some && r.unwrap()@ == self@.stats[day],
            r matches Some(s) ==> s.wf(),
            !self@.stats.contains_key(day) ==> r is None,
    {
        self.stats.get(&day)
    }

    /// The counts of today, if anything was counted today: for the day the
    /// clock gives, those counts when the day has any, else none.
    pub fn stat_today(&self) -> (r: Option<&Stats>)
        requires
            self.wf(),
        ensures
            exists|d: i32|
                {
                    &&& #[trigger] self@.stats.contains_key(d) ==> (r is Some && r.unwrap()@
                        == self@.stats[d])
                    &&& !self@.stats.contains_key(d) ==> r is None
                },
            r matches Some(s) ==> s.wf(),
    {
        let day = today_day_number();
        self.stat_on(day)
    }

    /// Sets the counts of the day.
    pub fn stat_insert_on(&mut self, day: i32, stat: Stats)
        requires
            old(self).wf(),
            stat.wf(),
        ensures
            final(self).wf(),
            final(self)@.list == old(self)@.list,
            final(self)@.stats == old(self)@.stats.insert(day, stat@),
    {
        let ghost old_stats = self.stats@;
        let ghost sv = stat@;
        self.stats.insert(day, stat);
        assert(day_views(self.stats@) =~= day_views(old_stats).insert(day, sv));
    }

    /// Sets the counts of today.
    pub fn stat_insert_today(&mut self, stat: Stats)
        requires
            old(self).wf(),
            stat.wf(),
        ensures
            final(self).wf(),
            final(self)@.list == old(self)@.list,
            exists|d: i32| final(self)@.stats == old(self)@.stats.insert(d, stat@),
    {
        let day = today_day_number();
        self.stat_insert_on(day, stat);
    }

    /// Records that the video was opened on `day`: its entry moves to the
    /// end of the list, and the day counts one more video of its channel.
    pub fn video_opened_on(&mut self, video: &Video, day: i32)
        requires
            old(self).wf(),
            room_on(old(self)@, day),
        ensures
            final(self).wf(),
            final(self)@ == history_opened(
                old(self)@,
                (video.title@, video.origin_channel_name@),
                day,
            ),
    {
        let ghost old_h = self@;
        let m = MinimalVideo::of_video(video);
        let ghost mk = m.key();
        let ghost keys = entry_keys(self.list@);
        match entry_position(&self.list, &m) {
            Some(i) => {
                self.list.remove(i);
                assert(entry_keys(self.list@) =~= keys.remove(i as int));
            },
            None => {},
        }
        assert(entry_keys(self.list@) == without_first(keys, mk));
        self.list.push(m);
        assert(entry_keys(self.list@) =~= without_first(keys, mk).push(mk));
        let ghost old_stats = self.stats@;
        let mut stat = match self.stats.remove(&day) {
            Some(s) => s,
            None => Stats::default(),
        };
        assert(stat@ == (if old_h.stats.contains_key(day) {
            old_h.stats[day]
        } else {
            no_stats()
        }));
        stat.add(video);
        let ghost sv = stat@;
        self.stats.insert(day, stat);
        assert(day_views(self.stats@) =~= old_h.stats.insert(day, sv));
    }

    /// Records that the video was opened today.
    pub fn video_opened(&mut self, video: &Video)
        requires
            old(self).wf(),
            old(self).room(),
        ensures
            final(self).wf(),
            exists|d: i32|
                final(self)@ == history_opened(
                    old(self)@,
                    (video.title@, video.origin_channel_name@),
                    d,
                ),
    {
        let day = today_day_number();
        assert(room_on(self@, day));
        self.video_opened_on(video, day);
    }

    /// Whether the counts of `day` can grow by one without overflow.
    pub fn has_room_on(&self, day: i32) -> (r: bool)
        requires
            self.wf(),
        ensures
            r == room_on(self@, day),
    {
        match self.stat_on(day) {
            None => true,
            Some(stat) => {
                if stat.watched == usize::MAX {
                    return false;
                }
                let ghost ps = name_pairs(stat.channels@);
                let mut i: usize = 0;
                while i < stat.channels.len()
                    invariant
                        i <= stat.channels.len(),
                        ps == name_pairs(stat.channels@),
                        stat.wf(),
                        self@.stats.contains_key(day),
                        stat@ == self@.stats[day],
                        forall|j: int| 0 <= j < i ==> (#[trigger] ps[j]).1 < usize::MAX,
                    decreases stat.channels.len() - i,
                {
                    if stat.channels[i].1 == usize::MAX {
                        proof {
                            lemma_assoc_at(ps, i as int);
                            assert(ps[i as int].1 == stat.channels@[i as int].1);
                            assert(stat@.channels.contains_key(ps[i as int].0));
                        }
                        return false;
                    }
                    i = i + 1;
                }
                proof {
                    assert forall|k: Seq<char>| #[trigger] stat@.channels.contains_key(
                        k,
                    ) implies stat@.channels[k] < usize::MAX by {
                        let j = choose|j: int| 0 <= j < ps.len() && (#[trigger] ps[j]).0 == k;
                        lemma_assoc_at(ps, j);
                    }
                }
                true
            },
        }
    }

    /// Whether each day's counts are well formed.
    pub fn is_well_formed(&self) -> (r: bool)
        ensures
            r == self.wf(),
    {
        let ghost ks = spec_keys_iter(&self.stats).remaining();
        for d in it: self.stats.keys()
            invariant
                it.seq() == ks,
                forall|i: int| 0 <= i < it.index() ==> self.stats@[*ks[i]].wf(),
        {
            match self.stats.get(d) {
                Some(stat) => {
                    if !stat.is_well_formed() {
                        return false;
                    }
                },
                None => {},
            }
        }
        proof {
            assert forall|d: i32| #[trigger] self.stats@.contains_key(d) implies self.stats@[d].wf() by {
                assert(ks.unref().to_set().contains(d));
                let i = choose|i: int| 0 <= i < ks.unref().len() && ks.unref()[i] == d;
                assert(ks[i] == &d);
            }
        }
        true
    }

    /// Whether no count of any day can overflow.
    pub fn has_room(&self) -> (r: bool)
        requires
            self.wf(),
        ensures
            r == self.room(),
    {
        let ghost ks = spec_keys_iter(&self.stats).remaining();
        for d in it: self.stats.keys()
            invariant
                self.wf(),
                it.seq() == ks,
                forall|i: int| 0 <= i < it.index() ==> room_on(self@, *ks[i]),
        {
            if !self.has_room_on(*d) {
                return false;
            }
        }
        proof {
            assert forall|d: i32| room_on(self@, d) by {
                if self@.stats.contains_key(d) {
                    assert(ks.unref().to_set().contains(d));
                    let i = choose|i: int| 0 <= i < ks.unref().len() && ks.unref()[i] == d;
                    assert(ks[i] == &d);
                }
            }
        }
        true
    }

    /// The entries, newest first.
    pub fn entries_newest_first(&self) -> (r: Vec<MinimalVideo>)
        ensures
            entry_keys(r@) == entry_keys(self.list@).reverse(),
    {
        let mut r: Vec<MinimalVideo> = Vec::new();
        let n: usize = self.list.len();
        let mut i: usize = n;
        while i > 0
            invariant
                i <= n,
                n == self.list@.len(),
                r@.len() == n - i,
                forall|j: int| 0 <= j < n - i ==> (#[trigger] r@[j]).key() == self.list@[n - 1 - j].key(),
            decreases i,
        {
            i = i - 1;
            r.push(self.list[i].clone());
        }
        assert(entry_keys(r@) =~= entry_keys(self.list@).reverse());
        r
    }
}

/// Opening a video makes its entry the newest, once: the list grows only
/// when the video was not in it. The day counts one more video, of that
/// channel, and no other day changes.
pub proof fn law_opened_is_newest(h: HistoryView, m: (Seq<char>, Seq<char>), day: i32)
    requires
        room_on(h, day),
    ensures
        history_opened(h, m, day).list.last() == m,
        history_opened(h, m, day).list.len() == (if h.list.contains(m) {
            h.list.len()
        } else {
            h.list.len() + 1
        }),
        history_opened(h, m, day).stats[day].watched == (if h.stats.contains_key(day) {
            h.stats[day].watched as int
        } else {
            0
        }) + 1,
        history_opened(h, m, day).stats[day].channels[m.1] == (if h.stats.contains_key(day)
            && h.stats[day].channels.contains_key(m.1) {
            h.stats[day].channels[m.1] as int
        } else {
            0
        }) + 1,
        forall|d: i32| d != day ==> #[trigger] history_opened(h, m, day).stats.contains_key(d)
            == h.stats.contains_key(d),
        forall|d: i32| d != day && h.stats.contains_key(d) ==> #[trigger] history_opened(h, m, day).stats[d]
            == h.stats[d],
{
    lemma_first_index(h.list, equals(m));
    match first_index(h.list, equals(m)) {
        Some(i) => {
            assert(h.list.contains(m));
        },
        None => {
            if h.list.contains(m) {
                let i = choose|i: int| 0 <= i < h.list.len() && h.list[i] == m;
                assert(equals(m)(h.list[i]));
            }
        },
    }
}

} // verus!
