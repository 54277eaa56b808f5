use vstd::prelude::*;
use crate::channel::Channel;
use crate::dates::{short_date, short_date_of};
use crate::history::MinimalVideo;
use crate::video::Video;

verus! {

/// The character of a decimal digit.
pub open spec fn digit_char(d: nat) -> char {
    if d == 0 {
        '0'
    } else if d == 1 {
        '1'
    } else if d == 2 {
        '2'
    } else if d == 3 {
        '3'
    } else if d == 4 {
        '4'
    } else if d == 5 {
        '5'
    } else if d == 6 {
        '6'
    } else if d == 7 {
        '7'
    } else if d == 8 {
        '8'
    } else {
        '9'
    }
}

/// The decimal digits of a number, without leading zeros.
pub open spec fn decimal(n: nat) -> Seq<char>
    decreases n,
{
    if n < 10 {
        seq![digit_char(n)]
    } else {
        decimal(n / 10).push(digit_char(n % 10))
    }
}

fn digit_str(d: usize) -> (r: &'static str)
    requires
        d < 10,
    ensures
        r@ == seq![digit_char(d as nat)],
{
    proof {
        reveal_strlit("0");
        reveal_strlit("1");
        reveal_strlit("2");
        reveal_strlit("3");
        reveal_strlit("4");
        reveal_strlit("5");
        reveal_strlit("6");
        reveal_strlit("7");
        reveal_strlit("8");
        reveal_strlit("9");
    }
    if d == 0 {
        "0"
    } else if d == 1 {
        "1"
    } else if d == 2 {
        "2"
    } else if d == 3 {
        "3"
    } else if d == 4 {
        "4"
    } else if d == 5 {
        "5"
    } else if d == 6 {
        "6"
    } else if d == 7 {
        "7"
    } else if d == 8 {
        "8"
    } else {
        "9"
    }
}

/// The number written in decimal, as std's `to_string` writes it.
pub fn usize_to_decimal(n: usize) -> (r: String)
    ensures
        r@ == decimal(n as nat),
    decreases n,
{
    if n < 10 {
        String::from_str(digit_str(n))
    } else {
        let mut s = usize_to_decimal(n / 10);
        s.append(digit_str(n % 10));
        s
    }
}

/// The number of videos not marked.
pub open spec fn unmarked_count(vs: Seq<Video>) -> nat
    decreases vs.len(),
{
    if vs.len() == 0 {
        0
    } else {
        unmarked_count(vs.drop_last()) + if vs.last().marked {
            0nat
        } else {
            1nat
        }
    }
}

/// Some video is new.
pub open spec fn any_new(vs: Seq<Video>) -> bool {
    exists|i: int| 0 <= i < vs.len() && (#[trigger] vs[i]).is_new
}

/// `n` spaces.
pub open spec fn spaces(n: nat) -> Seq<char>
    decreases n,
{
    if n == 0 {
        Seq::empty()
    } else {
        spaces((n - 1) as nat).push(' ')
    }
}

/// The text right-aligned in a field of `width` characters.
pub open spec fn right_aligned(s: Seq<char>, width: nat) -> Seq<char> {
    if s.len() < width {
        spaces((width - s.len()) as nat) + s
    } else {
        s
    }
}

/// The parts of a line of the channel list.
#[derive(Debug)]
pub struct ChannelLine {
    pub new_marker: String,
    pub name: String,
    pub tag: String,
    pub spacer: String,
    pub count: String,
    pub highlighted: bool,
}

/// The parts of a line of a channel's videos.
#[derive(Debug)]
pub struct VideoLine {
    pub marker: String,
    pub title: String,
    pub spacer: String,
    pub date: String,
    pub highlighted: bool,
}

/// The parts of a line of the playback history.
#[derive(Debug)]
pub struct HistoryLine {
    pub channel: String,
    pub title: String,
}

fn count_unmarked(vs: &Vec<Video>) -> (r: usize)
    ensures
        r == unmarked_count(vs@),
{
    let mut count: usize = 0;
    let mut i: usize = 0;
    assert(vs@.take(0) =~= Seq::<Video>::empty());
    while i < vs.len()
        invariant
            i <= vs.len(),
            count == unmarked_count(vs@.take(i as int)),
            count <= i,
        decreases vs.len() - i,
    {
        assert(vs@.take(i + 1).drop_last() =~= vs@.take(i as int));
        if !vs[i].marked {
            count = count + 1;
        }
        i = i + 1;
    }
    assert(vs@.take(i as int) =~= vs@);
    count
}

fn has_new_flag(vs: &Vec<Video>) -> (r: bool)
    ensures
        r == any_new(vs@),
{
    let mut i: usize = 0;
    while i < vs.len()
        invariant
            i <= vs.len(),
            forall|k: int| 0 <= k < i ==> !(#[trigger] vs@[k]).is_new,
        decreases vs.len() - i,
    {
        if vs[i].is_new {
            return true;
        }
        i = i + 1;
    }
    false
}

fn pad_left(s: String, width: usize) -> (r: String)
    ensures
        r@ == right_aligned(s@, width as nat),
{
    let n: usize = s.as_str().unicode_len();
    if n >= width {
        return s;
    }
    let mut pad = String::new();
    let mut k: usize = 0;
    while k < width - n
        invariant
            k <= width - n,
            pad@ == spaces(k as nat),
        decreases width - n - k,
    {
        pad.append(" ");
        proof {
            reveal_strlit(" ");
        }
        k = k + 1;
    }
    pad.concat(s.as_str())
}

impl Channel {
    /// The parts of the channel's line: a star when a video is new, the
    /// name, the tag in brackets, and how many of how many videos are not
    /// marked; highlighted while some video is not marked.
    pub fn line(&self) -> (l: ChannelLine)
        ensures
            l.new_marker@ == (if any_new(self.videos@) {
                " * "@
            } else {
                " "@
            }),
            l.name@ == self.name@,
            l.tag@ == (if self.tag@.len() == 0 {
                Seq::<char>::empty()
            } else {
                " ["@ + self.tag@ + "]"@
            }),
            l.spacer@ == " - "@,
            l.count@ == decimal(unmarked_count(self.videos@)) + "/"@ + decimal(self.videos@.len()),
            l.highlighted == (unmarked_count(self.videos@) > 0),
    {
        let unmarked = count_unmarked(&self.videos);
        let new_marker = if has_new_flag(&self.videos) {
            String::from_str(" * ")
        } else {
            String::from_str(" ")
        };
        let tag = if self.tag.as_str().is_empty() {
            String::new()
        } else {
            String::from_str(" [").concat(self.tag.as_str()).concat("]")
        };
        let count = usize_to_decimal(unmarked).concat("/").concat(
            usize_to_decimal(self.videos.len()).as_str(),
        );
        ChannelLine {
            new_marker,
            name: self.name.clone(),
            tag,
            spacer: String::from_str(" - "),
            count,
            highlighted: unmarked > 0,
        }
    }
}

impl Video {
    /// The parts of the video's line: a star for a favourite, an asterisk
    /// for a new video, the title, and the date as day, month and year;
    /// highlighted while not marked.
    pub fn line(&self) -> (l: VideoLine)
        ensures
            l.marker@ == (if self.fav {
                " \u{2b50} "@
            } else if self.is_new {
                " * "@
            } else {
                " "@
            }),
            l.title@ == self.title@,
            l.spacer@ == " - "@,
            l.date@ == (match short_date_of(self.pub_date@) {
                Some(d) => right_aligned(d, 4),
                None => Seq::<char>::empty(),
            }),
            l.highlighted == !self.marked,
    {
        let marker = if self.fav {
            String::from_str(" \u{2b50} ")
        } else if self.is_new {
            String::from_str(" * ")
        } else {
            String::from_str(" ")
        };
        let date = match short_date(self.pub_date.as_str()) {
            Some(d) => pad_left(d, 4),
            None => String::new(),
        };
        VideoLine {
            marker,
            title: self.title.clone(),
            spacer: String::from_str(" - "),
            date,
            highlighted: !self.marked,
        }
    }
}

impl MinimalVideo {
    /// The parts of the entry's line: a dot, the channel and a dash, then
    /// the title.
    pub fn line(&self) -> (l: HistoryLine)
        ensures
            l.channel@ == "\u{2022} "@ + self.channel@ + " - "@,
            l.title@ == self.title@,
    {
        let channel = String::from_str("\u{2022} ").concat(self.channel.as_str()).concat(" - ");
        HistoryLine { channel, title: self.title.clone() }
    }
}

} // verus!
