use vstd::prelude::*;

verus! {

/// A message for the desktop: a title and a text.
#[derive(Debug)]
pub struct Notification {
    pub title: String,
    pub message: String,
}

/// The message that shows a link.
pub fn notify_link(msg: &str) -> (n: Notification)
    ensures
        n.title@ == "Title"@,
        n.message@ == msg@,
{
    Notification { title: String::from_str("Title"), message: String::from_str(msg) }
}

/// The message that a video is being opened.
pub fn notify_open(video_title: &str) -> (n: Notification)
    ensures
        n.title@ == "Video Opening"@,
        n.message@ == video_title@,
{
    Notification { title: String::from_str("Video Opening"), message: String::from_str(video_title) }
}

/// The message that something went wrong.
pub fn notify_error(error: &str) -> (n: Notification)
    ensures
        n.title@ == "Error"@,
        n.message@ == error@,
{
    Notification { title: String::from_str("Error"), message: String::from_str(error) }
}

} // verus!
