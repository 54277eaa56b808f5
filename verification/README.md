# tyt

A terminal subscription manager for video feeds (Atom and RSS), in the
spirit of newsboat: channels with their videos, marking what was watched,
favourites, a filter for channels without new videos, custom channels made
of several feeds, and a playback history.

The library under `src/` holds the logic and is verified with Verus:

- `video`, `video_factory`, `channel`, `channel_factory`: videos and
  channels, their ordering and merging.
- `channel_list`: the list of channels, its filter and selection, merging
  fetched channels, applying the subscriptions.
- `state`: the state machine that reacts to the user's actions and says
  what files to write and what to play.
- `feeds`, `feed`, `fetch`: the entries of Atom and RSS feeds, combining
  feeds, blocking titles, and building a fetched channel.
- `history`: the playback history and the counts per day.
- `subscriptions`, `config`, `input`, `display`, `notification`: the
  subscription rules, settings, key bindings, the text of list lines and
  desktop messages.
- `sort`, `seq_util`, `assoc`, `text`, `alnum`, `dates`, `clock`: sorting,
  sequences, association lists, text comparison, and the calls into std,
  `alphanumeric-sort`, `chrono` and `fancy-regex`.

`app/` is the program around it: files, downloads, XML, the terminal and
the event loop.
