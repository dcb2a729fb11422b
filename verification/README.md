# ytmusic

The verified core of a small YT Music desktop wrapper (a Tauri app for
Windows that shows music.youtube.com in a native window, exposes it to the OS
media session, lets a Stream Deck plugin drive it over a localhost server,
scrobbles to Last.fm and labels its audio sessions in the Volume Mixer).

`src/` holds the logic, verified with Verus:

- `text`, `number`: ordering, searching and decimal numbers on text.
- `params`, `signature`: the Last.fm call parameters (a sorted map) and the
  `api_sig` signature (MD5 through the `md5` crate).
- `json`, `lastfm`: reply values, the credentials, the forms that each call
  posts, what the client reads out of the replies, the scrobbling worker's
  decisions.
- `routes`: the player scripts, the control server's paths, the media keys.
- `volmixer`: which processes are ours, and when to follow a new default
  audio device.

`app/` is the shell: Tauri, souvlaki, tiny_http, reqwest and the Windows COM
calls, which perform what the library decides.
