//! Now-playing state of a local media player's REST interface: reading its
//! loosely structured JSON replies by key search, formatting positions, and
//! the optimistic updates that follow transport commands.

use vstd::prelude::*;
use crate::text::{
    chars_of, contains, contains_str, decimal, find, find_any, find_any_from, find_chars,
    find_from, lemma_find_from_bounds, parse_scaled, parse_scaled_spec, parse_u64,
    parse_u64_spec, push_decimal, push_two_digits, substring, trim, trim_str, two_digits,
};

verus! {

/// Media player playback state.
#[derive(Clone, Copy, Debug, PartialEq, Eq, Structural)]
pub enum PlaybackStatus {
    /// Track is currently playing.
    Playing,
    /// Track is paused (can resume).
    Paused,
    /// No track loaded or player stopped.
    Stopped,
}

impl Default for PlaybackStatus {
    fn default() -> (r: PlaybackStatus)
        ensures
            r == PlaybackStatus::Stopped,
    {
        PlaybackStatus::Stopped
    }
}

/// Information about the currently playing media.
#[derive(Clone, Debug)]
pub struct MediaInfo {
    /// Name of the media player.
    pub player_name: String,
    /// Track title.
    pub title: String,
    /// Artist name.
    pub artist: String,
    /// Album name.
    pub album: String,
    /// Album art URL.
    pub art_url: Option<String>,
    /// Current playback status.
    pub status: PlaybackStatus,
    /// Current playback position in milliseconds.
    pub position: u64,
    /// Total track duration in milliseconds.
    pub duration: u64,
    /// Whether the play command is available.
    pub can_play: bool,
    /// Whether the pause command is available.
    pub can_pause: bool,
    /// Whether the next-track command is available.
    pub can_go_next: bool,
    /// Whether the previous-track command is available.
    pub can_go_previous: bool,
    /// Whether seeking is supported.
    pub can_seek: bool,
}

/// The contents of a `MediaInfo`.
pub struct MediaInfoView {
    pub player_name: Seq<char>,
    pub title: Seq<char>,
    pub artist: Seq<char>,
    pub album: Seq<char>,
    pub art_url: Option<Seq<char>>,
    pub status: PlaybackStatus,
    pub position: u64,
    pub duration: u64,
    pub can_play: bool,
    pub can_pause: bool,
    pub can_go_next: bool,
    pub can_go_previous: bool,
    pub can_seek: bool,
}

pub open spec fn string_option_view(s: Option<String>) -> Option<Seq<char>> {
    match s {
        Some(x) => Some(x@),
        None => None,
    }
}

impl View for MediaInfo {
    type V = MediaInfoView;

    open spec fn view(&self) -> MediaInfoView {
        MediaInfoView {
            player_name: self.player_name@,
            title: self.title@,
            artist: self.artist@,
            album: self.album@,
            art_url: string_option_view(self.art_url),
            status: self.status,
            position: self.position,
            duration: self.duration,
            can_play: self.can_play,
            can_pause: self.can_pause,
            can_go_next: self.can_go_next,
            can_go_previous: self.can_go_previous,
            can_seek: self.can_seek,
        }
    }
}

/// No media: empty texts, stopped, at zero, with no command available.
pub open spec fn no_media() -> MediaInfoView {
    MediaInfoView {
        player_name: seq![],
        title: seq![],
        artist: seq![],
        album: seq![],
        art_url: None,
        status: PlaybackStatus::Stopped,
        position: 0,
        duration: 0,
        can_play: false,
        can_pause: false,
        can_go_next: false,
        can_go_previous: false,
        can_seek: false,
    }
}

impl Default for MediaInfo {
    fn default() -> (r: MediaInfo)
        ensures
            r@ == no_media(),
    {
        let r = MediaInfo {
            player_name: String::new(),
            title: String::new(),
            artist: String::new(),
            album: String::new(),
            art_url: None,
            status: PlaybackStatus::Stopped,
            position: 0,
            duration: 0,
            can_play: false,
            can_pause: false,
            can_go_next: false,
            can_go_previous: false,
            can_seek: false,
        };
        assert(r@ =~= no_media());
        r
    }
}

/// A position in milliseconds as `m:ss`: whole minutes, then the remaining
/// whole seconds as two digits.
pub open spec fn clock_text(ms: u64) -> Seq<char> {
    let secs = ms / 1000;
    decimal((secs / 60) as nat) + seq![':'] + two_digits((secs % 60) as nat)
}

fn clock_string(ms: u64) -> (r: String)
    ensures
        r@ == clock_text(ms),
{
    let secs = ms / 1000;
    let mut r = String::new();
    push_decimal(&mut r, secs / 60);
    r.append(":");
    proof {
        reveal_strlit(":");
    }
    push_two_digits(&mut r, secs % 60);
    assert(r@ =~= clock_text(ms));
    r
}

fn copy_string_option(s: &Option<String>) -> (r: Option<String>)
    ensures
        string_option_view(r) == string_option_view(*s),
{
    match s {
        Some(x) => Some(x.clone()),
        None => None,
    }
}

impl MediaInfo {
    /// There is an active media session: both a player name and a title.
    pub fn is_active(&self) -> (r: bool)
        ensures
            r == (self.player_name@.len() > 0 && self.title@.len() > 0),
    {
        !self.player_name.as_str().is_empty() && !self.title.as_str().is_empty()
    }

    /// The current position as `m:ss`.
    pub fn position_str(&self) -> (r: String)
        ensures
            r@ == clock_text(self.position),
    {
        clock_string(self.position)
    }

    /// The duration as `m:ss`.
    pub fn duration_str(&self) -> (r: String)
        ensures
            r@ == clock_text(self.duration),
    {
        clock_string(self.duration)
    }

    /// A copy with the same contents.
    pub fn copied(&self) -> (r: MediaInfo)
        ensures
            r@ == self@,
    {
        MediaInfo {
            player_name: self.player_name.clone(),
            title: self.title.clone(),
            artist: self.artist.clone(),
            album: self.album.clone(),
            art_url: copy_string_option(&self.art_url),
            status: self.status,
            position: self.position,
            duration: self.duration,
            can_play: self.can_play,
            can_pause: self.can_pause,
            can_go_next: self.can_go_next,
            can_go_previous: self.can_go_previous,
            can_seek: self.can_seek,
        }
    }
}


// ---------------------------------------------------------------------------
// Reading replies
// ---------------------------------------------------------------------------

/// The text after the first occurrence of `key` in `json`, up to the next
/// double quote.
pub open spec fn extract_string_spec(json: Seq<char>, key: Seq<char>) -> Option<Seq<char>> {
    match find(json, key) {
        Some(k) => match find_from(json, seq!['"'], k + key.len()) {
            Some(e) => Some(json.subrange(k + key.len(), e)),
            None => None,
        },
        None => None,
    }
}

/// The characters that end a number in a JSON text.
pub open spec fn number_ends() -> Seq<char> {
    seq![',', '}', ']']
}

/// The text after the first occurrence of `key` in `json`, up to the next
/// `,`, `}` or `]`, without surrounding white space.
pub open spec fn extract_number_spec(json: Seq<char>, key: Seq<char>) -> Option<Seq<char>> {
    match find(json, key) {
        Some(k) => match find_any_from(json, number_ends(), k + key.len()) {
            Some(e) => Some(trim(json.subrange(k + key.len(), e))),
            None => None,
        },
        None => None,
    }
}

/// Where the value of `key` starts in `json`, if `key` occurs in it.
fn value_start(jv: &Vec<char>, key: &str) -> (r: Option<usize>)
    ensures
        r matches Some(s) ==> find(jv@, key@) matches Some(k) && s == k + key@.len() && s
            <= jv@.len(),
        r is None ==> find(jv@, key@) is None,
{
    let kv = chars_of(key);
    match find_chars(jv, &kv, 0) {
        Some(k) => {
            proof {
                lemma_find_from_bounds(jv@, kv@, 0);
            }
            assert(k + kv@.len() <= jv@.len());
            assert(jv@.len() == jv.len());
            Some(k + kv.len())
        },
        None => None,
    }
}

/// The text after the first occurrence of `key` in `json`, up to the next
/// double quote.
pub fn extract_json_string(json: &str, key: &str) -> (r: Option<String>)
    ensures
        string_option_view(r) == extract_string_spec(json@, key@),
{
    let jv = chars_of(json);
    let start = match value_start(&jv, key) {
        Some(s) => s,
        None => return None,
    };
    let quote = vec!['"'];
    assert(quote@ =~= seq!['"']);
    match find_chars(&jv, &quote, start) {
        Some(e) => {
            proof {
                lemma_find_from_bounds(jv@, quote@, start as int);
            }
            Some(substring(json, start, e))
        },
        None => None,
    }
}

/// The text after the first occurrence of `key` in `json`, up to the next
/// `,`, `}` or `]`, without surrounding white space.
pub fn extract_json_number(json: &str, key: &str) -> (r: Option<String>)
    ensures
        string_option_view(r) == extract_number_spec(json@, key@),
{
    let jv = chars_of(json);
    let start = match value_start(&jv, key) {
        Some(s) => s,
        None => return None,
    };
    let ends = vec![',', '}', ']'];
    assert(ends@ =~= number_ends());
    match find_any(&jv, &ends, start) {
        Some(e) => {
            proof {
                lemma_find_any_bounds(jv@, ends@, start as int);
            }
            let raw = substring(json, start, e);
            Some(trim_str(raw.as_str()))
        },
        None => None,
    }
}

proof fn lemma_find_any_bounds(s: Seq<char>, set: Seq<char>, i: int)
    ensures
        find_any_from(s, set, i) matches Some(k) ==> i <= k < s.len(),
    decreases s.len() - i,
{
    if i < 0 || i >= s.len() {
    } else if set.contains(s[i]) {
    } else {
        lemma_find_any_bounds(s, set, i + 1);
    }
}

/// A text value of the reply, or empty where the key is missing.
pub open spec fn text_or_empty(v: Option<Seq<char>>) -> Seq<char> {
    match v {
        Some(t) => t,
        None => seq![],
    }
}

/// The track duration of a reply, in milliseconds; `0` where it is missing or
/// not an unsigned integer.
pub open spec fn reply_duration(json: Seq<char>) -> u64 {
    match extract_number_spec(json, "\"durationInMillis\":"@) {
        Some(d) => match parse_u64_spec(d) {
            Some(v) => v,
            None => 0,
        },
        None => 0,
    }
}

/// The playback position of a reply, given in seconds, as whole
/// milliseconds; `0` where it is missing or not a decimal number.
pub open spec fn reply_position(json: Seq<char>) -> u64 {
    match extract_number_spec(json, "\"currentPlaybackTime\":"@) {
        Some(p) => match parse_scaled_spec(p, 3) {
            Some(v) => v,
            None => 0,
        },
        None => 0,
    }
}

/// What a now-playing reply says, given whether the player reports that it
/// is playing: no media unless the reply has status ok and a non-empty
/// title.
pub open spec fn cider_reply(json: Seq<char>, is_playing: bool) -> Option<MediaInfoView> {
    let title = text_or_empty(extract_string_spec(json, "\"name\":\""@));
    if !contains(json, "\"status\":\"ok\""@) || title.len() == 0 {
        None
    } else {
        Some(
            MediaInfoView {
                player_name: "Cider"@,
                title,
                artist: text_or_empty(extract_string_spec(json, "\"artistName\":\""@)),
                album: text_or_empty(extract_string_spec(json, "\"albumName\":\""@)),
                art_url: extract_string_spec(json, "\"url\":\""@),
                status: if is_playing {
                    PlaybackStatus::Playing
                } else {
                    PlaybackStatus::Paused
                },
                position: reply_position(json),
                duration: reply_duration(json),
                can_play: true,
                can_pause: true,
                can_go_next: true,
                can_go_previous: true,
                can_seek: true,
            },
        )
    }
}

pub open spec fn media_option_view(m: Option<MediaInfo>) -> Option<MediaInfoView> {
    match m {
        Some(x) => Some(x@),
        None => None,
    }
}

fn unwrap_text(v: Option<String>) -> (r: String)
    ensures
        r@ == text_or_empty(string_option_view(v)),
{
    match v {
        Some(t) => t,
        None => String::new(),
    }
}

/// Reads a now-playing reply; `is_playing` comes from the is-playing query.
pub fn parse_cider_response(json: &str, is_playing: bool) -> (r: Option<MediaInfo>)
    ensures
        media_option_view(r) == cider_reply(json@, is_playing),
{
    if !contains_str(json, "\"status\":\"ok\"") {
        return None;
    }
    let title = unwrap_text(extract_json_string(json, "\"name\":\""));
    if title.as_str().is_empty() {
        return None;
    }
    let artist = unwrap_text(extract_json_string(json, "\"artistName\":\""));
    let album = unwrap_text(extract_json_string(json, "\"albumName\":\""));
    let art_url = extract_json_string(json, "\"url\":\"");
    let duration = match extract_json_number(json, "\"durationInMillis\":") {
        Some(d) => match parse_u64(d.as_str()) {
            Some(v) => v,
            None => 0,
        },
        None => 0,
    };
    let position = match extract_json_number(json, "\"currentPlaybackTime\":") {
        Some(p) => match parse_scaled(p.as_str(), 3) {
            Some(v) => v,
            None => 0,
        },
        None => 0,
    };
    let info = MediaInfo {
        player_name: "Cider".to_owned(),
        title,
        artist,
        album,
        art_url,
        status: if is_playing {
            PlaybackStatus::Playing
        } else {
            PlaybackStatus::Paused
        },
        position,
        duration,
        can_play: true,
        can_pause: true,
        can_go_next: true,
        can_go_previous: true,
        can_seek: true,
    };
    Some(info)
}

/// A now-playing reply is worth reading: the request succeeded and the reply
/// carries no error marker.
pub fn now_playing_usable(success: bool, body: &str) -> (r: bool)
    ensures
        r == (success && !contains(body@, "\"error\""@)),
{
    success && !contains_str(body, "\"error\"")
}

/// Whether the player is playing, from the is-playing query: what the reply
/// says where the request succeeded, and playing otherwise.
pub fn is_playing_from_response(success: bool, body: &str) -> (r: bool)
    ensures
        r == (!success || contains(body@, "\"is_playing\":true"@)),
{
    !success || contains_str(body, "\"is_playing\":true")
}


/// A reply whose title is missing or empty means no media, whatever else it
/// holds.
pub proof fn lemma_empty_title_is_no_media(json: Seq<char>, is_playing: bool)
    requires
        text_or_empty(extract_string_spec(json, "\"name\":\""@)).len() == 0,
    ensures
        cider_reply(json, is_playing) is None,
        !is_active_view(new_state_after_poll(cider_reply(json, is_playing))),
{
}

/// There is an active media session in `m`.
pub open spec fn is_active_view(m: MediaInfoView) -> bool {
    m.player_name.len() > 0 && m.title.len() > 0
}

/// The media state after a poll that read `polled`.
pub open spec fn new_state_after_poll(polled: Option<MediaInfoView>) -> MediaInfoView {
    match polled {
        Some(m) => m,
        None => no_media(),
    }
}

// ---------------------------------------------------------------------------
// Transport state
// ---------------------------------------------------------------------------

/// The status shown right after a play/pause toggle was sent.
pub open spec fn toggled(s: PlaybackStatus) -> PlaybackStatus {
    match s {
        PlaybackStatus::Playing => PlaybackStatus::Paused,
        PlaybackStatus::Paused => PlaybackStatus::Playing,
        PlaybackStatus::Stopped => PlaybackStatus::Playing,
    }
}

/// `progress` (in millionths of the track) clamped to the track.
pub open spec fn clamped_progress(progress_ppm: i64) -> u64 {
    if progress_ppm < 0 {
        0
    } else if progress_ppm > 1_000_000 {
        1_000_000
    } else {
        progress_ppm as u64
    }
}

/// The position in milliseconds at `progress_ppm` millionths of a track of
/// `duration` milliseconds, rounded down.
pub open spec fn seek_target(duration: u64, progress_ppm: i64) -> u64 {
    (duration * clamped_progress(progress_ppm) / 1_000_000) as u64
}

/// The body of a seek request to `position_ms`, which the player takes in
/// whole seconds.
pub open spec fn seek_body_text(position_ms: u64) -> Seq<char> {
    "{\"position\": "@ + decimal((position_ms / 1000) as nat) + "}"@
}

/// The body of a seek request to `position_ms`.
pub fn seek_body(position_ms: u64) -> (r: String)
    ensures
        r@ == seek_body_text(position_ms),
{
    let mut r = "{\"position\": ".to_owned();
    push_decimal(&mut r, position_ms / 1000);
    r.append("}");
    r
}

/// The media state shown to the consumer and the token sent with each
/// request to the player.
pub struct MediaMonitor {
    media_info: MediaInfo,
    cider_token: Option<String>,
}

impl MediaMonitor {
    /// The current media state.
    pub closed spec fn info(&self) -> MediaInfoView {
        self.media_info@
    }

    /// The current token.
    pub closed spec fn token(&self) -> Option<Seq<char>> {
        string_option_view(self.cider_token)
    }

    /// No media yet; an empty token counts as none.
    pub fn new(api_token: Option<String>) -> (r: MediaMonitor)
        ensures
            r.info() == no_media(),
            r.token() == (match api_token {
                Some(t) => if t@.len() > 0 {
                    Some(t@)
                } else {
                    None
                },
                None => None,
            }),
    {
        let cider_token = match api_token {
            Some(t) => if t.as_str().is_empty() {
                None
            } else {
                Some(t)
            },
            None => None,
        };
        MediaMonitor { media_info: MediaInfo::default(), cider_token }
    }

    /// A copy of the current media state.
    pub fn get_media_info(&self) -> (r: MediaInfo)
        ensures
            r@ == self.info(),
    {
        self.media_info.copied()
    }

    /// A copy of the current token.
    pub fn cider_token(&self) -> (r: Option<String>)
        ensures
            string_option_view(r) == self.token(),
    {
        copy_string_option(&self.cider_token)
    }

    /// Replaces the token.
    pub fn set_cider_token(&mut self, token: Option<String>)
        ensures
            final(self).token() == string_option_view(token),
            final(self).info() == old(self).info(),
    {
        self.cider_token = token;
    }

    /// Takes the result of a poll: the media read, or no media.
    pub fn apply_poll(&mut self, polled: Option<MediaInfo>)
        ensures
            final(self).info() == new_state_after_poll(media_option_view(polled)),
            final(self).token() == old(self).token(),
    {
        self.media_info = match polled {
            Some(m) => m,
            None => MediaInfo::default(),
        };
    }

    /// After a play/pause toggle: where the command was sent, the status is
    /// toggled at once, ahead of the next poll.
    pub fn play_pause(&mut self, command_sent: bool)
        ensures
            command_sent ==> final(self).info() == (MediaInfoView {
                status: toggled(old(self).info().status),
                ..old(self).info()
            }),
            !command_sent ==> final(self).info() == old(self).info(),
            final(self).token() == old(self).token(),
    {
        if command_sent {
            self.media_info.status = match self.media_info.status {
                PlaybackStatus::Playing => PlaybackStatus::Paused,
                PlaybackStatus::Paused => PlaybackStatus::Playing,
                PlaybackStatus::Stopped => PlaybackStatus::Playing,
            };
        }
    }

    /// After a next-track command: playing, whatever came of the command.
    pub fn next(&mut self)
        ensures
            final(self).info() == (MediaInfoView {
                status: PlaybackStatus::Playing,
                ..old(self).info()
            }),
            final(self).token() == old(self).token(),
    {
        self.media_info.status = PlaybackStatus::Playing;
    }

    /// After a previous-track command: playing, whatever came of the command.
    pub fn previous(&mut self)
        ensures
            final(self).info() == (MediaInfoView {
                status: PlaybackStatus::Playing,
                ..old(self).info()
            }),
            final(self).token() == old(self).token(),
    {
        self.media_info.status = PlaybackStatus::Playing;
    }

    /// After a seek to `position_ms`: where the command was sent, the
    /// position moves there at once. Returns whether it was sent.
    pub fn seek(&mut self, position_ms: u64, command_sent: bool) -> (r: bool)
        ensures
            r == command_sent,
            command_sent ==> final(self).info() == (MediaInfoView {
                position: position_ms,
                ..old(self).info()
            }),
            !command_sent ==> final(self).info() == old(self).info(),
            final(self).token() == old(self).token(),
    {
        if command_sent {
            self.media_info.position = position_ms;
        }
        command_sent
    }

    /// The position, in milliseconds, to seek to for `progress_ppm`
    /// millionths of the current track, clamped to the track.
    pub fn seek_to_progress(&self, progress_ppm: i64) -> (r: u64)
        ensures
            r == seek_target(self.info().duration, progress_ppm),
            r <= self.info().duration,
    {
        let p: u64 = if progress_ppm < 0 {
            0
        } else if progress_ppm > 1_000_000 {
            1_000_000
        } else {
            progress_ppm as u64
        };
        let d = self.media_info.duration;
        assert(d as int * p as int <= u64::MAX as int * 1_000_000) by (nonlinear_arith)
            requires
                d <= u64::MAX,
                p <= 1_000_000,
        ;
        let t = (d as u128 * p as u128) / 1_000_000;
        assert(t <= d) by (nonlinear_arith)
            requires
                t == (d as int * p as int) / 1_000_000,
                p <= 1_000_000,
        ;
        t as u64
    }
}

} // verus!
