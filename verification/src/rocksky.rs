//! The Rocksky companion: which playback command a message of its
//! WebSocket asks for, and the values of the track records it is sent.
use vstd::prelude::*;
use vstd::utf8::encode_utf8;

use crate::codec::hex_lower;
use crate::outside::sha256_hex_of_text;
use crate::outside::sha256_of;
use crate::outside::to_lowercase;
use crate::outside::unicode_lower;
use crate::text::chars_eq;
use crate::text::chars_of;
use crate::text::contains_char;
use crate::text::extend_chars;
use crate::text::opt_chars;
use crate::text::opt_str_chars;
use crate::text::string_of;

verus! {

/// Seconds between the end of a WebSocket session and the next attempt.
pub const RECONNECT_DELAY_SECS: u64 = 3;

/// A playback command sent from Rocksky.
pub enum RemoteCommand {
    /// `play`: resume playback.
    Resume,
    Pause,
    Next,
    Previous,
    /// `seek`: play from this position (ms).
    Seek(i64),
    /// Any other action, named.
    Unknown(String),
}

/// A command as `(kind, position, name)`: kinds 0 to 5 in the order of
/// [`RemoteCommand`].
pub open spec fn command_view(c: RemoteCommand) -> (int, int, Seq<char>) {
    match c {
        RemoteCommand::Resume => (0, 0, Seq::<char>::empty()),
        RemoteCommand::Pause => (1, 0, Seq::<char>::empty()),
        RemoteCommand::Next => (2, 0, Seq::<char>::empty()),
        RemoteCommand::Previous => (3, 0, Seq::<char>::empty()),
        RemoteCommand::Seek(p) => (4, p as int, Seq::<char>::empty()),
        RemoteCommand::Unknown(a) => (5, 0, a@),
    }
}

/// The command a message asks for: only messages of type `command` with an
/// action ask for one; `seek` takes its position (0 where absent).
pub open spec fn remote_command_spec(msg_type: Option<Seq<char>>, action: Option<Seq<char>>, position: Option<i64>) -> Option<(int, int, Seq<char>)> {
    if msg_type != Some("command"@) {
        None
    } else {
        match action {
            None => None,
            Some(a) => Some(
                if a == "play"@ {
                    (0, 0, Seq::<char>::empty())
                } else if a == "pause"@ {
                    (1, 0, Seq::<char>::empty())
                } else if a == "next"@ {
                    (2, 0, Seq::<char>::empty())
                } else if a == "previous"@ {
                    (3, 0, Seq::<char>::empty())
                } else if a == "seek"@ {
                    (
                        4,
                        match position {
                            Some(p) => p as int,
                            None => 0,
                        },
                        Seq::<char>::empty(),
                    )
                } else {
                    (5, 0, a)
                },
            ),
        }
    }
}

/// The command a WebSocket message asks for, given its `type`, `action` and
/// `args.position` fields.
pub fn remote_command(msg_type: Option<&str>, action: Option<&str>, position: Option<i64>) -> (res: Option<RemoteCommand>)
    ensures
        match res {
            Some(c) => remote_command_spec(opt_str_chars(msg_type), opt_str_chars(action), position)
                == Some(command_view(c)),
            None => remote_command_spec(opt_str_chars(msg_type), opt_str_chars(action), position) is None,
        },
        opt_str_chars(msg_type) == Some("command"@) && opt_str_chars(action) == Some("next"@) ==> res matches Some(RemoteCommand::Next),
        opt_str_chars(msg_type) == Some("command"@) && opt_str_chars(action) == Some("previous"@) ==> res matches Some(RemoteCommand::Previous),
        opt_str_chars(msg_type) == Some("command"@) && opt_str_chars(action) == Some("play"@) ==> res matches Some(RemoteCommand::Resume),
        opt_str_chars(msg_type) == Some("command"@) && opt_str_chars(action) == Some("pause"@) ==> res matches Some(RemoteCommand::Pause),
{
    proof {
        lemma_action_names_differ();
    }
    let is_command = match msg_type {
        Some(t) => chars_eq(&chars_of(t), &chars_of("command")),
        None => false,
    };
    if !is_command {
        return None;
    }
    let a = match action {
        Some(a) => chars_of(a),
        None => return None,
    };
    let cmd = if chars_eq(&a, &chars_of("play")) {
        RemoteCommand::Resume
    } else if chars_eq(&a, &chars_of("pause")) {
        RemoteCommand::Pause
    } else if chars_eq(&a, &chars_of("next")) {
        RemoteCommand::Next
    } else if chars_eq(&a, &chars_of("previous")) {
        RemoteCommand::Previous
    } else if chars_eq(&a, &chars_of("seek")) {
        RemoteCommand::Seek(
            match position {
                Some(p) => p,
                None => 0,
            },
        )
    } else {
        RemoteCommand::Unknown(string_of(&a))
    };
    Some(cmd)
}

proof fn lemma_action_names_differ()
    ensures
        "pause"@ != "play"@,
        "next"@ != "play"@,
        "next"@ != "pause"@,
        "previous"@ != "play"@,
        "previous"@ != "pause"@,
        "previous"@ != "next"@,
        "seek"@ != "play"@,
        "seek"@ != "pause"@,
        "seek"@ != "next"@,
        "seek"@ != "previous"@,
{
    reveal_strlit("play");
    reveal_strlit("pause");
    reveal_strlit("next");
    reveal_strlit("previous");
    reveal_strlit("seek");
    assert("pause"@ != "play"@) by { assert("pause"@[1] != "play"@[1]); }
    assert("next"@ != "play"@) by { assert("next"@[0] != "play"@[0]); }
    assert("next"@ != "pause"@) by { assert("next"@.len() != "pause"@.len()); }
    assert("previous"@ != "play"@) by { assert("previous"@.len() != "play"@.len()); }
    assert("previous"@ != "pause"@) by { assert("previous"@.len() != "pause"@.len()); }
    assert("previous"@ != "next"@) by { assert("previous"@.len() != "next"@.len()); }
    assert("seek"@ != "play"@) by { assert("seek"@[0] != "play"@[0]); }
    assert("seek"@ != "pause"@) by { assert("seek"@.len() != "pause"@.len()); }
    assert("seek"@ != "next"@) by { assert("seek"@[0] != "next"@[0]); }
    assert("seek"@ != "previous"@) by { assert("seek"@.len() != "previous"@.len()); }
}

/// Each action Rocksky names is the command of that name: `play` resumes,
/// `pause` pauses, `next` and `previous` skip forward and back, and `seek`
/// seeks to the given position (0 where none is given), whatever the
/// position sent with the other actions.
pub proof fn law_actions_name_their_commands(position: Option<i64>)
    ensures
        remote_command_spec(Some("command"@), Some("play"@), position) == Some(command_view(RemoteCommand::Resume)),
        remote_command_spec(Some("command"@), Some("pause"@), position) == Some(command_view(RemoteCommand::Pause)),
        remote_command_spec(Some("command"@), Some("next"@), position) == Some(command_view(RemoteCommand::Next)),
        remote_command_spec(Some("command"@), Some("previous"@), position) == Some(command_view(RemoteCommand::Previous)),
        remote_command_spec(Some("command"@), Some("seek"@), position) == Some(command_view(RemoteCommand::Seek(
            match position {
                Some(p) => p,
                None => 0,
            },
        ))),
{
    reveal_strlit("play");
    reveal_strlit("pause");
    reveal_strlit("next");
    reveal_strlit("previous");
    reveal_strlit("seek");
    lemma_action_names_differ();
}

/// The release date sent for an album: its year text where that holds a
/// `-` (a full date), nothing otherwise.
pub fn release_date(year_string: &str) -> (res: Option<String>)
    ensures
        opt_chars(res) == if year_string@.contains('-') {
            Some(year_string@)
        } else {
            None
        },
{
    let y = chars_of(year_string);
    if contains_char(&y, '-') {
        Some(string_of(&y))
    } else {
        None
    }
}

/// The URL an uploaded album cover is served from.
pub fn cover_url(album_art: Option<&str>) -> (res: Option<String>)
    ensures
        opt_chars(res) == match album_art {
            Some(a) => Some("https://cdn.rocksky.app/covers/"@ + a@),
            None => None,
        },
{
    match album_art {
        Some(a) => {
            let mut out = chars_of("https://cdn.rocksky.app/covers/");
            extend_chars(&mut out, &chars_of(a));
            Some(string_of(&out))
        },
        None => None,
    }
}

/// The album artist of a saved track: the track's artist where it has none.
pub fn album_artist_or_artist(album_artist: &str, artist: &str) -> (res: String)
    ensures
        res@ == if album_artist@.len() == 0 {
            artist@
        } else {
            album_artist@
        },
{
    let aa = chars_of(album_artist);
    if aa.len() == 0 {
        string_of(&chars_of(artist))
    } else {
        string_of(&aa)
    }
}

/// The key of a liked track on Rocksky: the SHA-256, in hex, of
/// `title - artist - album` in lower case.
pub fn like_hash(title: &str, artist: &str, album: &str) -> (res: String)
    ensures
        res@ == hex_lower(
            sha256_of(encode_utf8(unicode_lower(title@ + " - "@ + artist@ + " - "@ + album@))),
        ),
{
    let mut key = chars_of(title);
    extend_chars(&mut key, &chars_of(" - "));
    extend_chars(&mut key, &chars_of(artist));
    extend_chars(&mut key, &chars_of(" - "));
    extend_chars(&mut key, &chars_of(album));
    let lowered = to_lowercase(string_of(&key).as_str());
    sha256_hex_of_text(lowered.as_str())
}

} // verus!
