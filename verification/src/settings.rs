//! Where the music library is: the configured directory with `$HOME`
//! expanded, when it exists, else `Music` under the home directory.
use vstd::prelude::*;

use crate::text::chars_of;
use crate::text::extend_chars;
use crate::text::starts_with;
use crate::text::string_of;

verus! {

/// `s` with every occurrence of the non-empty `pat` replaced by `rep`,
/// left to right and without overlap (`str::replace`).
pub open spec fn replace_all(s: Seq<char>, pat: Seq<char>, rep: Seq<char>) -> Seq<char>
    decreases s.len(),
{
    if pat.len() == 0 || s.len() == 0 {
        s
    } else if pat.is_prefix_of(s) {
        rep + replace_all(s.skip(pat.len() as int), pat, rep)
    } else {
        seq![s[0]] + replace_all(s.drop_first(), pat, rep)
    }
}

/// The default music library: `Music` under the home directory.
pub open spec fn default_music_dir_spec(home: Seq<char>) -> Seq<char> {
    home + "/Music"@
}

/// A configured directory with every `$HOME` replaced by the home
/// directory.
pub fn expand_home(dir: &str, home: &str) -> (res: String)
    ensures
        res@ == replace_all(dir@, "$HOME"@, home@),
{
    let s = chars_of(dir);
    let pat = chars_of("$HOME");
    let rep = chars_of(home);
    proof {
        reveal_strlit("$HOME");
    }
    let mut out: Vec<char> = Vec::new();
    let mut i: usize = 0;
    assert(s@.skip(0) =~= s@);
    assert(out@ + replace_all(s@.skip(0), pat@, rep@) =~= replace_all(s@, pat@, rep@));
    while i < s.len()
        invariant
            i <= s.len(),
            s@ == dir@,
            pat@ == "$HOME"@,
            pat@.len() == 5,
            rep@ == home@,
            out@ + replace_all(s@.skip(i as int), pat@, rep@) == replace_all(s@, pat@, rep@),
        decreases s.len() - i,
    {
        let ghost t = s@.skip(i as int);
        let rest = crate::text::slice_of(&s, i, s.len());
        assert(rest@ =~= t);
        if starts_with(&rest, &pat) {
            let ghost before = out@;
            extend_chars(&mut out, &rep);
            assert(t.skip(5) =~= s@.skip(i + 5));
            assert(out@ + replace_all(s@.skip(i + 5), pat@, rep@) =~= before + replace_all(t, pat@, rep@));
            i += 5;
        } else {
            let ghost before = out@;
            out.push(s[i]);
            assert(t.drop_first() =~= s@.skip(i + 1));
            assert(out@ + replace_all(s@.skip(i + 1), pat@, rep@) =~= before + replace_all(t, pat@, rep@));
            i += 1;
        }
    }
    assert(s@.skip(i as int) =~= Seq::<char>::empty());
    assert(out@ + replace_all(s@.skip(i as int), pat@, rep@) =~= out@);
    string_of(&out)
}

/// `Music` under the home directory.
pub fn default_music_dir(home: &str) -> (res: String)
    ensures
        res@ == default_music_dir_spec(home@),
{
    let mut out = chars_of(home);
    extend_chars(&mut out, &chars_of("/Music"));
    string_of(&out)
}

/// The music library the player scans: the configured directory (with
/// `$HOME` expanded) when one is set and it exists, else the default one.
pub fn library_dir(expanded: Option<&str>, expanded_exists: bool, home: &str) -> (res: String)
    ensures
        res@ == match expanded {
            Some(d) => if expanded_exists {
                d@
            } else {
                default_music_dir_spec(home@)
            },
            None => default_music_dir_spec(home@),
        },
{
    match expanded {
        Some(d) => if expanded_exists {
            string_of(&chars_of(d))
        } else {
            default_music_dir(home)
        },
        None => default_music_dir(home),
    }
}


/// The settings file under the home directory.
pub open spec fn settings_path_spec(home: Seq<char>) -> Seq<char> {
    home + "/.config/rockbox.org/settings.toml"@
}

/// The settings file under the home directory.
pub fn settings_path(home: &str) -> (res: String)
    ensures
        res@ == settings_path_spec(home@),
{
    let mut out = chars_of(home);
    extend_chars(&mut out, &chars_of("/.config/rockbox.org/settings.toml"));
    string_of(&out)
}

/// The music directory the settings name: the configured one (none where
/// the settings file is absent or names none), else the library the
/// environment gives, else the default.
pub fn music_dir_of(configured: Option<&str>, library_env: Option<&str>, home: &str) -> (res: String)
    ensures
        res@ == match configured {
            Some(d) => d@,
            None => match library_env {
                Some(l) => l@,
                None => default_music_dir_spec(home@),
            },
        },
{
    match configured {
        Some(d) => string_of(&chars_of(d)),
        None => match library_env {
            Some(l) => string_of(&chars_of(l)),
            None => default_music_dir(home),
        },
    }
}

} // verus!
