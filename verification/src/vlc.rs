//! Finding, launching and watching the player.
//!
//! The player runs as a process of its own with its HTTP interface turned on,
//! on a port and with a password picked anew each time; the interface is asked
//! for the playback position.

use rand::Rng;
use serde_json::Value;
use vstd::prelude::*;

use crate::json::{integer_field, integer_or, parse, parsed};
use crate::text::{
    blank, chars_of, concat2, concat3, concat5, decimal, is_blank, number_text, texts, trim,
    trimmed,
};

verus! {

broadcast use vstd::string::group_string_axioms;

// ---------------------------------------------------------------------
// Finding the player
// ---------------------------------------------------------------------

/// The program's bare name, which leaves it to the system to find it.
pub open spec fn binary_name(windows: bool) -> Seq<char> {
    if windows {
        "vlc.exe"@
    } else {
        "vlc"@
    }
}

/// The bare name to run where no path is known.
pub fn default_binary_name(windows: bool) -> (res: &'static str)
    ensures
        res@ == binary_name(windows),
{
    if windows {
        "vlc.exe"
    } else {
        "vlc"
    }
}

/// Where the player is usually installed on Linux and macOS.
pub open spec fn usual_places() -> Seq<Seq<char>> {
    seq![
        "/usr/bin/vlc"@,
        "/usr/local/bin/vlc"@,
        "/snap/bin/vlc"@,
        "/var/lib/flatpak/exports/bin/org.videolan.VLC"@,
        "/Applications/VLC.app/Contents/MacOS/VLC"@,
    ]
}

/// Where the player is usually installed on Windows.
pub open spec fn usual_windows_places() -> Seq<Seq<char>> {
    seq![
        "C:\\Program Files\\VideoLAN\\VLC\\vlc.exe"@,
        "C:\\Program Files (x86)\\VideoLAN\\VLC\\vlc.exe"@,
    ]
}

/// The path that the shell's lookup printed, unless it printed none.
pub open spec fn looked_up(which: Option<Seq<char>>) -> Seq<Seq<char>> {
    match which {
        Some(output) => if blank(output) {
            Seq::empty()
        } else {
            seq![trimmed(output)]
        },
        None => Seq::empty(),
    }
}

/// The places to try on Linux and macOS, in order: what the shell's lookup
/// printed, where it succeeded, then the usual places.
pub fn vlc_candidates(which: Option<String>) -> (res: Vec<String>)
    ensures
        texts(res@) == looked_up(
            match which {
                Some(s) => Some(s@),
                None => None,
            },
        ) + usual_places(),
{
    let mut out: Vec<String> = Vec::new();
    if let Some(output) = &which {
        if !is_blank(output.as_str()) {
            out.push(trim(output.as_str()));
        }
    }
    out.push("/usr/bin/vlc".to_owned());
    out.push("/usr/local/bin/vlc".to_owned());
    out.push("/snap/bin/vlc".to_owned());
    out.push("/var/lib/flatpak/exports/bin/org.videolan.VLC".to_owned());
    out.push("/Applications/VLC.app/Contents/MacOS/VLC".to_owned());
    out
}

/// The places to try on Windows, in order: those that the installer recorded,
/// then the usual places.
pub fn vlc_candidates_windows(recorded: Vec<String>) -> (res: Vec<String>)
    ensures
        texts(res@) == texts(recorded@) + usual_windows_places(),
{
    let mut out: Vec<String> = recorded;
    out.push("C:\\Program Files\\VideoLAN\\VLC\\vlc.exe".to_owned());
    out.push("C:\\Program Files (x86)\\VideoLAN\\VLC\\vlc.exe".to_owned());
    out
}

/// The first candidate that is there.
pub open spec fn first_present(candidates: Seq<Seq<char>>, present: Seq<bool>) -> Option<Seq<char>>
    decreases candidates.len(),
{
    if candidates.len() == 0 || present.len() == 0 {
        None
    } else if present[0] {
        Some(candidates[0])
    } else {
        first_present(candidates.drop_first(), present.drop_first())
    }
}

/// Picks the player out of the places to try: the first that is a file, where
/// `is_file` says of each whether it is one.
pub fn detect_vlc(candidates: &Vec<String>, is_file: &Vec<bool>) -> (res: Option<String>)
    ensures
        match res {
            Some(path) => first_present(texts(candidates@), is_file@) == Some(path@),
            None => first_present(texts(candidates@), is_file@) is None,
        },
{
    let mut i: usize = 0;
    let ghost all = texts(candidates@);
    proof {
        assert(all.skip(0) =~= all);
        assert(is_file@.skip(0) =~= is_file@);
    }
    while i < candidates.len() && i < is_file.len()
        invariant
            i <= candidates@.len(),
            i <= is_file@.len(),
            all == texts(candidates@),
            first_present(all, is_file@) == first_present(
                all.skip(i as int),
                is_file@.skip(i as int),
            ),
        decreases candidates@.len() - i,
    {
        proof {
            assert(all.skip(i as int).drop_first() =~= all.skip(i + 1));
            assert(is_file@.skip(i as int).drop_first() =~= is_file@.skip(i + 1));
        }
        if is_file[i] {
            return Some(candidates[i].clone());
        }
        i += 1;
    }
    None
}

// ---------------------------------------------------------------------
// Launching it
// ---------------------------------------------------------------------

/// How to reach a running player: its HTTP interface's port and password.
pub struct VlcSession {
    pub port: u16,
    pub password: String,
}

/// The program to run, its arguments, and how to reach it then.
pub struct LaunchPlan {
    pub binary: String,
    pub args: Vec<String>,
    pub session: VlcSession,
}

/// `rand::Rng::gen_range` of the thread's generator over a range of `usize`:
/// some number in the range. Which one it is, is left to chance.
#[verifier::external_body]
fn random_in(low: usize, high: usize) -> (res: usize)
    requires
        low < high,
    ensures
        low <= res < high,
{
    rand::thread_rng().gen_range(low..high)
}

/// A port for the player's HTTP interface.
fn random_port() -> (res: u16)
    ensures
        19000 <= res < 20000,
{
    random_in(19000, 20000) as u16
}

/// The characters that a password is made of.
pub open spec fn alphabet() -> Seq<char> {
    "abcdefghijklmnopqrstuvwxyzABCDEFGHIJKLMNOPQRSTUVWXYZ0123456789"@
}

/// The password that picks out of the alphabet spell.
pub open spec fn spelled(picks: Seq<usize>) -> Seq<char> {
    picks.map_values(|p: usize| alphabet()[p as int])
}

/// Spells a password out of picks from the alphabet.
pub fn password_of(picks: &Vec<usize>) -> (res: String)
    requires
        forall|i: int| 0 <= i < picks@.len() ==> picks@[i] < 62,
    ensures
        res@ == spelled(picks@),
{
    let chars = chars_of("abcdefghijklmnopqrstuvwxyzABCDEFGHIJKLMNOPQRSTUVWXYZ0123456789");
    proof {
        reveal_strlit("abcdefghijklmnopqrstuvwxyzABCDEFGHIJKLMNOPQRSTUVWXYZ0123456789");
    }
    let mut out = String::new();
    let mut i: usize = 0;
    while i < picks.len()
        invariant
            i <= picks@.len(),
            chars@ == alphabet(),
            chars@.len() == 62,
            forall|k: int| 0 <= k < picks@.len() ==> picks@[k] < 62,
            out@ == spelled(picks@.take(i as int)),
        decreases picks@.len() - i,
    {
        out.push(chars[picks[i]]);
        i += 1;
        proof {
            assert(out@ =~= spelled(picks@.take(i as int)));
        }
    }
    proof {
        assert(picks@.take(i as int) =~= picks@);
    }
    out
}

/// A text that could be a password: twelve characters of the alphabet.
pub open spec fn password_like(s: Seq<char>) -> bool {
    s.len() == 12 && forall|i: int| 0 <= i < s.len() ==> alphabet().contains(#[trigger] s[i])
}

/// A password for the player's HTTP interface.
fn random_password() -> (res: String)
    ensures
        password_like(res@),
{
    let mut picks: Vec<usize> = Vec::new();
    while picks.len() < 12
        invariant
            picks@.len() <= 12,
            forall|k: int| 0 <= k < picks@.len() ==> picks@[k] < 62,
        decreases 12 - picks@.len(),
    {
        picks.push(random_in(0, 62));
    }
    let out = password_of(&picks);
    proof {
        reveal_strlit("abcdefghijklmnopqrstuvwxyzABCDEFGHIJKLMNOPQRSTUVWXYZ0123456789");
        assert forall|i: int| 0 <= i < out@.len() implies alphabet().contains(#[trigger] out@[i]) by {
            assert(out@[i] == alphabet()[picks@[i] as int]);
        }
    }
    out
}

/// The arguments to play a link with: from a position, where that is past the
/// start, and with subtitles in a language, where one is asked for.
pub open spec fn launch_args(
    target: Seq<char>,
    start_seconds: i64,
    subtitle_lang: Seq<char>,
    port: u16,
    password: Seq<char>,
) -> Seq<Seq<char>> {
    seq![
        target,
        "--extraintf=http"@,
        "--http-port="@ + decimal(port as int),
        "--http-password="@ + password,
        "--no-video-title-show"@,
    ] + if start_seconds > 0 {
        seq!["--start-time="@ + decimal(start_seconds as int)]
    } else {
        Seq::empty()
    } + if blank(subtitle_lang) {
        Seq::empty()
    } else {
        seq!["--sub-language="@ + trimmed(subtitle_lang)]
    }
}

/// The program to run: the configured path, or the bare name where none is.
pub open spec fn binary_of(vlc_path: Seq<char>, windows: bool) -> Seq<char> {
    if blank(vlc_path) {
        binary_name(windows)
    } else {
        vlc_path
    }
}

impl LaunchPlan {
    /// The plan plays the link, at that position and with these subtitles, in
    /// the right program, and the session in it fits the arguments.
    pub open spec fn plays(
        self,
        vlc_path: Seq<char>,
        target: Seq<char>,
        start_seconds: i64,
        subtitle_lang: Seq<char>,
        windows: bool,
    ) -> bool {
        &&& self.binary@ == binary_of(vlc_path, windows)
        &&& texts(self.args@) == launch_args(
            target,
            start_seconds,
            subtitle_lang,
            self.session.port,
            self.session.password@,
        )
    }
}

/// Plans a launch with a given port and password.
pub fn plan_launch(
    vlc_path: &str,
    target: &str,
    start_seconds: i64,
    subtitle_lang: &str,
    windows: bool,
    port: u16,
    password: String,
) -> (res: LaunchPlan)
    ensures
        res.plays(vlc_path@, target@, start_seconds, subtitle_lang@, windows),
        res.session.port == port,
        res.session.password@ == password@,
{
    let binary: String = if is_blank(vlc_path) {
        default_binary_name(windows).to_owned()
    } else {
        vlc_path.to_owned()
    };
    let mut args: Vec<String> = Vec::new();
    args.push(target.to_owned());
    args.push("--extraintf=http".to_owned());
    args.push(concat2("--http-port=", number_text(port as i64).as_str()));
    args.push(concat2("--http-password=", password.as_str()));
    args.push("--no-video-title-show".to_owned());
    if start_seconds > 0 {
        args.push(concat2("--start-time=", number_text(start_seconds).as_str()));
    }
    if !is_blank(subtitle_lang) {
        args.push(concat2("--sub-language=", trim(subtitle_lang).as_str()));
    }
    proof {
        assert(texts(args@) =~= launch_args(target@, start_seconds, subtitle_lang@, port, password@));
    }
    LaunchPlan { binary, args, session: VlcSession { port, password } }
}

/// Plans a launch, with a port and a password picked at random. A blank
/// `vlc_path` stands for the bare name, a blank `subtitle_lang` for the
/// player's own choice.
pub fn launch(
    vlc_path: &str,
    target: &str,
    start_seconds: i64,
    subtitle_lang: &str,
    windows: bool,
) -> (res: LaunchPlan)
    ensures
        res.plays(vlc_path@, target@, start_seconds, subtitle_lang@, windows),
        19000 <= res.session.port < 20000,
        password_like(res.session.password@),
{
    let port: u16 = random_port();
    let password = random_password();
    plan_launch(vlc_path, target, start_seconds, subtitle_lang, windows, port, password)
}

/// What to tell the user where the program could not be started.
pub open spec fn launch_error_text(binary: Seq<char>, cause: Seq<char>) -> Seq<char> {
    "failed to launch '"@ + binary + "': "@ + cause + ". Set the correct VLC path in Settings."@
}

pub fn launch_error(binary: &str, cause: &str) -> (res: String)
    ensures
        res@ == launch_error_text(binary@, cause@),
{
    concat5("failed to launch '", binary, "': ", cause, ". Set the correct VLC path in Settings.")
}

// ---------------------------------------------------------------------
// Watching it
// ---------------------------------------------------------------------

/// What the player reports: where it is, and how long what it plays is.
#[derive(Debug, Clone, Copy)]
pub struct Status {
    pub time_seconds: i64,
    pub length_seconds: i64,
}

impl Default for Status {
    fn default() -> (res: Self)
        ensures
            res == (Status { time_seconds: 0, length_seconds: 0 }),
    {
        Status { time_seconds: 0, length_seconds: 0 }
    }
}

/// Where a player's HTTP interface gives its status.
pub open spec fn status_address(port: u16) -> Seq<char> {
    "http://127.0.0.1:"@ + decimal(port as int) + "/requests/status.json"@
}

pub fn status_url(port: u16) -> (res: String)
    ensures
        res@ == status_address(port),
{
    concat3("http://127.0.0.1:", number_text(port as i64).as_str(), "/requests/status.json")
}

/// The status that a reply holds; what it does not hold counts as zero.
pub open spec fn status_in(reply: Value) -> Status {
    Status {
        time_seconds: match integer_field(reply, "time"@) {
            Some(n) => n,
            None => 0,
        },
        length_seconds: match integer_field(reply, "length"@) {
            Some(n) => n,
            None => 0,
        },
    }
}

/// Reads the status out of a reply.
pub fn status_of(reply: &Value) -> (res: Status)
    ensures
        res == status_in(*reply),
{
    Status {
        time_seconds: integer_or(reply, "time", 0),
        length_seconds: integer_or(reply, "length", 0),
    }
}

/// Reads the status out of the text of a reply.
pub fn query_status(body: &[u8]) -> (res: Result<Status, String>)
    ensures
        match (res, parsed(body@)) {
            (Ok(status), Ok(reply)) => status == status_in(reply),
            (Err(e), Err(message)) => e@ == message,
            _ => false,
        },
{
    match parse(body) {
        Ok(reply) => Ok(status_of(&reply)),
        Err(e) => Err(e),
    }
}

/// The first candidate that is there is picked, and none before it was there; where
/// none is there, none is picked.
pub proof fn law_first_present(candidates: Seq<Seq<char>>, present: Seq<bool>, at: int)
    requires
        candidates.len() == present.len(),
        0 <= at <= candidates.len(),
        forall|i: int| 0 <= i < at ==> !(#[trigger] present[i]),
        at < candidates.len() ==> present[at],
    ensures
        first_present(candidates, present) == if at < candidates.len() {
            Some(candidates[at])
        } else {
            None
        },
    decreases candidates.len(),
{
    if at > 0 {
        assert(!present[0]);
        let rest = present.drop_first();
        assert forall|i: int| 0 <= i < at - 1 implies !(#[trigger] rest[i]) by {
            assert(!present[i + 1]);
        }
        law_first_present(candidates.drop_first(), rest, at - 1);
    }
}

/// What the shell's lookup printed is tried first, without the white space around
/// it.
pub proof fn law_lookup_tried_first(before: Seq<char>, path: Seq<char>, after: Seq<char>)
    requires
        blank(before),
        blank(after),
        path.len() > 0,
        !crate::text::white_space(path[0]),
        !crate::text::white_space(path.last()),
    ensures
        (looked_up(Some(before + path + after)) + usual_places())[0] == path,
{
    let output = before + path + after;
    crate::text::law_trimmed_core(before, path, after);
    assert(output[before.len() as int] == path[0]);
    assert(!blank(output));
}

/// The player is told the link first, that its HTTP interface is wanted, and on
/// which port and with which password; a position only where it is past the start,
/// and a subtitle language only where one is set, without the white space around it.
pub proof fn law_launch_arguments(
    target: Seq<char>,
    start_seconds: i64,
    before: Seq<char>,
    lang: Seq<char>,
    after: Seq<char>,
    port: u16,
    password: Seq<char>,
)
    requires
        blank(before),
        blank(after),
        lang.len() > 0 ==> !crate::text::white_space(lang[0]) && !crate::text::white_space(
            lang.last(),
        ),
    ensures
        ({
            let args = launch_args(target, start_seconds, before + lang + after, port, password);
            let start = if start_seconds > 0 {
                1int
            } else {
                0int
            };
            let subtitles = if lang.len() > 0 {
                1int
            } else {
                0int
            };
            &&& args.len() == 5 + start + subtitles
            &&& args[0] == target
            &&& args.contains("--extraintf=http"@)
            &&& args.contains("--http-port="@ + decimal(port as int))
            &&& args.contains("--http-password="@ + password)
            &&& args.contains("--no-video-title-show"@)
            &&& start_seconds > 0 ==> args.contains("--start-time="@ + decimal(start_seconds as int))
            &&& lang.len() > 0 ==> args.contains("--sub-language="@ + lang)
        }),
{
    let whole = before + lang + after;
    let args = launch_args(target, start_seconds, whole, port, password);
    if lang.len() > 0 {
        crate::text::law_trimmed_core(before, lang, after);
        assert(whole[before.len() as int] == lang[0]);
        assert(!blank(whole));
        assert(args[args.len() - 1] == "--sub-language="@ + lang);
    } else {
        assert forall|i: int| 0 <= i < whole.len() implies #[trigger] crate::text::white_space(
            whole[i],
        ) by {
            if i < before.len() {
                assert(crate::text::white_space(before[i]));
            } else {
                assert(crate::text::white_space(after[i - before.len()]));
            }
        }
    }
    assert(args[1] == "--extraintf=http"@);
    assert(args[2] == "--http-port="@ + decimal(port as int));
    assert(args[3] == "--http-password="@ + password);
    assert(args[4] == "--no-video-title-show"@);
    if start_seconds > 0 {
        assert(args[5] == "--start-time="@ + decimal(start_seconds as int));
    }
}

/// The position that a reply reports is its `time`, the length its `length`; what is
/// missing counts as zero.
pub proof fn law_status_read(reply: Value, time: i64, length: i64)
    ensures
        integer_field(reply, "time"@) == Some(time) ==> status_in(reply).time_seconds == time,
        integer_field(reply, "length"@) == Some(length) ==> status_in(reply).length_seconds
            == length,
        integer_field(reply, "time"@) is None ==> status_in(reply).time_seconds == 0,
        integer_field(reply, "length"@) is None ==> status_in(reply).length_seconds == 0,
{
}

} // verus!
