//! Sound effects for session state changes: the sound configuration and
//! its profile overrides, which sound a transition plays, and checks on
//! sound names.

use crate::environment::joined;
use crate::paths::{file_name, file_name_spec, join, join_spec};
use crate::session::Status;
use crate::text::{chars_eq, chars_of, extend_chars, last_index_of, rfind_char, string_of};
use vstd::prelude::*;

verus! {

/// How the sound for a transition is picked.
#[derive(Debug, Clone, PartialEq, Eq)]
pub enum SoundMode {
    /// A random one of the installed sounds.
    Random,
    /// Always the named sound.
    Specific(String),
}

/// Sound settings.
#[derive(Debug, Clone)]
pub struct SoundConfig {
    pub enabled: bool,
    pub mode: SoundMode,
    /// Sound for a session starting (takes precedence over the mode).
    pub on_start: Option<String>,
    /// Sound for a session entering the running state.
    pub on_running: Option<String>,
    /// Sound for a session entering the waiting state.
    pub on_waiting: Option<String>,
    /// Sound for a session entering the idle state.
    pub on_idle: Option<String>,
    /// Sound for a session entering the error state.
    pub on_error: Option<String>,
}

/// Profile override of the sound settings; `None` keeps the inherited
/// value.
#[derive(Debug, Clone)]
pub struct SoundConfigOverride {
    pub enabled: Option<bool>,
    pub mode: Option<SoundMode>,
    pub on_start: Option<String>,
    pub on_running: Option<String>,
    pub on_waiting: Option<String>,
    pub on_idle: Option<String>,
    pub on_error: Option<String>,
}

impl Default for SoundConfig {
    /// Disabled, random mode, no per-transition sounds.
    fn default() -> (c: SoundConfig)
        ensures
            !c.enabled,
            c.mode == SoundMode::Random,
            c.on_start is None,
            c.on_running is None,
            c.on_waiting is None,
            c.on_idle is None,
            c.on_error is None,
    {
        SoundConfig {
            enabled: false,
            mode: SoundMode::Random,
            on_start: None,
            on_running: None,
            on_waiting: None,
            on_idle: None,
            on_error: None,
        }
    }
}

impl Default for SoundConfigOverride {
    /// Overrides nothing.
    fn default() -> (o: SoundConfigOverride)
        ensures
            o == no_override(),
    {
        SoundConfigOverride {
            enabled: None,
            mode: None,
            on_start: None,
            on_running: None,
            on_waiting: None,
            on_idle: None,
            on_error: None,
        }
    }
}

/// The override that changes nothing.
pub open spec fn no_override() -> SoundConfigOverride {
    SoundConfigOverride {
        enabled: None,
        mode: None,
        on_start: None,
        on_running: None,
        on_waiting: None,
        on_idle: None,
        on_error: None,
    }
}

/// `source` if it is set, else `target`.
pub open spec fn pick<T>(target: T, source: Option<T>) -> T {
    match source {
        Some(v) => v,
        None => target,
    }
}

/// `source` if it is set, else `target` (for optional fields).
pub open spec fn pick_opt<T>(target: Option<T>, source: Option<T>) -> Option<T> {
    if source is Some {
        source
    } else {
        target
    }
}

/// The settings after applying an override: every field the override
/// sets replaces the inherited one.
pub open spec fn overridden(target: SoundConfig, source: SoundConfigOverride) -> SoundConfig {
    SoundConfig {
        enabled: pick(target.enabled, source.enabled),
        mode: pick(target.mode, source.mode),
        on_start: pick_opt(target.on_start, source.on_start),
        on_running: pick_opt(target.on_running, source.on_running),
        on_waiting: pick_opt(target.on_waiting, source.on_waiting),
        on_idle: pick_opt(target.on_idle, source.on_idle),
        on_error: pick_opt(target.on_error, source.on_error),
    }
}

fn copy_mode(m: &SoundMode) -> (r: SoundMode)
    ensures
        r == *m,
{
    match m {
        SoundMode::Random => SoundMode::Random,
        SoundMode::Specific(s) => SoundMode::Specific(s.clone()),
    }
}

fn copy_opt(o: &Option<String>) -> (r: Option<String>)
    ensures
        r == *o,
{
    match o {
        Some(s) => Some(s.clone()),
        None => None,
    }
}

/// Applies a profile override to sound settings.
pub fn apply_sound_overrides(target: &mut SoundConfig, source: &SoundConfigOverride)
    ensures
        *final(target) == overridden(*old(target), *source),
{
    if let Some(enabled) = source.enabled {
        target.enabled = enabled;
    }
    if let Some(mode) = &source.mode {
        target.mode = copy_mode(mode);
    }
    if source.on_start.is_some() {
        target.on_start = copy_opt(&source.on_start);
    }
    if source.on_running.is_some() {
        target.on_running = copy_opt(&source.on_running);
    }
    if source.on_waiting.is_some() {
        target.on_waiting = copy_opt(&source.on_waiting);
    }
    if source.on_idle.is_some() {
        target.on_idle = copy_opt(&source.on_idle);
    }
    if source.on_error.is_some() {
        target.on_error = copy_opt(&source.on_error);
    }
}

/// Applying an override that sets nothing leaves the settings as they
/// are.
pub proof fn empty_override_changes_nothing(target: SoundConfig)
    ensures
        overridden(target, no_override()) == target,
{
}

/// Applying the same override twice gives what applying it once gives.
pub proof fn override_is_idempotent(target: SoundConfig, source: SoundConfigOverride)
    ensures
        overridden(overridden(target, source), source) == overridden(target, source),
{
}

/// Applying `a` then `b` gives what `a` with `b`'s fields laid over it
/// gives.
pub proof fn overrides_compose(target: SoundConfig, a: SoundConfigOverride, b: SoundConfigOverride)
    ensures
        overridden(overridden(target, a), b) == overridden(
            target,
            SoundConfigOverride {
                enabled: pick_opt(a.enabled, b.enabled),
                mode: pick_opt(a.mode, b.mode),
                on_start: pick_opt(a.on_start, b.on_start),
                on_running: pick_opt(a.on_running, b.on_running),
                on_waiting: pick_opt(a.on_waiting, b.on_waiting),
                on_idle: pick_opt(a.on_idle, b.on_idle),
                on_error: pick_opt(a.on_error, b.on_error),
            },
        ),
{
}

/// The directory sounds are stored in, below the application directory.
pub fn get_sounds_dir(app_dir: Option<&str>) -> (r: Option<String>)
    ensures
        match app_dir {
            Some(d) => r matches Some(s) && s@ == join_spec(d@, "sounds"@),
            None => r is None,
        },
{
    match app_dir {
        Some(d) => Some(string_of(&join(&chars_of(d), &chars_of("sounds")))),
        None => None,
    }
}

/// The sound name a non-random choice yields: a non-empty per-transition
/// override, else the mode's specific sound.  `None` when neither
/// applies (random mode with no override).
pub open spec fn fixed_sound(override_name: Option<Seq<char>>, mode: SoundMode) -> Option<Seq<char>> {
    match override_name {
        Some(n) if n.len() > 0 => Some(n),
        _ => match mode {
            SoundMode::Specific(name) => Some(name@),
            SoundMode::Random => None,
        },
    }
}

/// `r` is the sound a choice yields: the fixed sound when there is one;
/// otherwise one of `available`, or none when `available` is empty.
pub open spec fn sound_choice(r: Option<String>, fixed: Option<Seq<char>>, available: Seq<String>) -> bool {
    match fixed {
        Some(f) => match r {
            Some(s) => s@ == f,
            None => false,
        },
        None => if available.len() == 0 {
            r is None
        } else {
            match r {
                Some(s) => exists|i: int| 0 <= i < available.len() && available[i] == s,
                None => false,
            }
        },
    }
}

/// Which sound to play: a non-empty per-transition override, else the
/// mode's specific sound, else (random mode) one of the `available`
/// sounds drawn at random, or none when there are none.
pub fn resolve_sound_name(override_name: Option<&str>, config: &SoundConfig, available: &[String]) -> (r:
    Option<String>)
    ensures
        sound_choice(
            r,
            fixed_sound(
                match override_name {
                    Some(n) => Some(n@),
                    None => None,
                },
                config.mode,
            ),
            available@,
        ),
{
    if let Some(name) = override_name {
        if name.unicode_len() > 0 {
            return Some(name.to_string());
        }
    }
    match &config.mode {
        SoundMode::Specific(name) => Some(name.clone()),
        SoundMode::Random => {
            match crate::random::pick(available) {
                Some(name) => Some(name.clone()),
                None => None,
            }
        },
    }
}

/// The per-transition override for entering `new`, and whether entering
/// `new` plays anything at all.
pub open spec fn transition_override(config: SoundConfig, new: Status) -> (bool, Option<Seq<char>>) {
    let view = |o: Option<String>|
        match o {
            Some(s) => Some(s@),
            None => None,
        };
    match new {
        Status::Starting => (true, view(config.on_start)),
        Status::Running => (true, view(config.on_running)),
        Status::Waiting => (true, view(config.on_waiting)),
        Status::Idle => (true, view(config.on_idle)),
        Status::Error => (true, view(config.on_error)),
        _ => (false, None),
    }
}

/// The sound to play when a session goes from `old` to `new`: nothing
/// when sounds are disabled, the status did not change, or the new status
/// is unknown, stopped or deleting; otherwise the sound
/// [`resolve_sound_name`] picks with the override for the new status.
pub fn play_for_transition(old: Status, new: Status, config: &SoundConfig, available: &[String]) -> (r:
    Option<String>)
    ensures
        !config.enabled || old == new || !transition_override(*config, new).0 ==> r is None,
        config.enabled && old != new && transition_override(*config, new).0 ==> sound_choice(
            r,
            fixed_sound(transition_override(*config, new).1, config.mode),
            available@,
        ),
        transition_played(old, new, *config, available@, r),
{
    if !config.enabled || old == new {
        return None;
    }
    let override_name: Option<&str> = match new {
        Status::Starting => match &config.on_start {
            Some(s) => Some(s.as_str()),
            None => None,
        },
        Status::Running => match &config.on_running {
            Some(s) => Some(s.as_str()),
            None => None,
        },
        Status::Waiting => match &config.on_waiting {
            Some(s) => Some(s.as_str()),
            None => None,
        },
        Status::Idle => match &config.on_idle {
            Some(s) => Some(s.as_str()),
            None => None,
        },
        Status::Error => match &config.on_error {
            Some(s) => Some(s.as_str()),
            None => None,
        },
        Status::Unknown => return None,
        Status::Stopped => return None,
        Status::Deleting => return None,
    };
    resolve_sound_name(override_name, config, available)
}

/// The message when no sound is installed.
pub open spec fn no_sounds_message() -> Seq<char> {
    "No sounds installed. Run 'aoe sounds install' or add your own .wav/.ogg files."@
}

/// The message when `filename` is not among `available`.
pub open spec fn sound_not_found_message(filename: Seq<char>, available: Seq<Seq<char>>) -> Seq<char> {
    "Sound '"@ + filename + "' not found. Available sounds: "@ + joined(available, ", "@)
}

/// Whether a sound setting is acceptable given the `available` sound
/// files: an empty name always is; otherwise some sound must be installed
/// and the name must be one of them.
pub open spec fn sound_check(filename: Seq<char>, available: Seq<Seq<char>>) -> Result<(), Seq<char>> {
    if filename.len() == 0 {
        Ok(())
    } else if available.len() == 0 {
        Err(no_sounds_message())
    } else if !available.contains(filename) {
        Err(sound_not_found_message(filename, available))
    } else {
        Ok(())
    }
}

/// Checks a sound setting against the installed sound files.
pub fn validate_sound_exists(filename: &str, available: &[String]) -> (r: Result<(), String>)
    ensures
        match sound_check(filename@, available@.map_values(|s: String| s@)) {
            Ok(()) => r is Ok,
            Err(m) => r matches Err(e) && e@ == m,
        },
{
    proof {
        reveal_strlit("Sound '");
        reveal_strlit("' not found. Available sounds: ");
        reveal_strlit(", ");
    }
    let ghost av = available@.map_values(|s: String| s@);
    let name = chars_of(filename);
    if name.len() == 0 {
        return Ok(());
    }
    if available.len() == 0 {
        return Err(
            "No sounds installed. Run 'aoe sounds install' or add your own .wav/.ogg files.".to_string(),
        );
    }
    let mut i: usize = 0;
    while i < available.len()
        invariant
            i <= available@.len(),
            name@ == filename@,
            av == available@.map_values(|s: String| s@),
            forall|k: int| 0 <= k < i ==> av[k] != filename@,
        decreases available@.len() - i,
    {
        if chars_eq(&chars_of(available[i].as_str()), &name) {
            assert(av[i as int] == filename@);
            assert(av.contains(filename@));
            return Ok(());
        }
        i += 1;
    }
    assert(!av.contains(filename@)) by {
        if av.contains(filename@) {
            let k = choose|k: int| 0 <= k < av.len() && av[k] == filename@;
            assert(av[k] != filename@);
        }
    }
    let mut msg = chars_of("Sound '");
    extend_chars(&mut msg, &name);
    extend_chars(&mut msg, &chars_of("' not found. Available sounds: "));
    let sep = chars_of(", ");
    let mut j: usize = 0;
    let ghost head = msg@;
    while j < available.len()
        invariant
            j <= available@.len(),
            sep@ == ", "@,
            av == available@.map_values(|s: String| s@),
            msg@ == head + joined(av.take(j as int), ", "@),
        decreases available@.len() - j,
    {
        if j > 0 {
            extend_chars(&mut msg, &sep);
        }
        extend_chars(&mut msg, &chars_of(available[j].as_str()));
        assert(av.take(j + 1).drop_last() =~= av.take(j as int));
        if j == 0 {
            assert(av.take(1) =~= seq![av[0]]);
        }
        assert(msg@ =~= head + joined(av.take(j + 1), ", "@));
        j += 1;
    }
    assert(av.take(available@.len() as int) =~= av);
    Err(string_of(&msg))
}

// ----------------------------------------------------------------------
// Bundled sounds
// ----------------------------------------------------------------------

/// Where the bundled sounds are downloaded from.
pub open spec fn sounds_base_url() -> Seq<char> {
    "https://raw.githubusercontent.com/njbrake/agent-of-empires/main/bundled_sounds"@
}

/// The sound files that come with the program.
pub open spec fn bundled_files() -> Seq<Seq<char>> {
    seq![
        "start.wav"@,
        "running.wav"@,
        "waiting.wav"@,
        "idle.wav"@,
        "error.wav"@,
        "spell.wav"@,
        "coins.wav"@,
        "metal.wav"@,
        "chain.wav"@,
        "gem.wav"@,
    ]
}

/// The sound files that come with the program, in download order.
pub fn bundled_sound_files() -> (r: Vec<&'static str>)
    ensures
        r@.map_values(|s: &str| s@) == bundled_files(),
{
    let r = vec![
        "start.wav",
        "running.wav",
        "waiting.wav",
        "idle.wav",
        "error.wav",
        "spell.wav",
        "coins.wav",
        "metal.wav",
        "chain.wav",
        "gem.wav",
    ];
    assert(r@.map_values(|s: &str| s@) =~= bundled_files());
    r
}

/// The download address of the bundled sound `filename`.
pub fn bundled_sound_url(filename: &str) -> (r: String)
    ensures
        r@ == sounds_base_url() + "/"@ + filename@,
{
    proof {
        reveal_strlit("/");
    }
    let mut u = chars_of("https://raw.githubusercontent.com/njbrake/agent-of-empires/main/bundled_sounds");
    extend_chars(&mut u, &chars_of("/"));
    extend_chars(&mut u, &chars_of(filename));
    string_of(&u)
}

/// The message when some bundled sounds could not be downloaded.
pub open spec fn download_failure_message(failed: Seq<Seq<char>>) -> Seq<char> {
    "Failed to download "@ + crate::civilizations::decimal_digits(failed.len()) + " sound(s): "@ + joined(
        failed,
        ", "@,
    )
}

/// The outcome of installing the bundled sounds, given the files that
/// failed: success where none did, else an error naming how many and
/// which.
pub fn install_outcome(failed: &Vec<String>) -> (r: Result<(), String>)
    ensures
        failed@.len() == 0 ==> r is Ok,
        failed@.len() > 0 ==> (r matches Err(e) && e@ == download_failure_message(
            failed@.map_values(|s: String| s@),
        )),
{
    proof {
        reveal_strlit(", ");
    }
    if failed.len() == 0 {
        return Ok(());
    }
    let ghost fv = failed@.map_values(|s: String| s@);
    let mut msg = chars_of("Failed to download ");
    let count = crate::civilizations::u64_to_decimal(failed.len() as u64);
    extend_chars(&mut msg, &count);
    extend_chars(&mut msg, &chars_of(" sound(s): "));
    let sep = chars_of(", ");
    let ghost head = msg@;
    let mut j: usize = 0;
    while j < failed.len()
        invariant
            j <= failed@.len(),
            sep@ == ", "@,
            fv == failed@.map_values(|s: String| s@),
            msg@ == head + joined(fv.take(j as int), ", "@),
        decreases failed@.len() - j,
    {
        if j > 0 {
            extend_chars(&mut msg, &sep);
        }
        extend_chars(&mut msg, &chars_of(failed[j].as_str()));
        assert(fv.take(j + 1).drop_last() =~= fv.take(j as int));
        if j == 0 {
            assert(fv.take(1) =~= seq![fv[0]]);
        }
        assert(msg@ =~= head + joined(fv.take(j + 1), ", "@));
        j += 1;
    }
    assert(fv.take(failed@.len() as int) =~= fv);
    assert(fv.len() == failed@.len());
    Err(string_of(&msg))
}

// ----------------------------------------------------------------------
// Sound files and the audio player
// ----------------------------------------------------------------------

/// The extension of a file name as `Path::extension` reads it: the text
/// after the last `.`, none where there is no `.` or the only one starts
/// the name.
pub open spec fn extension_of(name: Seq<char>) -> Option<Seq<char>> {
    match last_index_of(name, '.') {
        Some(i) => if i == 0 {
            None
        } else {
            Some(name.skip(i + 1))
        },
        None => None,
    }
}

/// `c` with ASCII capitals lowered.
pub open spec fn ascii_lower(c: char) -> char {
    if 'A' <= c && c <= 'Z' {
        ((c as u8) + 32) as char
    } else {
        c
    }
}

/// `a` and `b` are equal ignoring ASCII case.
pub open spec fn eq_ignore_ascii_case(a: Seq<char>, b: Seq<char>) -> bool {
    a.len() == b.len() && forall|i: int| 0 <= i < a.len() ==> ascii_lower(#[trigger] a[i]) == ascii_lower(b[i])
}

/// A sound file: its extension is `wav` or `ogg`, in any case.
pub open spec fn is_sound_file(name: Seq<char>) -> bool {
    match extension_of(name) {
        Some(e) => eq_ignore_ascii_case(e, "wav"@) || eq_ignore_ascii_case(e, "ogg"@),
        None => false,
    }
}

/// The sound files among `names`, in their order.
pub open spec fn sound_files(names: Seq<Seq<char>>) -> Seq<Seq<char>>
    decreases names.len(),
{
    if names.len() == 0 {
        names
    } else {
        let rest = sound_files(names.drop_last());
        if is_sound_file(names.last()) {
            rest.push(names.last())
        } else {
            rest
        }
    }
}

/// `s` is in lexicographic character order (the order of `str`).
pub open spec fn lex_sorted(s: Seq<Seq<char>>) -> bool {
    forall|i: int, j: int| 0 <= i < j < s.len() ==> !crate::text_input::lex_lt(s[j], s[i])
}

fn lower(c: char) -> (r: char)
    ensures
        r == ascii_lower(c),
{
    if 'A' <= c && c <= 'Z' {
        let v: u8 = c as u8;
        (v + 32) as char
    } else {
        c
    }
}

fn eq_ascii_nocase(a: &Vec<char>, b: &Vec<char>) -> (r: bool)
    ensures
        r == eq_ignore_ascii_case(a@, b@),
{
    if a.len() != b.len() {
        return false;
    }
    let mut i: usize = 0;
    while i < a.len()
        invariant
            a.len() == b.len(),
            i <= a.len(),
            forall|k: int| 0 <= k < i ==> ascii_lower(#[trigger] a@[k]) == ascii_lower(b@[k]),
        decreases a.len() - i,
    {
        if lower(a[i]) != lower(b[i]) {
            return false;
        }
        i += 1;
    }
    true
}

/// Whether `name` is a sound file.
pub fn is_sound_file_name(name: &str) -> (r: bool)
    ensures
        r == is_sound_file(name@),
{
    proof {
        reveal_strlit("wav");
        reveal_strlit("ogg");
    }
    let n = chars_of(name);
    match rfind_char(&n, '.') {
        None => false,
        Some(i) => {
            if i == 0 {
                return false;
            }
            let mut ext: Vec<char> = Vec::new();
            let mut k: usize = i + 1;
            while k < n.len()
                invariant
                    i + 1 <= k <= n.len(),
                    ext@ == n@.subrange(i + 1, k as int),
                decreases n.len() - k,
            {
                ext.push(n[k]);
                k += 1;
                assert(ext@ =~= n@.subrange(i + 1, k as int));
            }
            assert(ext@ =~= n@.skip(i + 1));
            eq_ascii_nocase(&ext, &chars_of("wav")) || eq_ascii_nocase(&ext, &chars_of("ogg"))
        },
    }
}

/// The sound files among the names of a directory's entries, sorted.
pub fn sound_file_names(names: &Vec<String>) -> (r: Vec<String>)
    ensures
        lex_sorted(crate::text_input::string_seq(r@)),
        crate::text_input::string_seq(r@).to_multiset() == sound_files(
            crate::text_input::string_seq(names@),
        ).to_multiset(),
{
    broadcast use vstd::seq_lib::group_to_multiset_ensures;

    let ghost ns = crate::text_input::string_seq(names@);
    let mut out: Vec<String> = Vec::new();
    let mut i: usize = 0;
    while i < names.len()
        invariant
            i <= names@.len(),
            ns == crate::text_input::string_seq(names@),
            lex_sorted(crate::text_input::string_seq(out@)),
            crate::text_input::string_seq(out@).to_multiset() == sound_files(ns.take(i as int)).to_multiset(),
        decreases names@.len() - i,
    {
        assert(ns.take(i + 1).drop_last() =~= ns.take(i as int));
        assert(ns.take(i + 1).last() == ns[i as int]);
        if is_sound_file_name(names[i].as_str()) {
            let c = chars_of(names[i].as_str());
            let ghost before = crate::text_input::string_seq(out@);
            let mut pos: usize = 0;
            while pos < out.len() && !crate::text_input::lex_less(&c, &chars_of(out[pos].as_str()))
                invariant
                    pos <= out@.len(),
                    i < names@.len(),
                    ns == crate::text_input::string_seq(names@),
                    c@ == ns[i as int],
                    before == crate::text_input::string_seq(out@),
                    forall|k: int| 0 <= k < pos ==> !crate::text_input::lex_lt(c@, #[trigger] before[k]),
                decreases out@.len() - pos,
            {
                pos += 1;
            }
            proof {
                crate::text_input::lemma_lex_total(before, c@, pos as int);
            }
            out.insert(pos, names[i].clone());
            proof {
                assert(crate::text_input::string_seq(out@) =~= before.insert(pos as int, c@));
                crate::text_input::lemma_insert_sorted(before, c@, pos as int);
                assert(sound_files(ns.take(i + 1)) == sound_files(ns.take(i as int)).push(c@));
                vstd::seq_lib::to_multiset_insert(before, pos as int, c@);
                vstd::seq_lib::to_multiset_build(sound_files(ns.take(i as int)), c@);
            }
        } else {
            assert(sound_files(ns.take(i + 1)) == sound_files(ns.take(i as int)));
        }
        i += 1;
    }
    assert(ns.take(names@.len() as int) =~= ns);
    out
}

/// The program that plays a sound file: `afplay` on macOS; elsewhere,
/// for `.ogg` files `paplay`, else `aplay`; for other files `aplay`, else
/// `paplay`; none where neither is installed.
pub open spec fn audio_player(is_macos: bool, path: Seq<char>, has_paplay: bool, has_aplay: bool) -> Option<Seq<char>> {
    let ogg = match extension_of(path) {
        Some(e) => eq_ignore_ascii_case(e, "ogg"@),
        None => false,
    };
    if is_macos {
        Some("afplay"@)
    } else if ogg {
        if has_paplay {
            Some("paplay"@)
        } else if has_aplay {
            Some("aplay"@)
        } else {
            None
        }
    } else if has_aplay {
        Some("aplay"@)
    } else if has_paplay {
        Some("paplay"@)
    } else {
        None
    }
}

/// The message when no audio player is installed.
pub open spec fn no_player_message() -> Seq<char> {
    "No audio player found. Install alsa-utils (aplay) or pulseaudio-utils (paplay)"@
}

/// Picks the program that plays the sound file at `path`, given the
/// platform and which players are installed.
pub fn get_audio_command(is_macos: bool, path: &str, has_paplay: bool, has_aplay: bool) -> (r: Result<&'static str, String>)
    ensures
        match audio_player(is_macos, path@, has_paplay, has_aplay) {
            Some(p) => r matches Ok(c) && c@ == p,
            None => r matches Err(e) && e@ == no_player_message(),
        },
{
    proof {
        reveal_strlit("ogg");
        reveal_strlit("afplay");
        reveal_strlit("paplay");
        reveal_strlit("aplay");
    }
    if is_macos {
        return Ok("afplay");
    }
    let n = chars_of(path);
    let ogg = match rfind_char(&n, '.') {
        None => false,
        Some(i) => {
            if i == 0 {
                false
            } else {
                let mut ext: Vec<char> = Vec::new();
                let mut k: usize = i + 1;
                while k < n.len()
                    invariant
                        i + 1 <= k <= n.len(),
                        ext@ == n@.subrange(i + 1, k as int),
                    decreases n.len() - k,
                {
                    ext.push(n[k]);
                    k += 1;
                    assert(ext@ =~= n@.subrange(i + 1, k as int));
                }
                assert(ext@ =~= n@.skip(i + 1));
                eq_ascii_nocase(&ext, &chars_of("ogg"))
            }
        },
    };
    if ogg {
        if has_paplay {
            Ok("paplay")
        } else if has_aplay {
            Ok("aplay")
        } else {
            Err("No audio player found. Install alsa-utils (aplay) or pulseaudio-utils (paplay)".to_string())
        }
    } else if has_aplay {
        Ok("aplay")
    } else if has_paplay {
        Ok("paplay")
    } else {
        Err("No audio player found. Install alsa-utils (aplay) or pulseaudio-utils (paplay)".to_string())
    }
}

/// `r` is what `play_for_transition` may give for a session going from
/// `old` to `new`.
pub open spec fn transition_played(old: Status, new: Status, config: SoundConfig, available: Seq<String>, r: Option<String>) -> bool {
    &&& !config.enabled || old == new || !transition_override(config, new).0 ==> r is None
    &&& config.enabled && old != new && transition_override(config, new).0 ==> sound_choice(
        r,
        fixed_sound(transition_override(config, new).1, config.mode),
        available,
    )
}

/// The non-empty sound configured under `o`, if any.
pub open spec fn configured(o: Option<String>) -> Option<Seq<char>> {
    match o {
        Some(s) => if s@.len() > 0 {
            Some(s@)
        } else {
            None
        },
        None => None,
    }
}

/// Entering a status plays the sound configured for that very status:
/// with sounds enabled, a session that enters Starting, Running, Waiting,
/// Idle or Error plays the non-empty sound set under `on_start`,
/// `on_running`, `on_waiting`, `on_idle` or `on_error` respectively,
/// whatever the mode and the other statuses' sounds; entering Stopped,
/// Deleting or Unknown plays nothing.
pub proof fn lemma_transition_plays_the_status_sound(
    old: Status,
    new: Status,
    config: SoundConfig,
    available: Seq<String>,
    r: Option<String>,
)
    requires
        transition_played(old, new, config, available, r),
        config.enabled,
        old != new,
    ensures
        new == Status::Starting && configured(config.on_start) is Some ==> (r matches Some(s) && s@ == configured(
            config.on_start,
        )->0),
        new == Status::Running && configured(config.on_running) is Some ==> (r matches Some(s) && s@ == configured(
            config.on_running,
        )->0),
        new == Status::Waiting && configured(config.on_waiting) is Some ==> (r matches Some(s) && s@ == configured(
            config.on_waiting,
        )->0),
        new == Status::Idle && configured(config.on_idle) is Some ==> (r matches Some(s) && s@ == configured(
            config.on_idle,
        )->0),
        new == Status::Error && configured(config.on_error) is Some ==> (r matches Some(s) && s@ == configured(
            config.on_error,
        )->0),
        new == Status::Stopped || new == Status::Deleting || new == Status::Unknown ==> r is None,
{
}

} // verus!
