//! Environment variables handed to sandboxed sessions: shell escaping,
//! `$VAR` / `$$` value resolution against a snapshot of the host
//! environment, entry validation and the de-duplicated entry list.

use crate::session::{SandboxConfig, SandboxInfo};
use crate::text::{chars_of, extend_chars, is_prefix, starts_with, string_of};
use vstd::prelude::*;

verus! {

/// The escaped form of one character inside double quotes.
pub open spec fn escape_char(c: char) -> Seq<char> {
    if c == '\\' {
        seq!['\\', '\\']
    } else if c == '"' {
        seq!['\\', '"']
    } else if c == '$' {
        seq!['\\', '$']
    } else if c == '`' {
        seq!['\\', '`']
    } else if c == '\n' {
        seq!['\\', 'n']
    } else if c == '\r' {
        seq!['\\', 'r']
    } else {
        seq![c]
    }
}

/// Every character of `s` escaped.
pub open spec fn escaped(s: Seq<char>) -> Seq<char>
    decreases s.len(),
{
    if s.len() == 0 {
        Seq::empty()
    } else {
        escaped(s.drop_last()) + escape_char(s.last())
    }
}

/// `s` escaped and wrapped in double quotes.
pub open spec fn shell_escaped(s: Seq<char>) -> Seq<char> {
    seq!['"'] + escaped(s) + seq!['"']
}

proof fn lemma_escaped_no_line_breaks(s: Seq<char>)
    ensures
        !escaped(s).contains('\n'),
        !escaped(s).contains('\r'),
    decreases s.len(),
{
    if s.len() > 0 {
        lemma_escaped_no_line_breaks(s.drop_last());
        let a = escaped(s.drop_last());
        let b = escape_char(s.last());
        assert(!b.contains('\n') && !b.contains('\r'));
        assert forall|i: int| 0 <= i < (a + b).len() implies (a + b)[i] != '\n' && (a + b)[i]
            != '\r' by {
            if i < a.len() {
                assert((a + b)[i] == a[i]);
            } else {
                assert((a + b)[i] == b[i - a.len()]);
            }
        }
    }
}

/// Quotes `val` for use inside a shell command line: backslash, double
/// quote, `$` and backtick are backslash-escaped, newline and carriage
/// return become `\n` and `\r`, and the whole is put in double quotes.
/// The result holds no raw line breaks.
pub fn shell_escape(val: &str) -> (r: String)
    ensures
        r@ == shell_escaped(val@),
        !r@.contains('\n'),
        !r@.contains('\r'),
{
    let cs = chars_of(val);
    let mut out: Vec<char> = Vec::new();
    out.push('"');
    let mut i: usize = 0;
    while i < cs.len()
        invariant
            i <= cs.len(),
            cs@ == val@,
            out@ == seq!['"'] + escaped(cs@.take(i as int)),
        decreases cs.len() - i,
    {
        let c = cs[i];
        let ghost before = out@;
        if c == '\\' {
            out.push('\\');
            out.push('\\');
        } else if c == '"' {
            out.push('\\');
            out.push('"');
        } else if c == '$' {
            out.push('\\');
            out.push('$');
        } else if c == '`' {
            out.push('\\');
            out.push('`');
        } else if c == '\n' {
            out.push('\\');
            out.push('n');
        } else if c == '\r' {
            out.push('\\');
            out.push('r');
        } else {
            out.push(c);
        }
        assert(out@ =~= before + escape_char(c));
        assert(cs@.take(i + 1).drop_last() =~= cs@.take(i as int));
        i += 1;
    }
    out.push('"');
    assert(cs@.take(cs.len() as int) =~= cs@);
    proof {
        lemma_escaped_no_line_breaks(val@);
        let e = escaped(val@);
        let full = seq!['"'] + e + seq!['"'];
        assert forall|k: int| 0 <= k < full.len() implies full[k] != '\n' && full[k] != '\r' by {
            if 1 <= k < full.len() - 1 {
                assert(full[k] == e[k - 1]);
            }
        }
    }
    string_of(&out)
}

// ----------------------------------------------------------------------
// Host environment and entry values
// ----------------------------------------------------------------------

/// The value `host` (a snapshot of the host environment, first entry
/// wins) gives the variable `name`.
pub open spec fn host_var(host: Seq<(String, String)>, name: Seq<char>) -> Option<Seq<char>>
    decreases host.len(),
{
    if host.len() == 0 {
        None
    } else if host[0].0@ == name {
        Some(host[0].1@)
    } else {
        host_var(host.drop_first(), name)
    }
}

/// Looks `name` up in the host environment snapshot.
pub fn lookup_host_var(host: &Vec<(String, String)>, name: &Vec<char>) -> (r: Option<String>)
    ensures
        r matches Some(v) ==> host_var(host@, name@) == Some(v@),
        r is None ==> host_var(host@, name@) is None,
{
    let mut i: usize = 0;
    assert(host@.skip(0) =~= host@);
    while i < host.len()
        invariant
            i <= host.len(),
            host_var(host@, name@) == host_var(host@.skip(i as int), name@),
        decreases host.len() - i,
    {
        assert(host@.skip(i as int).drop_first() =~= host@.skip(i + 1));
        assert(host@.skip(i as int)[0] == host@[i as int]);
        let key = chars_of(host[i].0.as_str());
        if crate::text::chars_eq(&key, name) {
            return Some(host[i].1.clone());
        }
        i += 1;
    }
    None
}

/// What an entry value stands for: `$$rest` is the literal `$rest`,
/// `$NAME` is the host's `NAME` (nothing when unset), anything else is
/// itself.
pub open spec fn resolved_value(val: Seq<char>, host: Seq<(String, String)>) -> Option<Seq<char>> {
    if is_prefix(seq!['$', '$'], val) {
        Some(seq!['$'] + val.skip(2))
    } else if val.len() > 0 && val[0] == '$' {
        host_var(host, val.skip(1))
    } else {
        Some(val)
    }
}

fn skip_chars(v: &Vec<char>, n: usize) -> (r: Vec<char>)
    requires
        n <= v.len(),
    ensures
        r@ == v@.skip(n as int),
{
    let mut r: Vec<char> = Vec::new();
    let mut i: usize = n;
    while i < v.len()
        invariant
            n <= i <= v.len(),
            r@ == v@.subrange(n as int, i as int),
        decreases v.len() - i,
    {
        r.push(v[i]);
        i += 1;
        assert(r@ =~= v@.subrange(n as int, i as int));
    }
    assert(r@ =~= v@.skip(n as int));
    r
}

fn take_chars(v: &Vec<char>, n: usize) -> (r: Vec<char>)
    requires
        n <= v.len(),
    ensures
        r@ == v@.take(n as int),
{
    let mut r: Vec<char> = Vec::new();
    let mut i: usize = 0;
    while i < n
        invariant
            i <= n <= v.len(),
            r@ == v@.take(i as int),
        decreases n - i,
    {
        r.push(v[i]);
        i += 1;
        assert(r@ =~= v@.take(i as int));
    }
    r
}

fn dollar_dollar() -> (r: Vec<char>)
    ensures
        r@ == seq!['$', '$'],
{
    let mut r: Vec<char> = Vec::new();
    r.push('$');
    r.push('$');
    assert(r@ =~= seq!['$', '$']);
    r
}

/// Resolves an entry value against the host environment snapshot.
pub fn resolve_env_value(val: &str, host: &Vec<(String, String)>) -> (r: Option<String>)
    ensures
        r matches Some(v) ==> resolved_value(val@, host@) == Some(v@),
        r is None ==> resolved_value(val@, host@) is None,
{
    let cs = chars_of(val);
    if starts_with(&cs, &dollar_dollar()) {
        let mut out: Vec<char> = Vec::new();
        out.push('$');
        extend_chars(&mut out, &skip_chars(&cs, 2));
        Some(string_of(&out))
    } else if cs.len() > 0 && cs[0] == '$' {
        lookup_host_var(host, &skip_chars(&cs, 1))
    } else {
        Some(val.to_string())
    }
}

/// The position of the first `c` in `s`.
pub open spec fn first_index_of(s: Seq<char>, c: char) -> Option<int>
    decreases s.len(),
{
    if s.len() == 0 {
        None
    } else if s[0] == c {
        Some(0)
    } else {
        match first_index_of(s.drop_first(), c) {
            Some(i) => Some(i + 1),
            None => None,
        }
    }
}

/// Finds the first `c` in `s`.
pub fn find_char(s: &Vec<char>, c: char) -> (r: Option<usize>)
    ensures
        r matches Some(i) ==> first_index_of(s@, c) == Some(i as int) && i < s.len(),
        r is None ==> first_index_of(s@, c) is None,
{
    let mut i: usize = 0;
    assert(s@.skip(0) =~= s@);
    while i < s.len()
        invariant
            i <= s.len(),
            first_index_of(s@, c) == match first_index_of(s@.skip(i as int), c) {
                Some(j) => Some(j + i),
                None => None,
            },
        decreases s.len() - i,
    {
        assert(s@.skip(i as int).drop_first() =~= s@.skip(i + 1));
        assert(s@.skip(i as int)[0] == s@[i as int]);
        if s[i] == c {
            return Some(i);
        }
        i += 1;
    }
    assert(s@.skip(s.len() as int) =~= Seq::<char>::empty());
    None
}

/// The message for a `$` with no variable name after it.
pub open spec fn bare_dollar_warning() -> Seq<char> {
    "Warning: bare '$' in value has no variable name"@
}

/// The message for a variable the host does not set.
pub open spec fn unset_warning(shown: Seq<char>) -> Seq<char> {
    "Warning: "@ + shown + " is not set on the host -- it will be empty in the container"@
}

/// The warning an environment entry deserves, if any: `KEY=$NAME` with an
/// empty or unset `NAME`, or a bare `KEY` the host does not set.
pub open spec fn entry_warning(entry: Seq<char>, host: Seq<(String, String)>) -> Option<Seq<char>> {
    match first_index_of(entry, '=') {
        Some(i) => {
            let value = entry.skip(i + 1);
            if is_prefix(seq!['$', '$'], value) {
                None
            } else if value.len() > 0 && value[0] == '$' {
                let name = value.skip(1);
                if name.len() == 0 {
                    Some(bare_dollar_warning())
                } else if host_var(host, name) is None {
                    Some(unset_warning(seq!['$'] + name))
                } else {
                    None
                }
            } else {
                None
            }
        },
        None => if host_var(host, entry) is None {
            Some(unset_warning(entry))
        } else {
            None
        },
    }
}

fn unset_warning_exec(shown: &Vec<char>) -> (r: String)
    ensures
        r@ == unset_warning(shown@),
{
    proof {
        reveal_strlit("Warning: ");
        reveal_strlit(" is not set on the host -- it will be empty in the container");
    }
    let mut r = "Warning: ".to_string();
    r.append(string_of(shown).as_str());
    r.append(" is not set on the host -- it will be empty in the container");
    r
}

/// Checks an environment entry against the host environment snapshot and
/// returns the warning it deserves, if any.
pub fn validate_env_entry(entry: &str, host: &Vec<(String, String)>) -> (r: Option<String>)
    ensures
        r matches Some(w) ==> entry_warning(entry@, host@) == Some(w@),
        r is None ==> entry_warning(entry@, host@) is None,
{
    proof {
        reveal_strlit("Warning: bare '$' in value has no variable name");
    }
    let cs = chars_of(entry);
    match find_char(&cs, '=') {
        Some(i) => {
            let value = skip_chars(&cs, i + 1);
            if starts_with(&value, &dollar_dollar()) {
                None
            } else if value.len() > 0 && value[0] == '$' {
                let name = skip_chars(&value, 1);
                if name.len() == 0 {
                    Some("Warning: bare '$' in value has no variable name".to_string())
                } else {
                    match lookup_host_var(host, &name) {
                        None => {
                            let mut shown: Vec<char> = Vec::new();
                            shown.push('$');
                            extend_chars(&mut shown, &name);
                            Some(unset_warning_exec(&shown))
                        },
                        Some(_) => None,
                    }
                }
            } else {
                None
            }
        },
        None => match lookup_host_var(host, &cs) {
            None => Some(unset_warning_exec(&cs)),
            Some(_) => None,
        },
    }
}

// ----------------------------------------------------------------------
// Collecting the environment of a sandbox
// ----------------------------------------------------------------------

/// The key an entry sets: the part before the first `=`, or the whole
/// entry.
pub open spec fn entry_key(e: Seq<char>) -> Seq<char> {
    match first_index_of(e, '=') {
        Some(i) => e.take(i),
        None => e,
    }
}

/// The value an entry gives its key, if it gives one.
pub open spec fn entry_value(e: Seq<char>, host: Seq<(String, String)>) -> Option<Seq<char>> {
    match first_index_of(e, '=') {
        Some(i) => resolved_value(e.skip(i + 1), host),
        None => host_var(host, e),
    }
}

/// The keys seen and the (key, value) pairs kept after going through
/// `entries` in order: the first entry naming a key decides it; a later
/// entry with the same key is ignored, even when the first gave no value.
pub open spec fn collected(entries: Seq<Seq<char>>, host: Seq<(String, String)>) -> (
    Seq<Seq<char>>,
    Seq<(Seq<char>, Seq<char>)>,
)
    decreases entries.len(),
{
    if entries.len() == 0 {
        (Seq::empty(), Seq::empty())
    } else {
        let (seen, kept) = collected(entries.drop_last(), host);
        let k = entry_key(entries.last());
        if seen.contains(k) {
            (seen, kept)
        } else {
            (
                seen.push(k),
                match entry_value(entries.last(), host) {
                    Some(v) => kept.push((k, v)),
                    None => kept,
                },
            )
        }
    }
}

/// Terminal variables always passed through from the host.
pub open spec fn terminal_env_vars() -> Seq<Seq<char>> {
    seq!["TERM"@, "COLORTERM"@, "FORCE_COLOR"@, "NO_COLOR"@]
}

/// The views of a list of strings.
pub open spec fn string_views(v: Seq<String>) -> Seq<Seq<char>> {
    v.map_values(|s: String| s@)
}

/// The views of a list of string pairs.
pub open spec fn pair_views(v: Seq<(String, String)>) -> Seq<(Seq<char>, Seq<char>)> {
    v.map_values(|p: (String, String)| (p.0@, p.1@))
}

/// The entries a sandbox uses: its own when it has them, else the
/// configured ones.
pub open spec fn sandbox_entries(config: SandboxConfig, info: SandboxInfo) -> Seq<Seq<char>> {
    match info.extra_env {
        Some(v) => string_views(v@),
        None => string_views(config.environment@),
    }
}

/// The environment of a sandbox: the terminal variables, then its
/// entries, each key decided by its first occurrence.
pub open spec fn sandbox_environment(
    config: SandboxConfig,
    info: SandboxInfo,
    host: Seq<(String, String)>,
) -> Seq<(Seq<char>, Seq<char>)> {
    collected(terminal_env_vars() + sandbox_entries(config, info), host).1
}

fn seen_contains(seen: &Vec<Vec<char>>, k: &Vec<char>) -> (r: bool)
    ensures
        r == crate::text::views(seen@).contains(k@),
{
    let mut i: usize = 0;
    while i < seen.len()
        invariant
            i <= seen.len(),
            forall|j: int| 0 <= j < i ==> seen@[j]@ != k@,
        decreases seen.len() - i,
    {
        if crate::text::chars_eq(&seen[i], k) {
            assert(crate::text::views(seen@)[i as int] == k@);
            return true;
        }
        i += 1;
    }
    assert(!crate::text::views(seen@).contains(k@)) by {
        if crate::text::views(seen@).contains(k@) {
            let j = choose|j: int| 0 <= j < seen.len() && crate::text::views(seen@)[j] == k@;
            assert(seen@[j]@ == k@);
        }
    }
    false
}

fn collect_step(
    entry: &Vec<char>,
    host: &Vec<(String, String)>,
    seen: &mut Vec<Vec<char>>,
    kept: &mut Vec<(String, String)>,
)
    ensures
        ({
            let k = entry_key(entry@);
            if crate::text::views(old(seen)@).contains(k) {
                final(seen)@ == old(seen)@ && final(kept)@ == old(kept)@
            } else {
                crate::text::views(final(seen)@) == crate::text::views(old(seen)@).push(k)
                    && pair_views(final(kept)@) == match entry_value(entry@, host@) {
                    Some(v) => pair_views(old(kept)@).push((k, v)),
                    None => pair_views(old(kept)@),
                }
            }
        }),
{
    let (key, value) = match find_char(entry, '=') {
        Some(i) => {
            let key = take_chars(entry, i);
            let v = skip_chars(entry, i + 1);
            (key, resolve_env_value(string_of(&v).as_str(), host))
        },
        None => (entry.clone(), lookup_host_var(host, entry)),
    };
    assert(key@ == entry_key(entry@));
    if seen_contains(seen, &key) {
        return ;
    }
    let ghost old_seen = seen@;
    let ghost old_kept = kept@;
    let key_string = string_of(&key);
    seen.push(key);
    assert(crate::text::views(seen@) =~= crate::text::views(old_seen).push(key@));
    match value {
        Some(v) => {
            kept.push((key_string, v));
            assert(pair_views(kept@) =~= pair_views(old_kept).push((key@, v@)));
        },
        None => {},
    }
}

/// The environment pairs for a sandbox: the terminal variables (`TERM`,
/// `COLORTERM`, `FORCE_COLOR`, `NO_COLOR`) passed through from the host,
/// then the sandbox's own entries (or the configured ones when it has
/// none), resolved against the host snapshot; the first entry naming a
/// key decides it.
pub fn collect_environment(
    sandbox_config: &SandboxConfig,
    sandbox_info: &SandboxInfo,
    host: &Vec<(String, String)>,
) -> (r: Vec<(String, String)>)
    ensures
        pair_views(r@) == sandbox_environment(*sandbox_config, *sandbox_info, host@),
{
    proof {
        reveal_strlit("TERM");
        reveal_strlit("COLORTERM");
        reveal_strlit("FORCE_COLOR");
        reveal_strlit("NO_COLOR");
    }
    let mut all: Vec<Vec<char>> = Vec::new();
    all.push(chars_of("TERM"));
    all.push(chars_of("COLORTERM"));
    all.push(chars_of("FORCE_COLOR"));
    all.push(chars_of("NO_COLOR"));
    assert(crate::text::views(all@) =~= terminal_env_vars());
    let entries: &Vec<String> = match &sandbox_info.extra_env {
        Some(v) => v,
        None => &sandbox_config.environment,
    };
    let mut j: usize = 0;
    while j < entries.len()
        invariant
            j <= entries.len(),
            crate::text::views(all@) == terminal_env_vars() + string_views(entries@).take(j as int),
        decreases entries.len() - j,
    {
        let ghost before = crate::text::views(all@);
        let e = chars_of(entries[j].as_str());
        all.push(e);
        assert(crate::text::views(all@) =~= before.push(entries@[j as int]@));
        assert(string_views(entries@).take(j + 1) =~= string_views(entries@).take(j as int).push(
            entries@[j as int]@,
        ));
        j += 1;
    }
    assert(string_views(entries@).take(entries.len() as int) =~= string_views(entries@));
    assert(crate::text::views(all@) == terminal_env_vars() + sandbox_entries(
        *sandbox_config,
        *sandbox_info,
    ));
    let mut seen: Vec<Vec<char>> = Vec::new();
    let mut kept: Vec<(String, String)> = Vec::new();
    let mut i: usize = 0;
    while i < all.len()
        invariant
            i <= all.len(),
            collected(crate::text::views(all@).take(i as int), host@) == (
                crate::text::views(seen@),
                pair_views(kept@),
            ),
        decreases all.len() - i,
    {
        let ghost pre = crate::text::views(all@).take(i as int);
        let ghost post = crate::text::views(all@).take(i + 1);
        assert(post.drop_last() =~= pre);
        assert(post.last() == all@[i as int]@);
        collect_step(&all[i], host, &mut seen, &mut kept);
        i += 1;
    }
    assert(crate::text::views(all@).take(all.len() as int) =~= crate::text::views(all@));
    kept
}

/// `parts` joined with `sep` between consecutive ones.
pub open spec fn joined(parts: Seq<Seq<char>>, sep: Seq<char>) -> Seq<char>
    decreases parts.len(),
{
    if parts.len() == 0 {
        Seq::empty()
    } else if parts.len() == 1 {
        parts[0]
    } else {
        joined(parts.drop_last(), sep) + sep + parts.last()
    }
}

/// One `docker exec` environment flag.
pub open spec fn env_flag(key: Seq<char>, value: Seq<char>) -> Seq<char> {
    "-e "@ + key + seq!['='] + shell_escaped(value)
}

/// The `docker exec` flags for a list of pairs, separated by spaces.
pub open spec fn env_flags(pairs: Seq<(Seq<char>, Seq<char>)>) -> Seq<char> {
    joined(pairs.map_values(|p: (Seq<char>, Seq<char>)| env_flag(p.0, p.1)), seq![' '])
}

/// Renders environment pairs as `-e KEY="value"` flags for `docker exec`,
/// values shell-escaped.
pub fn docker_env_flags(pairs: &Vec<(String, String)>) -> (r: String)
    ensures
        r@ == env_flags(pair_views(pairs@)),
{
    proof {
        reveal_strlit("-e ");
    }
    let ghost ps = pair_views(pairs@);
    let ghost flags = ps.map_values(|p: (Seq<char>, Seq<char>)| env_flag(p.0, p.1));
    let mut out: Vec<char> = Vec::new();
    let mut i: usize = 0;
    while i < pairs.len()
        invariant
            i <= pairs.len(),
            ps == pair_views(pairs@),
            flags == ps.map_values(|p: (Seq<char>, Seq<char>)| env_flag(p.0, p.1)),
            out@ == joined(flags.take(i as int), seq![' ']),
        decreases pairs.len() - i,
    {
        let ghost before = out@;
        if i > 0 {
            out.push(' ');
        }
        let mut flag = chars_of("-e ");
        extend_chars(&mut flag, &chars_of(pairs[i].0.as_str()));
        flag.push('=');
        extend_chars(&mut flag, &chars_of(shell_escape(pairs[i].1.as_str()).as_str()));
        assert(flag@ =~= flags[i as int]);
        extend_chars(&mut out, &flag);
        assert(flags.take(i + 1).drop_last() =~= flags.take(i as int));
        if i > 0 {
            assert(out@ =~= joined(flags.take(i as int), seq![' ']) + seq![' '] + flags[i as int]);
        } else {
            assert(flags.take(1) =~= seq![flags[0]]);
            assert(out@ =~= flags[0]);
        }
        i += 1;
    }
    assert(flags.take(pairs.len() as int) =~= flags);
    string_of(&out)
}

/// The `docker exec` environment flags of a sandbox.
pub fn build_docker_env_args(
    sandbox: &SandboxInfo,
    sandbox_config: &SandboxConfig,
    host: &Vec<(String, String)>,
) -> (r: String)
    ensures
        r@ == env_flags(sandbox_environment(*sandbox_config, *sandbox, host@)),
{
    let pairs = collect_environment(sandbox_config, sandbox, host);
    docker_env_flags(&pairs)
}

/// Facts about `collected`: the keys seen are exactly the keys of the
/// entries; every kept key was seen; no key is kept twice; and each kept
/// pair comes from the first entry naming its key.
pub proof fn lemma_collected(entries: Seq<Seq<char>>, host: Seq<(String, String)>)
    ensures
        ({
            let (seen, kept) = collected(entries, host);
            &&& forall|k: Seq<char>|
                seen.contains(k) <==> exists|n: int|
                    0 <= n < entries.len() && entry_key(#[trigger] entries[n]) == k
            &&& forall|i: int| 0 <= i < kept.len() ==> seen.contains(#[trigger] kept[i].0)
            &&& forall|i: int, j: int|
                0 <= i < j < kept.len() ==> (#[trigger] kept[i]).0 != (#[trigger] kept[j]).0
            &&& forall|i: int|
                0 <= i < kept.len() ==> exists|n: int|
                    0 <= n < entries.len() && entry_key(#[trigger] entries[n]) == (
                    #[trigger] kept[i]).0 && entry_value(entries[n], host) == Some(kept[i].1)
                        && forall|m: int|
                        0 <= m < n ==> entry_key(#[trigger] entries[m]) != kept[i].0
        }),
    decreases entries.len(),
{
    if entries.len() > 0 {
        let pre = entries.drop_last();
        lemma_collected(pre, host);
        let (seen0, kept0) = collected(pre, host);
        let e = entries.last();
        let k = entry_key(e);
        let (seen, kept) = collected(entries, host);
        assert forall|q: Seq<char>|
            seen.contains(q) <==> exists|n: int|
                0 <= n < entries.len() && entry_key(#[trigger] entries[n]) == q by {
            if seen.contains(q) {
                if seen0.contains(q) {
                    let n = choose|n: int| 0 <= n < pre.len() && entry_key(#[trigger] pre[n]) == q;
                    assert(entries[n] == pre[n]);
                } else {
                    assert(q == k);
                    assert(entry_key(entries[entries.len() - 1]) == q);
                }
            }
            if exists|n: int| 0 <= n < entries.len() && entry_key(#[trigger] entries[n]) == q {
                let n = choose|n: int| 0 <= n < entries.len() && entry_key(#[trigger] entries[n]) == q;
                if n < entries.len() - 1 {
                    assert(entries[n] == pre[n]);
                    assert(seen0.contains(q));
                    assert(seen.contains(q)) by {
                        if !seen0.contains(k) {
                            let t = choose|t: int| 0 <= t < seen0.len() && seen0[t] == q;
                            assert(seen0.push(k)[t] == q);
                        }
                    }
                } else {
                    if !seen0.contains(k) {
                        assert(seen0.push(k)[seen0.len() as int] == k);
                    }
                }
            }
        }
        if !seen0.contains(k) {
            assert forall|i: int| 0 <= i < kept.len() implies seen.contains(#[trigger] kept[i].0) by {
                if i < kept0.len() {
                    assert(kept[i] == kept0[i]);
                    let t = choose|t: int| 0 <= t < seen0.len() && seen0[t] == kept0[i].0;
                    assert(seen0.push(k)[t] == kept0[i].0);
                } else {
                    assert(seen0.push(k)[seen0.len() as int] == k);
                }
            }
            assert forall|i: int, j: int|
                0 <= i < j < kept.len() implies (#[trigger] kept[i]).0 != (#[trigger] kept[j]).0 by {
                if j >= kept0.len() {
                    assert(kept[i] == kept0[i]);
                    assert(seen0.contains(kept0[i].0));
                } else {
                    assert(kept[i] == kept0[i]);
                    assert(kept[j] == kept0[j]);
                }
            }
            assert forall|i: int| 0 <= i < kept.len() implies exists|n: int|
                0 <= n < entries.len() && entry_key(#[trigger] entries[n]) == (
                #[trigger] kept[i]).0 && entry_value(entries[n], host) == Some(kept[i].1) && forall|
                    m: int,
                | 0 <= m < n ==> entry_key(#[trigger] entries[m]) != kept[i].0 by {
                if i < kept0.len() {
                    assert(kept[i] == kept0[i]);
                    let n = choose|n: int|
                        0 <= n < pre.len() && entry_key(#[trigger] pre[n]) == (#[trigger] kept0[i]).0
                            && entry_value(pre[n], host) == Some(kept0[i].1) && forall|m: int|
                            0 <= m < n ==> entry_key(#[trigger] pre[m]) != kept0[i].0;
                    assert(entries[n] == pre[n]);
                    assert forall|m: int| 0 <= m < n implies entry_key(
                        #[trigger] entries[m],
                    ) != kept[i].0 by {
                        assert(entries[m] == pre[m]);
                    }
                } else {
                    let n = entries.len() - 1;
                    assert(entries[n] == e);
                    assert forall|m: int| 0 <= m < n implies entry_key(
                        #[trigger] entries[m],
                    ) != kept[i].0 by {
                        assert(entries[m] == pre[m]);
                        if entry_key(pre[m]) == k {
                            assert(seen0.contains(k));
                        }
                    }
                }
            }
        } else {
            assert forall|i: int| 0 <= i < kept.len() implies exists|n: int|
                0 <= n < entries.len() && entry_key(#[trigger] entries[n]) == (
                #[trigger] kept[i]).0 && entry_value(entries[n], host) == Some(kept[i].1) && forall|
                    m: int,
                | 0 <= m < n ==> entry_key(#[trigger] entries[m]) != kept[i].0 by {
                let n = choose|n: int|
                    0 <= n < pre.len() && entry_key(#[trigger] pre[n]) == (#[trigger] kept0[i]).0
                        && entry_value(pre[n], host) == Some(kept0[i].1) && forall|m: int|
                        0 <= m < n ==> entry_key(#[trigger] pre[m]) != kept0[i].0;
                assert(entries[n] == pre[n]);
                assert forall|m: int| 0 <= m < n implies entry_key(#[trigger] entries[m])
                    != kept[i].0 by {
                    assert(entries[m] == pre[m]);
                }
            }
        }
    }
}

/// In a sandbox's environment no key occurs twice, and every pair comes
/// from the first entry (terminal variables first, then the sandbox's
/// entries) that names its key.
pub proof fn sandbox_environment_first_entry_wins(
    config: SandboxConfig,
    info: SandboxInfo,
    host: Seq<(String, String)>,
)
    ensures
        ({
            let entries = terminal_env_vars() + sandbox_entries(config, info);
            let env = sandbox_environment(config, info, host);
            &&& forall|i: int, j: int|
                0 <= i < j < env.len() ==> (#[trigger] env[i]).0 != (#[trigger] env[j]).0
            &&& forall|i: int|
                0 <= i < env.len() ==> exists|n: int|
                    0 <= n < entries.len() && entry_key(#[trigger] entries[n]) == (
                    #[trigger] env[i]).0 && entry_value(entries[n], host) == Some(env[i].1)
                        && forall|m: int|
                        0 <= m < n ==> entry_key(#[trigger] entries[m]) != env[i].0
        }),
{
    lemma_collected(terminal_env_vars() + sandbox_entries(config, info), host);
}

} // verus!
