//! What the `profile` commands print and decide: the listing of the
//! profiles with the default one marked, the answer that confirms a
//! deletion, and the default profile's name.

use crate::text::{chars_eq, chars_of, extend_chars, lowercase, string_of, to_lowercase, trim, trim_spec};
use vstd::prelude::*;

verus! {

broadcast use vstd::string::group_string_axioms;

/// The profile used where none is configured.
pub open spec fn fallback_profile() -> Seq<char> {
    "default"@
}

/// The default profile: the configured one, else `default`.
pub fn default_profile_name(configured: Option<&str>) -> (r: String)
    ensures
        r@ == match configured {
            Some(c) => c@,
            None => fallback_profile(),
        },
{
    match configured {
        Some(c) => c.to_string(),
        None => "default".to_string(),
    }
}

/// A line of the profile listing: `  * name (default)` for the default
/// profile, `    name` for the others.
pub open spec fn profile_listing_line(name: Seq<char>, default_profile: Seq<char>) -> Seq<char> {
    if name == default_profile {
        "  * "@ + name + " (default)"@
    } else {
        "    "@ + name
    }
}

/// What listing the profiles prints: a note where there are none;
/// otherwise a heading, one line per profile and the count.
pub open spec fn profile_listing(profiles: Seq<Seq<char>>, default_profile: Seq<char>) -> Seq<Seq<char>> {
    if profiles.len() == 0 {
        seq!["No profiles found."@, "Run 'agent-of-empires' to create the default profile automatically."@]
    } else {
        seq!["Profiles:"@] + profiles.map_values(|p: Seq<char>| profile_listing_line(p, default_profile)) + seq![
            "\nTotal: "@ + crate::civilizations::decimal_digits(profiles.len()) + " profiles"@,
        ]
    }
}

/// The lines that listing `profiles` prints, `default_profile` marked.
pub fn profile_list_lines(profiles: &Vec<String>, default_profile: &str) -> (r: Vec<String>)
    ensures
        r@.map_values(|l: String| l@) == profile_listing(profiles@.map_values(|p: String| p@), default_profile@),
{
    let ghost ps = profiles@.map_values(|p: String| p@);
    let mut out: Vec<String> = Vec::new();
    if profiles.len() == 0 {
        out.push("No profiles found.".to_string());
        out.push("Run 'agent-of-empires' to create the default profile automatically.".to_string());
        assert(out@.map_values(|l: String| l@) =~= profile_listing(ps, default_profile@));
        return out;
    }
    out.push("Profiles:".to_string());
    let d = chars_of(default_profile);
    let mut i: usize = 0;
    while i < profiles.len()
        invariant
            i <= profiles@.len(),
            ps == profiles@.map_values(|p: String| p@),
            d@ == default_profile@,
            out@.map_values(|l: String| l@) == seq!["Profiles:"@] + ps.take(i as int).map_values(
                |p: Seq<char>| profile_listing_line(p, default_profile@),
            ),
        decreases profiles@.len() - i,
    {
        let name = chars_of(profiles[i].as_str());
        let line = if chars_eq(&name, &d) {
            let mut l = chars_of("  * ");
            extend_chars(&mut l, &name);
            extend_chars(&mut l, &chars_of(" (default)"));
            l
        } else {
            let mut l = chars_of("    ");
            extend_chars(&mut l, &name);
            l
        };
        let ghost before = out@.map_values(|l: String| l@);
        out.push(string_of(&line));
        assert(out@.map_values(|l: String| l@) =~= before.push(profile_listing_line(ps[i as int], default_profile@)));
        assert(ps.take(i + 1).map_values(|p: Seq<char>| profile_listing_line(p, default_profile@)) =~= ps.take(
            i as int,
        ).map_values(|p: Seq<char>| profile_listing_line(p, default_profile@)).push(
            profile_listing_line(ps[i as int], default_profile@),
        ));
        i += 1;
    }
    assert(ps.take(profiles@.len() as int) =~= ps);
    let mut total = chars_of("\nTotal: ");
    extend_chars(&mut total, &crate::civilizations::u64_to_decimal(profiles.len() as u64));
    extend_chars(&mut total, &chars_of(" profiles"));
    let ghost before = out@.map_values(|l: String| l@);
    out.push(string_of(&total));
    assert(out@.map_values(|l: String| l@) =~= before.push(total@));
    assert(out@.map_values(|l: String| l@) =~= profile_listing(ps, default_profile@));
    out
}

/// Whether the answer to "delete this profile?" confirms it: trimmed and
/// in lowercase it is `y`.
pub fn deletion_confirmed(response: &str) -> (r: bool)
    ensures
        r == (lowercase(trim_spec(response@)) == "y"@),
{
    let t = string_of(&trim(&chars_of(response)));
    let l = to_lowercase(t.as_str());
    chars_eq(&chars_of(l.as_str()), &chars_of("y"))
}

/// The question asked before deleting profile `name`.
pub fn deletion_question(name: &str) -> (r: String)
    ensures
        r@ == "Are you sure you want to delete profile '"@ + name@
            + "'? This will remove all sessions in this profile. [y/N] "@,
{
    let mut q = chars_of("Are you sure you want to delete profile '");
    extend_chars(&mut q, &chars_of(name));
    extend_chars(&mut q, &chars_of("'? This will remove all sessions in this profile. [y/N] "));
    string_of(&q)
}

/// Setting the default profile to `name` needs that profile to exist;
/// the error says so otherwise.
pub fn check_profile_exists(profiles: &Vec<String>, name: &str) -> (r: Result<(), String>)
    ensures
        profiles@.map_values(|p: String| p@).contains(name@) ==> r is Ok,
        !profiles@.map_values(|p: String| p@).contains(name@) ==> (r matches Err(e) && e@ == "Profile '"@ + name@
            + "' does not exist"@),
{
    let ghost ps = profiles@.map_values(|p: String| p@);
    let n = chars_of(name);
    let mut i: usize = 0;
    while i < profiles.len()
        invariant
            i <= profiles@.len(),
            ps == profiles@.map_values(|p: String| p@),
            n@ == name@,
            forall|k: int| 0 <= k < i ==> ps[k] != name@,
        decreases profiles@.len() - i,
    {
        if chars_eq(&chars_of(profiles[i].as_str()), &n) {
            assert(ps[i as int] == name@);
            return Ok(());
        }
        i += 1;
    }
    let mut e = chars_of("Profile '");
    extend_chars(&mut e, &n);
    extend_chars(&mut e, &chars_of("' does not exist"));
    Err(string_of(&e))
}

} // verus!
