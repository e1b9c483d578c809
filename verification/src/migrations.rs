//! The decisions behind the config migrations: what moving the yolo
//! default from `[sandbox]` to `[session]` changes, and the `KEY=value`
//! entries that the old `[sandbox.environment_values]` table becomes.

use crate::text::{chars_of, extend_chars, string_of};
use vstd::prelude::*;

verus! {

broadcast use vstd::string::group_string_axioms;

/// What the yolo migration does to one config file.
#[derive(PartialEq, Eq, Structural, Clone, Copy, Debug)]
pub enum YoloMigration {
    /// The file is left as it is.
    Skip,
    /// `yolo_mode_default` is removed from `[sandbox]`, and set to `true`
    /// in `[session]` where `set_in_session` holds.
    Move { set_in_session: bool },
}

/// Plans the yolo migration from the boolean `yolo_mode_default` found
/// in `[sandbox]` (none where there is none) and whether `[session]`
/// already sets it: nothing to do without a sandbox value; otherwise the
/// sandbox key goes, and only a `true` is carried over, never over a
/// value the session already has.
pub fn plan_yolo_migration(sandbox_value: Option<bool>, session_has_value: bool) -> (r: YoloMigration)
    ensures
        match sandbox_value {
            None => r == YoloMigration::Skip,
            Some(v) => r == (YoloMigration::Move { set_in_session: v && !session_has_value }),
        },
{
    match sandbox_value {
        None => YoloMigration::Skip,
        Some(v) => YoloMigration::Move { set_in_session: v && !session_has_value },
    }
}

/// The environment entry `key=value`.
pub open spec fn env_entry(key: Seq<char>, value: Seq<char>) -> Seq<char> {
    key + "="@ + value
}

/// The entries made from `values` in their order: one `key=value` for
/// each key whose value is a string; other values are dropped.
pub open spec fn env_entries(values: Seq<(Seq<char>, Option<Seq<char>>)>) -> Seq<Seq<char>>
    decreases values.len(),
{
    if values.len() == 0 {
        Seq::empty()
    } else {
        let rest = env_entries(values.drop_last());
        match values.last().1 {
            Some(v) => rest.push(env_entry(values.last().0, v)),
            None => rest,
        }
    }
}

/// The keys and string values of `values`, as character sequences.
pub open spec fn value_views(values: Seq<(String, Option<String>)>) -> Seq<(Seq<char>, Option<Seq<char>>)> {
    values.map_values(
        |p: (String, Option<String>)|
            (
                p.0@,
                match p.1 {
                    Some(v) => Some(v@),
                    None => None,
                },
            ),
    )
}

/// What the environment-values migration does to one config file.
pub enum EnvironmentMigration {
    /// The file is left as it is.
    Skip,
    /// The empty `environment_values` table is removed.
    RemoveEmpty,
    /// These entries are appended to `[sandbox] environment` (made where
    /// missing) and `environment_values` is removed.
    Append(Vec<String>),
}

/// Plans the environment-values migration from the entries of
/// `[sandbox.environment_values]`, each key with its value where that is a
/// string (none where there is no such table): nothing to do without the
/// table; an empty one is just removed; otherwise its string values
/// become `key=value` entries.
pub fn plan_environment_migration(values: Option<Vec<(String, Option<String>)>>) -> (r: EnvironmentMigration)
    ensures
        match values {
            None => r is Skip,
            Some(vs) => if vs@.len() == 0 {
                r is RemoveEmpty
            } else {
                r matches EnvironmentMigration::Append(es) && es@.map_values(|e: String| e@)
                    == env_entries(value_views(vs@))
            },
        },
{
    match values {
        None => EnvironmentMigration::Skip,
        Some(vs) => {
            if vs.len() == 0 {
                EnvironmentMigration::RemoveEmpty
            } else {
                EnvironmentMigration::Append(environment_entries(&vs))
            }
        },
    }
}

/// The `key=value` entries for the string values of `values`.
pub fn environment_entries(values: &Vec<(String, Option<String>)>) -> (r: Vec<String>)
    ensures
        r@.map_values(|e: String| e@) == env_entries(value_views(values@)),
{
    proof {
        reveal_strlit("=");
    }
    let ghost vv = value_views(values@);
    let eq = chars_of("=");
    let mut out: Vec<String> = Vec::new();
    let mut i: usize = 0;
    while i < values.len()
        invariant
            i <= values@.len(),
            vv == value_views(values@),
            eq@ == "="@,
            out@.map_values(|e: String| e@) == env_entries(vv.take(i as int)),
        decreases values@.len() - i,
    {
        assert(vv.take(i + 1).drop_last() =~= vv.take(i as int));
        assert(vv.take(i + 1).last() == vv[i as int]);
        let (k, v) = &values[i];
        match v {
            Some(v) => {
                let mut e = chars_of(k.as_str());
                extend_chars(&mut e, &eq);
                extend_chars(&mut e, &chars_of(v.as_str()));
                let ghost before = out@.map_values(|e: String| e@);
                out.push(string_of(&e));
                assert(out@.map_values(|e: String| e@) =~= before.push(env_entry(vv[i as int].0, vv[i as int].1->0)));
            },
            None => {},
        }
        i += 1;
    }
    assert(vv.take(values@.len() as int) =~= vv);
    out
}

} // verus!
