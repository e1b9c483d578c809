//! The content of the help overlays (the main keyboard help and the
//! settings view's help): their sections of shortcuts, and the size of
//! the dialogs that show them.

use vstd::prelude::*;

verus! {

/// The help dialog's width, borders included.
pub const DIALOG_WIDTH: u16 = 50;

/// The help dialog's height, borders included.
pub const DIALOG_HEIGHT: u16 = 34;

/// The rows the top and bottom borders take.
pub const BORDER_HEIGHT: u16 = 2;

/// The columns the left and right borders take.
pub const BORDER_WIDTH: u16 = 2;

/// The columns a shortcut's key takes: two spaces and ten for the key.
pub const KEY_COLUMN_WIDTH: usize = 12;

/// The shortcut sections: each a title and its keys with what they do.
pub open spec fn help_sections() -> Seq<(Seq<char>, Seq<(Seq<char>, Seq<char>)>)> {
    seq![
        (
            "Navigation"@,
            seq![
            ("j/↓"@, "Move down"@),
            ("k/↑"@, "Move up"@),
            ("h/←"@, "Collapse group"@),
            ("l/→"@, "Expand group"@),
            ("g/G"@, "Go to top / bottom"@),
            ("PgUp/Dn"@, "Move 10 items up / down"@),
            ],
        ),
        (
            "Actions"@,
            seq![
            ("Enter"@, "Attach to session"@),
            ("n"@, "New session"@),
            ("x"@, "Stop session"@),
            ("d"@, "Delete session/group"@),
            ("r"@, "Rename session"@),
            ],
        ),
        (
            "Views"@,
            seq![
            ("t"@, "Toggle Agent/Terminal view"@),
            ("c"@, "Toggle container/host (sandbox)"@),
            ("D"@, "Diff view (git changes)"@),
            ("H/L"@, "Resize list panel"@),
            ("o"@, "Cycle sort forward"@),
            ("Ctrl+o"@, "Cycle sort backward"@),
            ],
        ),
        (
            "Other"@,
            seq![
            ("/"@, "Search"@),
            ("n/N"@, "Next/prev match"@),
            ("s"@, "Settings"@),
            ("P"@, "Profiles"@),
            ("?"@, "Toggle help"@),
            ("q"@, "Quit"@),
            ],
        ),
    ]
}

/// The character views of the shortcut sections.
pub open spec fn section_views(s: Seq<(&str, Vec<(&str, &str)>)>) -> Seq<(Seq<char>, Seq<(Seq<char>, Seq<char>)>)> {
    s.map_values(
        |sec: (&str, Vec<(&str, &str)>)|
            (sec.0@, sec.1@.map_values(|k: (&str, &str)| (k.0@, k.1@))),
    )
}

/// The lines a section takes: its title, one per shortcut, one more for
/// the sort label under `Views`, and a blank line.
pub open spec fn section_lines(sec: (Seq<char>, Seq<(Seq<char>, Seq<char>)>)) -> nat {
    1 + sec.1.len() + (if sec.0 == "Views"@ { 1nat } else { 0nat }) + 1
}

/// The lines the help content takes.
pub open spec fn content_lines(secs: Seq<(Seq<char>, Seq<(Seq<char>, Seq<char>)>)>) -> nat
    decreases secs.len(),
{
    if secs.len() == 0 {
        0
    } else {
        content_lines(secs.drop_last()) + section_lines(secs.last())
    }
}

/// The help content's shortcut sections.
pub fn shortcuts() -> (r: Vec<(&'static str, Vec<(&'static str, &'static str)>)>)
    ensures
        section_views(r@) == help_sections(),
{
    let r = vec![
        ("Navigation", vec![("j/↓", "Move down"), ("k/↑", "Move up"), ("h/←", "Collapse group"), ("l/→", "Expand group"), ("g/G", "Go to top / bottom"), ("PgUp/Dn", "Move 10 items up / down")]),
        ("Actions", vec![("Enter", "Attach to session"), ("n", "New session"), ("x", "Stop session"), ("d", "Delete session/group"), ("r", "Rename session")]),
        ("Views", vec![("t", "Toggle Agent/Terminal view"), ("c", "Toggle container/host (sandbox)"), ("D", "Diff view (git changes)"), ("H/L", "Resize list panel"), ("o", "Cycle sort forward"), ("Ctrl+o", "Cycle sort backward")]),
        ("Other", vec![("/", "Search"), ("n/N", "Next/prev match"), ("s", "Settings"), ("P", "Profiles"), ("?", "Toggle help"), ("q", "Quit")]),
    ];
    assert(section_views(r@) =~~= help_sections());
    r
}

/// The number of lines the help content takes.
pub fn content_line_count() -> (r: usize)
    ensures
        r == content_lines(help_sections()),
{
    let secs = shortcuts();
    let ghost hs = help_sections();
    let mut count: usize = 0;
    let mut i: usize = 0;
    while i < secs.len()
        invariant
            i <= secs@.len(),
            section_views(secs@) == hs,
            hs == help_sections(),
            hs.len() == 4,
            count == content_lines(hs.take(i as int)),
            count <= 9 * i,
            forall|k: int| 0 <= k < hs.len() ==> (#[trigger] hs[k]).1.len() <= 6,
        decreases secs@.len() - i,
    {
        assert(hs.take(i + 1).drop_last() =~= hs.take(i as int));
        assert(hs[i as int].1.len() == secs@[i as int].1@.len());
        let (name, keys) = &secs[i];
        count = count + 1 + keys.len();
        if crate::text::chars_eq(&crate::text::chars_of(name), &crate::text::chars_of("Views")) {
            count = count + 1;
        }
        count = count + 1;
        i += 1;
    }
    assert(hs.take(secs@.len() as int) =~= hs);
    count
}

/// The help content fits inside the dialog's borders: it has no more
/// lines than the inner height, and no section title or shortcut line
/// is wider than the inner width.
pub proof fn help_fits_in_dialog()
    ensures
        content_lines(help_sections()) <= DIALOG_HEIGHT - BORDER_HEIGHT,
        forall|i: int|
            0 <= i < help_sections().len() ==> {
                let sec = #[trigger] help_sections()[i];
                &&& sec.0.len() <= DIALOG_WIDTH - BORDER_WIDTH
                &&& forall|j: int|
                    0 <= j < sec.1.len() ==> KEY_COLUMN_WIDTH + (#[trigger] sec.1[j]).1.len() <= DIALOG_WIDTH
                        - BORDER_WIDTH
            },
{
    reveal_strlit("/");
    reveal_strlit("?");
    reveal_strlit("Actions");
    reveal_strlit("Attach to session");
    reveal_strlit("Collapse group");
    reveal_strlit("Ctrl+o");
    reveal_strlit("Cycle sort backward");
    reveal_strlit("Cycle sort forward");
    reveal_strlit("D");
    reveal_strlit("Delete session/group");
    reveal_strlit("Diff view (git changes)");
    reveal_strlit("Enter");
    reveal_strlit("Expand group");
    reveal_strlit("Go to top / bottom");
    reveal_strlit("H/L");
    reveal_strlit("Move 10 items up / down");
    reveal_strlit("Move down");
    reveal_strlit("Move up");
    reveal_strlit("Navigation");
    reveal_strlit("New session");
    reveal_strlit("Next/prev match");
    reveal_strlit("Other");
    reveal_strlit("P");
    reveal_strlit("PgUp/Dn");
    reveal_strlit("Profiles");
    reveal_strlit("Quit");
    reveal_strlit("Rename session");
    reveal_strlit("Resize list panel");
    reveal_strlit("Search");
    reveal_strlit("Settings");
    reveal_strlit("Stop session");
    reveal_strlit("Toggle Agent/Terminal view");
    reveal_strlit("Toggle container/host (sandbox)");
    reveal_strlit("Toggle help");
    reveal_strlit("Views");
    reveal_strlit("c");
    reveal_strlit("d");
    reveal_strlit("g/G");
    reveal_strlit("h/←");
    reveal_strlit("j/↓");
    reveal_strlit("k/↑");
    reveal_strlit("l/→");
    reveal_strlit("n");
    reveal_strlit("n/N");
    reveal_strlit("o");
    reveal_strlit("q");
    reveal_strlit("r");
    reveal_strlit("s");
    reveal_strlit("t");
    reveal_strlit("x");
    let hs = help_sections();
    assert(hs.take(0).len() == 0);
    assert(content_lines(hs.take(0)) == 0);
    assert(hs.take(1).drop_last() =~= hs.take(0));
    assert(hs.take(2).drop_last() =~= hs.take(1));
    assert(hs.take(3).drop_last() =~= hs.take(2));
    assert(hs.take(4).drop_last() =~= hs.take(3));
    assert(hs.take(4) =~= hs);
    assert(hs[0].0.len() == 10 && "Views"@.len() == 5);
    assert(hs[0].0 != "Views"@);
    assert(section_lines(hs[0]) == 8);
    assert(hs[1].0.len() == 7);
    assert(hs[1].0 != "Views"@);
    assert(section_lines(hs[1]) == 7);
    assert(section_lines(hs[2]) == 9);
    assert(hs[3].0[0] == 'O' && "Views"@[0] == 'V');
    assert(hs[3].0 != "Views"@);
    assert(section_lines(hs[3]) == 8);
    assert(content_lines(hs.take(1)) == 8);
    assert(content_lines(hs.take(2)) == 15);
    assert(content_lines(hs.take(3)) == 24);
    assert(content_lines(hs.take(4)) == 32);
}

/// The settings view's help dialog: width and height, borders included.
pub const SETTINGS_HELP_WIDTH: u16 = 58;

/// The settings view's help dialog height, borders included.
pub const SETTINGS_HELP_HEIGHT: u16 = 28;

/// The sections of the settings view's help.
pub open spec fn settings_help_sections() -> Seq<(Seq<char>, Seq<(Seq<char>, Seq<char>)>)> {
    seq![
        (
            "Navigation"@,
            seq![
            ("j/k, Up/Dn"@, "Move up / down"@),
            ("Tab, l/h"@, "Switch to fields / categories"@),
            ("Enter"@, "Edit field / expand list / select"@),
            ("Esc"@, "Back one level (fields -> categories -> close)"@),
            ],
        ),
        (
            "Editing"@,
            seq![
            ("Space"@, "Toggle boolean field"@),
            ("Enter/Esc"@, "Confirm / cancel text edit"@),
            ("r"@, "Reset field to inherited value (Profile/Repo)"@),
            ],
        ),
        (
            "Scope & Profile"@,
            seq![
            ("[ and ]"@, "Cycle scope (Global / Profile / Repo)"@),
            ("{ and }"@, "Cycle profile (in Profile scope)"@),
            ],
        ),
        (
            "List Editing"@,
            seq![
            ("a"@, "Add item"@),
            ("d"@, "Delete item"@),
            ("Enter"@, "Edit item"@),
            ("Esc"@, "Close list"@),
            ],
        ),
        (
            "Other"@,
            seq![
            ("Ctrl+s"@, "Save settings"@),
            ("?"@, "Toggle this help"@),
            ("q"@, "Close settings"@),
            ],
        ),
    ]
}

/// The lines sections take: a title, one line per shortcut and a blank
/// line each.
pub open spec fn plain_lines(secs: Seq<(Seq<char>, Seq<(Seq<char>, Seq<char>)>)>) -> nat
    decreases secs.len(),
{
    if secs.len() == 0 {
        0
    } else {
        plain_lines(secs.drop_last()) + secs.last().1.len() + 2
    }
}

/// The settings view's help sections.
pub fn settings_shortcuts() -> (r: Vec<(&'static str, Vec<(&'static str, &'static str)>)>)
    ensures
        section_views(r@) == settings_help_sections(),
{
    let r = vec![
        ("Navigation", vec![("j/k, Up/Dn", "Move up / down"), ("Tab, l/h", "Switch to fields / categories"), ("Enter", "Edit field / expand list / select"), ("Esc", "Back one level (fields -> categories -> close)")]),
        ("Editing", vec![("Space", "Toggle boolean field"), ("Enter/Esc", "Confirm / cancel text edit"), ("r", "Reset field to inherited value (Profile/Repo)")]),
        ("Scope & Profile", vec![("[ and ]", "Cycle scope (Global / Profile / Repo)"), ("{ and }", "Cycle profile (in Profile scope)")]),
        ("List Editing", vec![("a", "Add item"), ("d", "Delete item"), ("Enter", "Edit item"), ("Esc", "Close list")]),
        ("Other", vec![("Ctrl+s", "Save settings"), ("?", "Toggle this help"), ("q", "Close settings")]),
    ];
    assert(section_views(r@) =~~= settings_help_sections());
    r
}

/// The settings help has exactly as many lines as its dialog has rows
/// inside the borders.
pub proof fn settings_help_fills_its_dialog()
    ensures
        plain_lines(settings_help_sections()) == SETTINGS_HELP_HEIGHT - BORDER_HEIGHT,
{
    let hs = settings_help_sections();
    assert(hs.take(1).drop_last() =~= hs.take(0));
    assert(hs.take(2).drop_last() =~= hs.take(1));
    assert(hs.take(3).drop_last() =~= hs.take(2));
    assert(hs.take(4).drop_last() =~= hs.take(3));
    assert(hs.take(5).drop_last() =~= hs.take(4));
    assert(hs.take(5) =~= hs);
    assert(plain_lines(hs.take(0)) == 0);
    assert(plain_lines(hs.take(1)) == 6);
    assert(plain_lines(hs.take(2)) == 11);
    assert(plain_lines(hs.take(3)) == 15);
    assert(plain_lines(hs.take(4)) == 21);
    assert(plain_lines(hs.take(5)) == 26);
}

} // verus!
