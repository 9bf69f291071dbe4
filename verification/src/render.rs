//! What the screens show: the texts of their lines and where things go.
//! Drawing them is left to the terminal front end.
use vstd::prelude::*;

use crate::package::{action_summary, command_preview_of, Action, Helper};
use crate::search::positions;
use crate::text::{
    chars_of, concat, decimal, decimal_string, find_first, owned, push_char, push_str,
    slice_chars, string_of, strs,
};
use crate::ui::{OutputView, PackageView};

verus! {

/// A rectangle of terminal cells.
#[derive(Clone, Copy, Debug, PartialEq, Eq, Structural)]
pub struct Area {
    pub x: u16,
    pub y: u16,
    pub width: u16,
    pub height: u16,
}

/// The smaller of two numbers.
pub open spec fn min_u16(a: u16, b: u16) -> u16 {
    if a < b {
        a
    } else {
        b
    }
}

/// A rectangle of at most the given size centred in `area`.
pub open spec fn centered_of(width: u16, height: u16, area: Area) -> Area {
    let w = min_u16(width, area.width);
    let h = min_u16(height, area.height);
    Area {
        x: (area.x + (area.width - w) / 2) as u16,
        y: (area.y + (area.height - h) / 2) as u16,
        width: w,
        height: h,
    }
}

/// A rectangle of at most the given size centred in `area`.
pub fn centered_rect(width: u16, height: u16, area: Area) -> (r: Area)
    requires
        area.x + area.width <= u16::MAX,
        area.y + area.height <= u16::MAX,
    ensures
        r == centered_of(width, height, area),
        r.x + r.width <= area.x + area.width,
        r.y + r.height <= area.y + area.height,
{
    let w = if width < area.width {
        width
    } else {
        area.width
    };
    let h = if height < area.height {
        height
    } else {
        area.height
    };
    Area { x: area.x + (area.width - w) / 2, y: area.y + (area.height - h) / 2, width: w, height: h }
}

/// The menus of the interface.
#[derive(Clone, Copy, Debug, PartialEq, Eq, Structural)]
pub enum Menu {
    Main,
    Remove,
    Advanced,
}

/// The entries of a menu.
pub open spec fn menu_labels(menu: Menu) -> Seq<Seq<char>> {
    match menu {
        Menu::Main => seq![
            "Install Packages"@,
            "Remove Packages"@,
            "Update System"@,
            "Advanced Options"@,
            "Exit"@,
        ],
        Menu::Remove => seq![
            "All Installed Packages"@,
            "Recently Installed Packages"@,
            "Installed AUR Packages"@,
            "Orphaned Packages"@,
            "Back"@,
        ],
        Menu::Advanced => seq![
            "Clear Helper Cache"@,
            "Refresh Pack Cache"@,
            "Refresh Pack Cache (without AUR)"@,
            "Back"@,
        ],
    }
}

/// The entries of a menu.
pub fn menu_items(menu: Menu) -> (items: Vec<&'static str>)
    ensures
        items@.map_values(|s: &str| s@) == menu_labels(menu),
{
    let items = match menu {
        Menu::Main => vec![
            "Install Packages",
            "Remove Packages",
            "Update System",
            "Advanced Options",
            "Exit",
        ],
        Menu::Remove => vec![
            "All Installed Packages",
            "Recently Installed Packages",
            "Installed AUR Packages",
            "Orphaned Packages",
            "Back",
        ],
        Menu::Advanced => vec![
            "Clear Helper Cache",
            "Refresh Pack Cache",
            "Refresh Pack Cache (without AUR)",
            "Back",
        ],
    };
    assert(items@.map_values(|s: &str| s@) =~= menu_labels(menu));
    items
}

/// The text of a menu button: a pointer when selected, then the entry,
/// padded by a space on each side.
pub open spec fn button_label(item: Seq<char>, selected: bool) -> Seq<char> {
    (if selected {
        ">"@
    } else {
        " "@
    }) + " "@ + item + " "@
}

/// The text and the width in cells of a menu button.
pub fn menu_button(item: &str, selected: bool) -> (r: (String, u16))
    requires
        item@.len() + 4 <= u16::MAX,
    ensures
        r.0@ == button_label(item@, selected),
        r.1 == item@.len() + 4,
{
    let mut label = owned(if selected {
        ">"
    } else {
        " "
    });
    push_str(&mut label, " ");
    push_str(&mut label, item);
    push_str(&mut label, " ");
    let width = chars_of(item).len() as u16 + 4;
    (label, width)
}

/// How many of the flags are set.
pub open spec fn count_set(s: Seq<bool>) -> nat
    decreases s.len(),
{
    if s.len() == 0 {
        0
    } else {
        count_set(s.drop_last()) + if s.last() {
            1nat
        } else {
            0nat
        }
    }
}

/// The status line of a package list: matches, packages, picks and the
/// notice.
pub open spec fn status_text(
    matches: nat,
    packages: nat,
    picked: nat,
    notice: Option<Seq<char>>,
) -> Seq<char> {
    decimal(matches) + " / "@ + decimal(packages) + " packages - "@ + decimal(picked) + " selected"@
        + match notice {
        Some(n) => " - "@ + n,
        None => seq![],
    }
}

/// The status line of a package list.
pub fn status_line(view: &PackageView) -> (s: String)
    ensures
        s@ == status_text(
            view.matches@.len(),
            view.packages@.len(),
            count_set(view.selected@),
            match view.notice {
                Some(n) => Some(n@),
                None => None,
            },
        ),
{
    let mut picked: usize = 0;
    let mut i: usize = 0;
    while i < view.selected.len()
        invariant
            i <= view.selected@.len(),
            picked == count_set(view.selected@.take(i as int)),
            picked <= i,
        decreases view.selected@.len() - i,
    {
        assert(view.selected@.take(i + 1).drop_last() =~= view.selected@.take(i as int));
        if view.selected[i] {
            picked += 1;
        }
        i += 1;
    }
    assert(view.selected@.take(view.selected@.len() as int) =~= view.selected@);
    let mut s = decimal_string(view.matches.len() as u64);
    push_str(&mut s, " / ");
    let total = decimal_string(view.packages.len() as u64);
    push_str(&mut s, total.as_str());
    push_str(&mut s, " packages - ");
    let count = decimal_string(picked as u64);
    push_str(&mut s, count.as_str());
    push_str(&mut s, " selected");
    match &view.notice {
        Some(n) => {
            push_str(&mut s, " - ");
            push_str(&mut s, n.as_str());
        },
        None => {
            assert(s@ + seq![] =~= s@);
        },
    }
    s
}

/// The search line: while searching, the query with a block at the cursor;
/// else a hint, or the query.
pub open spec fn search_text(query: Seq<char>, cursor: int, searching: bool) -> Seq<char> {
    if searching {
        "/ "@ + query.take(cursor) + "▌"@ + query.skip(cursor)
    } else if query.len() == 0 {
        "/ to search"@
    } else {
        "/ "@ + query
    }
}

/// The search line of a package list.
pub fn search_line(view: &PackageView) -> (s: String)
    requires
        view.query_cursor <= view.query@.len(),
    ensures
        s@ == search_text(view.query@, view.query_cursor as int, view.searching),
{
    if view.searching {
        let before = slice_chars(view.query.as_slice(), 0, view.query_cursor);
        let after = slice_chars(view.query.as_slice(), view.query_cursor, view.query.len());
        assert(before@ =~= view.query@.take(view.query_cursor as int));
        assert(after@ =~= view.query@.skip(view.query_cursor as int));
        let mut s = owned("/ ");
        let b = string_of(before.as_slice());
        push_str(&mut s, b.as_str());
        push_str(&mut s, "▌");
        let a = string_of(after.as_slice());
        push_str(&mut s, a.as_str());
        s
    } else if view.query.len() == 0 {
        owned("/ to search")
    } else {
        let q = string_of(view.query.as_slice());
        concat("/ ", q.as_str())
    }
}

/// The first row and the row past the last one of the matches that fit in
/// a list area of the given height, with the cursor kept in view.
pub open spec fn window_of(offset: usize, cursor: usize, height: usize, count: usize) -> (usize, usize) {
    let o1 = if cursor < offset {
        cursor as int
    } else if cursor >= offset + height {
        cursor + 1 - height
    } else {
        offset as int
    };
    let most = if count >= height {
        count - height
    } else {
        0
    };
    let o2 = if o1 < most {
        o1
    } else {
        most
    };
    let end = if o2 + height < count {
        o2 + height
    } else {
        count as int
    };
    (o2 as usize, end as usize)
}

/// Lays out the list area: records its height (at least one row), scrolls
/// so that the cursor is in view, and gives the rows to draw, from the
/// first to the one past the last. With no matches nothing is drawn and the
/// scroll goes back to the top.
pub fn layout_results(view: &mut PackageView, cursor: usize, area_height: u16) -> (r: (usize, usize))
    requires
        old(view).scroll_offset + 65536 <= usize::MAX,
        cursor < usize::MAX,
    ensures
        final(view).viewport_height == (if area_height > 0 {
            area_height as usize
        } else {
            1
        }),
        old(view).matches@.len() == 0 ==> final(view).scroll_offset == 0 && r == (0usize, 0usize),
        old(view).matches@.len() > 0 ==> r == window_of(
            old(view).scroll_offset,
            cursor,
            final(view).viewport_height,
            old(view).matches@.len() as usize,
        ) && final(view).scroll_offset == r.0,
        r.0 <= r.1 <= old(view).matches@.len(),
        final(view).packages@ == old(view).packages@,
        final(view).matches@ == old(view).matches@,
        final(view).selected@ == old(view).selected@,
        final(view).query@ == old(view).query@,
        final(view).query_cursor == old(view).query_cursor,
        final(view).searching == old(view).searching,
        final(view).loading == old(view).loading,
        final(view).source == old(view).source,
        final(view).back == old(view).back,
        final(view).notice == old(view).notice,
{
    view.viewport_height = if area_height > 0 {
        area_height as usize
    } else {
        1
    };
    let count = view.matches.len();
    if count == 0 {
        view.scroll_offset = 0;
        return (0, 0);
    }
    let height = view.viewport_height;
    if cursor < view.scroll_offset {
        view.scroll_offset = cursor;
    } else if cursor >= view.scroll_offset + height {
        view.scroll_offset = cursor + 1 - height;
    }
    let most = count.saturating_sub(height);
    if view.scroll_offset > most {
        view.scroll_offset = most;
    }
    let end = if view.scroll_offset + height < count {
        view.scroll_offset + height
    } else {
        count
    };
    (view.scroll_offset, end)
}

/// The marker in front of a package row: a pointer for the cursor row and a
/// check mark for a picked package.
pub open spec fn marker_text(at_cursor: bool, picked: bool) -> Seq<char> {
    (if at_cursor {
        ">"@
    } else {
        " "@
    }) + (if picked {
        "✓"@
    } else {
        " "@
    }) + " "@
}

/// The marker in front of a package row.
pub fn row_marker(at_cursor: bool, picked: bool) -> (s: String)
    ensures
        s@ == marker_text(at_cursor, picked),
{
    let mut s = owned(if at_cursor {
        ">"
    } else {
        " "
    });
    push_str(
        &mut s,
        if picked {
            "✓"
        } else {
            " "
        },
    );
    push_str(&mut s, " ");
    s
}

/// A package name split at its first `/` into repository and name.
pub fn split_package(package: &str) -> (r: Option<(String, String)>)
    ensures
        match r {
            Some((repo, name)) => exists|i: int|
                0 <= i < package@.len() && package@[i] == '/' && (forall|k: int|
                    0 <= k < i ==> package@[k] != '/') && repo@ == package@.take(i) && name@
                    == package@.skip(i + 1),
            None => forall|k: int| 0 <= k < package@.len() ==> package@[k] != '/',
        },
{
    let c = chars_of(package);
    match find_first(c.as_slice(), '/') {
        Some(i) => {
            let len = c.len();
            let repo = slice_chars(c.as_slice(), 0, i);
            let name = slice_chars(c.as_slice(), i + 1, len);
            assert(repo@ =~= package@.take(i as int));
            assert(name@ =~= package@.skip(i + 1));
            Some((string_of(repo.as_slice()), string_of(name.as_slice())))
        },
        None => None,
    }
}

/// The text of a confirmation: what the action does, its command (or why
/// there is none), and the keys.
pub open spec fn confirmation_of(action: Action, helper: Option<Helper>) -> Seq<char> {
    action_summary(action) + "\n\nCommand to run:\n"@ + match command_preview_of(action, helper) {
        Ok(c) => c,
        Err(e) => e,
    } + "\n\ny: confirm  n/Esc: cancel"@
}

/// The text of a confirmation.
pub fn confirmation_text(action: &Action, helper: Option<Helper>) -> (s: String)
    ensures
        s@ == confirmation_of(*action, helper),
{
    let command = match action.command_preview(helper) {
        Ok(c) => c,
        Err(e) => e,
    };
    let mut s = action.summary();
    push_str(&mut s, "\n\nCommand to run:\n");
    push_str(&mut s, command.as_str());
    push_str(&mut s, "\n\ny: confirm  n/Esc: cancel");
    s
}

/// The text of an output screen: the title, a blank line, the body.
pub fn output_text(output: &OutputView) -> (s: String)
    ensures
        s@ == output.title@ + "\n\n"@ + output.body@,
{
    let mut s = concat(output.title.as_str(), "\n\n");
    push_str(&mut s, output.body.as_str());
    s
}

} // verus!
