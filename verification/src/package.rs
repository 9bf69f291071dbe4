//! Package sources, the actions on packages and the commands that carry
//! them out, and how the output of those commands becomes package lists.
use vstd::prelude::*;

use crate::cache::{cache_entries, cache_text, is_cacheable, lemma_cache_round_trip, PackageCache};
use crate::order::{char_rows, sort_rows, str_order};
use crate::text::{
    is_white_space, lemma_words_are_words, chars_of, concat, join, join_strings, lines, owned, push_str, signed_decimal,
    signed_decimal_string, split_lines, split_words, string_of, strs, trim, trim_chars, words,
    decimal, decimal_string,
};

verus! {

/// An AUR helper that can stand in for pacman.
#[derive(Clone, Copy, Debug, PartialEq, Eq, Structural)]
pub enum Helper {
    Yay,
}

/// The program name of a helper.
pub open spec fn helper_command(helper: Helper) -> Seq<char> {
    match helper {
        Helper::Yay => "yay"@,
    }
}

impl Helper {
    /// The program name of the helper.
    pub fn command(self) -> (c: &'static str)
        ensures
            c@ == helper_command(self),
    {
        match self {
            Helper::Yay => "yay",
        }
    }
}

/// Where a list of packages comes from.
#[derive(Clone, Copy, Debug, PartialEq, Eq, Structural)]
pub enum PackageSource {
    Available,
    Installed,
    Recent,
    Aur,
    Orphaned,
}

/// The heading shown for a list from `source`.
pub open spec fn source_title(source: PackageSource) -> Seq<char> {
    match source {
        PackageSource::Available => "Install Packages"@,
        PackageSource::Installed => "Installed Packages"@,
        PackageSource::Recent => "Recently Installed Packages"@,
        PackageSource::Aur => "Installed AUR Packages"@,
        PackageSource::Orphaned => "Orphaned Packages"@,
    }
}

impl PackageSource {
    /// The heading shown for a list from this source.
    pub fn title(self) -> (t: &'static str)
        ensures
            t@ == source_title(self),
    {
        match self {
            PackageSource::Available => "Install Packages",
            PackageSource::Installed => "Installed Packages",
            PackageSource::Recent => "Recently Installed Packages",
            PackageSource::Aur => "Installed AUR Packages",
            PackageSource::Orphaned => "Orphaned Packages",
        }
    }

    /// Whether the packages of this source are installed ones (all but the
    /// available packages).
    pub fn is_installed(self) -> (b: bool)
        ensures
            b == !(self is Available),
    {
        !matches!(self, PackageSource::Available)
    }
}

/// Something the user can ask to be done.
#[derive(Clone, Debug, PartialEq, Eq)]
pub enum Action {
    Install(Vec<String>),
    Remove(Vec<String>),
    UpdateSystem,
    ClearHelperCache,
    RefreshCache { without_aur: bool },
}

/// An action seen as a value: the packages it is on, by name.
pub enum ActionView {
    Install(Seq<Seq<char>>),
    Remove(Seq<Seq<char>>),
    UpdateSystem,
    ClearHelperCache,
    RefreshCache(bool),
}

impl View for Action {
    type V = ActionView;

    open spec fn view(&self) -> ActionView {
        match self {
            Action::Install(p) => ActionView::Install(strs(p@)),
            Action::Remove(p) => ActionView::Remove(strs(p@)),
            Action::UpdateSystem => ActionView::UpdateSystem,
            Action::ClearHelperCache => ActionView::ClearHelperCache,
            Action::RefreshCache { without_aur } => ActionView::RefreshCache(*without_aur),
        }
    }
}

/// The heading of an action.
pub open spec fn action_title(action: Action) -> Seq<char> {
    match action {
        Action::Install(_) => "Install Packages"@,
        Action::Remove(_) => "Remove Packages"@,
        Action::UpdateSystem => "Update System"@,
        Action::ClearHelperCache => "Clear Helper Cache"@,
        Action::RefreshCache { without_aur } => if without_aur {
            "Refresh Pack Cache (without AUR)"@
        } else {
            "Refresh Pack Cache"@
        },
    }
}

/// What an action will do, in words.
pub open spec fn action_summary(action: Action) -> Seq<char> {
    match action {
        Action::Install(packages) => decimal(packages@.len()) + " packages will be installed:\n"@
            + join(strs(packages@), "\n"@),
        Action::Remove(packages) => decimal(packages@.len())
            + " packages will be removed with -Rns:\n"@ + join(strs(packages@), "\n"@)
            + "\n\nThis may also remove configuration files and unneeded dependencies."@,
        Action::UpdateSystem => "System packages will be updated."@,
        Action::ClearHelperCache => "The package manager cache will be cleared with -Scc."@,
        Action::RefreshCache { without_aur } => if without_aur {
            "The package list will be regenerated using pacman repositories only."@
        } else {
            "The package list will be regenerated through the AUR helper."@
        },
    }
}

/// The program that runs package operations: the helper when there is one,
/// else pacman.
pub open spec fn package_command_of(helper: Option<Helper>) -> Seq<char> {
    match helper {
        Some(h) => helper_command(h),
        None => "pacman"@,
    }
}

/// The error given when an operation needs the AUR helper and there is none.
pub open spec fn helper_required_message() -> Seq<char> {
    "yay is required on PATH for AUR operations."@
}

/// The command line shown before an action is carried out; pacman stands in
/// for the helper when there is none.
pub open spec fn command_preview_of(action: Action, helper: Option<Helper>) -> Result<
    Seq<char>,
    Seq<char>,
> {
    match action {
        Action::RefreshCache { without_aur } => if without_aur {
            Ok("pacman -Sl"@)
        } else {
            Ok(package_command_of(helper) + " -Sl"@)
        },
        Action::Install(packages) => Ok(package_command_of(helper) + " -S "@ + join(
            strs(packages@),
            " "@,
        )),
        Action::Remove(packages) => Ok(package_command_of(helper) + " -Rns "@ + join(
            strs(packages@),
            " "@,
        )),
        Action::UpdateSystem => Ok(package_command_of(helper) + " -Syu"@),
        Action::ClearHelperCache => Ok(package_command_of(helper) + " -Scc"@),
    }
}

/// The view of a string result.
pub open spec fn result_view(r: Result<String, String>) -> Result<Seq<char>, Seq<char>> {
    match r {
        Ok(s) => Ok(s@),
        Err(e) => Err(e@),
    }
}

/// The view of an optional string.
pub open spec fn option_view(o: Option<String>) -> Option<Seq<char>> {
    match o {
        Some(s) => Some(s@),
        None => None,
    }
}

fn copy_strings(v: &Vec<String>) -> (r: Vec<String>)
    ensures
        strs(r@) == strs(v@),
{
    let r = v.clone();
    assert(strs(r@) =~= strs(v@));
    r
}

impl Action {
    /// A copy of this action.
    pub fn duplicate(&self) -> (a: Action)
        ensures
            a@ == self@,
    {
        match self {
            Action::Install(p) => Action::Install(copy_strings(p)),
            Action::Remove(p) => Action::Remove(copy_strings(p)),
            Action::UpdateSystem => Action::UpdateSystem,
            Action::ClearHelperCache => Action::ClearHelperCache,
            Action::RefreshCache { without_aur } => Action::RefreshCache {
                without_aur: *without_aur,
            },
        }
    }

    /// The heading of this action.
    pub fn title(&self) -> (t: &'static str)
        ensures
            t@ == action_title(*self),
    {
        match self {
            Action::Install(_) => "Install Packages",
            Action::Remove(_) => "Remove Packages",
            Action::UpdateSystem => "Update System",
            Action::ClearHelperCache => "Clear Helper Cache",
            Action::RefreshCache { without_aur } => if *without_aur {
                "Refresh Pack Cache (without AUR)"
            } else {
                "Refresh Pack Cache"
            },
        }
    }

    /// What this action will do, in words.
    pub fn summary(&self) -> (s: String)
        ensures
            s@ == action_summary(*self),
    {
        match self {
            Action::Install(packages) => {
                let mut s = decimal_string(packages.len() as u64);
                push_str(&mut s, " packages will be installed:\n");
                let list = join_strings(packages.as_slice(), "\n");
                push_str(&mut s, list.as_str());
                s
            },
            Action::Remove(packages) => {
                let mut s = decimal_string(packages.len() as u64);
                push_str(&mut s, " packages will be removed with -Rns:\n");
                let list = join_strings(packages.as_slice(), "\n");
                push_str(&mut s, list.as_str());
                push_str(
                    &mut s,
                    "\n\nThis may also remove configuration files and unneeded dependencies.",
                );
                s
            },
            Action::UpdateSystem => owned("System packages will be updated."),
            Action::ClearHelperCache => owned(
                "The package manager cache will be cleared with -Scc.",
            ),
            Action::RefreshCache { without_aur } => if *without_aur {
                owned("The package list will be regenerated using pacman repositories only.")
            } else {
                owned("The package list will be regenerated through the AUR helper.")
            },
        }
    }

    /// The command line that carries out this action with the given helper
    /// (pacman when there is none); it is always given.
    pub fn command_preview(&self, helper: Option<Helper>) -> (r: Result<String, String>)
        ensures
            result_view(r) == command_preview_of(*self, helper),
    {
        match self {
            Action::RefreshCache { without_aur } => {
                if *without_aur {
                    Ok(owned("pacman -Sl"))
                } else {
                    Ok(concat(package_command(helper), " -Sl"))
                }
            },
            Action::Install(packages) => {
                let mut s = concat(package_command(helper), " -S ");
                let list = join_strings(packages.as_slice(), " ");
                push_str(&mut s, list.as_str());
                Ok(s)
            },
            Action::Remove(packages) => {
                let mut s = concat(package_command(helper), " -Rns ");
                let list = join_strings(packages.as_slice(), " ");
                push_str(&mut s, list.as_str());
                Ok(s)
            },
            Action::UpdateSystem => Ok(concat(package_command(helper), " -Syu")),
            Action::ClearHelperCache => Ok(concat(package_command(helper), " -Scc")),
        }
    }
}

/// The helper, or the error that operations needing it report.
pub fn require_helper(helper: Option<Helper>) -> (r: Result<Helper, String>)
    ensures
        match helper {
            Some(h) => r == Ok::<Helper, String>(h),
            None => r matches Err(e) && e@ == helper_required_message(),
        },
{
    match helper {
        Some(h) => Ok(h),
        None => Err(owned("yay is required on PATH for AUR operations.")),
    }
}

/// The program that runs package operations with the given helper.
pub fn package_command(helper: Option<Helper>) -> (c: &'static str)
    ensures
        c@ == package_command_of(helper),
{
    match helper {
        Some(h) => h.command(),
        None => "pacman",
    }
}

/// A list of packages, with a remark about how it was obtained.
#[derive(Debug)]
pub struct PackageList {
    pub packages: Vec<String>,
    pub notice: Option<String>,
}

/// The view of a package list: its packages and its notice.
pub open spec fn list_view(l: PackageList) -> (Seq<Seq<char>>, Option<Seq<char>>) {
    (strs(l.packages@), option_view(l.notice))
}

/// The view of a list result.
pub open spec fn list_result_view(r: Result<PackageList, String>) -> Result<
    (Seq<Seq<char>>, Option<Seq<char>>),
    Seq<char>,
> {
    match r {
        Ok(l) => Ok(list_view(l)),
        Err(e) => Err(e@),
    }
}

/// What a finished command reported.
#[derive(Debug)]
pub struct CommandResult {
    pub success: bool,
    pub exit_code: Option<i32>,
    pub stdout: String,
    pub stderr: String,
}

// ---------------------------------------------------------------------------
// Lists of names
// ---------------------------------------------------------------------------
/// `s` with every repeated entry left out, keeping the first of each.
pub open spec fn dedup(s: Seq<Seq<char>>) -> Seq<Seq<char>>
    decreases s.len(),
{
    if s.len() == 0 {
        seq![]
    } else {
        let r = dedup(s.drop_last());
        if r.contains(s.last()) {
            r
        } else {
            r.push(s.last())
        }
    }
}

/// `packages` with repeated names left out; the first of each stays, in order.
pub fn deduplicate(packages: Vec<String>) -> (r: Vec<String>)
    ensures
        strs(r@) == dedup(strs(packages@)),
{
    let ghost all = strs(packages@);
    let mut r: Vec<String> = Vec::new();
    let mut i: usize = 0;
    assert(all.take(0) =~= seq![]);
    assert(strs(r@) =~= seq![]);
    while i < packages.len()
        invariant
            i <= packages@.len(),
            all == strs(packages@),
            strs(r@) == dedup(all.take(i as int)),
        decreases packages@.len() - i,
    {
        let ghost seen = strs(r@);
        let mut found = false;
        let mut j: usize = 0;
        while j < r.len()
            invariant
                j <= r@.len(),
                i < packages@.len(),
                seen == strs(r@),
                found == exists|k: int| 0 <= k < j && seen[k] == packages@[i as int]@,
            decreases r@.len() - j,
        {
            if r[j] == packages[i] {
                found = true;
            }
            assert(seen[j as int] == r@[j as int]@);
            j += 1;
        }
        proof {
            assert(all.take(i + 1).drop_last() =~= all.take(i as int));
            assert(all.take(i + 1).last() == packages@[i as int]@);
            if found {
                let k = choose|k: int| 0 <= k < j && seen[k] == packages@[i as int]@;
                assert(seen.contains(packages@[i as int]@));
            } else {
                assert(!seen.contains(packages@[i as int]@));
            }
        }
        if !found {
            let p = packages[i].clone();
            r.push(p);
            assert(strs(r@) =~= seen.push(packages@[i as int]@));
        }
        i += 1;
    }
    assert(all.take(packages@.len() as int) =~= all);
    r
}

/// A list without repeats keeps each entry of the original once, keeps no
/// other, and keeps them in the order of their first appearance.
pub proof fn lemma_dedup_properties(s: Seq<Seq<char>>)
    ensures
        forall|x: Seq<char>| dedup(s).contains(x) <==> s.contains(x),
        forall|i: int, j: int| 0 <= i < j < dedup(s).len() ==> dedup(s)[i] != dedup(s)[j],
    decreases s.len(),
{
    if s.len() > 0 {
        let r = dedup(s.drop_last());
        lemma_dedup_properties(s.drop_last());
        assert forall|x: Seq<char>| dedup(s).contains(x) <==> s.contains(x) by {
            if s.contains(x) && x != s.last() {
                let k = choose|k: int| 0 <= k < s.len() && s[k] == x;
                assert(s.drop_last()[k] == x);
            }
            if s.drop_last().contains(x) {
                let k = choose|k: int| 0 <= k < s.drop_last().len() && s.drop_last()[k] == x;
                assert(s[k] == x);
            }
            if !r.contains(s.last()) && x == s.last() {
                assert(r.push(s.last())[r.len() as int] == x);
            }
            if !r.contains(s.last()) && r.push(s.last()).contains(x) && x != s.last() {
                let k = choose|k: int| 0 <= k < r.len() + 1 && r.push(s.last())[k] == x;
                assert(r[k] == x);
            }
            if r.contains(x) && !r.contains(s.last()) {
                let k = choose|k: int| 0 <= k < r.len() && r[k] == x;
                assert(r.push(s.last())[k] == x);
            }
            if s.contains(x) && x == s.last() {
                assert(s[s.len() - 1] == x);
            }
        }
    }
}

/// The package (`repository/name`) named by a line of `pacman -Sl`: its
/// first two words joined by a slash, for lines with at least two words.
pub open spec fn sync_entries(ls: Seq<Seq<char>>) -> Seq<Seq<char>>
    decreases ls.len(),
{
    if ls.len() == 0 {
        seq![]
    } else {
        let w = words(ls[0]);
        if w.len() >= 2 {
            seq![w[0] + seq!['/'] + w[1]] + sync_entries(ls.drop_first())
        } else {
            sync_entries(ls.drop_first())
        }
    }
}

/// The packages listed by the output of `pacman -Sl` (or the helper's), as
/// `repository/name`, each once.
pub open spec fn sync_packages(output: Seq<char>) -> Seq<Seq<char>> {
    dedup(sync_entries(lines(output)))
}

/// The packages listed by the output of `pacman -Sl`: `repository/name` for
/// every line with two words or more, repeats left out.
pub fn parse_sync_packages(output: &str) -> (r: Vec<String>)
    ensures
        strs(r@) == sync_packages(output@),
{
    let chars = chars_of(output);
    let ls = split_lines(chars.as_slice());
    let ghost all = lines(output@);
    let mut raw: Vec<String> = Vec::new();
    let mut i: usize = 0;
    assert(all.skip(0) =~= all);
    while i < ls.len()
        invariant
            i <= ls@.len(),
            ls@.len() == all.len(),
            all == lines(output@),
            forall|k: int| 0 <= k < ls@.len() ==> (#[trigger] ls@[k])@ == all[k],
            strs(raw@) + sync_entries(all.skip(i as int)) == sync_entries(all),
        decreases ls@.len() - i,
    {
        let w = split_words(ls[i].as_slice());
        proof {
            assert(all.skip(i as int).drop_first() =~= all.skip(i + 1));
            assert(all.skip(i as int)[0] == all[i as int]);
        }
        if w.len() >= 2 {
            let mut entry = string_of(w[0].as_slice());
            let second = string_of(w[1].as_slice());
            crate::text::push_char(&mut entry, '/');
            push_str(&mut entry, second.as_str());
            let ghost before = strs(raw@);
            raw.push(entry);
            proof {
                let ws = words(all[i as int]);
                assert(entry@ == ws[0] + seq!['/'] + ws[1]);
                assert(strs(raw@) =~= before.push(entry@));
                assert(before.push(entry@) + sync_entries(all.skip(i + 1)) =~= before + (seq![
                    entry@,
                ] + sync_entries(all.skip(i + 1))));
            }
        }
        i += 1;
    }
    proof {
        assert(all.skip(i as int) =~= seq![]);
        assert(strs(raw@) + seq![] =~= strs(raw@));
    }
    deduplicate(raw)
}

/// The arguments for a package operation: the operation, then the packages.
pub fn package_args(operation: &str, packages: &[String]) -> (args: Vec<String>)
    ensures
        strs(args@) == seq![operation@] + strs(packages@),
{
    let mut args: Vec<String> = Vec::new();
    args.push(owned(operation));
    let mut i: usize = 0;
    while i < packages.len()
        invariant
            i <= packages@.len(),
            strs(args@) == seq![operation@] + strs(packages@).take(i as int),
        decreases packages@.len() - i,
    {
        let ghost before = strs(args@);
        args.push(packages[i].clone());
        assert(strs(args@) =~= before.push(packages@[i as int]@));
        assert(strs(packages@).take(i + 1) =~= strs(packages@).take(i as int).push(
            packages@[i as int]@,
        ));
        i += 1;
    }
    assert(strs(packages@).take(packages@.len() as int) =~= strs(packages@));
    args
}

// ---------------------------------------------------------------------------
// Command outcomes
// ---------------------------------------------------------------------------
/// How an exit code is written in messages: its number, or `bilinmiyor`
/// ("unknown") when the process had none.
pub open spec fn exit_code_text(code: Option<i32>) -> Seq<char> {
    match code {
        Some(c) => signed_decimal(c as int),
        None => "bilinmiyor"@,
    }
}

/// How an exit code is written in messages.
pub fn exit_code_string(code: Option<i32>) -> (s: String)
    ensures
        s@ == exit_code_text(code),
{
    match code {
        Some(c) => signed_decimal_string(c),
        None => owned("bilinmiyor"),
    }
}

/// The message for a command that failed: `context`, the exit code, and the
/// trimmed error output (or, when that is blank, the trimmed standard
/// output) when there is any.
pub open spec fn command_error_text(result: CommandResult, context: Seq<char>) -> Seq<char> {
    let details = if trim(result.stderr@).len() == 0 {
        trim(result.stdout@)
    } else {
        trim(result.stderr@)
    };
    if details.len() == 0 {
        context + " (exit code "@ + exit_code_text(result.exit_code) + ")."@
    } else {
        context + " (exit code "@ + exit_code_text(result.exit_code) + "):\n"@ + details
    }
}

/// The message for a command that failed.
pub fn command_error(result: CommandResult, context: &str) -> (s: String)
    ensures
        s@ == command_error_text(result, context@),
{
    let err = chars_of(result.stderr.as_str());
    let err_trimmed = trim_chars(err.as_slice());
    let details = if err_trimmed.len() == 0 {
        let out = chars_of(result.stdout.as_str());
        trim_chars(out.as_slice())
    } else {
        err_trimmed
    };
    let code = exit_code_string(result.exit_code);
    let mut s = concat(context, " (exit code ");
    push_str(&mut s, code.as_str());
    if details.len() == 0 {
        push_str(&mut s, ").");
    } else {
        push_str(&mut s, "):\n");
        let d = string_of(details.as_slice());
        push_str(&mut s, d.as_str());
    }
    s
}

/// The outcome of a command that lists `repository/name` lines: its
/// packages, or an error when it failed or listed none.
pub open spec fn successful_packages_of(result: CommandResult, context: Seq<char>) -> Result<
    Seq<Seq<char>>,
    Seq<char>,
> {
    if !result.success {
        Err(command_error_text(result, context))
    } else if sync_packages(result.stdout@).len() == 0 {
        Err(context + ": the package list was empty."@)
    } else {
        Ok(sync_packages(result.stdout@))
    }
}

/// The packages listed by a successful `-Sl` command, or the error.
pub fn successful_packages(result: CommandResult, context: &str) -> (r: Result<Vec<String>, String>)
    ensures
        match (r, successful_packages_of(result, context@)) {
            (Ok(p), Ok(q)) => strs(p@) == q,
            (Err(e), Err(f)) => e@ == f,
            _ => false,
        },
{
    if !result.success {
        return Err(command_error(result, context));
    }
    let packages = parse_sync_packages(result.stdout.as_str());
    if packages.len() == 0 {
        return Err(concat(context, ": the package list was empty."));
    }
    Ok(packages)
}

/// The outcome of a command that lists one package per line: the trimmed,
/// non-empty lines without repeats, or an error when it failed.
pub open spec fn successful_lines_of(result: CommandResult, context: Seq<char>) -> Result<
    Seq<Seq<char>>,
    Seq<char>,
> {
    if !result.success {
        Err(command_error_text(result, context))
    } else {
        Ok(dedup(cache_entries(result.stdout@)))
    }
}

/// The packages listed one per line by a successful command, or the error.
pub fn successful_lines(result: CommandResult, context: &str) -> (r: Result<Vec<String>, String>)
    ensures
        match (r, successful_lines_of(result, context@)) {
            (Ok(p), Ok(q)) => strs(p@) == q,
            (Err(e), Err(f)) => e@ == f,
            _ => false,
        },
{
    if !result.success {
        return Err(command_error(result, context));
    }
    let entries = PackageCache::parse_contents(result.stdout.as_str());
    Ok(deduplicate(entries))
}

/// The last words of those of `rows` that have a word.
pub open spec fn last_words(rows: Seq<Seq<char>>) -> Seq<Seq<char>>
    decreases rows.len(),
{
    if rows.len() == 0 {
        seq![]
    } else {
        let w = words(rows[0]);
        if w.len() > 0 {
            seq![w.last()] + last_words(rows.drop_first())
        } else {
            last_words(rows.drop_first())
        }
    }
}

/// How many of the newest installations are looked at.
pub open spec fn recent_limit() -> nat {
    200
}

/// The recently installed packages, from the lines of `expac` output sorted
/// by the order of strings (so by installation time, which each line starts
/// with): the newest 200 lines, the last word of each, each name once.
pub open spec fn recent_from_sorted(sorted: Seq<Seq<char>>) -> Seq<Seq<char>> {
    let n = if sorted.len() < recent_limit() {
        sorted.len()
    } else {
        recent_limit()
    };
    dedup(last_words(sorted.reverse().take(n as int)))
}

/// The recently installed packages listed by the output of `expac`.
pub open spec fn recent_packages_of(output: Seq<char>) -> Seq<Seq<char>> {
    recent_from_sorted(lines(output).sort_by(str_order()))
}

/// The recently installed packages listed by the output of `expac`, newest
/// first.
pub fn recent_packages(output: &str) -> (r: Vec<String>)
    ensures
        strs(r@) == recent_packages_of(output@),
{
    let chars = chars_of(output);
    let ls = split_lines(chars.as_slice());
    assert(char_rows(ls@) =~= lines(output@));
    let sorted = sort_rows(ls);
    let ghost srt = char_rows(sorted@);
    let len = sorted.len();
    let n: usize = if len < 200 {
        len
    } else {
        200
    };
    let ghost newest = srt.reverse().take(n as int);
    let mut raw: Vec<String> = Vec::new();
    let mut j: usize = 0;
    assert(newest.skip(0) =~= newest);
    while j < n
        invariant
            j <= n <= len,
            len == sorted@.len(),
            srt == char_rows(sorted@),
            newest == srt.reverse().take(n as int),
            strs(raw@) + last_words(newest.skip(j as int)) == last_words(newest),
        decreases n - j,
    {
        let row = &sorted[len - 1 - j];
        let w = split_words(row.as_slice());
        proof {
            assert(newest.skip(j as int).drop_first() =~= newest.skip(j + 1));
            assert(newest.skip(j as int)[0] == newest[j as int]);
            assert(newest[j as int] == srt[len - 1 - j]);
        }
        if w.len() > 0 {
            let last = string_of(w[w.len() - 1].as_slice());
            let ghost before = strs(raw@);
            raw.push(last);
            proof {
                assert(strs(raw@) =~= before.push(last@));
                assert(before.push(last@) + last_words(newest.skip(j + 1)) =~= before + (seq![
                    last@,
                ] + last_words(newest.skip(j + 1))));
            }
        }
        j += 1;
    }
    proof {
        assert(newest.skip(j as int) =~= seq![]);
        assert(strs(raw@) + seq![] =~= strs(raw@));
    }
    deduplicate(raw)
}

// ---------------------------------------------------------------------------
// The package manager
// ---------------------------------------------------------------------------
/// A program to run and its arguments.
#[derive(Debug)]
pub struct Invocation {
    pub program: String,
    pub args: Vec<String>,
}

/// The view of an invocation: the program and its arguments.
pub open spec fn invocation_view(i: Invocation) -> (Seq<char>, Seq<Seq<char>>) {
    (i.program@, strs(i.args@))
}

/// Work that only the caller can do, asked for by the package manager.
#[derive(Debug)]
pub enum Io {
    /// Tell whether the cache file is fresh.
    CheckCacheFresh,
    /// Read the text of the cache file.
    ReadCache,
    /// Write these packages to the cache file.
    WriteCache(Vec<String>),
    /// Run a program and capture its output.
    Run(Invocation),
}

/// What came of the work asked for.
#[derive(Debug)]
pub enum IoResult {
    /// Whether the cache file is fresh.
    CacheFresh(bool),
    /// The text of the cache file, or the error that reading it gave.
    CacheRead(Result<String, String>),
    /// The error that writing the cache file gave, if any.
    CacheWritten(Result<(), String>),
    /// The captured output of the program, or the error that starting it gave.
    Ran(Result<CommandResult, String>),
}

/// Where the loading of a package list stands.
#[derive(Debug)]
pub enum ListStage {
    /// Waiting to learn whether the cache is fresh.
    CheckingCache,
    /// Waiting for the text of a fresh cache.
    ReadingFreshCache,
    /// Waiting for the text of a stale cache, kept in case a refresh fails.
    ReadingStaleCache,
    /// Waiting for the package list command; holds the stale list, if any.
    Refreshing(Option<Vec<String>>),
    /// Waiting for the new list to be written; holds the stale list, if any.
    WritingCache(Option<Vec<String>>),
    /// Waiting for the text of the cache just written.
    RereadingCache,
    /// Waiting for the output of the command that lists the packages.
    Capturing,
}

/// The next thing the loading of a package list needs, or its result.
#[derive(Debug)]
pub enum ListStep {
    Next(ListStage, Io),
    Done(Result<PackageList, String>),
}

/// Where a refresh of the cache stands.
#[derive(Debug)]
pub enum RefreshStage {
    /// Waiting for the package list command.
    Capturing,
    /// Waiting for the list of this many packages to be written.
    Writing(usize),
}

/// The next thing a refresh of the cache needs, or its result: the number
/// of packages written.
#[derive(Debug)]
pub enum RefreshStep {
    Next(RefreshStage, Io),
    Done(Result<usize, String>),
}

/// Whether `result` is the kind of result that `stage` waits for.
pub open spec fn list_awaits(stage: ListStage, result: IoResult) -> bool {
    match stage {
        ListStage::CheckingCache => result is CacheFresh,
        ListStage::ReadingFreshCache => result is CacheRead,
        ListStage::ReadingStaleCache => result is CacheRead,
        ListStage::Refreshing(_) => result is Ran,
        ListStage::WritingCache(_) => result is CacheWritten,
        ListStage::RereadingCache => result is CacheRead,
        ListStage::Capturing => result is Ran,
    }
}

/// Whether `stage` is one that loading packages of `source` goes through.
pub open spec fn list_stage_of(source: PackageSource, stage: ListStage) -> bool {
    stage is Capturing <==> !(source is Available)
}

/// Whether `result` is the kind of result that `stage` waits for.
pub open spec fn refresh_awaits(stage: RefreshStage, result: IoResult) -> bool {
    match stage {
        RefreshStage::Capturing => result is Ran,
        RefreshStage::Writing(_) => result is CacheWritten,
    }
}

/// The view of an optional list of strings.
pub open spec fn option_strs(o: Option<Vec<String>>) -> Option<Seq<Seq<char>>> {
    match o {
        Some(v) => Some(strs(v@)),
        None => None,
    }
}

/// The program that lists the packages of `source` (other than the available ones).
pub open spec fn list_program(source: PackageSource, helper: Option<Helper>) -> Seq<char> {
    match source {
        PackageSource::Recent => "expac"@,
        _ => package_command_of(helper),
    }
}

/// The arguments of the program that lists the packages of `source`.
pub open spec fn list_args(source: PackageSource) -> Seq<Seq<char>> {
    match source {
        PackageSource::Installed => seq!["-Qq"@],
        PackageSource::Aur => seq!["-Qqm"@],
        PackageSource::Orphaned => seq!["-Qtdq"@],
        _ => seq!["--timefmt=%Y-%m-%d %T"@, "%l\\t%n"@],
    }
}

/// The error given when a program could not be started.
pub open spec fn run_error_text(program: Seq<char>, error: Seq<char>) -> Seq<char> {
    "Could not run "@ + program + ": "@ + error
}

/// The list (or error) that a captured command gives for `source`.
pub open spec fn capture_outcome(
    source: PackageSource,
    helper: Option<Helper>,
    ran: Result<CommandResult, String>,
) -> Result<(Seq<Seq<char>>, Option<Seq<char>>), Seq<char>> {
    match ran {
        Err(e) => Err(run_error_text(list_program(source, helper), e@)),
        Ok(res) => match source {
            PackageSource::Recent => if !res.success {
                Err(command_error_text(res, "Could not retrieve recently installed packages"@))
            } else {
                Ok((recent_packages_of(res.stdout@), None))
            },
            PackageSource::Orphaned => if !res.success && trim(res.stdout@).len() == 0 {
                Ok((seq![], Some("No orphaned packages found."@)))
            } else {
                match successful_lines_of(res, "Could not retrieve orphaned packages"@) {
                    Ok(p) => Ok((p, None)),
                    Err(m) => Err(m),
                }
            },
            _ => match successful_lines_of(res, "Could not retrieve the package list"@) {
                Ok(p) => Ok((p, None)),
                Err(m) => Err(m),
            },
        },
    }
}

/// The program that regenerates the package list.
pub open spec fn refresh_program(helper: Option<Helper>, without_aur: bool) -> Seq<char> {
    if without_aur {
        "pacman"@
    } else {
        package_command_of(helper)
    }
}

/// The packages (or error) that running the refresh command gives.
pub open spec fn refresh_run_outcome(program: Seq<char>, ran: Result<CommandResult, String>) -> Result<
    Seq<Seq<char>>,
    Seq<char>,
> {
    match ran {
        Err(e) => Err(run_error_text(program, e@)),
        Ok(res) => successful_packages_of(res, "Could not retrieve the package list"@),
    }
}

/// The error given when the new list could not be written.
pub open spec fn write_error_text(error: Seq<char>) -> Seq<char> {
    "Could not write cache: "@ + error
}

/// The list kept from a stale cache: its entries, when it was read and
/// lists any.
pub open spec fn stale_of(read: Result<String, String>) -> Option<Seq<Seq<char>>> {
    match read {
        Ok(t) => if cache_entries(t@).len() > 0 {
            Some(cache_entries(t@))
        } else {
            None
        },
        Err(_) => None,
    }
}

/// The outcome when a refresh failed with `message`: the stale list with a
/// notice when there is one, else the error.
pub open spec fn fallback_outcome(stale: Option<Seq<Seq<char>>>, message: Seq<char>) -> Result<
    (Seq<Seq<char>>, Option<Seq<char>>),
    Seq<char>,
> {
    match stale {
        Some(s) => Ok((s, Some("Could not refresh cache; using the stale list: "@ + message))),
        None => Err(message),
    }
}

/// The outcome of reading the cache: its packages, or the error.
pub open spec fn cache_read_outcome(read: Result<String, String>) -> Result<
    (Seq<Seq<char>>, Option<Seq<char>>),
    Seq<char>,
> {
    match read {
        Ok(t) => Ok((cache_entries(t@), None)),
        Err(e) => Err("Could not read cache: "@ + e@),
    }
}

/// The package manager front end: pacman, and the AUR helper when one is
/// installed.
#[derive(Clone)]
pub struct PackageManager {
    helper: Option<Helper>,
}

impl View for PackageManager {
    type V = Option<Helper>;

    /// A package manager is seen as the helper it uses.
    closed spec fn view(&self) -> Option<Helper> {
        self.helper
    }
}

fn strings_of(items: &[&str]) -> (v: Vec<String>)
    ensures
        strs(v@) == items@.map_values(|s: &str| s@),
{
    let mut v: Vec<String> = Vec::new();
    let mut i: usize = 0;
    while i < items.len()
        invariant
            i <= items@.len(),
            strs(v@) == items@.map_values(|s: &str| s@).take(i as int),
        decreases items@.len() - i,
    {
        v.push(owned(items[i]));
        assert(items@.map_values(|s: &str| s@).take(i + 1) =~= items@.map_values(|s: &str| s@).take(
            i as int,
        ).push(items@[i as int]@));
        i += 1;
    }
    assert(items@.map_values(|s: &str| s@).take(items@.len() as int) =~= items@.map_values(
        |s: &str| s@,
    ));
    v
}

fn invocation(program: &str, args: &[&str]) -> (i: Invocation)
    ensures
        invocation_view(i) == (program@, args@.map_values(|s: &str| s@)),
{
    Invocation { program: owned(program), args: strings_of(args) }
}

fn to_list(packages: Vec<String>, notice: Option<String>) -> (l: PackageList)
    ensures
        list_view(l) == (strs(packages@), option_view(notice)),
{
    PackageList { packages, notice }
}

impl PackageManager {
    /// The package manager, using yay when it was found on the `PATH`.
    pub fn detect(yay_on_path: bool) -> (m: PackageManager)
        ensures
            m@ == (if yay_on_path {
                Some(Helper::Yay)
            } else {
                None
            }),
    {
        let helper = if yay_on_path {
            Some(Helper::Yay)
        } else {
            None
        };
        PackageManager { helper }
    }

    /// The AUR helper in use, if any.
    pub fn helper(&self) -> (h: Option<Helper>)
        ensures
            h == self@,
    {
        self.helper
    }

    /// Starts loading the packages of `source`: for the available packages
    /// the cache's freshness is asked first; for the others the command that
    /// lists them is to be run (pacman's when there is no helper).
    pub fn list(&self, source: PackageSource) -> (step: ListStep)
        ensures
            source is Available ==> step matches ListStep::Next(
                ListStage::CheckingCache,
                Io::CheckCacheFresh,
            ),
            !(source is Available) ==> (step matches ListStep::Next(ListStage::Capturing, Io::Run(inv))
                && invocation_view(inv) == (list_program(source, self@), list_args(source))),
    {
        proof {
            reveal_strlit("-Qq");
        }
        match source {
            PackageSource::Available => ListStep::Next(ListStage::CheckingCache, Io::CheckCacheFresh),
            PackageSource::Installed => {
                let inv = invocation(package_command(self.helper), &["-Qq"]);
                assert(strs(inv.args@) =~= seq!["-Qq"@]);
                ListStep::Next(ListStage::Capturing, Io::Run(inv))
            },
            PackageSource::Aur => {
                let inv = invocation(package_command(self.helper), &["-Qqm"]);
                assert(strs(inv.args@) =~= seq!["-Qqm"@]);
                ListStep::Next(ListStage::Capturing, Io::Run(inv))
            },
            PackageSource::Orphaned => {
                let inv = invocation(package_command(self.helper), &["-Qtdq"]);
                assert(strs(inv.args@) =~= seq!["-Qtdq"@]);
                ListStep::Next(ListStage::Capturing, Io::Run(inv))
            },
            PackageSource::Recent => {
                let inv = invocation("expac", &["--timefmt=%Y-%m-%d %T", "%l\\t%n"]);
                assert(strs(inv.args@) =~= seq!["--timefmt=%Y-%m-%d %T"@, "%l\\t%n"@]);
                ListStep::Next(ListStage::Capturing, Io::Run(inv))
            },
        }
    }

    /// Carries the loading of the packages of `source` one step further,
    /// given what came of the work its last step asked for. Loading the
    /// available packages reads a fresh cache; a stale one is kept aside while
    /// the list is regenerated, written and read again, and served with a
    /// notice when that fails.
    pub fn list_continue(&self, source: PackageSource, stage: ListStage, result: IoResult) -> (step:
        ListStep)
        requires
            list_awaits(stage, result),
            list_stage_of(source, stage),
        ensures
            match (stage, result) {
                (ListStage::CheckingCache, IoResult::CacheFresh(fresh)) => if fresh {
                    step matches ListStep::Next(ListStage::ReadingFreshCache, Io::ReadCache)
                } else {
                    step matches ListStep::Next(ListStage::ReadingStaleCache, Io::ReadCache)
                },
                (ListStage::ReadingFreshCache, IoResult::CacheRead(r)) => (step matches ListStep::Done(
                    out,
                ) && list_result_view(out) == cache_read_outcome(r)),
                (ListStage::RereadingCache, IoResult::CacheRead(r)) => (step matches ListStep::Done(
                    out,
                ) && list_result_view(out) == cache_read_outcome(r)),
                (ListStage::ReadingStaleCache, IoResult::CacheRead(r)) => (step matches ListStep::Next(
                    ListStage::Refreshing(st),
                    Io::Run(inv),
                ) && option_strs(st) == stale_of(r) && invocation_view(inv) == (
                    package_command_of(self@),
                    seq!["-Sl"@],
                )),
                (ListStage::Refreshing(st), IoResult::Ran(ran)) => match refresh_run_outcome(
                    package_command_of(self@),
                    ran,
                ) {
                    Ok(p) => (step matches ListStep::Next(ListStage::WritingCache(st2), Io::WriteCache(w))
                        && option_strs(st2) == option_strs(st) && strs(w@) == p),
                    Err(m) => (step matches ListStep::Done(out) && list_result_view(out)
                        == fallback_outcome(option_strs(st), m)),
                },
                (ListStage::WritingCache(st), IoResult::CacheWritten(w)) => match w {
                    Ok(_) => step matches ListStep::Next(ListStage::RereadingCache, Io::ReadCache),
                    Err(e) => (step matches ListStep::Done(out) && list_result_view(out)
                        == fallback_outcome(option_strs(st), write_error_text(e@))),
                },
                (ListStage::Capturing, IoResult::Ran(ran)) => (step matches ListStep::Done(out)
                    && list_result_view(out) == capture_outcome(source, self@, ran)),
                _ => false,
            },
    {
        match stage {
            ListStage::CheckingCache => match result {
                IoResult::CacheFresh(fresh) => if fresh {
                    ListStep::Next(ListStage::ReadingFreshCache, Io::ReadCache)
                } else {
                    ListStep::Next(ListStage::ReadingStaleCache, Io::ReadCache)
                },
                _ => ListStep::Next(ListStage::CheckingCache, Io::CheckCacheFresh),
            },
            ListStage::ReadingFreshCache | ListStage::RereadingCache => match result {
                IoResult::CacheRead(r) => ListStep::Done(read_cache_outcome(r)),
                _ => ListStep::Next(ListStage::RereadingCache, Io::ReadCache),
            },
            ListStage::ReadingStaleCache => match result {
                IoResult::CacheRead(r) => {
                    let stale = match r {
                        Ok(t) => {
                            let entries = PackageCache::parse_contents(t.as_str());
                            if entries.len() > 0 {
                                Some(entries)
                            } else {
                                None
                            }
                        },
                        Err(_) => None,
                    };
                    let inv = invocation(package_command(self.helper), &["-Sl"]);
                    assert(strs(inv.args@) =~= seq!["-Sl"@]);
                    ListStep::Next(ListStage::Refreshing(stale), Io::Run(inv))
                },
                _ => ListStep::Next(ListStage::ReadingStaleCache, Io::ReadCache),
            },
            ListStage::Refreshing(stale) => match result {
                IoResult::Ran(ran) => match run_refresh(package_command(self.helper), ran) {
                    Ok(packages) => ListStep::Next(
                        ListStage::WritingCache(stale),
                        Io::WriteCache(packages),
                    ),
                    Err(m) => ListStep::Done(fall_back(stale, m)),
                },
                _ => ListStep::Next(ListStage::CheckingCache, Io::CheckCacheFresh),
            },
            ListStage::WritingCache(stale) => match result {
                IoResult::CacheWritten(w) => match w {
                    Ok(_) => ListStep::Next(ListStage::RereadingCache, Io::ReadCache),
                    Err(e) => ListStep::Done(
                        fall_back(stale, concat("Could not write cache: ", e.as_str())),
                    ),
                },
                _ => ListStep::Next(ListStage::CheckingCache, Io::CheckCacheFresh),
            },
            ListStage::Capturing => match result {
                IoResult::Ran(ran) => ListStep::Done(self.captured(source, ran)),
                _ => ListStep::Next(ListStage::CheckingCache, Io::CheckCacheFresh),
            },
        }
    }

    fn captured(&self, source: PackageSource, ran: Result<CommandResult, String>) -> (r: Result<
        PackageList,
        String,
    >)
        requires
            !(source is Available),
        ensures
            list_result_view(r) == capture_outcome(source, self@, ran),
    {
        let program = match source {
            PackageSource::Recent => "expac",
            _ => package_command(self.helper),
        };
        let res = match ran {
            Err(e) => {
                let mut m = concat("Could not run ", program);
                push_str(&mut m, ": ");
                push_str(&mut m, e.as_str());
                return Err(m);
            },
            Ok(res) => res,
        };
        match source {
            PackageSource::Recent => {
                if !res.success {
                    return Err(command_error(res, "Could not retrieve recently installed packages"));
                }
                let packages = recent_packages(res.stdout.as_str());
                Ok(to_list(packages, None))
            },
            PackageSource::Orphaned => {
                let out = chars_of(res.stdout.as_str());
                let trimmed = trim_chars(out.as_slice());
                if !res.success && trimmed.len() == 0 {
                    let none: Vec<String> = Vec::new();
                    assert(strs(none@) =~= seq![]);
                    return Ok(to_list(none, Some(owned("No orphaned packages found."))));
                }
                let packages = successful_lines(res, "Could not retrieve orphaned packages")?;
                Ok(to_list(packages, None))
            },
            _ => {
                let packages = successful_lines(res, "Could not retrieve the package list")?;
                Ok(to_list(packages, None))
            },
        }
    }

    /// Starts a refresh of the cache: the package list command (pacman's,
    /// or the helper's unless `without_aur`) is to be run.
    pub fn refresh_cache(&self, without_aur: bool) -> (step: RefreshStep)
        ensures
            step matches RefreshStep::Next(RefreshStage::Capturing, Io::Run(inv))
                && invocation_view(inv) == (refresh_program(self@, without_aur), seq!["-Sl"@]),
    {
        let program = if without_aur {
            "pacman"
        } else {
            package_command(self.helper)
        };
        let inv = invocation(program, &["-Sl"]);
        assert(strs(inv.args@) =~= seq!["-Sl"@]);
        RefreshStep::Next(RefreshStage::Capturing, Io::Run(inv))
    }

    /// Carries a refresh of the cache one step further: the listed packages
    /// are to be written, and once they are, their number is the result.
    pub fn refresh_cache_continue(&self, without_aur: bool, stage: RefreshStage, result: IoResult) -> (step:
        RefreshStep)
        requires
            refresh_awaits(stage, result),
        ensures
            match (stage, result) {
                (RefreshStage::Capturing, IoResult::Ran(ran)) => match refresh_run_outcome(
                    refresh_program(self@, without_aur),
                    ran,
                ) {
                    Ok(p) => (step matches RefreshStep::Next(RefreshStage::Writing(n), Io::WriteCache(w))
                        && strs(w@) == p && n == p.len()),
                    Err(m) => (step matches RefreshStep::Done(Err(e)) && e@ == m),
                },
                (RefreshStage::Writing(n), IoResult::CacheWritten(w)) => match w {
                    Ok(_) => step matches RefreshStep::Done(Ok(k)) && k == n,
                    Err(e) => (step matches RefreshStep::Done(Err(m)) && m@ == write_error_text(e@)),
                },
                _ => false,
            },
    {
        match stage {
            RefreshStage::Capturing => match result {
                IoResult::Ran(ran) => {
                    let program = if without_aur {
                        "pacman"
                    } else {
                        package_command(self.helper)
                    };
                    match run_refresh(program, ran) {
                        Ok(packages) => {
                            let n = packages.len();
                            RefreshStep::Next(RefreshStage::Writing(n), Io::WriteCache(packages))
                        },
                        Err(m) => RefreshStep::Done(Err(m)),
                    }
                },
                _ => RefreshStep::Next(RefreshStage::Capturing, Io::CheckCacheFresh),
            },
            RefreshStage::Writing(n) => match result {
                IoResult::CacheWritten(w) => match w {
                    Ok(_) => RefreshStep::Done(Ok(n)),
                    Err(e) => RefreshStep::Done(Err(concat("Could not write cache: ", e.as_str()))),
                },
                _ => RefreshStep::Next(RefreshStage::Writing(n), Io::CheckCacheFresh),
            },
        }
    }
}

fn read_cache_outcome(r: Result<String, String>) -> (out: Result<PackageList, String>)
    ensures
        list_result_view(out) == cache_read_outcome(r),
{
    match r {
        Ok(t) => Ok(to_list(PackageCache::parse_contents(t.as_str()), None)),
        Err(e) => Err(concat("Could not read cache: ", e.as_str())),
    }
}

fn run_refresh(program: &str, ran: Result<CommandResult, String>) -> (r: Result<Vec<String>, String>)
    ensures
        match (r, refresh_run_outcome(program@, ran)) {
            (Ok(p), Ok(q)) => strs(p@) == q,
            (Err(e), Err(f)) => e@ == f,
            _ => false,
        },
{
    match ran {
        Err(e) => {
            let mut m = concat("Could not run ", program);
            push_str(&mut m, ": ");
            push_str(&mut m, e.as_str());
            Err(m)
        },
        Ok(res) => successful_packages(res, "Could not retrieve the package list"),
    }
}

fn fall_back(stale: Option<Vec<String>>, message: String) -> (out: Result<PackageList, String>)
    ensures
        list_result_view(out) == fallback_outcome(option_strs(stale), message@),
{
    match stale {
        Some(packages) => {
            let notice = concat(
                "Could not refresh cache; using the stale list: ",
                message.as_str(),
            );
            Ok(to_list(packages, Some(notice)))
        },
        None => Err(message),
    }
}

/// The command that carries out an action in the terminal: the package
/// operation with its packages; a cache refresh is not one of them.
pub open spec fn interactive_command_of(action: Action, helper: Option<Helper>) -> Result<
    (Seq<char>, Seq<Seq<char>>),
    Seq<char>,
> {
    match action {
        Action::Install(p) => Ok((package_command_of(helper), seq!["-S"@] + strs(p@))),
        Action::Remove(p) => Ok((package_command_of(helper), seq!["-Rns"@] + strs(p@))),
        Action::UpdateSystem => Ok((package_command_of(helper), seq!["-Syu"@])),
        Action::ClearHelperCache => Ok((package_command_of(helper), seq!["-Scc"@])),
        Action::RefreshCache { .. } => Err("Cache refresh runs through captured output."@),
    }
}

/// The report after an action's command ran in the terminal, given whether
/// it succeeded and its exit code, or the error that starting it gave.
pub open spec fn interactive_report_of(
    action: Action,
    program: Seq<char>,
    status: Result<(bool, Option<i32>), String>,
) -> Result<Seq<char>, Seq<char>> {
    match status {
        Err(e) => Err(run_error_text(program, e@)),
        Ok((success, code)) => if success {
            Ok(action_title(action) + " completed (exit code "@ + exit_code_text(code) + ")."@)
        } else {
            Err(action_title(action) + " failed (exit code "@ + exit_code_text(code) + ")."@)
        },
    }
}

impl PackageManager {
    /// The command that carries out `action` in the terminal.
    pub fn interactive_command(&self, action: &Action) -> (r: Result<Invocation, String>)
        ensures
            match (r, interactive_command_of(*action, self@)) {
                (Ok(i), Ok(c)) => invocation_view(i) == c,
                (Err(e), Err(f)) => e@ == f,
                _ => false,
            },
    {
        let program = package_command(self.helper);
        match action {
            Action::Install(packages) => Ok(
                Invocation { program: owned(program), args: package_args("-S", packages.as_slice()) },
            ),
            Action::Remove(packages) => Ok(
                Invocation {
                    program: owned(program),
                    args: package_args("-Rns", packages.as_slice()),
                },
            ),
            Action::UpdateSystem => {
                let inv = invocation(program, &["-Syu"]);
                assert(strs(inv.args@) =~= seq!["-Syu"@]);
                Ok(inv)
            },
            Action::ClearHelperCache => {
                let inv = invocation(program, &["-Scc"]);
                assert(strs(inv.args@) =~= seq!["-Scc"@]);
                Ok(inv)
            },
            Action::RefreshCache { .. } => Err(owned("Cache refresh runs through captured output.")),
        }
    }

    /// The report after `action`'s command (`program`) ran in the terminal.
    pub fn interactive_report(
        &self,
        action: &Action,
        program: &str,
        status: Result<(bool, Option<i32>), String>,
    ) -> (r: Result<String, String>)
        ensures
            result_view(r) == interactive_report_of(*action, program@, status),
    {
        match status {
            Err(e) => {
                let mut m = concat("Could not run ", program);
                push_str(&mut m, ": ");
                push_str(&mut m, e.as_str());
                Err(m)
            },
            Ok((success, code)) => {
                let mut m = owned(action.title());
                let code_text = exit_code_string(code);
                if success {
                    push_str(&mut m, " completed (exit code ");
                    push_str(&mut m, code_text.as_str());
                    push_str(&mut m, ").");
                    Ok(m)
                } else {
                    push_str(&mut m, " failed (exit code ");
                    push_str(&mut m, code_text.as_str());
                    push_str(&mut m, ").");
                    Err(m)
                }
            },
        }
    }
}

proof fn lemma_sync_entries_cacheable(ls: Seq<Seq<char>>)
    ensures
        forall|k: int| 0 <= k < sync_entries(ls).len() ==> is_cacheable(#[trigger] sync_entries(ls)[k]),
    decreases ls.len(),
{
    if ls.len() > 0 {
        lemma_sync_entries_cacheable(ls.drop_first());
        let rest = sync_entries(ls.drop_first());
        let w = words(ls[0]);
        lemma_words_are_words(ls[0]);
        if w.len() >= 2 {
            let e = w[0] + seq!['/'] + w[1];
            assert(w[0].len() > 0 && w[1].len() > 0);
            assert(e[0] == w[0][0]);
            assert(e.last() == w[1][w[1].len() - 1]);
            assert(is_white_space('\n'));
            assert forall|i: int| 0 <= i < e.len() implies #[trigger] e[i] != '\n' by {
                if i < w[0].len() {
                    assert(e[i] == w[0][i]);
                    assert(!is_white_space(w[0][i]));
                } else if i > w[0].len() {
                    assert(e[i] == w[1][i - w[0].len() - 1]);
                    assert(!is_white_space(w[1][i - w[0].len() - 1]));
                }
            }
            assert(is_cacheable(e));
            let all = sync_entries(ls);
            assert(all == seq![e] + rest);
            assert forall|k: int| 0 <= k < all.len() implies is_cacheable(#[trigger] all[k]) by {
                if k > 0 {
                    assert(all[k] == rest[k - 1]);
                }
            }
        }
    }
}

/// The packages of a `-Sl` listing, once written to the cache, read back
/// exactly: a refresh followed by a read gives the refreshed list.
pub proof fn lemma_refreshed_list_reads_back(output: Seq<char>)
    ensures
        cache_entries(cache_text(sync_packages(output))) == sync_packages(output),
{
    let entries = sync_entries(lines(output));
    lemma_sync_entries_cacheable(lines(output));
    lemma_dedup_properties(entries);
    let ps = sync_packages(output);
    assert forall|k: int| 0 <= k < ps.len() implies is_cacheable(#[trigger] ps[k]) by {
        assert(ps.contains(ps[k]));
        assert(entries.contains(ps[k]));
        let j = choose|j: int| 0 <= j < entries.len() && entries[j] == ps[k];
        assert(is_cacheable(entries[j]));
    }
    lemma_cache_round_trip(ps);
}

proof fn lemma_join_after(op: Seq<char>, ps: Seq<Seq<char>>, sep: Seq<char>)
    requires
        ps.len() > 0,
    ensures
        join(seq![op] + ps, sep) == op + sep + join(ps, sep),
    decreases ps.len(),
{
    let s = seq![op] + ps;
    assert(s.drop_last() =~= seq![op] + ps.drop_last());
    assert(s.last() == ps.last());
    if ps.len() == 1 {
        assert(s.drop_last() =~= seq![op]);
        assert(join(seq![op], sep) == op);
    } else {
        lemma_join_after(op, ps.drop_last(), sep);
        assert(join(s, sep) =~= op + sep + join(ps, sep));
    }
}

/// Every command that an action runs in the terminal is the command line its
/// confirmation shows: the program, a space, and the arguments joined by
/// spaces. (Install and Remove act on at least one package.) And the program
/// is the one that package operations use: the helper when there is one,
/// else pacman.
pub proof fn lemma_actions_run_what_they_preview(action: Action, helper: Option<Helper>)
    requires
        !(action is RefreshCache),
        action matches Action::Install(p) ==> p@.len() > 0,
        action matches Action::Remove(p) ==> p@.len() > 0,
    ensures
        interactive_command_of(action, helper) matches Ok((program, args)) && command_preview_of(
            action,
            helper,
        ) == Ok::<Seq<char>, Seq<char>>(program + " "@ + join(args, " "@)) && program == match helper {
            Some(h) => helper_command(h),
            None => "pacman"@,
        },
{
    match action {
        Action::Install(p) => {
            reveal_strlit(" -S ");
            reveal_strlit("-S");
            reveal_strlit(" ");
            lemma_join_after("-S"@, strs(p@), " "@);
            assert(package_command_of(helper) + " -S "@ + join(strs(p@), " "@) =~= package_command_of(
                helper,
            ) + " "@ + ("-S"@ + " "@ + join(strs(p@), " "@)));
        },
        Action::Remove(p) => {
            reveal_strlit(" -Rns ");
            reveal_strlit("-Rns");
            reveal_strlit(" ");
            lemma_join_after("-Rns"@, strs(p@), " "@);
            assert(package_command_of(helper) + " -Rns "@ + join(strs(p@), " "@)
                =~= package_command_of(helper) + " "@ + ("-Rns"@ + " "@ + join(strs(p@), " "@)));
        },
        Action::UpdateSystem => {
            reveal_strlit(" -Syu");
            reveal_strlit("-Syu");
            reveal_strlit(" ");
            assert(join(seq!["-Syu"@], " "@) == "-Syu"@);
            assert(package_command_of(helper) + " -Syu"@ =~= package_command_of(helper) + " "@
                + "-Syu"@);
        },
        Action::ClearHelperCache => {
            reveal_strlit(" -Scc");
            reveal_strlit("-Scc");
            reveal_strlit(" ");
            assert(join(seq!["-Scc"@], " "@) == "-Scc"@);
            assert(package_command_of(helper) + " -Scc"@ =~= package_command_of(helper) + " "@
                + "-Scc"@);
        },
        Action::RefreshCache { .. } => {},
    }
}

/// A cache refresh runs the package list command that its confirmation
/// shows, `<program> -Sl`; a refresh that is not "without AUR" goes
/// through the same program as package operations (the helper when there
/// is one, so AUR packages are listed too), and one "without AUR" through
/// pacman.
pub proof fn lemma_refresh_runs_what_it_previews(helper: Option<Helper>, without_aur: bool)
    ensures
        command_preview_of(Action::RefreshCache { without_aur }, helper) == Ok::<
            Seq<char>,
            Seq<char>,
        >(refresh_program(helper, without_aur) + " -Sl"@),
        refresh_program(helper, without_aur) == if without_aur {
            "pacman"@
        } else {
            match helper {
                Some(h) => helper_command(h),
                None => "pacman"@,
            }
        },
        !without_aur ==> (interactive_command_of(Action::UpdateSystem, helper) matches Ok((program, _))
            && program == refresh_program(helper, without_aur)),
{
    reveal_strlit("pacman -Sl");
    reveal_strlit("pacman");
    reveal_strlit(" -Sl");
    assert("pacman"@ + " -Sl"@ =~= "pacman -Sl"@);
}

/// The commands that load the lists of installed packages: every installed
/// package (`-Qq`, no filter), the foreign (AUR) ones (the same query with
/// the `m` filter), the orphans (`-Qtdq`), all through the program of
/// package operations; the recently installed ones through expac.
pub proof fn lemma_list_commands(helper: Option<Helper>)
    ensures
        list_program(PackageSource::Installed, helper) == package_command_of(helper),
        list_args(PackageSource::Installed) == seq!["-Q"@ + "q"@],
        list_program(PackageSource::Aur, helper) == package_command_of(helper),
        list_args(PackageSource::Aur) == seq![list_args(PackageSource::Installed)[0] + "m"@],
        list_program(PackageSource::Orphaned, helper) == package_command_of(helper),
        list_args(PackageSource::Orphaned) == seq!["-Qtdq"@],
        list_program(PackageSource::Recent, helper) == "expac"@,
        list_args(PackageSource::Recent) == seq!["--timefmt=%Y-%m-%d %T"@, "%l\\t%n"@],
{
    reveal_strlit("-Q");
    reveal_strlit("q");
    reveal_strlit("m");
    reveal_strlit("-Qq");
    reveal_strlit("-Qqm");
    assert("-Q"@ + "q"@ =~= "-Qq"@);
    assert("-Qq"@ + "m"@ =~= "-Qqm"@);
}

} // verus!
