use pack::cache::PackageCache;
use pack::editor::{word_left, word_right};
use pack::package::{
    command_error, deduplicate, package_args, parse_sync_packages, recent_packages, require_helper,
    successful_lines, successful_packages, Action, CommandResult, Helper, Io, IoResult,
    ListStage, ListStep, PackageList, PackageManager, PackageSource, RefreshStage, RefreshStep,
};
use pack::render::{
    centered_rect, confirmation_text, layout_results, menu_button, menu_items, output_text,
    row_marker, search_line, split_package, status_line, Area, Menu,
};
use pack::route::{parse_route, usage, Route, RouteParse};
use pack::search::{fuzzy_matches, fuzzy_score, is_aur_package, is_exact_package_name};
use pack::text::{decimal_string, signed_decimal_string};
use pack::ui::{
    plan_request, plan_available, App, Key, KeyCode, LoadPoll, Mouse, OutputView, PackageBack,
    PackageView, Plan, Request, Screen,
};

fn strings(items: &[&str]) -> Vec<String> {
    items.iter().map(|s| s.to_string()).collect()
}

fn result(success: bool, code: Option<i32>, stdout: &str, stderr: &str) -> CommandResult {
    CommandResult {
        success,
        exit_code: code,
        stdout: stdout.to_owned(),
        stderr: stderr.to_owned(),
    }
}

fn list_view(source: PackageSource, packages: &[&str], selected: Vec<bool>) -> PackageView {
    let packages = strings(packages);
    let matches = fuzzy_matches("", &packages);
    PackageView {
        source,
        packages,
        matches,
        back: PackageBack::Main,
        selected,
        notice: None,
        query: Vec::new(),
        query_cursor: 0,
        searching: false,
        loading: false,
        scroll_offset: 0,
        viewport_height: 1,
    }
}

fn app_on(screen: Screen, cursor: usize) -> App {
    App {
        cursor,
        main_cursor: 0,
        remove_cursor: 0,
        advanced_cursor: 0,
        loading: None,
        screen,
        should_quit: false,
    }
}

fn press(code: KeyCode) -> Key {
    Key::press(code, false)
}

fn ctrl(code: KeyCode) -> Key {
    Key::press(code, true)
}

// --- cache ---------------------------------------------------------------

#[test]
fn cache_text_round_trips() {
    let packages = strings(&["core/bash", "extra/fzf"]);
    let text = PackageCache::render_contents(&packages);
    assert_eq!(text, "core/bash\nextra/fzf\n");
    assert_eq!(PackageCache::parse_contents(&text), packages);
}

#[test]
fn cache_read_trims_and_skips_blank_lines() {
    assert_eq!(
        PackageCache::parse_contents("  core/bash \n\n\t\nextra/fzf\r\n"),
        vec!["core/bash", "extra/fzf"]
    );
    assert!(PackageCache::parse_contents("").is_empty());
}

#[test]
fn cache_path_follows_xdg_then_home() {
    let c = PackageCache::from_base_dirs(Some("/x".to_owned()), Some("/home/u".to_owned())).unwrap();
    assert_eq!(c.path(), "/x/pack/cache");
    let c = PackageCache::from_base_dirs(None, Some("/home/u".to_owned())).unwrap();
    assert_eq!(c.path(), "/home/u/.cache/pack/cache");
    let c = PackageCache::from_base_dirs(Some("/x/".to_owned()), None).unwrap();
    assert_eq!(c.path(), "/x/pack/cache");
    let c = PackageCache::from_base_dirs(Some(String::new()), Some("/home/u".to_owned())).unwrap();
    assert_eq!(c.path(), "/home/u/.cache/pack/cache");
    let e = PackageCache::from_base_dirs(None, None).unwrap_err();
    assert_eq!(e, "XDG_CACHE_HOME veya HOME ayarlı değil");
    let e = PackageCache::from_base_dirs(Some(String::new()), None).unwrap_err();
    assert_eq!(e, "XDG_CACHE_HOME veya HOME ayarlı değil");
}

#[test]
fn cache_freshness_ends_after_five_days() {
    assert!(PackageCache::is_fresh_age(0, 0));
    assert!(PackageCache::is_fresh_age(432_000, 0));
    assert!(!PackageCache::is_fresh_age(432_000, 1));
    assert!(!PackageCache::is_fresh_age(432_001, 0));
}

// --- actions -------------------------------------------------------------

#[test]
fn action_titles_and_summaries() {
    let install = Action::Install(strings(&["core/bash", "extra/fzf"]));
    assert_eq!(install.title(), "Install Packages");
    assert_eq!(install.summary(), "2 packages will be installed:\ncore/bash\nextra/fzf");
    let remove = Action::Remove(strings(&["fzf"]));
    assert_eq!(
        remove.summary(),
        "1 packages will be removed with -Rns:\nfzf\n\nThis may also remove configuration files and unneeded dependencies."
    );
    assert_eq!(
        Action::RefreshCache { without_aur: true }.title(),
        "Refresh Pack Cache (without AUR)"
    );
    assert_eq!(Action::UpdateSystem.summary(), "System packages will be updated.");
    assert_eq!(PackageSource::Recent.title(), "Recently Installed Packages");
    assert!(!PackageSource::Available.is_installed());
    assert!(PackageSource::Orphaned.is_installed());
}

#[test]
fn command_previews() {
    let install = Action::Install(strings(&["core/bash", "extra/fzf"]));
    assert_eq!(install.command_preview(None).unwrap(), "pacman -S core/bash extra/fzf");
    assert_eq!(
        install.command_preview(Some(Helper::Yay)).unwrap(),
        "yay -S core/bash extra/fzf"
    );
    assert_eq!(
        Action::Remove(strings(&["fzf"])).command_preview(None).unwrap(),
        "pacman -Rns fzf"
    );
    assert_eq!(Action::UpdateSystem.command_preview(None).unwrap(), "pacman -Syu");
    assert_eq!(
        Action::ClearHelperCache.command_preview(Some(Helper::Yay)).unwrap(),
        "yay -Scc"
    );
    assert_eq!(
        Action::RefreshCache { without_aur: true }.command_preview(None).unwrap(),
        "pacman -Sl"
    );
    assert_eq!(
        Action::RefreshCache { without_aur: false }.command_preview(Some(Helper::Yay)).unwrap(),
        "yay -Sl"
    );
    assert_eq!(
        Action::RefreshCache { without_aur: false }.command_preview(None).unwrap(),
        "pacman -Sl"
    );
    assert_eq!(
        require_helper(None).unwrap_err(),
        "yay is required on PATH for AUR operations."
    );
}

#[test]
fn package_args_put_the_operation_first() {
    assert_eq!(package_args("-S", &strings(&["a", "b"])), vec!["-S", "a", "b"]);
}

// --- parsing command output ---------------------------------------------

#[test]
fn deduplicate_keeps_first_occurrences() {
    assert_eq!(
        deduplicate(strings(&["b", "a", "b", "c", "a"])),
        vec!["b", "a", "c"]
    );
}

#[test]
fn sync_parser_skips_short_lines() {
    assert_eq!(
        parse_sync_packages("core\n\nextra  fzf\textra\r\n  \n"),
        vec!["extra/fzf"]
    );
}

#[test]
fn command_error_messages() {
    assert_eq!(
        command_error(result(false, Some(1), "out", "  boom \n"), "ctx"),
        "ctx (exit code 1):\nboom"
    );
    assert_eq!(
        command_error(result(false, Some(2), " printed ", "   "), "ctx"),
        "ctx (exit code 2):\nprinted"
    );
    assert_eq!(command_error(result(false, None, "", ""), "ctx"), "ctx (exit code bilinmiyor).");
    assert_eq!(command_error(result(false, Some(-2), "", ""), "ctx"), "ctx (exit code -2).");
}

#[test]
fn successful_outputs_and_failures() {
    assert_eq!(
        successful_packages(result(true, Some(0), "core bash 1\n", ""), "ctx").unwrap(),
        vec!["core/bash"]
    );
    assert_eq!(
        successful_packages(result(true, Some(0), "nothing\n", ""), "ctx").unwrap_err(),
        "ctx: the package list was empty."
    );
    assert_eq!(
        successful_packages(result(false, Some(1), "", "no db"), "ctx").unwrap_err(),
        "ctx (exit code 1):\nno db"
    );
    assert_eq!(
        successful_lines(result(true, Some(0), " bash\nfzf\n\nbash\n", ""), "ctx").unwrap(),
        vec!["bash", "fzf"]
    );
}

#[test]
fn recent_packages_are_newest_first_and_unique() {
    let output = "2024-01-01 10:00:00\tbash\n2024-02-01 10:00:00\tfzf\n2023-12-31 09:00:00\tvim\n2024-02-01 10:00:00\tfzf\n\n";
    assert_eq!(recent_packages(output), vec!["fzf", "bash", "vim"]);
}

#[test]
fn recent_packages_look_at_the_newest_two_hundred() {
    let mut output = String::new();
    for i in 0..205 {
        output.push_str(&format!("2024-01-01 10:00:{:03}\tpkg{}\n", i, i));
    }
    let recent = recent_packages(&output);
    assert_eq!(recent.len(), 200);
    assert_eq!(recent[0], "pkg204");
    assert_eq!(recent[199], "pkg5");
}

// --- the package manager ---------------------------------------------------

fn finish(step: ListStep) -> Result<PackageList, String> {
    match step {
        ListStep::Done(r) => r,
        ListStep::Next(..) => panic!("expected a result"),
    }
}

#[test]
fn available_packages_come_from_a_fresh_cache() {
    let m = PackageManager::detect(true);
    assert_eq!(m.helper(), Some(Helper::Yay));
    let ListStep::Next(stage, Io::CheckCacheFresh) = m.list(PackageSource::Available) else {
        panic!("freshness first");
    };
    let ListStep::Next(stage, Io::ReadCache) =
        m.list_continue(PackageSource::Available, stage, IoResult::CacheFresh(true))
    else {
        panic!("read next");
    };
    let list = finish(m.list_continue(
        PackageSource::Available,
        stage,
        IoResult::CacheRead(Ok("core/bash\nextra/fzf\n".to_owned())),
    ))
    .unwrap();
    assert_eq!(list.packages, vec!["core/bash", "extra/fzf"]);
    assert!(list.notice.is_none());
}

#[test]
fn stale_cache_is_served_when_the_refresh_fails() {
    let m = PackageManager::detect(false);
    let ListStep::Next(stage, _) =
        m.list_continue(PackageSource::Available, ListStage::CheckingCache, IoResult::CacheFresh(false))
    else {
        panic!("read the stale cache");
    };
    let ListStep::Next(stage, Io::Run(inv)) = m.list_continue(
        PackageSource::Available,
        stage,
        IoResult::CacheRead(Ok("core/bash\n".to_owned())),
    ) else {
        panic!("refresh next");
    };
    assert_eq!(inv.program, "pacman");
    assert_eq!(inv.args, vec!["-Sl"]);
    let ListStep::Next(stage, Io::WriteCache(packages)) = m.list_continue(
        PackageSource::Available,
        stage,
        IoResult::Ran(Ok(result(true, Some(0), "extra fzf 1\n", ""))),
    ) else {
        panic!("write next");
    };
    assert_eq!(packages, vec!["extra/fzf"]);
    let list = finish(m.list_continue(
        PackageSource::Available,
        stage,
        IoResult::CacheWritten(Err("disk full".to_owned())),
    ))
    .unwrap();
    assert_eq!(list.packages, vec!["core/bash"]);
    assert_eq!(
        list.notice.unwrap(),
        "Could not refresh cache; using the stale list: Could not write cache: disk full"
    );
}

#[test]
fn refresh_failure_without_a_stale_list_is_an_error() {
    let m = PackageManager::detect(false);
    let error = finish(m.list_continue(
        PackageSource::Available,
        ListStage::Refreshing(None),
        IoResult::Ran(Err("not found".to_owned())),
    ))
    .unwrap_err();
    assert_eq!(error, "Could not run pacman: not found");
    let error = finish(m.list_continue(
        PackageSource::Available,
        ListStage::ReadingFreshCache,
        IoResult::CacheRead(Err("gone".to_owned())),
    ))
    .unwrap_err();
    assert_eq!(error, "Could not read cache: gone");
}

#[test]
fn captured_lists() {
    let m = PackageManager::detect(true);
    let ListStep::Next(stage, Io::Run(inv)) = m.list(PackageSource::Aur) else {
        panic!("run");
    };
    assert_eq!(inv.program, "yay");
    assert_eq!(inv.args, vec!["-Qqm"]);
    let list = finish(m.list_continue(
        PackageSource::Aur,
        stage,
        IoResult::Ran(Ok(result(true, Some(0), "paru\nparu\n", ""))),
    ))
    .unwrap();
    assert_eq!(list.packages, vec!["paru"]);

    let list = finish(m.list_continue(
        PackageSource::Orphaned,
        ListStage::Capturing,
        IoResult::Ran(Ok(result(false, Some(1), "  ", ""))),
    ))
    .unwrap();
    assert!(list.packages.is_empty());
    assert_eq!(list.notice.unwrap(), "No orphaned packages found.");

    let error = finish(m.list_continue(
        PackageSource::Recent,
        ListStage::Capturing,
        IoResult::Ran(Err("nope".to_owned())),
    ))
    .unwrap_err();
    assert_eq!(error, "Could not run expac: nope");

    let ListStep::Next(ListStage::Capturing, Io::Run(inv)) =
        PackageManager::detect(false).list(PackageSource::Orphaned)
    else {
        panic!("run");
    };
    assert_eq!(inv.program, "pacman");
    assert_eq!(inv.args, vec!["-Qtdq"]);
}

#[test]
fn refresh_counts_the_written_packages() {
    let m = PackageManager::detect(true);
    let RefreshStep::Next(stage, Io::Run(inv)) = m.refresh_cache(true) else {
        panic!("run");
    };
    assert_eq!(inv.program, "pacman");
    let RefreshStep::Next(stage, Io::WriteCache(packages)) = m.refresh_cache_continue(
        true,
        stage,
        IoResult::Ran(Ok(result(true, Some(0), "core a 1\ncore b 1\ncore a 1\n", ""))),
    ) else {
        panic!("write");
    };
    assert_eq!(packages.len(), 2);
    let RefreshStep::Done(Ok(n)) = m.refresh_cache_continue(true, stage, IoResult::CacheWritten(Ok(())))
    else {
        panic!("done");
    };
    assert_eq!(n, 2);
    let RefreshStep::Done(Err(e)) = m.refresh_cache_continue(
        true,
        RefreshStage::Writing(2),
        IoResult::CacheWritten(Err("ro".to_owned())),
    ) else {
        panic!("error");
    };
    assert_eq!(e, "Could not write cache: ro");
}

#[test]
fn interactive_commands_and_reports() {
    let m = PackageManager::detect(false);
    let inv = m.interactive_command(&Action::Install(strings(&["fzf"]))).unwrap();
    assert_eq!(inv.program, "pacman");
    assert_eq!(inv.args, vec!["-S", "fzf"]);
    assert_eq!(
        m.interactive_command(&Action::RefreshCache { without_aur: false }).unwrap_err(),
        "Cache refresh runs through captured output."
    );
    assert_eq!(
        m.interactive_report(&Action::UpdateSystem, "pacman", Ok((true, Some(0)))).unwrap(),
        "Update System completed (exit code 0)."
    );
    assert_eq!(
        m.interactive_report(&Action::UpdateSystem, "pacman", Ok((false, None))).unwrap_err(),
        "Update System failed (exit code bilinmiyor)."
    );
    assert_eq!(
        m.interactive_report(&Action::UpdateSystem, "pacman", Err("denied".to_owned()))
            .unwrap_err(),
        "Could not run pacman: denied"
    );
}

// --- search ----------------------------------------------------------------

#[test]
fn fuzzy_scores() {
    assert_eq!(fuzzy_score("bsh", "core/BASH"), Some(35));
    assert_eq!(fuzzy_score("hsb", "core/bash"), None);
    assert_eq!(fuzzy_score("", "core/bash"), Some(0));
}

#[test]
fn long_names_score_while_the_score_fits() {
    let name = "x".repeat(50_000);
    let expected: i64 = 50_000 * 10 + 49_999 * 15 + 10 - (49_999 * 50_000 / 2);
    assert_eq!(fuzzy_score(&name, &name).map(i64::from), Some(expected));
    assert_eq!(fuzzy_matches(&name, &[name.clone()]), vec![0]);

    let longer = "x".repeat(70_000);
    assert_eq!(fuzzy_score(&longer, &longer), None);
    assert!(fuzzy_matches(&longer, &[longer.clone()]).is_empty());
}

#[test]
fn aur_and_exact_names() {
    assert!(is_aur_package("AUR/paru"));
    assert!(!is_aur_package("aur"));
    assert!(!is_aur_package("extra/aur"));
    assert!(is_exact_package_name("fzf", "extra/FZF"));
    assert!(!is_exact_package_name("", "extra/fzf"));
    assert!(is_exact_package_name("fzf", "fzf"));
}

#[test]
fn empty_query_lists_every_package_with_aur_last() {
    let packages = strings(&["aur/a", "core/b", "AUR/c", "extra/d"]);
    assert_eq!(fuzzy_matches("", &packages), vec![1, 3, 0, 2]);
}

#[test]
fn higher_scores_come_first_then_earlier_packages() {
    let packages = strings(&["x/zzbash", "x/bash-x", "x/b-a-s-h"]);
    assert_eq!(fuzzy_matches("bash", &packages), vec![1, 0, 2]);
    let same = strings(&["x/ab", "x/ab"]);
    assert_eq!(fuzzy_matches("ab", &same), vec![0, 1]);
}

// --- editing -----------------------------------------------------------------

#[test]
fn word_moves() {
    let q: Vec<char> = "foo bar  baz".chars().collect();
    assert_eq!(word_left(&q, 12), 9);
    assert_eq!(word_left(&q, 9), 4);
    assert_eq!(word_left(&q, 3), 0);
    assert_eq!(word_right(&q, 0), 3);
    assert_eq!(word_right(&q, 3), 7);
    assert_eq!(word_right(&q, 12), 12);
}

#[test]
fn query_editing_keys() {
    let mut view = list_view(PackageSource::Available, &["core/bash", "extra/fzf"], vec![false, false]);
    view.searching = true;
    let mut app = app_on(Screen::Packages(view), 0);
    for c in "fz bash".chars() {
        app.handle_key(press(KeyCode::Char(c)));
    }
    app.handle_key(ctrl(KeyCode::Char('w')));
    app.handle_key(press(KeyCode::Home));
    app.handle_key(press(KeyCode::Right));
    app.handle_key(press(KeyCode::Backspace));
    let Screen::Packages(view) = &app.screen else {
        panic!("list");
    };
    assert_eq!(view.query_text(), "z ");
    assert_eq!(view.query_cursor, 0);
    assert_eq!(view.matches, Vec::<usize>::new());
    app.handle_key(press(KeyCode::End));
    app.handle_key(ctrl(KeyCode::Char('a')));
    let Screen::Packages(view) = &app.screen else {
        panic!("list");
    };
    assert_eq!(view.query_cursor, 0);
}

#[test]
fn select_all_toggles_every_match() {
    let view = list_view(PackageSource::Available, &["a/x", "b/y"], vec![true, false]);
    let mut app = app_on(Screen::Packages(view), 0);
    app.handle_key(press(KeyCode::Char('a')));
    let Screen::Packages(view) = &app.screen else {
        panic!("list");
    };
    assert_eq!(view.selected, vec![true, true]);
    app.handle_key(press(KeyCode::Char('a')));
    let Screen::Packages(view) = &app.screen else {
        panic!("list");
    };
    assert_eq!(view.selected, vec![false, false]);
}

#[test]
fn enter_installs_or_confirms_removal() {
    let view = list_view(PackageSource::Available, &["a/x", "b/y"], vec![false, false]);
    let mut app = app_on(Screen::Packages(view), 1);
    match app.handle_key(press(KeyCode::Enter)) {
        Some(Request::Execute(Action::Install(p))) => assert_eq!(p, vec!["b/y"]),
        _ => panic!("install request expected"),
    }
    let view = list_view(PackageSource::Installed, &["x", "y"], vec![true, true]);
    let mut app = app_on(Screen::Packages(view), 0);
    assert!(app.handle_key(press(KeyCode::Enter)).is_none());
    match &app.screen {
        Screen::Confirm(Action::Remove(p)) => assert_eq!(p, &vec!["x", "y"]),
        _ => panic!("confirmation expected"),
    }
    assert!(matches!(
        app.handle_key(press(KeyCode::Char('y'))),
        Some(Request::Execute(Action::Remove(_)))
    ));
}

#[test]
fn paging_and_preview() {
    let names: Vec<String> = (0..25).map(|i| format!("r/p{}", i)).collect();
    let refs: Vec<&str> = names.iter().map(|s| s.as_str()).collect();
    let view = list_view(PackageSource::Installed, &refs, vec![false; 25]);
    let mut app = app_on(Screen::Packages(view), 20);
    app.handle_key(press(KeyCode::PageUp));
    assert_eq!(app.cursor, 24);
    app.handle_key(press(KeyCode::PageDown));
    assert_eq!(app.cursor, 14);
    match app.handle_key(press(KeyCode::Char('p'))) {
        Some(Request::Preview { package, installed }) => {
            assert_eq!(package, "r/p14");
            assert!(installed);
        }
        _ => panic!("preview expected"),
    }
}

#[test]
fn menus_move_and_open_screens() {
    let mut app = App::new();
    app.handle_key(press(KeyCode::Up));
    assert_eq!(app.cursor, 4);
    app.handle_key(press(KeyCode::Down));
    app.handle_key(press(KeyCode::Down));
    assert_eq!(app.cursor, 1);
    app.handle_key(press(KeyCode::Enter));
    assert!(matches!(app.screen, Screen::RemoveMenu));
    assert_eq!(app.cursor, 0);
    app.handle_key(press(KeyCode::Esc));
    assert!(matches!(app.screen, Screen::Main));
    assert_eq!(app.cursor, 1);
    assert!(matches!(
        app.handle_key(Key { code: KeyCode::Enter, ctrl: false, press: false }),
        None
    ));
    app.handle_key(press(KeyCode::Char('q')));
    assert!(app.should_quit);
}

#[test]
fn output_scrolls_and_returns() {
    let mut app = App::new();
    app.show_output("T".to_owned(), "B".to_owned());
    app.handle_key(press(KeyCode::Up));
    app.handle_mouse(Mouse::ScrollDown);
    app.handle_mouse(Mouse::ScrollDown);
    match &app.screen {
        Screen::Output(o) => assert_eq!(o.scroll, 2),
        _ => panic!("output expected"),
    }
    app.handle_key(press(KeyCode::Enter));
    assert!(matches!(app.screen, Screen::Main));
}

#[test]
fn loading_flow() {
    let mut app = App::new();
    app.start_loading(PackageSource::Installed);
    assert_eq!(app.loading, Some(PackageSource::Installed));
    assert!(app.poll_loading(LoadPoll::Empty).is_none());
    let (source, r) = app.poll_loading(LoadPoll::Disconnected).unwrap();
    assert_eq!(source, PackageSource::Installed);
    assert_eq!(r.err().unwrap(), "Package loading failed.");
    assert!(app.loading.is_none());
    app.show_loaded(
        PackageSource::Installed,
        Ok(PackageList { packages: Vec::new(), notice: None }),
    );
    match &app.screen {
        Screen::Output(o) => {
            assert_eq!(o.title, "Installed Packages");
            assert_eq!(o.body, "No packages found.");
        }
        _ => panic!("output expected"),
    }
    app.show_packages(
        PackageSource::Available,
        PackageList { packages: strings(&["aur/a", "core/b"]), notice: None },
    );
    match &app.screen {
        Screen::Packages(v) => {
            assert_eq!(v.matches, vec![1, 0]);
            assert!(v.searching);
            assert_eq!(v.selected, vec![false, false]);
        }
        _ => panic!("list expected"),
    }
}

#[test]
fn request_plans() {
    assert!(matches!(
        plan_request(Request::Load(PackageSource::Available)),
        Plan::CheckFreshCache
    ));
    assert!(matches!(
        plan_request(Request::Load(PackageSource::Aur)),
        Plan::StartLoading(PackageSource::Aur)
    ));
    assert!(matches!(
        plan_request(Request::Execute(Action::RefreshCache { without_aur: true })),
        Plan::RefreshCache { without_aur: true }
    ));
    assert!(matches!(
        plan_request(Request::Execute(Action::UpdateSystem)),
        Plan::RunInteractive(Action::UpdateSystem)
    ));
    assert!(matches!(plan_available(true), Plan::ListNow(PackageSource::Available)));
    assert!(matches!(plan_available(false), Plan::StartLoading(PackageSource::Available)));
    let mut app = App::new();
    app.show_refresh_result(false, Ok(3), "/c/pack/cache");
    match &app.screen {
        Screen::Output(o) => {
            assert_eq!(o.title, "Refresh Pack Cache");
            assert_eq!(o.body, "Cache refreshed: 3 packages.\n/c/pack/cache");
        }
        _ => panic!("output expected"),
    }
}

#[test]
fn command_line_texts() {
    assert!(matches!(parse_route(Vec::new()), Ok(RouteParse::Run(Route::Tui))));
    assert!(matches!(parse_route(strings(&["--help"])), Ok(RouteParse::Print(t)) if t == usage()));
    assert!(matches!(parse_route(strings(&["-V"])), Ok(RouteParse::Print("pack 0.1.0"))));
    assert!(matches!(parse_route(strings(&["remove"])), Ok(RouteParse::Run(Route::Remove))));
    assert_eq!(
        parse_route(strings(&["install", "x"])).unwrap_err(),
        "Unknown or incomplete command-line argument."
    );
    assert!(usage().starts_with("Usage: pack"));
}

// --- rendering helpers --------------------------------------------------------

#[test]
fn screen_texts() {
    let mut view = list_view(PackageSource::Available, &["core/bash", "extra/fzf"], vec![true, false]);
    view.notice = Some("stale".to_owned());
    assert_eq!(status_line(&view), "2 / 2 packages - 1 selected - stale");
    assert_eq!(search_line(&view), "/ to search");
    view.query = "bs".chars().collect();
    view.query_cursor = 1;
    assert_eq!(search_line(&view), "/ bs");
    view.searching = true;
    assert_eq!(search_line(&view), "/ b▌s");
    assert_eq!(row_marker(true, true), ">✓ ");
    assert_eq!(row_marker(false, false), "   ");
    assert_eq!(
        split_package("core/bash"),
        Some(("core".to_owned(), "bash".to_owned()))
    );
    assert_eq!(split_package("bash"), None);
    assert_eq!(
        output_text(&OutputView { title: "T".to_owned(), body: "B".to_owned(), scroll: 0 }),
        "T\n\nB"
    );
    assert_eq!(
        confirmation_text(&Action::UpdateSystem, None),
        "System packages will be updated.\n\nCommand to run:\npacman -Syu\n\ny: confirm  n/Esc: cancel"
    );
    assert_eq!(menu_items(Menu::Advanced).len(), 4);
    assert_eq!(menu_items(Menu::Main)[3], "Advanced Options");
    assert_eq!(menu_button("Exit", true), ("> Exit ".to_owned(), 8));
}

#[test]
fn layout_keeps_the_cursor_in_view() {
    let names: Vec<String> = (0..10).map(|i| format!("r/p{}", i)).collect();
    let refs: Vec<&str> = names.iter().map(|s| s.as_str()).collect();
    let mut view = list_view(PackageSource::Available, &refs, vec![false; 10]);
    assert_eq!(layout_results(&mut view, 7, 4), (4, 8));
    assert_eq!(view.viewport_height, 4);
    assert_eq!(layout_results(&mut view, 2, 4), (2, 6));
    assert_eq!(layout_results(&mut view, 9, 0), (9, 10));
    assert_eq!(view.viewport_height, 1);
    view.matches.clear();
    assert_eq!(layout_results(&mut view, 3, 4), (0, 0));
    assert_eq!(view.scroll_offset, 0);
}

#[test]
fn centered_rectangles() {
    let area = Area { x: 2, y: 1, width: 10, height: 5 };
    assert_eq!(
        centered_rect(4, 1, area),
        Area { x: 5, y: 3, width: 4, height: 1 }
    );
    assert_eq!(centered_rect(40, 9, area), area);
}

#[test]
fn numbers() {
    assert_eq!(decimal_string(0), "0");
    assert_eq!(decimal_string(1234567890), "1234567890");
    assert_eq!(signed_decimal_string(-45), "-45");
    assert_eq!(signed_decimal_string(i32::MIN), "-2147483648");
}

#[test]
fn routes_open_their_first_screen() {
    let mut app = App::new();
    assert!(app.open_route(Route::Tui).is_none());
    assert!(matches!(app.screen, Screen::Main));
    assert!(matches!(
        app.open_route(Route::Install),
        Some(Request::Load(PackageSource::Available))
    ));
    assert!(matches!(
        app.open_route(Route::Remove),
        Some(Request::Load(PackageSource::Installed))
    ));
    assert!(app.open_route(Route::Update).is_none());
    assert!(matches!(app.screen, Screen::Confirm(Action::UpdateSystem)));
}
