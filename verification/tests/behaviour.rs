use pack::editor::{next, previous, scroll_down, scroll_up};
use pack::package::{parse_sync_packages, PackageSource};
use pack::route::{parse_route, Route, RouteParse};
use pack::search::fuzzy_matches;
use pack::ui::{
    selected_packages, App, Key, KeyCode, PackageBack, PackageView, Screen, MAIN_MENU_LEN,
};

fn view(
    source: PackageSource,
    packages: Vec<&str>,
    matches: Vec<usize>,
    back: PackageBack,
    selected: Vec<bool>,
    searching: bool,
) -> PackageView {
    PackageView {
        source,
        packages: packages.into_iter().map(|p| p.to_owned()).collect(),
        matches,
        back,
        selected,
        notice: None,
        query: Vec::new(),
        query_cursor: 0,
        searching,
        loading: false,
        scroll_offset: 0,
        viewport_height: 1,
    }
}

fn press(code: KeyCode) -> Key {
    Key::press(code, false)
}

#[test]
fn menu_cursor_wraps_at_both_ends() {
    let mut cursor = 0;
    previous(&mut cursor, MAIN_MENU_LEN);
    assert_eq!(cursor, MAIN_MENU_LEN - 1);
    next(&mut cursor, MAIN_MENU_LEN);
    assert_eq!(cursor, 0);
}

#[test]
fn selected_packages_only_returns_checked_entries() {
    let view = view(
        PackageSource::Available,
        vec!["core/bash", "extra/fzf"],
        vec![0, 1],
        PackageBack::Main,
        vec![true, false],
        false,
    );
    assert_eq!(selected_packages(&view), vec!["core/bash"]);
}

#[test]
fn escape_returns_to_the_menu_that_opened_package_list() {
    let mut app = App {
        cursor: 0,
        main_cursor: 0,
        remove_cursor: 1,
        advanced_cursor: 0,
        loading: None,
        screen: Screen::Packages(view(
            PackageSource::Installed,
            vec!["extra/fzf"],
            vec![0],
            PackageBack::RemoveMenu,
            vec![false],
            true,
        )),
        should_quit: false,
    };

    app.handle_key(press(KeyCode::Esc));

    assert!(matches!(app.screen, Screen::RemoveMenu));
    assert_eq!(app.cursor, 1);
}

#[test]
fn cli_routes_match_reference_commands() {
    assert!(matches!(
        parse_route(vec!["install".to_owned()]),
        Ok(RouteParse::Run(Route::Install))
    ));
    assert!(matches!(
        parse_route(vec!["uninstall".to_owned()]),
        Ok(RouteParse::Run(Route::Remove))
    ));
    assert!(matches!(
        parse_route(vec!["update".to_owned()]),
        Ok(RouteParse::Run(Route::Update))
    ));
}

#[test]
fn fuzzy_search_filters_case_insensitively_and_prefers_contiguous_matches() {
    let packages = vec![
        "core/bash".to_owned(),
        "extra/base-devel".to_owned(),
        "extra/BASH-completion".to_owned(),
    ];

    assert_eq!(fuzzy_matches("bsh", &packages), vec![0, 2]);
}

#[test]
fn exact_package_name_beats_fuzzy_matches() {
    let packages = vec![
        "extra/discord-account-manager-git".to_owned(),
        "extra/discord".to_owned(),
    ];

    assert_eq!(fuzzy_matches("discord", &packages), vec![1, 0]);
}

#[test]
fn aur_packages_always_follow_non_aur_packages() {
    let packages = vec!["aur/discord".to_owned(), "extra/discord-helper".to_owned()];

    assert_eq!(fuzzy_matches("discord", &packages), vec![1, 0]);
}

#[test]
fn search_input_keeps_selection_on_the_original_package() {
    let mut app = App {
        cursor: 0,
        main_cursor: 0,
        remove_cursor: 0,
        advanced_cursor: 0,
        loading: None,
        screen: Screen::Packages(view(
            PackageSource::Available,
            vec!["core/bash", "extra/fzf"],
            vec![0, 1],
            PackageBack::Main,
            vec![true, false],
            false,
        )),
        should_quit: false,
    };

    app.handle_key(press(KeyCode::Char('/')));
    app.handle_key(press(KeyCode::Char('f')));
    app.handle_key(press(KeyCode::Char('z')));

    let Screen::Packages(view) = app.screen else {
        panic!("package screen should be preserved");
    };
    assert_eq!(view.query_text(), "fz");
    assert_eq!(fuzzy_matches(&view.query_text(), &view.packages), vec![1]);
    assert_eq!(selected_packages(&view), vec!["core/bash"]);
}

#[test]
fn space_selects_current_package_and_moves_to_next_match() {
    let mut app = App {
        cursor: 1,
        main_cursor: 0,
        remove_cursor: 0,
        advanced_cursor: 0,
        loading: None,
        screen: Screen::Packages(view(
            PackageSource::Available,
            vec!["core/bash", "extra/fzf"],
            vec![0, 1],
            PackageBack::Main,
            vec![false, false],
            false,
        )),
        should_quit: false,
    };

    app.handle_key(press(KeyCode::Char(' ')));

    let Screen::Packages(view) = app.screen else {
        panic!("package screen should be preserved");
    };
    assert_eq!(app.cursor, 0);
    assert_eq!(view.selected, vec![false, true]);
}

#[test]
fn mouse_scroll_stays_within_the_package_list() {
    let mut cursor = 0;
    scroll_up(&mut cursor, 3);
    assert_eq!(cursor, 1);

    cursor = 2;
    scroll_down(&mut cursor, 3);
    assert_eq!(cursor, 1);

    scroll_down(&mut cursor, 3);
    scroll_down(&mut cursor, 3);
    assert_eq!(cursor, 0);
}

#[test]
fn sync_package_parser_keeps_repository_and_name() {
    let output = "core bash 5.2.37-1\nextra fzf 0.66.0-1\ncore bash 5.2.37-1\n";
    assert_eq!(parse_sync_packages(output), vec!["core/bash", "extra/fzf"]);
}
