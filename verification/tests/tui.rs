use works_after_reinstall::cli::Component;
use works_after_reinstall::view::{
    export_page, home_page, running_page, setup_page, starter_page, Page, Tone,
};
use works_after_reinstall::tui::{
    first_selectable, App, Effect, Job, Key, KeyCode, Running, Screen, StarterRow, Wheel, EXPORT_ROWS,
    HOME_ITEMS, SETUP_ROWS,
};

fn app() -> App {
    App::new(Vec::new())
}

fn press(app: &mut App, code: KeyCode) -> Effect {
    app.on_key(Key { code, control: false })
}

fn type_text(app: &mut App, text: &str) {
    for character in text.chars() {
        press(app, KeyCode::Char(character));
    }
}

/// Everything a page puts on the terminal, one line after another.
fn screen(page: &Page) -> String {
    let mut text = format!("{}\n", page.title);
    for line in &page.lines {
        text.push_str(&line.text);
        text.push('\n');
    }
    text.push_str(page.hints);
    text
}

fn render(app: &mut App) -> String {
    let page = match app.screen {
        Screen::Home => home_page(app),
        Screen::Export => export_page(app),
        Screen::Setup => setup_page(app),
        Screen::Starter => {
            app.view_height = VIEW;
            starter_page(app, VIEW)
        }
        Screen::Running => {
            app.view_height = VIEW;
            running_page(app, VIEW).unwrap()
        }
    };
    screen(&page)
}

fn running(title: &str) -> Option<Running> {
    Some(Running { title: title.to_string(), done: None, spinner: 0 })
}

/// The log rows a 90 by 24 terminal leaves for a list, as drawing sets them.
const VIEW: usize = 21;

fn running_app(count: usize) -> App {
    let mut app = app();
    app.screen = Screen::Running;
    app.running = running("Export");
    app.view_height = VIEW;
    let lines: Vec<String> = (0..count).map(|index| format!("line {index}")).collect();
    app.drain(lines, None);
    app
}

#[test]
fn home_opens_every_screen_and_comes_back() {
    let mut app = app();

    press(&mut app, KeyCode::Enter);
    assert_eq!(app.screen, Screen::Starter);
    press(&mut app, KeyCode::Esc);
    assert_eq!(app.screen, Screen::Home);

    press(&mut app, KeyCode::Down);
    press(&mut app, KeyCode::Enter);
    assert_eq!(app.screen, Screen::Setup);
    press(&mut app, KeyCode::Esc);

    press(&mut app, KeyCode::Down);
    press(&mut app, KeyCode::Down);
    press(&mut app, KeyCode::Enter);
    assert_eq!(app.screen, Screen::Export);
}

#[test]
fn quit_is_reachable_from_home() {
    let mut app = app();
    for _ in 0..HOME_ITEMS - 1 {
        press(&mut app, KeyCode::Down);
    }
    press(&mut app, KeyCode::Enter);
    assert!(app.should_quit);
}

#[test]
fn export_screen_edits_the_bundle_folder() {
    let mut app = app();
    app.screen = Screen::Export;
    app.export_output.clear();

    type_text(&mut app, "my-bundle");
    assert_eq!(app.export_output, "my-bundle");

    press(&mut app, KeyCode::Backspace);
    assert_eq!(app.export_output, "my-bundl");
}

#[test]
fn export_screen_toggles_components() {
    let mut app = app();
    app.screen = Screen::Export;
    app.focus = 1;

    press(&mut app, KeyCode::Char(' '));
    assert_eq!(app.export_enabled, [false, true, true, true]);

    press(&mut app, KeyCode::Enter);
    assert_eq!(app.export_enabled, [true, true, true, true]);
}

#[test]
fn export_screen_refuses_to_start_with_nothing_selected() {
    let mut app = app();
    app.screen = Screen::Export;
    app.focus = EXPORT_ROWS - 1;
    app.export_enabled = [false; 4];

    press(&mut app, KeyCode::Enter);

    assert_eq!(app.screen, Screen::Export);
    assert!(app.notice.is_some());
}

#[test]
fn setup_screen_shows_the_bundle_and_can_toggle_dry_run() {
    let mut app = app();
    app.bundles = vec![r"C:\bundles\one".to_string()];
    app.screen = Screen::Setup;

    let screen = render(&mut app);
    assert!(screen.contains(r"C:\bundles\one"));
    assert!(screen.contains("Dry run"));

    app.focus = SETUP_ROWS - 2;
    press(&mut app, KeyCode::Char(' '));
    assert!(app.dry_run);
}

#[test]
fn setup_screen_cycles_between_bundles() {
    let mut app = app();
    app.bundles = vec![r"C:\bundles\one".to_string(), r"C:\bundles\two".to_string()];
    app.screen = Screen::Setup;
    app.focus = 0;

    press(&mut app, KeyCode::Right);
    assert_eq!(app.bundle_index, 1);

    press(&mut app, KeyCode::Right);
    assert_eq!(app.bundle_index, 0);

    press(&mut app, KeyCode::Left);
    assert_eq!(app.bundle_index, 1);
}

#[test]
fn setup_screen_refuses_to_start_without_a_bundle() {
    let mut app = app();
    app.screen = Screen::Setup;
    app.focus = SETUP_ROWS - 1;

    press(&mut app, KeyCode::Enter);

    assert_eq!(app.screen, Screen::Setup);
    assert!(app.notice.is_some());
}

#[test]
fn running_screen_shows_progress_lines() {
    let mut app = app();
    app.screen = Screen::Running;
    app.running = running("Export");

    app.drain(vec!["[apps]".to_string(), "  36 packages".to_string()], None);

    assert_eq!(app.log, vec!["[apps]".to_string(), "  36 packages".to_string()]);
    let screen = render(&mut app);
    assert!(screen.contains("Export"));
    assert!(screen.contains("[apps]"));
    assert!(screen.contains("36 packages"));
    assert!(screen.contains("Working"));
}

#[test]
fn running_screen_reports_failures() {
    let mut app = app();
    app.screen = Screen::Running;
    app.running = running("Setup");

    let effect = app.drain(Vec::new(), Some(Err("winget is not available".to_string())));

    assert!(matches!(effect, Effect::RefreshBundles));
    assert!(render(&mut app).contains("Failed: winget is not available"));
}

#[test]
fn running_screen_ignores_keys_until_the_job_finishes() {
    let mut app = app();
    app.screen = Screen::Running;
    app.running = running("Export");

    press(&mut app, KeyCode::Esc);
    assert_eq!(app.screen, Screen::Running);

    app.drain(Vec::new(), Some(Ok(())));
    press(&mut app, KeyCode::Esc);
    assert_eq!(app.screen, Screen::Home);
    assert!(app.running.is_none());
}

#[test]
fn starter_screen_picks_apps_and_reports_the_count() {
    let mut app = app();
    app.screen = Screen::Starter;

    press(&mut app, KeyCode::Char(' '));
    assert!(app.starter_picked[0]);
    assert!(app.starter_title(VIEW).contains("1 apps picked"));

    press(&mut app, KeyCode::Char(' '));
    assert!(!app.starter_picked[0]);
    assert!(app.starter_title(VIEW).contains("0 apps picked"));
}

#[test]
fn starter_screen_steps_over_category_headers() {
    let mut app = app();
    app.screen = Screen::Starter;
    app.view_height = VIEW;

    assert_eq!(app.starter_focus, first_selectable(&app.starter_rows));

    press(&mut app, KeyCode::Up);
    assert_eq!(
        app.starter_focus,
        first_selectable(&app.starter_rows),
        "stops at the first app"
    );

    for _ in 0..5 {
        press(&mut app, KeyCode::Down);
    }
    assert!(matches!(app.starter_rows[app.starter_focus], StarterRow::App(_)));
    assert!(matches!(
        app.starter_rows[app.starter_focus - 1],
        StarterRow::Header(_)
    ));
}

#[test]
fn starter_screen_scrolls_to_keep_the_focus_visible() {
    let mut app = app();
    app.screen = Screen::Starter;
    app.view_height = VIEW;
    let view = app.view_height;

    for _ in 0..40 {
        press(&mut app, KeyCode::Down);
    }

    assert!(app.starter_scroll > 0, "the list should have scrolled");
    assert!(app.starter_focus >= app.starter_scroll);
    assert!(app.starter_focus < app.starter_scroll + view);
    assert!(app.starter_title(app.starter_scroll + view).contains("more above"));
}

#[test]
fn starter_screen_refuses_to_start_when_nothing_is_picked() {
    let mut app = app();
    app.screen = Screen::Starter;
    app.starter_windows = false;
    app.starter_environment = false;
    app.starter_focus = app.starter_rows.len() - 1;

    press(&mut app, KeyCode::Enter);

    assert_eq!(app.screen, Screen::Starter);
    assert!(app.notice.is_some());
}

#[test]
fn starter_screen_runs_a_dry_run_to_the_end() {
    let mut app = app();
    app.screen = Screen::Starter;
    app.starter_dry_run = true;
    app.starter_picked[0] = true;
    app.starter_focus = app.starter_rows.len() - 1;

    let effect = press(&mut app, KeyCode::Enter);
    assert_eq!(app.screen, Screen::Running);
    match effect {
        Effect::Start(Job::Starter { manifest, dry_run, only }) => {
            assert!(dry_run);
            assert_eq!(only, vec![Component::Apps, Component::Windows, Component::Environment]);
            assert_eq!(manifest.apps.len(), 1);
            assert_eq!(manifest.apps[0].id(), "Google.Chrome");
        }
        other => panic!("unexpected effect: {other:?}"),
    }
}

#[test]
fn running_screen_scrolls_back_through_the_log() {
    let mut app = running_app(60);

    assert_eq!(app.log_scroll, 0);

    press(&mut app, KeyCode::Home);
    assert!(app.log_scroll > 0);
    assert_eq!(app.log.len() - app.log_scroll, VIEW - 2);

    let before = app.log_scroll;
    app.drain(vec!["line 60".to_string()], None);
    assert_eq!(app.log_scroll, before + 1, "the view stays where you left it");

    press(&mut app, KeyCode::End);
    assert_eq!(app.log_scroll, 0);
    assert_eq!(app.log.last().unwrap(), "line 60");
}

#[test]
fn the_mouse_wheel_scrolls_the_log() {
    let mut app = running_app(60);

    app.on_mouse(Wheel::Up);
    assert!(app.log_scroll > 0);

    app.on_mouse(Wheel::Down);
    assert_eq!(app.log_scroll, 0);
}

#[test]
fn the_mouse_wheel_moves_the_starter_list() {
    let mut app = app();
    app.screen = Screen::Starter;
    let first = app.starter_focus;

    app.on_mouse(Wheel::Down);
    assert!(app.starter_focus > first);

    app.on_mouse(Wheel::Up);
    assert_eq!(app.starter_focus, first);
}

#[test]
fn the_log_keeps_its_newest_lines() {
    let mut app = running_app(499);
    app.drain(vec!["a".to_string(), "b".to_string()], None);
    assert_eq!(app.log.len(), 500);
    assert_eq!(app.log[0], "line 1");
    assert_eq!(app.log[499], "b");
    assert_eq!(app.running.as_ref().unwrap().spinner, 2);
}

#[test]
fn control_c_quits_from_any_screen() {
    let mut app = running_app(3);
    app.on_key(Key { code: KeyCode::Char('c'), control: true });
    assert!(app.should_quit);

    let mut export = self::app();
    export.screen = Screen::Export;
    export.on_key(Key { code: KeyCode::Char('x'), control: true });
    assert_eq!(export.export_output, "works-after-reinstall-bundle");
}

#[test]
fn export_and_setup_start_the_jobs_they_describe() {
    let mut export = app();
    export.screen = Screen::Export;
    export.export_output = "  out  ".to_string();
    export.export_enabled = [true, false, true, false];
    export.focus = EXPORT_ROWS - 1;
    match press(&mut export, KeyCode::Enter) {
        Effect::Start(Job::Export { output, skip }) => {
            assert_eq!(output, "out");
            assert_eq!(skip, vec![Component::Environment, Component::Files]);
        }
        other => panic!("unexpected effect: {other:?}"),
    }
    assert_eq!(export.running.as_ref().unwrap().title, "Export");

    let mut setup = app();
    setup.bundles = vec!["b1".to_string(), "b2".to_string()];
    setup.bundle_index = 1;
    setup.screen = Screen::Setup;
    setup.setup_enabled = [false, false, true, false];
    setup.dry_run = true;
    setup.focus = SETUP_ROWS - 1;
    match press(&mut setup, KeyCode::Char(' ')) {
        Effect::Start(Job::Setup { bundle, dry_run, only }) => {
            assert_eq!(bundle, "b2");
            assert!(dry_run);
            assert_eq!(only, vec![Component::Windows]);
        }
        other => panic!("unexpected effect: {other:?}"),
    }
}

#[test]
fn page_keys_move_ten_rows_and_end_reaches_the_action() {
    let mut app = app();
    app.screen = Screen::Starter;
    app.view_height = VIEW;
    press(&mut app, KeyCode::End);
    assert_eq!(app.starter_focus, app.starter_rows.len() - 1);
    assert!(matches!(app.starter_rows[app.starter_focus], StarterRow::Action));
    press(&mut app, KeyCode::Home);
    assert_eq!(app.starter_focus, 1);
    assert_eq!(app.starter_scroll, 1);
    press(&mut app, KeyCode::PageDown);
    assert!(app.starter_focus > 10);
    press(&mut app, KeyCode::PageUp);
    assert_eq!(app.starter_focus, 1);
}

#[test]
fn home_lists_the_things_you_can_do() {
    let screen = render(&mut app());
    assert!(screen.contains("Works After Reinstall"));
    assert!(screen.contains("Start fresh"));
    assert!(screen.contains("Export this machine"));
    assert!(screen.contains("Setup from a bundle"));
    assert!(screen.contains("Quit"));
    assert!(screen.contains("none yet"));
}

#[test]
fn home_lists_bundles_it_found() {
    let mut app = app();
    app.bundles = vec![r"C:\bundles\one".to_string()];

    assert!(render(&mut app).contains(r"C:\bundles\one"));
}

#[test]
fn home_counts_the_bundles_it_does_not_list() {
    let mut app = app();
    app.bundles = (0..7).map(|index| format!("b{index}")).collect();
    let page = home_page(&app);
    let texts: Vec<&str> = page.lines.iter().map(|line| line.text.as_str()).collect();
    assert!(texts.contains(&"  b4"));
    assert!(!texts.contains(&"  b5"));
    assert!(texts.contains(&"  ... and 2 more"));
    assert_eq!(page.lines[2].text, " > Start fresh - pick what to install");
    assert_eq!(page.lines[2].tone, Tone::Focused);
    assert_eq!(page.lines[3].text, "   Setup from a bundle");
}

#[test]
fn setup_screen_names_the_chosen_bundle_among_several() {
    let mut app = app();
    app.bundles = vec!["one".to_string(), "two".to_string()];
    app.bundle_index = 1;
    app.screen = Screen::Setup;
    let screen = render(&mut app);
    assert!(screen.contains("     < two >   (2 of 2)"));
    assert!(screen.contains("Dry run"));

    app.bundles.clear();
    app.bundle_index = 0;
    assert!(render(&mut app).contains("no bundle found - go back and export this machine first"));
}

#[test]
fn running_screen_reports_progress_and_outcome() {
    let mut app = app();
    app.screen = Screen::Running;
    app.running = running("Export");
    app.drain(vec!["[apps]".to_string(), "  36 packages".to_string()], None);
    let screen = render(&mut app);
    assert!(screen.contains("Export"));
    assert!(screen.contains("[apps]"));
    assert!(screen.contains("36 packages"));
    assert!(screen.contains("Working"));

    app.drain(Vec::new(), Some(Err("winget is not available".to_string())));
    let page = running_page(&app, VIEW).unwrap();
    let status = page.lines.last().unwrap();
    assert_eq!(status.text, "Failed: winget is not available");
    assert_eq!(status.tone, Tone::Failed);
}

#[test]
fn the_running_screen_scrolls_back_to_the_oldest_line() {
    let mut app = running_app(60);
    assert!(render(&mut app).contains("line 59"));

    press(&mut app, KeyCode::Home);
    let oldest = render(&mut app);
    assert!(oldest.contains("line 0"));
    assert!(oldest.contains("scrolled back"));

    press(&mut app, KeyCode::End);
    assert!(render(&mut app).contains("line 59"));
}

#[test]
fn starter_screen_lists_categories_and_apps() {
    let mut app = app();
    app.screen = Screen::Starter;

    let screen = render(&mut app);

    assert!(screen.contains("Start fresh"));
    assert!(screen.contains("Browsers"));
    assert!(screen.contains("Chrome"));
    assert!(screen.contains("Git"));

    press(&mut app, KeyCode::End);
    let bottom = render(&mut app);
    assert!(bottom.contains("Set this machine up"));
    assert!(bottom.contains("Dry run"));
    assert!(bottom.contains("more above"));
}

#[test]
fn each_screen_shows_its_own_key_hints() {
    let mut app = app();

    assert!(render(&mut app).contains("Enter select"));

    app.screen = Screen::Starter;
    assert!(render(&mut app).contains("Space pick"));

    app.screen = Screen::Export;
    assert!(render(&mut app).contains("Space toggle"));

    app.screen = Screen::Setup;
    assert!(render(&mut app).contains("Left/Right bundle"));

    let mut running = running_app(5);
    assert!(render(&mut running).contains("Up/Down scroll"));
}
