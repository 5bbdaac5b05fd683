use gifust::filters::Dither;
use gifust::tui::browser::Entry;
use gifust::tui::state::{App, Effect, Focus, Key, Theme};

fn entry(name: &str, is_dir: bool) -> Entry {
    Entry { name: name.to_string(), path: format!("/v/{name}"), is_dir }
}

fn app() -> App {
    App::new("/v".to_string(), vec![entry("sub", true), entry("clip.mp4", false)])
}

#[test]
fn initial_state() {
    let a = app();
    assert_eq!(a.focus, Focus::Browser);
    assert_eq!(a.theme, Theme::Dark);
    assert_eq!(a.status, "Choisis une vidéo, règle les options, puis 'c' pour convertir.");
    assert!(a.selected_video.is_none());
    assert!(!a.should_quit);
    assert_eq!(a.help_text(), "j/k naviguer · l/↵ ouvrir · h/⌫ parent · Tab options · c convertir · q quitter");
}

#[test]
fn convert_without_video_sets_status() {
    let mut a = app();
    assert!(matches!(a.handle_key(Key::Char('c')), Effect::Nothing));
    assert_eq!(a.status, "Aucune vidéo sélectionnée.");
}

#[test]
fn choosing_a_video_then_converting() {
    let mut a = app();
    assert!(matches!(a.handle_key(Key::Char('j')), Effect::Nothing));
    assert!(matches!(a.handle_key(Key::Enter), Effect::Nothing));
    assert_eq!(a.selected_video.as_deref(), Some("/v/clip.mp4"));
    assert_eq!(a.status, "Vidéo : /v/clip.mp4");
    assert_eq!(a.focus, Focus::Options);
    match a.handle_key(Key::Char('c')) {
        Effect::Convert(v, o) => {
            assert_eq!(v, "/v/clip.mp4");
            assert_eq!(o.fps, 15);
            assert_eq!(o.dither, Dither::Sierra2);
        }
        _ => panic!("expected a conversion"),
    }
    a.conversion_finished(Some("/v/clip.gif".to_string()));
    assert_eq!(a.status, "✓ gif créé : /v/clip.gif");
    a.conversion_finished(None);
    assert_eq!(a.status, "✗ échec de la conversion (voir le message).");
}

#[test]
fn entering_a_directory_asks_for_reload() {
    let mut a = app();
    assert!(matches!(a.handle_key(Key::Char('l')), Effect::Reload));
    assert_eq!(a.browser.cwd, "/v/sub");
    a.reload(vec![entry("x.mkv", false)]);
    assert_eq!(a.browser.selected, Some(0));
    assert!(matches!(a.handle_key(Key::Char('h')), Effect::Reload));
    assert_eq!(a.browser.cwd, "/v");
}

#[test]
fn typing_in_options_panel() {
    let mut a = app();
    a.handle_key(Key::Tab);
    assert_eq!(a.focus, Focus::Options);
    a.handle_key(Key::Char('2'));
    assert!(a.options.editing);
    assert_eq!(a.help_text(), "Entrée valider · Échap annuler");
    a.handle_key(Key::Char('5'));
    a.handle_key(Key::Char('x'));
    a.handle_key(Key::Backspace);
    a.handle_key(Key::Char('q'));
    assert!(!a.should_quit, "q is typed while editing");
    a.handle_key(Key::Backspace);
    a.handle_key(Key::Enter);
    assert!(!a.options.editing);
    assert_eq!(a.options.fps, 25);
    assert_eq!(a.help_text(), "j/k champ · 0-9 saisir · ↵ éditer · h/l changer · Tab dossier · c convertir · q quitter");
}

#[test]
fn escape_cancels_edit_then_quits() {
    let mut a = app();
    a.handle_key(Key::Tab);
    a.handle_key(Key::Enter);
    assert!(a.options.editing);
    assert_eq!(a.options.buffer, "15");
    a.handle_key(Key::Esc);
    assert!(!a.options.editing);
    assert!(!a.should_quit);
    a.handle_key(Key::Esc);
    assert!(a.should_quit);
}

#[test]
fn options_keys_move_and_cycle() {
    let mut a = app();
    a.handle_key(Key::BackTab);
    for _ in 0..5 {
        a.handle_key(Key::Down);
    }
    assert_eq!(a.options.sel, 5);
    a.handle_key(Key::Char('l'));
    assert_eq!(a.options.dither, Dither::Off);
    a.handle_key(Key::Left);
    a.handle_key(Key::Left);
    assert_eq!(a.options.dither, Dither::Floyd);
    a.handle_key(Key::Up);
    assert_eq!(a.options.sel, 4);
}

#[test]
fn tab_and_theme_toggle_back() {
    let mut a = app();
    a.handle_key(Key::Tab);
    a.handle_key(Key::Tab);
    assert_eq!(a.focus, Focus::Browser);
    a.handle_key(Key::Char('t'));
    assert_eq!(a.theme, Theme::Light);
    a.handle_key(Key::Char('t'));
    assert_eq!(a.theme, Theme::Dark);
    a.handle_key(Key::Char('q'));
    assert!(a.should_quit);
}

#[test]
fn other_keys_do_nothing() {
    let mut a = app();
    assert!(matches!(a.handle_key(Key::Other), Effect::Nothing));
    assert_eq!(a.browser.selected, Some(0));
    assert_eq!(a.focus, Focus::Browser);
}

#[test]
fn video_name_in_options_title() {
    let mut a = app();
    assert_eq!(a.video_name(), "aucune vidéo");
    a.handle_key(Key::Down);
    a.handle_key(Key::Enter);
    assert_eq!(a.video_name(), "clip.mp4");
}

#[test]
fn panel_titles_and_lines() {
    let mut a = app();
    assert_eq!(a.browser_title(), " Dossier : /v ");
    assert_eq!(a.options_title(), " Options — aucune vidéo ");
    assert_eq!(a.description_title(), " FPS ");
    assert_eq!(a.status_line(), " Choisis une vidéo, règle les options, puis 'c' pour convertir.");
    assert_eq!(a.help_line(), format!(" {}", a.help_text()));
    a.handle_key(Key::Down);
    a.handle_key(Key::Enter);
    assert_eq!(a.options_title(), " Options — clip.mp4 ");
}

#[test]
fn cli_defaults_match_form_defaults() {
    let f = gifust::tui::form::OptionsForm::default();
    assert_eq!(f.fps, gifust::cli::DEFAULT_FPS);
    assert_eq!(f.width, gifust::cli::DEFAULT_WIDTH);
    assert_eq!(f.colors, gifust::cli::DEFAULT_COLORS);
    assert_eq!(f.dither, gifust::cli::DEFAULT_DITHER);
    assert_eq!(f.filter, gifust::cli::DEFAULT_FILTER);
    assert_eq!(f.loop_count, gifust::cli::DEFAULT_LOOP);
}
