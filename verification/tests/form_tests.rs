use gifust::filters::{ColorFilter, Dither};
use gifust::tui::form::{nonempty, Field, OptionsForm, FIELDS};

fn form_at(field: Field) -> OptionsForm {
    let mut f = OptionsForm::default();
    f.sel = FIELDS.iter().position(|&x| x == field).unwrap();
    f
}

#[test]
fn default_form_values() {
    let f = OptionsForm::default();
    assert_eq!(f.fps, 15);
    assert_eq!(f.width, 1080);
    assert_eq!(f.colors, 256);
    assert_eq!(f.dither, Dither::Sierra2);
    assert_eq!(f.filter, ColorFilter::Off);
    assert_eq!(f.loop_count, 0);
    assert_eq!(f.sel, 0);
    assert!(!f.editing);
    assert_eq!(f.field(), Field::Fps);
}

#[test]
fn next_and_prev_stay_in_range() {
    let mut f = OptionsForm::default();
    f.prev();
    assert_eq!(f.sel, 0);
    for _ in 0..20 {
        f.next();
    }
    assert_eq!(f.sel, 8);
    assert_eq!(f.field(), Field::Output);
    f.prev();
    assert_eq!(f.sel, 7);
    f.next();
    assert_eq!(f.sel, 8);
}

#[test]
fn display_texts() {
    let mut f = OptionsForm::default();
    assert_eq!(f.display(Field::Fps), ("15".to_string(), false));
    assert_eq!(f.display(Field::Width), ("1080 px".to_string(), false));
    assert_eq!(f.display(Field::Start), ("s ou hh:mm:ss".to_string(), true));
    assert_eq!(f.display(Field::Duration), ("vidéo entière".to_string(), true));
    assert_eq!(f.display(Field::Output), ("auto (même nom en .gif)".to_string(), true));
    assert_eq!(f.display(Field::Dither), ("Sierra2".to_string(), false));
    assert_eq!(f.display(Field::Filter), ("Aucun".to_string(), false));
    assert_eq!(f.display(Field::Loop), ("infini".to_string(), false));
    f.loop_count = -1;
    assert_eq!(f.display(Field::Loop), ("aucune".to_string(), false));
    f.loop_count = 3;
    assert_eq!(f.display(Field::Loop), ("3×".to_string(), false));
    f.start = "  5 ".to_string();
    assert_eq!(f.display(Field::Start), ("5".to_string(), false));
}

#[test]
fn labels_and_descriptions() {
    assert_eq!(OptionsForm::label(Field::Fps), "FPS");
    assert_eq!(OptionsForm::label(Field::Output), "Sortie");
    assert_eq!(OptionsForm::describe(Field::Colors)[1], "Type : entier 2-256");
    assert_eq!(OptionsForm::describe(Field::Loop)[2], "Défaut : infini");
    assert!(OptionsForm::is_cycle(Field::Dither));
    assert!(OptionsForm::is_cycle(Field::Filter));
    assert!(!OptionsForm::is_cycle(Field::Fps));
}

#[test]
fn begin_edit_loads_value_and_commit_keeps_it() {
    for field in [Field::Fps, Field::Width, Field::Colors, Field::Loop, Field::Start] {
        let mut f = form_at(field);
        f.start = "3".to_string();
        f.begin_edit();
        assert!(f.editing);
        f.commit();
        assert!(!f.editing);
        assert_eq!(f.buffer, "");
        assert_eq!(f.fps, 15);
        assert_eq!(f.width, 1080);
        assert_eq!(f.colors, 256);
        assert_eq!(f.loop_count, 0);
        assert_eq!(f.start, "3");
    }
}

#[test]
fn begin_edit_on_cycle_field_cycles() {
    let mut f = form_at(Field::Dither);
    f.begin_edit();
    assert!(!f.editing);
    assert_eq!(f.dither, Dither::Off);
    let mut g = form_at(Field::Filter);
    g.begin_edit();
    assert_eq!(g.filter, ColorFilter::BlackWhite);
}

#[test]
fn commit_rules() {
    let mut f = form_at(Field::Fps);
    f.type_char('0');
    f.commit();
    assert_eq!(f.fps, 15, "zero refused");
    f.type_char('2');
    f.type_char('4');
    f.commit();
    assert_eq!(f.fps, 24);

    let mut c = form_at(Field::Colors);
    c.type_char('9');
    c.type_char('9');
    c.type_char('9');
    c.commit();
    assert_eq!(c.colors, 256);
    c.type_char('1');
    c.commit();
    assert_eq!(c.colors, 2);

    let mut l = form_at(Field::Loop);
    l.buffer = " -7 ".to_string();
    l.editing = true;
    l.commit();
    assert_eq!(l.loop_count, -1);
    l.buffer = "x".to_string();
    l.editing = true;
    l.commit();
    assert_eq!(l.loop_count, -1, "unparsable text keeps the value");

    let mut o = form_at(Field::Output);
    o.buffer = "  out.gif  ".to_string();
    o.editing = true;
    o.commit();
    assert_eq!(o.output, "out.gif");
}

#[test]
fn type_char_starts_fresh_edit_and_ignores_cycle_fields() {
    let mut f = form_at(Field::Width);
    f.type_char('6');
    assert!(f.editing);
    assert_eq!(f.buffer, "6");
    f.type_char('4');
    assert_eq!(f.buffer, "64");
    f.cancel();
    assert!(!f.editing);
    assert_eq!(f.buffer, "");
    assert_eq!(f.width, 1080);
    let mut d = form_at(Field::Dither);
    d.type_char('1');
    assert!(!d.editing);
    assert_eq!(d.buffer, "");
}

#[test]
fn cycle_only_changes_cycle_fields() {
    let mut f = form_at(Field::Filter);
    f.cycle(false);
    assert_eq!(f.filter, ColorFilter::Vintage);
    let mut g = form_at(Field::Fps);
    g.cycle(true);
    assert_eq!(g.fps, 15);
    assert_eq!(g.dither, Dither::Sierra2);
}

#[test]
fn to_options_drops_blank_text() {
    let mut f = OptionsForm::default();
    f.start = "  ".to_string();
    f.duration = " 5 ".to_string();
    f.output = "a.gif".to_string();
    let o = f.to_options();
    assert_eq!(o.start, None);
    assert_eq!(o.duration.as_deref(), Some("5"));
    assert_eq!(o.output.as_deref(), Some("a.gif"));
    assert_eq!(o.fps, 15);
    assert_eq!(o.dither, Dither::Sierra2);
}

#[test]
fn nonempty_trims() {
    assert_eq!(nonempty("  "), None);
    assert_eq!(nonempty(""), None);
    assert_eq!(nonempty(" x "), Some("x".to_string()));
}

#[test]
fn edit_type_then_cancel_keeps_values() {
    for field in [Field::Fps, Field::Width, Field::Start, Field::Duration, Field::Colors, Field::Loop, Field::Output] {
        let mut f = form_at(field);
        f.begin_edit();
        for c in ['9', ':', '.', '1'] {
            f.type_char(c);
        }
        f.cancel();
        assert!(!f.editing);
        assert_eq!(f.buffer, "");
        assert_eq!((f.fps, f.width, f.colors, f.loop_count), (15, 1080, 256, 0));
        assert_eq!((f.start.as_str(), f.duration.as_str(), f.output.as_str()), ("", "", ""));
        assert_eq!(f.dither, Dither::Sierra2);
        assert_eq!(f.filter, ColorFilter::Off);
        assert_eq!(f.field(), field);
    }
}

#[test]
fn row_texts() {
    assert_eq!(OptionsForm::row_label(Field::Fps), format!("{:<9}", "FPS"));
    assert_eq!(OptionsForm::row_label(Field::Duration), format!("{:<9}", "Durée"));
    assert_eq!(OptionsForm::row_label(Field::Colors), "Couleurs ");
    assert_eq!(OptionsForm::row_marker(Field::Dither), "  ‹ ›");
    assert_eq!(OptionsForm::row_marker(Field::Loop), "");
    let mut f = OptionsForm::default();
    assert_eq!(f.row_value(2), ("s ou hh:mm:ss".to_string(), gifust::tui::form::RowKind::Hint));
    assert_eq!(f.row_value(0), ("15".to_string(), gifust::tui::form::RowKind::Value));
    f.type_char('3');
    assert_eq!(f.row_value(0), ("3▏".to_string(), gifust::tui::form::RowKind::Editing));
    assert_eq!(f.row_value(1), ("1080 px".to_string(), gifust::tui::form::RowKind::Value));
}
