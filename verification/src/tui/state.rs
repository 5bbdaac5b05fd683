//! The state of the terminal UI and what each key does to it.

use vstd::prelude::*;

use crate::convert::ConvertOptions;
use crate::text::{concatenate, copy_str, pop_char, push_char};
use crate::tui::browser::{file_name_of, path_file_name, path_parent, Browser, BrowserModel, Entry, Opened, entries_view};
use crate::tui::form::{options_of_form, FormModel, OptionsForm};

verus! {

/// Which panel receives the keys.
#[derive(Clone, Copy, Debug, PartialEq, Eq, Structural)]
pub enum Focus {
    Browser,
    Options,
}

/// The colour theme of the terminal UI.
#[derive(Clone, Copy, Debug, PartialEq, Eq, Structural)]
pub enum Theme {
    Dark,
    Light,
}

/// The keys that the terminal UI tells apart.
#[derive(Clone, Copy, Debug, PartialEq, Eq, Structural)]
pub enum Key {
    Char(char),
    Backspace,
    Enter,
    Esc,
    Tab,
    BackTab,
    Up,
    Down,
    Left,
    Right,
    Other,
}

/// What the caller has to do after a key.
pub enum Effect {
    /// Nothing more.
    Nothing,
    /// Read the entries of the browser's current directory and give them to `reload`.
    Reload,
    /// Convert the video with the options, then report with `conversion_finished`.
    Convert(String, ConvertOptions),
}

/// The kind of an effect, as the state machine decides it.
pub enum EffectKind {
    Nothing,
    Reload,
    Convert,
}

/// The abstract state of the terminal UI.
pub struct AppModel {
    pub focus: Focus,
    pub theme: Theme,
    pub browser: BrowserModel,
    pub options: FormModel,
    pub selected_video: Option<Seq<char>>,
    pub status: Seq<char>,
    pub should_quit: bool,
}

/// The state of the terminal UI.
pub struct App {
    pub focus: Focus,
    pub theme: Theme,
    pub browser: Browser,
    pub options: OptionsForm,
    pub selected_video: Option<String>,
    pub status: String,
    pub should_quit: bool,
}

impl View for App {
    type V = AppModel;

    open spec fn view(&self) -> AppModel {
        AppModel {
            focus: self.focus,
            theme: self.theme,
            browser: self.browser@,
            options: self.options@,
            selected_video: match self.selected_video {
                Some(v) => Some(v@),
                None => None,
            },
            status: self.status@,
            should_quit: self.should_quit,
        }
    }
}

/// The status line shown when the terminal UI opens.
pub open spec fn welcome() -> Seq<char> {
    "Choisis une vidéo, règle les options, puis 'c' pour convertir."@
}

/// Whether a key is a down move (`j` or the down arrow).
pub open spec fn is_down(k: Key) -> bool {
    k == Key::Char('j') || k == Key::Down
}

/// Whether a key is an up move (`k` or the up arrow).
pub open spec fn is_up(k: Key) -> bool {
    k == Key::Char('k') || k == Key::Up
}

/// Whether a key moves left (`h` or the left arrow).
pub open spec fn is_left(k: Key) -> bool {
    k == Key::Char('h') || k == Key::Left
}

/// Whether a key moves right (`l` or the right arrow).
pub open spec fn is_right(k: Key) -> bool {
    k == Key::Char('l') || k == Key::Right
}

/// Characters that start typing a value into a field: digits, `:` and `.`.
pub open spec fn is_value_char(c: char) -> bool {
    ('0' <= c && c <= '9') || c == ':' || c == '.'
}

impl AppModel {
    /// The browser's selection is valid and the form's selected field exists.
    pub open spec fn wf(self) -> bool {
        self.browser.wf() && self.options.wf()
    }

    /// The state after a key in the browser panel.
    pub open spec fn browser_key(self, k: Key) -> AppModel {
        if is_down(k) {
            AppModel { browser: self.browser.next(), ..self }
        } else if is_up(k) {
            AppModel { browser: self.browser.prev(), ..self }
        } else if is_left(k) || k == Key::Backspace {
            AppModel { browser: self.browser.up(), ..self }
        } else if is_right(k) || k == Key::Enter {
            match self.browser.selected_entry() {
                Some(e) => if e.is_dir {
                    AppModel { browser: self.browser.open(), ..self }
                } else {
                    AppModel {
                        status: "Vidéo : "@ + e.path,
                        selected_video: Some(e.path),
                        focus: Focus::Options,
                        ..self
                    }
                },
                None => self,
            }
        } else {
            self
        }
    }

    /// The state after a key in the options panel.
    pub open spec fn options_key(self, k: Key) -> AppModel {
        let o = self.options;
        let o2 = if is_down(k) {
            o.next()
        } else if is_up(k) {
            o.prev()
        } else if is_left(k) {
            o.cycle(false)
        } else if is_right(k) {
            o.cycle(true)
        } else if k == Key::Enter {
            o.begin_edit()
        } else {
            match k {
                Key::Char(c) => if is_value_char(c) {
                    o.type_char(c)
                } else {
                    o
                },
                _ => o,
            }
        };
        AppModel { options: o2, ..self }
    }

    /// The form while an edit is under way: characters are typed, Backspace
    /// erases the last one, Enter validates, Escape abandons; other keys do nothing.
    pub open spec fn editing_key(self, k: Key) -> AppModel {
        let o = self.options;
        let o2 = match k {
            Key::Char(c) => FormModel { buffer: o.buffer.push(c), ..o },
            Key::Backspace => if o.buffer.len() > 0 {
                FormModel { buffer: o.buffer.drop_last(), ..o }
            } else {
                o
            },
            Key::Enter => o.commit(),
            Key::Esc => o.cancel(),
            _ => o,
        };
        AppModel { options: o2, ..self }
    }

    /// The state after a key.
    pub open spec fn key(self, k: Key) -> AppModel {
        if self.options.editing {
            self.editing_key(k)
        } else if k == Key::Char('q') || k == Key::Esc {
            AppModel { should_quit: true, ..self }
        } else if k == Key::Tab || k == Key::BackTab {
            AppModel {
                focus: if self.focus == Focus::Browser {
                    Focus::Options
                } else {
                    Focus::Browser
                },
                ..self
            }
        } else if k == Key::Char('c') {
            if self.selected_video is None {
                AppModel { status: "Aucune vidéo sélectionnée."@, ..self }
            } else {
                self
            }
        } else if k == Key::Char('t') {
            AppModel {
                theme: if self.theme == Theme::Dark {
                    Theme::Light
                } else {
                    Theme::Dark
                },
                ..self
            }
        } else if self.focus == Focus::Browser {
            self.browser_key(k)
        } else {
            self.options_key(k)
        }
    }

    /// What the caller has to do after a key: convert on `c` when a video is
    /// chosen, read the directory after entering one or going up, nothing otherwise.
    pub open spec fn key_effect(self, k: Key) -> EffectKind {
        if self.options.editing || k == Key::Char('q') || k == Key::Esc || k == Key::Tab || k
            == Key::BackTab || k == Key::Char('t') {
            EffectKind::Nothing
        } else if k == Key::Char('c') {
            if self.selected_video is None {
                EffectKind::Nothing
            } else {
                EffectKind::Convert
            }
        } else if self.focus == Focus::Browser {
            if (is_left(k) || k == Key::Backspace) && path_parent(self.browser.cwd) is Some {
                EffectKind::Reload
            } else if (is_right(k) || k == Key::Enter) && (self.browser.selected_entry() matches Some(
                e,
            ) && e.is_dir) {
                EffectKind::Reload
            } else {
                EffectKind::Nothing
            }
        } else {
            EffectKind::Nothing
        }
    }

    /// The help line for the current mode and panel.
    pub open spec fn help(self) -> Seq<char> {
        if self.options.editing {
            "Entrée valider · Échap annuler"@
        } else if self.focus == Focus::Browser {
            "j/k naviguer · l/↵ ouvrir · h/⌫ parent · Tab options · c convertir · q quitter"@
        } else {
            "j/k champ · 0-9 saisir · ↵ éditer · h/l changer · Tab dossier · c convertir · q quitter"@
        }
    }
}

/// Whether the key is the character `c`.
fn is_char(k: Key, c: char) -> (r: bool)
    ensures
        r == (k == Key::Char(c)),
{
    match k {
        Key::Char(x) => x == c,
        _ => false,
    }
}

impl App {
    /// The terminal UI at its start: the browser in `cwd` showing `entries`, the
    /// dark theme, the default options, no video chosen, the welcome status line.
    pub fn new(cwd: String, entries: Vec<Entry>) -> (r: App)
        requires
            entries@.len() <= i32::MAX,
        ensures
            r@.wf(),
            r@.focus == Focus::Browser,
            r@.theme == Theme::Dark,
            r@.browser == (BrowserModel { cwd: cwd@, entries: Seq::empty(), selected: None }).reload(
                entries_view(entries@),
            ),
            r@.options == FormModel::initial(),
            r@.selected_video is None,
            r@.status == welcome(),
            !r@.should_quit,
    {
        App {
            focus: Focus::Browser,
            theme: Theme::Dark,
            browser: Browser::new(cwd, entries),
            options: OptionsForm::default(),
            selected_video: None,
            status: copy_str("Choisis une vidéo, règle les options, puis 'c' pour convertir."),
            should_quit: false,
        }
    }

    /// Handles a key in the browser panel.
    fn handle_browser(&mut self, k: Key) -> (r: Effect)
        requires
            old(self)@.wf(),
            !old(self)@.options.editing,
            old(self)@.focus == Focus::Browser,
            !(k == Key::Char('q') || k == Key::Esc || k == Key::Tab || k == Key::BackTab || k
                == Key::Char('c') || k == Key::Char('t')),
        ensures
            final(self)@ == old(self)@.browser_key(k),
            final(self)@.wf(),
            match r {
                Effect::Nothing => old(self)@.key_effect(k) is Nothing,
                Effect::Reload => old(self)@.key_effect(k) is Reload,
                Effect::Convert(..) => false,
            },
    {
        if is_char(k, 'j') || k == Key::Down {
            self.browser.next();
            Effect::Nothing
        } else if is_char(k, 'k') || k == Key::Up {
            self.browser.prev();
            Effect::Nothing
        } else if is_char(k, 'h') || k == Key::Left || k == Key::Backspace {
            if self.browser.up() {
                Effect::Reload
            } else {
                Effect::Nothing
            }
        } else if is_char(k, 'l') || k == Key::Right || k == Key::Enter {
            match self.browser.open() {
                Opened::Video(video) => {
                    self.status = concatenate("Vidéo : ", video.as_str());
                    self.selected_video = Some(video);
                    self.focus = Focus::Options;
                    Effect::Nothing
                },
                Opened::Directory => Effect::Reload,
                Opened::Nothing => Effect::Nothing,
            }
        } else {
            Effect::Nothing
        }
    }

    /// Handles a key in the options panel.
    fn handle_options(&mut self, k: Key)
        requires
            old(self)@.wf(),
        ensures
            final(self)@ == old(self)@.options_key(k),
            final(self)@.wf(),
    {
        if is_char(k, 'j') || k == Key::Down {
            self.options.next();
        } else if is_char(k, 'k') || k == Key::Up {
            self.options.prev();
        } else if is_char(k, 'h') || k == Key::Left {
            self.options.cycle(false);
        } else if is_char(k, 'l') || k == Key::Right {
            self.options.cycle(true);
        } else if k == Key::Enter {
            self.options.begin_edit();
        } else {
            match k {
                Key::Char(c) => {
                    if (c >= '0' && c <= '9') || c == ':' || c == '.' {
                        self.options.type_char(c);
                    }
                },
                _ => {},
            }
        }
    }

    /// Handles a key: while an edit is under way the form takes it; otherwise `q`
    /// or Escape quit, Tab switches panels, `c` asks for the conversion of the
    /// chosen video, `t` switches between the dark and the light theme, and other
    /// keys go to the panel that has the focus.
    pub fn handle_key(&mut self, k: Key) -> (r: Effect)
        requires
            old(self)@.wf(),
        ensures
            final(self)@ == old(self)@.key(k),
            final(self)@.wf(),
            match r {
                Effect::Nothing => old(self)@.key_effect(k) is Nothing,
                Effect::Reload => old(self)@.key_effect(k) is Reload,
                Effect::Convert(video, opts) => {
                    &&& old(self)@.key_effect(k) is Convert
                    &&& old(self)@.selected_video == Some(video@)
                    &&& options_of_form(opts, old(self)@.options)
                },
            },
    {
        if self.options.editing {
            match k {
                Key::Char(c) => push_char(&mut self.options.buffer, c),
                Key::Backspace => {
                    let _ = pop_char(&mut self.options.buffer);
                },
                Key::Enter => self.options.commit(),
                Key::Esc => self.options.cancel(),
                _ => {},
            }
            return Effect::Nothing;
        }
        if is_char(k, 'q') || k == Key::Esc {
            self.should_quit = true;
            Effect::Nothing
        } else if k == Key::Tab || k == Key::BackTab {
            self.focus = match self.focus {
                Focus::Browser => Focus::Options,
                Focus::Options => Focus::Browser,
            };
            Effect::Nothing
        } else if is_char(k, 'c') {
            match &self.selected_video {
                Some(video) => Effect::Convert(video.clone(), self.options.to_options()),
                None => {
                    self.status = copy_str("Aucune vidéo sélectionnée.");
                    Effect::Nothing
                },
            }
        } else if is_char(k, 't') {
            self.theme = match self.theme {
                Theme::Dark => Theme::Light,
                Theme::Light => Theme::Dark,
            };
            Effect::Nothing
        } else {
            match self.focus {
                Focus::Browser => self.handle_browser(k),
                Focus::Options => {
                    self.handle_options(k);
                    Effect::Nothing
                },
            }
        }
    }

    /// Shows the entries of the browser's current directory.
    pub fn reload(&mut self, entries: Vec<Entry>)
        requires
            old(self)@.wf(),
            entries@.len() <= i32::MAX,
        ensures
            final(self)@ == (AppModel {
                browser: old(self)@.browser.reload(entries_view(entries@)),
                ..old(self)@
            }),
            final(self)@.wf(),
    {
        self.browser.reload(entries);
    }

    /// Reports the end of a conversion in the status line: the GIF written, or a
    /// failure.
    pub fn conversion_finished(&mut self, out: Option<String>)
        ensures
            final(self)@ == (AppModel {
                status: match out {
                    Some(o) => "✓ gif créé : "@ + o@,
                    None => "✗ échec de la conversion (voir le message)."@,
                },
                ..old(self)@
            }),
    {
        self.status = match out {
            Some(o) => concatenate("✓ gif créé : ", o.as_str()),
            None => copy_str("✗ échec de la conversion (voir le message)."),
        };
    }

    /// The name of the chosen video shown in the options panel: its file name, or
    /// `aucune vidéo` when none is chosen or the path has no file name.
    pub fn video_name(&self) -> (r: String)
        ensures
            r@ == match self@.selected_video {
                Some(v) => match path_file_name(v) {
                    Some(n) => n,
                    None => "aucune vidéo"@,
                },
                None => "aucune vidéo"@,
            },
    {
        match &self.selected_video {
            Some(v) => match file_name_of(v.as_str()) {
                Some(n) => n,
                None => copy_str("aucune vidéo"),
            },
            None => copy_str("aucune vidéo"),
        }
    }

    /// Title of the browser panel: the current directory.
    pub fn browser_title(&self) -> (r: String)
        ensures
            r@ == " Dossier : "@ + self.browser.cwd@ + " "@,
    {
        let mut r = copy_str(" Dossier : ");
        crate::text::push_str(&mut r, self.browser.cwd.as_str());
        crate::text::push_str(&mut r, " ");
        r
    }

    /// Title of the options panel: the name of the chosen video.
    pub fn options_title(&self) -> (r: String)
        ensures
            ({
                let name = match self@.selected_video {
                    Some(v) => match path_file_name(v) {
                        Some(n) => n,
                        None => "aucune vidéo"@,
                    },
                    None => "aucune vidéo"@,
                };
                r@ == " Options — "@ + name + " "@
            }),
    {
        let mut r = copy_str(" Options — ");
        let name = self.video_name();
        crate::text::push_str(&mut r, name.as_str());
        crate::text::push_str(&mut r, " ");
        r
    }

    /// Title of the panel that describes the selected field: its label.
    pub fn description_title(&self) -> (r: String)
        requires
            self@.wf(),
        ensures
            r@ == " "@ + crate::tui::form::field_label(self@.options.field()) + " "@,
    {
        let mut r = copy_str(" ");
        crate::text::push_str(&mut r, OptionsForm::label(self.options.field()));
        crate::text::push_str(&mut r, " ");
        r
    }

    /// The status line as shown, after one space.
    pub fn status_line(&self) -> (r: String)
        ensures
            r@ == " "@ + self.status@,
    {
        concatenate(" ", self.status.as_str())
    }

    /// The help line as shown, after one space.
    pub fn help_line(&self) -> (r: String)
        ensures
            r@ == " "@ + self@.help(),
    {
        concatenate(" ", self.help_text())
    }

    /// The help line for the current mode and panel.
    pub fn help_text(&self) -> (r: &'static str)
        ensures
            r@ == self@.help(),
    {
        if self.options.editing {
            "Entrée valider · Échap annuler"
        } else {
            match self.focus {
                Focus::Browser => {
                    "j/k naviguer · l/↵ ouvrir · h/⌫ parent · Tab options · c convertir · q quitter"
                },
                Focus::Options => {
                    "j/k champ · 0-9 saisir · ↵ éditer · h/l changer · Tab dossier · c convertir · q quitter"
                },
            }
        }
    }
}

// ---------------------------------------------------------------------------
// Laws
// ---------------------------------------------------------------------------

/// While an edit is under way, a key changes nothing but the form, and asks the
/// caller for nothing.
pub proof fn lemma_editing_captures_keys(m: AppModel, k: Key)
    requires
        m.options.editing,
    ensures
        m.key(k).focus == m.focus,
        m.key(k).browser == m.browser,
        m.key(k).selected_video == m.selected_video,
        m.key(k).status == m.status,
        m.key(k).should_quit == m.should_quit,
        m.key_effect(k) is Nothing,
{
}

/// Outside of an edit, `q` and Escape quit and change nothing else.
pub proof fn lemma_quit(m: AppModel, k: Key)
    requires
        !m.options.editing,
        k == Key::Char('q') || k == Key::Esc,
    ensures
        m.key(k) == (AppModel { should_quit: true, ..m }),
        m.key_effect(k) is Nothing,
{
}

/// Outside of an edit, Tab twice gives the focus back to the panel that had it.
pub proof fn lemma_tab_twice(m: AppModel)
    requires
        !m.options.editing,
    ensures
        m.key(Key::Tab).key(Key::Tab) == m,
{
}

/// Outside of an edit, `t` twice gives back the theme one started with, and `t`
/// changes nothing but the theme.
pub proof fn lemma_theme_toggle(m: AppModel)
    requires
        !m.options.editing,
    ensures
        m.key(Key::Char('t')).key(Key::Char('t')) == m,
        m.key(Key::Char('t')) == (AppModel { theme: m.key(Key::Char('t')).theme, ..m }),
        m.key(Key::Char('t')).theme != m.theme,
{
}

/// A conversion is asked for only when a video has been chosen.
pub proof fn lemma_convert_needs_video(m: AppModel, k: Key)
    ensures
        m.key_effect(k) is Convert ==> m.selected_video is Some,
{
}

/// Every key keeps the form's values normalized.
pub proof fn lemma_keys_keep_form_normalized(m: AppModel, k: Key)
    requires
        m.wf(),
        m.options.normalized(),
    ensures
        m.key(k).options.normalized(),
        m.key(k).wf(),
{
    crate::tui::form::lemma_form_ops_keep_normalized(
        m.options,
        false,
        match k {
            Key::Char(c) => c,
            _ => ' ',
        },
    );
    crate::tui::form::lemma_form_ops_keep_normalized(m.options, true, ' ');
    crate::tui::browser::lemma_browser_wf_kept(m.browser, Seq::empty());
}

} // verus!
