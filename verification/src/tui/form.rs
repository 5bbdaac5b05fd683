//! The options form of the terminal UI: its fields, their display, and editing.

use vstd::prelude::*;

use crate::convert::{clamp, ConvertOptions};
use crate::filters::{
    dither_index, dither_label, filter_index, filter_label, step_index, dither_at, filter_at,
    ColorFilter, Dither,
};
use crate::text::{
    decimal, i32_to_decimal, parse_i32, parse_i32_spec, parse_u32, parse_u32_spec, push_char,
    push_str, signed_decimal, trim, trimmed, u32_to_decimal,
};

verus! {

/// A field of the options form.
#[derive(Clone, Copy, Debug, PartialEq, Eq, Structural)]
pub enum Field {
    Fps,
    Width,
    Start,
    Duration,
    Colors,
    Dither,
    Filter,
    Loop,
    Output,
}

/// The fields, in display order.
pub const FIELDS: [Field; 9] = [
    Field::Fps,
    Field::Width,
    Field::Start,
    Field::Duration,
    Field::Colors,
    Field::Dither,
    Field::Filter,
    Field::Loop,
    Field::Output,
];

/// Number of fields of the form.
pub open spec fn field_count() -> int {
    9
}

/// The field at position `i` of `FIELDS`.
pub open spec fn field_at(i: int) -> Field {
    if i == 0 {
        Field::Fps
    } else if i == 1 {
        Field::Width
    } else if i == 2 {
        Field::Start
    } else if i == 3 {
        Field::Duration
    } else if i == 4 {
        Field::Colors
    } else if i == 5 {
        Field::Dither
    } else if i == 6 {
        Field::Filter
    } else if i == 7 {
        Field::Loop
    } else {
        Field::Output
    }
}

/// Fields whose value is changed by cycling through a list rather than typed.
pub open spec fn is_cycle_field(f: Field) -> bool {
    f == Field::Dither || f == Field::Filter
}

/// `s` trimmed, or `None` when nothing but white space is left.
pub open spec fn nonempty_spec(s: Seq<char>) -> Option<Seq<char>> {
    if trimmed(s).len() > 0 {
        Some(trimmed(s))
    } else {
        None
    }
}

/// The characters of an optional string.
pub open spec fn opt_view(o: Option<String>) -> Option<Seq<char>> {
    match o {
        Some(s) => Some(s@),
        None => None,
    }
}

/// `s` trimmed, or `None` when nothing but white space is left.
pub fn nonempty(s: &str) -> (r: Option<String>)
    ensures
        opt_view(r) == nonempty_spec(s@),
{
    let t = trim(s);
    if t.as_str().is_empty() {
        None
    } else {
        Some(t)
    }
}

/// The abstract state of an options form.
pub struct FormModel {
    pub fps: u32,
    pub width: u32,
    pub start: Seq<char>,
    pub duration: Seq<char>,
    pub colors: u32,
    pub dither: Dither,
    pub filter: ColorFilter,
    pub loop_count: i32,
    pub output: Seq<char>,
    pub sel: int,
    pub editing: bool,
    pub buffer: Seq<char>,
}

/// The options form: the values of the fields, the selected field, and the text
/// being typed into it.
pub struct OptionsForm {
    pub fps: u32,
    pub width: u32,
    pub start: String,
    pub duration: String,
    pub colors: u32,
    pub dither: Dither,
    pub filter: ColorFilter,
    pub loop_count: i32,
    pub output: String,
    pub sel: usize,
    pub editing: bool,
    pub buffer: String,
}

impl View for OptionsForm {
    type V = FormModel;

    open spec fn view(&self) -> FormModel {
        FormModel {
            fps: self.fps,
            width: self.width,
            start: self.start@,
            duration: self.duration@,
            colors: self.colors,
            dither: self.dither,
            filter: self.filter,
            loop_count: self.loop_count,
            output: self.output@,
            sel: self.sel as int,
            editing: self.editing,
            buffer: self.buffer@,
        }
    }
}

impl FormModel {
    /// The form as the terminal UI opens it: 15 fps, 1080 px, the whole video,
    /// 256 colours, Sierra2 dithering, no colour filter, endless loop, automatic
    /// output name; the first field selected and no edit under way.
    pub open spec fn initial() -> FormModel {
        FormModel {
            fps: 15,
            width: 1080,
            start: Seq::empty(),
            duration: Seq::empty(),
            colors: 256,
            dither: Dither::Sierra2,
            filter: ColorFilter::Off,
            loop_count: 0,
            output: Seq::empty(),
            sel: 0,
            editing: false,
            buffer: Seq::empty(),
        }
    }

    /// The selected field designates one of the fields.
    pub open spec fn wf(self) -> bool {
        0 <= self.sel < field_count()
    }

    /// The values that the form's own operations produce: positive frame rate and
    /// width, a colour count in `2..=256`, a loop count of at least -1, and text
    /// fields without surrounding white space.
    pub open spec fn normalized(self) -> bool {
        &&& self.fps > 0
        &&& self.width > 0
        &&& 2 <= self.colors <= 256
        &&& self.loop_count >= -1
        &&& trimmed(self.start) == self.start
        &&& trimmed(self.duration) == self.duration
        &&& trimmed(self.output) == self.output
    }

    pub open spec fn field(self) -> Field {
        field_at(self.sel)
    }

    /// The same field values as `other` (the selection and the edit may differ).
    pub open spec fn same_values(self, other: FormModel) -> bool {
        &&& self.fps == other.fps
        &&& self.width == other.width
        &&& self.start == other.start
        &&& self.duration == other.duration
        &&& self.colors == other.colors
        &&& self.dither == other.dither
        &&& self.filter == other.filter
        &&& self.loop_count == other.loop_count
        &&& self.output == other.output
    }

    /// The form after moving the selection one field down, if there is one.
    pub open spec fn next(self) -> FormModel {
        FormModel {
            sel: if self.sel + 1 < field_count() {
                self.sel + 1
            } else {
                self.sel
            },
            ..self
        }
    }

    /// The form after moving the selection one field up, if there is one.
    pub open spec fn prev(self) -> FormModel {
        FormModel {
            sel: if self.sel > 0 {
                self.sel - 1
            } else {
                0
            },
            ..self
        }
    }

    /// The form after cycling the selected field's value, when it is a cycle field.
    pub open spec fn cycle(self, forward: bool) -> FormModel {
        match self.field() {
            Field::Dither => FormModel {
                dither: dither_at(step_index(dither_index(self.dither), 4, forward)),
                ..self
            },
            Field::Filter => FormModel {
                filter: filter_at(step_index(filter_index(self.filter), 8, forward)),
                ..self
            },
            _ => self,
        }
    }

    /// The text that editing the selected field starts from.
    pub open spec fn edit_text(self) -> Seq<char> {
        match self.field() {
            Field::Fps => decimal(self.fps as nat),
            Field::Width => decimal(self.width as nat),
            Field::Colors => decimal(self.colors as nat),
            Field::Loop => signed_decimal(self.loop_count as int),
            Field::Start => self.start,
            Field::Duration => self.duration,
            Field::Output => self.output,
            _ => Seq::empty(),
        }
    }

    /// The form after starting to edit the selected field: a cycle field moves to
    /// its next value instead.
    pub open spec fn begin_edit(self) -> FormModel {
        if is_cycle_field(self.field()) {
            self.cycle(true)
        } else {
            FormModel { buffer: self.edit_text(), editing: true, ..self }
        }
    }

    /// The form after validating the typed text into the selected field. Numbers
    /// that do not parse leave the value as it was; a frame rate or width of 0 is
    /// refused; a colour count is brought into `2..=256`; a loop count below -1
    /// becomes -1; text fields take the trimmed text.
    pub open spec fn commit(self) -> FormModel {
        let v = trimmed(self.buffer);
        let f = self.field();
        FormModel {
            fps: match (f, parse_u32_spec(v)) {
                (Field::Fps, Some(x)) if x > 0 => x,
                _ => self.fps,
            },
            width: match (f, parse_u32_spec(v)) {
                (Field::Width, Some(x)) if x > 0 => x,
                _ => self.width,
            },
            colors: match (f, parse_u32_spec(v)) {
                (Field::Colors, Some(x)) => clamp(x as int, 2, 256) as u32,
                _ => self.colors,
            },
            loop_count: match (f, parse_i32_spec(v)) {
                (Field::Loop, Some(x)) => if x < -1 {
                    -1i32
                } else {
                    x
                },
                _ => self.loop_count,
            },
            start: if f == Field::Start {
                v
            } else {
                self.start
            },
            duration: if f == Field::Duration {
                v
            } else {
                self.duration
            },
            output: if f == Field::Output {
                v
            } else {
                self.output
            },
            editing: false,
            buffer: Seq::empty(),
            ..self
        }
    }

    /// The form after typing `ch` outside of an edit, or into one: a cycle field
    /// ignores it; otherwise a fresh edit starts from an empty text.
    pub open spec fn type_char(self, ch: char) -> FormModel {
        if is_cycle_field(self.field()) {
            self
        } else if !self.editing {
            FormModel { editing: true, buffer: seq![ch], ..self }
        } else {
            FormModel { buffer: self.buffer.push(ch), ..self }
        }
    }

    /// The form after abandoning the edit.
    pub open spec fn cancel(self) -> FormModel {
        FormModel { editing: false, buffer: Seq::empty(), ..self }
    }

    /// Placeholder display: the trimmed text, or the hint when it is blank.
    pub open spec fn placeholder(s: Seq<char>, hint: Seq<char>) -> (Seq<char>, bool) {
        if trimmed(s).len() == 0 {
            (hint, true)
        } else {
            (trimmed(s), false)
        }
    }

    /// What the form shows for the field `f`, and whether it is a hint for an
    /// empty field rather than a value.
    pub open spec fn display(self, f: Field) -> (Seq<char>, bool) {
        match f {
            Field::Fps => (decimal(self.fps as nat), false),
            Field::Width => (decimal(self.width as nat) + " px"@, false),
            Field::Start => FormModel::placeholder(self.start, "s ou hh:mm:ss"@),
            Field::Duration => FormModel::placeholder(self.duration, "vidéo entière"@),
            Field::Colors => (decimal(self.colors as nat), false),
            Field::Dither => (dither_label(self.dither), false),
            Field::Filter => (filter_label(self.filter), false),
            Field::Loop => (
                if self.loop_count == 0 {
                    "infini"@
                } else if self.loop_count == -1 {
                    "aucune"@
                } else {
                    signed_decimal(self.loop_count as int) + "×"@
                },
                false,
            ),
            Field::Output => FormModel::placeholder(self.output, "auto (même nom en .gif)"@),
        }
    }
}

/// `o` holds the conversion options of the form `m`: its numbers and presets as
/// they are, its text fields trimmed, and absent when blank.
pub open spec fn options_of_form(o: ConvertOptions, m: FormModel) -> bool {
    &&& o.fps == m.fps
    &&& o.width == m.width
    &&& opt_view(o.start) == nonempty_spec(m.start)
    &&& opt_view(o.duration) == nonempty_spec(m.duration)
    &&& o.colors == m.colors
    &&& o.dither == m.dither
    &&& o.filter == m.filter
    &&& o.loop_count == m.loop_count
    &&& opt_view(o.output) == nonempty_spec(m.output)
}

/// `s` followed by spaces up to `width` characters (what `{:<width}` prints).
pub open spec fn padded(s: Seq<char>, width: int) -> Seq<char> {
    if s.len() >= width {
        s
    } else {
        s + Seq::new((width - s.len()) as nat, |i: int| ' ')
    }
}

/// How the value of a row of the form is shown.
#[derive(Clone, Copy, Debug, PartialEq, Eq, Structural)]
pub enum RowKind {
    /// The text being typed, followed by a cursor.
    Editing,
    /// A hint standing for an empty field.
    Hint,
    /// The field's value.
    Value,
}

/// The label of a field.
pub open spec fn field_label(f: Field) -> Seq<char> {
    match f {
        Field::Fps => "FPS"@,
        Field::Width => "Largeur"@,
        Field::Start => "Début"@,
        Field::Duration => "Durée"@,
        Field::Colors => "Couleurs"@,
        Field::Dither => "Tramage"@,
        Field::Filter => "Filtre"@,
        Field::Loop => "Boucle"@,
        Field::Output => "Sortie"@,
    }
}

/// The three lines that describe a field: its role, the expected type, an
/// example or the default.
pub open spec fn field_description(f: Field) -> Seq<Seq<char>> {
    match f {
        Field::Fps => seq![
            "Images par seconde du gif."@,
            "Type : entier > 0"@,
            "Ex : 15, 24   ·   défaut 15"@,
        ],
        Field::Width => seq![
            "Largeur en pixels (hauteur calculée automatiquement)."@,
            "Type : entier > 0 (pixels)"@,
            "Ex : 480, 1080   ·   défaut 1080"@,
        ],
        Field::Start => seq![
            "Instant de début du segment à extraire."@,
            "Type : durée — secondes ou hh:mm:ss"@,
            "Ex : 3, 00:00:03   ·   défaut : début de la vidéo"@,
        ],
        Field::Duration => seq![
            "Durée du segment à extraire depuis le début."@,
            "Type : durée — secondes ou hh:mm:ss"@,
            "Ex : 5, 00:00:05   ·   défaut : vidéo entière"@,
        ],
        Field::Colors => seq![
            "Nombre maximum de couleurs de la palette."@,
            "Type : entier 2-256"@,
            "Ex : 128, 256   ·   défaut 256"@,
        ],
        Field::Dither => seq![
            "Méthode de tramage (h/l pour changer)."@,
            "Valeurs : Aucun, Bayer, Floyd-Steinberg, Sierra2"@,
            "Réduit le banding, alourdit un peu le fichier"@,
        ],
        Field::Filter => seq![
            "Filtre couleur appliqué avant la palette (h/l pour changer)."@,
            "Valeurs : Aucun, Noir & blanc, Sépia, Chaud, Froid…"@,
            "Défaut : Aucun (couleurs d'origine)"@,
        ],
        Field::Loop => seq![
            "Nombre de répétitions du gif."@,
            "Type : entier (0 = infini, -1 = aucune)"@,
            "Défaut : infini"@,
        ],
        Field::Output => seq![
            "Chemin du fichier gif de sortie."@,
            "Type : chemin de fichier"@,
            "Défaut : même nom que la source, extension .gif"@,
        ],
    }
}

impl Default for OptionsForm {
    /// The form's starting values (see `FormModel::initial`).
    fn default() -> (r: OptionsForm)
        ensures
            r@ == FormModel::initial(),
    {
        OptionsForm {
            fps: 15,
            width: 1080,
            start: String::new(),
            duration: String::new(),
            colors: 256,
            dither: Dither::Sierra2,
            filter: ColorFilter::Off,
            loop_count: 0,
            output: String::new(),
            sel: 0,
            editing: false,
            buffer: String::new(),
        }
    }
}

impl OptionsForm {
    /// The selected field.
    pub fn field(&self) -> (r: Field)
        requires
            self@.wf(),
        ensures
            r == self@.field(),
    {
        proof {
            assert(FIELDS@ =~= seq![
                Field::Fps,
                Field::Width,
                Field::Start,
                Field::Duration,
                Field::Colors,
                Field::Dither,
                Field::Filter,
                Field::Loop,
                Field::Output,
            ]);
        }
        FIELDS[self.sel]
    }

    /// Whether `f` changes by cycling through a list of values.
    pub fn is_cycle(f: Field) -> (r: bool)
        ensures
            r == is_cycle_field(f),
    {
        match f {
            Field::Dither | Field::Filter => true,
            _ => false,
        }
    }

    /// Selects the next field, staying on the last one.
    pub fn next(&mut self)
        requires
            old(self).sel < usize::MAX,
        ensures
            final(self)@ == old(self)@.next(),
    {
        if self.sel + 1 < 9 {
            self.sel = self.sel + 1;
        }
    }

    /// Selects the previous field, staying on the first one.
    pub fn prev(&mut self)
        ensures
            final(self)@ == old(self)@.prev(),
    {
        self.sel = if self.sel > 0 {
            self.sel - 1
        } else {
            0
        };
    }

    /// The label of a field.
    pub fn label(f: Field) -> (r: &'static str)
        ensures
            r@ == field_label(f),
    {
        match f {
            Field::Fps => "FPS",
            Field::Width => "Largeur",
            Field::Start => "Début",
            Field::Duration => "Durée",
            Field::Colors => "Couleurs",
            Field::Dither => "Tramage",
            Field::Filter => "Filtre",
            Field::Loop => "Boucle",
            Field::Output => "Sortie",
        }
    }

    /// The label of a field padded with spaces to 9 characters, as the rows of the
    /// form show it.
    pub fn row_label(f: Field) -> (r: String)
        ensures
            r@ == padded(field_label(f), 9),
    {
        let mut r = crate::text::copy_str(Self::label(f));
        let mut n = crate::text::chars_of(r.as_str()).len();
        let ghost base = r@;
        while n < 9
            invariant
                base == field_label(f),
                n <= 9 || n == base.len(),
                n >= base.len(),
                r@ == base + Seq::new((n - base.len()) as nat, |i: int| ' '),
            decreases 9 - n,
        {
            push_char(&mut r, ' ');
            proof {
                assert(base + Seq::new((n + 1 - base.len()) as nat, |i: int| ' ') =~= (base
                    + Seq::new((n - base.len()) as nat, |i: int| ' ')).push(' '));
            }
            n = n + 1;
        }
        proof {
            if base.len() >= 9 {
                assert(r@ =~= base);
            }
        }
        r
    }

    /// The marker shown after the value of a cycle field.
    pub fn row_marker(f: Field) -> (r: &'static str)
        ensures
            r@ == if is_cycle_field(f) {
                "  ‹ ›"@
            } else {
                ""@
            },
    {
        if Self::is_cycle(f) {
            "  ‹ ›"
        } else {
            ""
        }
    }

    /// The value shown in the row of the `i`-th field: the text being typed and a
    /// cursor when that field is being edited, otherwise what `display` gives.
    pub fn row_value(&self, i: usize) -> (r: (String, RowKind))
        requires
            i < 9,
        ensures
            if self.editing && i == self.sel {
                r.0@ == self.buffer@ + "▏"@ && r.1 == RowKind::Editing
            } else {
                r.0@ == self@.display(field_at(i as int)).0 && (r.1 == if self@.display(
                    field_at(i as int),
                ).1 {
                    RowKind::Hint
                } else {
                    RowKind::Value
                })
            },
    {
        if self.editing && i == self.sel {
            (crate::text::concatenate(self.buffer.as_str(), "▏"), RowKind::Editing)
        } else {
            proof {
                assert(FIELDS@ =~= seq![
                    Field::Fps,
                    Field::Width,
                    Field::Start,
                    Field::Duration,
                    Field::Colors,
                    Field::Dither,
                    Field::Filter,
                    Field::Loop,
                    Field::Output,
                ]);
            }
            let (text, hint) = self.display(FIELDS[i]);
            (text, if hint {
                RowKind::Hint
            } else {
                RowKind::Value
            })
        }
    }

    /// The trimmed text, or `hint` (flagged as a hint) when it is blank.
    fn placeholder(s: &str, hint: &str) -> (r: (String, bool))
        ensures
            (r.0@, r.1) == FormModel::placeholder(s@, hint@),
    {
        let t = trim(s);
        if t.as_str().is_empty() {
            (crate::text::copy_str(hint), true)
        } else {
            (t, false)
        }
    }

    /// The text shown for the field `f`, and whether it is a hint for an empty
    /// field rather than a value.
    pub fn display(&self, f: Field) -> (r: (String, bool))
        ensures
            (r.0@, r.1) == self@.display(f),
    {
        match f {
            Field::Fps => (u32_to_decimal(self.fps), false),
            Field::Width => {
                let mut s = u32_to_decimal(self.width);
                push_str(&mut s, " px");
                (s, false)
            },
            Field::Start => Self::placeholder(self.start.as_str(), "s ou hh:mm:ss"),
            Field::Duration => Self::placeholder(self.duration.as_str(), "vidéo entière"),
            Field::Colors => (u32_to_decimal(self.colors), false),
            Field::Dither => (crate::text::copy_str(self.dither.label()), false),
            Field::Filter => (crate::text::copy_str(self.filter.label()), false),
            Field::Loop => {
                let s = if self.loop_count == 0 {
                    crate::text::copy_str("infini")
                } else if self.loop_count == -1 {
                    crate::text::copy_str("aucune")
                } else {
                    let mut s = i32_to_decimal(self.loop_count);
                    push_str(&mut s, "×");
                    s
                };
                (s, false)
            },
            Field::Output => Self::placeholder(self.output.as_str(), "auto (même nom en .gif)"),
        }
    }

    /// The description of a field: its role, the expected type, an example or the
    /// default.
    pub fn describe(f: Field) -> (r: [&'static str; 3])
        ensures
            r@.len() == 3,
            r@[0]@ == field_description(f)[0],
            r@[1]@ == field_description(f)[1],
            r@[2]@ == field_description(f)[2],
    {
        match f {
            Field::Fps => [
                "Images par seconde du gif.",
                "Type : entier > 0",
                "Ex : 15, 24   ·   défaut 15",
            ],
            Field::Width => [
                "Largeur en pixels (hauteur calculée automatiquement).",
                "Type : entier > 0 (pixels)",
                "Ex : 480, 1080   ·   défaut 1080",
            ],
            Field::Start => [
                "Instant de début du segment à extraire.",
                "Type : durée — secondes ou hh:mm:ss",
                "Ex : 3, 00:00:03   ·   défaut : début de la vidéo",
            ],
            Field::Duration => [
                "Durée du segment à extraire depuis le début.",
                "Type : durée — secondes ou hh:mm:ss",
                "Ex : 5, 00:00:05   ·   défaut : vidéo entière",
            ],
            Field::Colors => [
                "Nombre maximum de couleurs de la palette.",
                "Type : entier 2-256",
                "Ex : 128, 256   ·   défaut 256",
            ],
            Field::Dither => [
                "Méthode de tramage (h/l pour changer).",
                "Valeurs : Aucun, Bayer, Floyd-Steinberg, Sierra2",
                "Réduit le banding, alourdit un peu le fichier",
            ],
            Field::Filter => [
                "Filtre couleur appliqué avant la palette (h/l pour changer).",
                "Valeurs : Aucun, Noir & blanc, Sépia, Chaud, Froid…",
                "Défaut : Aucun (couleurs d'origine)",
            ],
            Field::Loop => [
                "Nombre de répétitions du gif.",
                "Type : entier (0 = infini, -1 = aucune)",
                "Défaut : infini",
            ],
            Field::Output => [
                "Chemin du fichier gif de sortie.",
                "Type : chemin de fichier",
                "Défaut : même nom que la source, extension .gif",
            ],
        }
    }

    /// Cycles the value of the selected field when it is the dithering or the
    /// colour filter; other fields are left alone.
    pub fn cycle(&mut self, forward: bool)
        requires
            old(self)@.wf(),
        ensures
            final(self)@ == old(self)@.cycle(forward),
    {
        match self.field() {
            Field::Dither => self.dither = self.dither.cycle(forward),
            Field::Filter => self.filter = self.filter.cycle(forward),
            _ => {},
        }
    }

    /// Starts editing the selected field from its current value; a cycle field
    /// moves to its next value instead.
    pub fn begin_edit(&mut self)
        requires
            old(self)@.wf(),
        ensures
            final(self)@ == old(self)@.begin_edit(),
    {
        let f = self.field();
        if Self::is_cycle(f) {
            self.cycle(true);
            return;
        }
        self.buffer = match f {
            Field::Fps => u32_to_decimal(self.fps),
            Field::Width => u32_to_decimal(self.width),
            Field::Colors => u32_to_decimal(self.colors),
            Field::Loop => i32_to_decimal(self.loop_count),
            Field::Start => self.start.clone(),
            Field::Duration => self.duration.clone(),
            Field::Output => self.output.clone(),
            _ => String::new(),
        };
        self.editing = true;
    }

    /// Validates the typed text into the selected field and ends the edit.
    pub fn commit(&mut self)
        requires
            old(self)@.wf(),
        ensures
            final(self)@ == old(self)@.commit(),
    {
        let value = trim(self.buffer.as_str());
        match self.field() {
            Field::Fps => {
                if let Some(v) = parse_u32(value.as_str()) {
                    if v > 0 {
                        self.fps = v;
                    }
                }
            },
            Field::Width => {
                if let Some(v) = parse_u32(value.as_str()) {
                    if v > 0 {
                        self.width = v;
                    }
                }
            },
            Field::Colors => {
                if let Some(v) = parse_u32(value.as_str()) {
                    self.colors = if v < 2 {
                        2
                    } else if v > 256 {
                        256
                    } else {
                        v
                    };
                }
            },
            Field::Loop => {
                if let Some(v) = parse_i32(value.as_str()) {
                    self.loop_count = if v < -1 {
                        -1
                    } else {
                        v
                    };
                }
            },
            Field::Start => self.start = value,
            Field::Duration => self.duration = value,
            Field::Output => self.output = value,
            _ => {},
        }
        self.editing = false;
        self.buffer = String::new();
    }

    /// Typing a character on a text or number field: starts a fresh edit (empty
    /// text) when none is under way, then appends the character. Cycle fields
    /// ignore it.
    pub fn type_char(&mut self, ch: char)
        requires
            old(self)@.wf(),
        ensures
            final(self)@ == old(self)@.type_char(ch),
    {
        if Self::is_cycle(self.field()) {
            return;
        }
        if !self.editing {
            self.editing = true;
            self.buffer = String::new();
        }
        push_char(&mut self.buffer, ch);
    }

    /// Abandons the edit.
    pub fn cancel(&mut self)
        ensures
            final(self)@ == old(self)@.cancel(),
    {
        self.editing = false;
        self.buffer = String::new();
    }

    /// The conversion options of the form: blank text fields become absent, the
    /// others are trimmed.
    pub fn to_options(&self) -> (r: ConvertOptions)
        ensures
            options_of_form(r, self@),
    {
        ConvertOptions {
            fps: self.fps,
            width: self.width,
            start: nonempty(self.start.as_str()),
            duration: nonempty(self.duration.as_str()),
            colors: self.colors,
            dither: self.dither,
            filter: self.filter,
            loop_count: self.loop_count,
            output: nonempty(self.output.as_str()),
        }
    }
}

// ---------------------------------------------------------------------------
// Laws
// ---------------------------------------------------------------------------

/// The form starts with normalized values and a valid selection.
pub proof fn lemma_initial_normalized()
    ensures
        FormModel::initial().wf(),
        FormModel::initial().normalized(),
{
}

/// Every operation of the form keeps its values normalized and its selection
/// valid: moving, cycling, starting an edit, typing, validating, abandoning.
pub proof fn lemma_form_ops_keep_normalized(m: FormModel, forward: bool, ch: char)
    requires
        m.wf(),
        m.normalized(),
    ensures
        m.next().wf() && m.next().normalized(),
        m.prev().wf() && m.prev().normalized(),
        m.cycle(forward).wf() && m.cycle(forward).normalized(),
        m.begin_edit().wf() && m.begin_edit().normalized(),
        m.type_char(ch).wf() && m.type_char(ch).normalized(),
        m.commit().wf() && m.commit().normalized(),
        m.cancel().wf() && m.cancel().normalized(),
{
    crate::text::lemma_trim_idempotent(m.buffer);
}

/// Starting to edit a text or number field and validating it without typing
/// anything leaves every value of a normalized form as it was, and ends the edit.
pub proof fn lemma_edit_commit_keeps_values(m: FormModel)
    requires
        m.wf(),
        m.normalized(),
        !is_cycle_field(m.field()),
    ensures
        m.begin_edit().commit().same_values(m),
        m.begin_edit().commit().sel == m.sel,
        !m.begin_edit().commit().editing,
        m.begin_edit().commit().buffer.len() == 0,
{
    crate::text::lemma_parse_u32_decimal(m.fps);
    crate::text::lemma_parse_u32_decimal(m.width);
    crate::text::lemma_parse_u32_decimal(m.colors);
    crate::text::lemma_parse_i32_decimal(m.loop_count);
}

/// The form after typing the characters `cs` one after the other.
pub open spec fn type_chars(m: FormModel, cs: Seq<char>) -> FormModel
    decreases cs.len(),
{
    if cs.len() == 0 {
        m
    } else {
        type_chars(m, cs.drop_last()).type_char(cs.last())
    }
}

proof fn lemma_typing_keeps_values(m: FormModel, cs: Seq<char>)
    ensures
        type_chars(m, cs).same_values(m),
        type_chars(m, cs).sel == m.sel,
    decreases cs.len(),
{
    if cs.len() > 0 {
        lemma_typing_keeps_values(m, cs.drop_last());
    }
}

/// Starting to edit a text or number field, typing anything, and abandoning the
/// edit leaves every value and the selection as they were, and ends the edit.
pub proof fn lemma_edit_cancel_keeps_values(m: FormModel, cs: Seq<char>)
    requires
        m.wf(),
        !is_cycle_field(m.field()),
    ensures
        type_chars(m.begin_edit(), cs).cancel().same_values(m),
        type_chars(m.begin_edit(), cs).cancel().sel == m.sel,
        !type_chars(m.begin_edit(), cs).cancel().editing,
        type_chars(m.begin_edit(), cs).cancel().buffer.len() == 0,
{
    lemma_typing_keeps_values(m.begin_edit(), cs);
}

/// Validating an edit stores the typed text, trimmed, into a text field whatever
/// it holds (a time such as `00:00:05` included), and touches no other value.
pub proof fn lemma_commit_text_fields(m: FormModel)
    requires
        m.wf(),
    ensures
        m.field() == Field::Start ==> m.commit().start == trimmed(m.buffer),
        m.field() == Field::Duration ==> m.commit().duration == trimmed(m.buffer),
        m.field() == Field::Output ==> m.commit().output == trimmed(m.buffer),
        m.field() != Field::Start ==> m.commit().start == m.start,
        m.field() != Field::Duration ==> m.commit().duration == m.duration,
        m.field() != Field::Output ==> m.commit().output == m.output,
        (m.field() == Field::Start || m.field() == Field::Duration || m.field() == Field::Output)
            ==> m.commit().fps == m.fps && m.commit().width == m.width && m.commit().colors
            == m.colors && m.commit().loop_count == m.loop_count,
        m.commit().dither == m.dither && m.commit().filter == m.filter,
        m.commit().sel == m.sel && !m.commit().editing && m.commit().buffer.len() == 0,
{
}

/// Validating an edit into a number field: a frame rate or width that parses and
/// is positive is taken; a colour count that parses is taken when within 2..=256,
/// and raised to 2 or lowered to 256 otherwise; a loop count that parses is taken
/// when at least -1, and -1 otherwise; text that does not parse changes nothing.
pub proof fn lemma_commit_number_fields(m: FormModel)
    requires
        m.wf(),
    ensures
        ({
            let v = trimmed(m.buffer);
            &&& m.field() == Field::Fps ==> m.commit().fps == match parse_u32_spec(v) {
                Some(x) => if x > 0 {
                    x
                } else {
                    m.fps
                },
                None => m.fps,
            }
            &&& m.field() == Field::Width ==> m.commit().width == match parse_u32_spec(v) {
                Some(x) => if x > 0 {
                    x
                } else {
                    m.width
                },
                None => m.width,
            }
            &&& m.field() == Field::Colors ==> match parse_u32_spec(v) {
                Some(x) => (2 <= x <= 256 ==> m.commit().colors == x) && (x < 2
                    ==> m.commit().colors == 2) && (x > 256 ==> m.commit().colors == 256),
                None => m.commit().colors == m.colors,
            }
            &&& m.field() == Field::Loop ==> match parse_i32_spec(v) {
                Some(x) => (x >= -1 ==> m.commit().loop_count == x) && (x < -1
                    ==> m.commit().loop_count == -1),
                None => m.commit().loop_count == m.loop_count,
            }
            &&& m.field() != Field::Fps ==> m.commit().fps == m.fps
            &&& m.field() != Field::Width ==> m.commit().width == m.width
            &&& m.field() != Field::Colors ==> m.commit().colors == m.colors
            &&& m.field() != Field::Loop ==> m.commit().loop_count == m.loop_count
        }),
{
}

/// The terminal UI's form starts from the same defaults as the command line:
/// 15 fps, 1080 px, 256 colours, Sierra2 dithering, no colour filter, endless loop.
pub proof fn lemma_form_defaults_match_cli()
    ensures
        FormModel::initial().fps == crate::cli::DEFAULT_FPS,
        FormModel::initial().width == crate::cli::DEFAULT_WIDTH,
        FormModel::initial().colors == crate::cli::DEFAULT_COLORS,
        FormModel::initial().dither == crate::cli::DEFAULT_DITHER,
        FormModel::initial().filter == crate::cli::DEFAULT_FILTER,
        FormModel::initial().loop_count == crate::cli::DEFAULT_LOOP,
        crate::cli::DEFAULT_FPS == 15 && crate::cli::DEFAULT_WIDTH == 1080,
        crate::cli::DEFAULT_COLORS == 256 && crate::cli::DEFAULT_LOOP == 0,
{
}

/// Moving down selects the next field (staying on the last); moving up selects
/// the previous one (staying on the first). Nothing else changes.
pub proof fn lemma_form_moves(m: FormModel)
    requires
        m.wf(),
    ensures
        m.next().sel == if m.sel < 8 {
            m.sel + 1
        } else {
            8
        },
        m.prev().sel == if m.sel > 0 {
            m.sel - 1
        } else {
            0
        },
        m.next().same_values(m) && m.next().editing == m.editing && m.next().buffer == m.buffer,
        m.prev().same_values(m) && m.prev().editing == m.editing && m.prev().buffer == m.buffer,
{
}

/// Moving the selection down and back up returns to the same field, away from
/// the last field; moving up and back down does too, away from the first.
pub proof fn lemma_form_next_prev(m: FormModel)
    requires
        m.wf(),
    ensures
        m.sel + 1 < field_count() ==> m.next().prev() == m,
        m.sel > 0 ==> m.prev().next() == m,
{
}

} // verus!
