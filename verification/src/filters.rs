//! Dithering and colour filter presets, with their ffmpeg filter fragments.

use vstd::prelude::*;
use vstd::std_specs::cmp::PartialEqSpecImpl;

verus! {

/// The element that `cycle_in` starts from: the first occurrence of `cur` in
/// `all`, or index 0 when `cur` does not occur.
pub open spec fn start_index<T>(all: Seq<T>, cur: T) -> int {
    match all.index_of_first(cur) {
        Some(i) => i,
        None => 0,
    }
}

/// Index of the element after (`forward`) or before the start index, wrapping
/// around the ends of a sequence of length `n`.
pub open spec fn step_index(i: int, n: int, forward: bool) -> int {
    if forward {
        (i + 1) % n
    } else {
        (i + n - 1) % n
    }
}

/// The neighbour of `cur` in `all`, going forward or backward and wrapping around.
/// When `cur` is not in `all`, the neighbour of the first element is returned.
pub fn cycle_in<T: Copy + PartialEq>(all: &[T], cur: T, forward: bool) -> (res: T)
    requires
        all@.len() > 0,
        vstd::laws_eq::obeys_concrete_eq::<T>(),
    ensures
        res == all@[step_index(start_index(all@, cur), all@.len() as int, forward)],
{
    let n = all.len();
    let mut i: usize = 0;
    let mut found = false;
    while i < n
        invariant_except_break
            n == all@.len(),
            i <= n,
            forall|k: int| 0 <= k < i ==> all@[k] != cur,
            vstd::laws_eq::obeys_concrete_eq::<T>(),
            !found,
        invariant
            n == all@.len(),
        ensures
            found ==> i < n && all@[i as int] == cur && forall|k: int| 0 <= k < i ==> all@[k] != cur,
            !found ==> i == n && forall|k: int| 0 <= k < n ==> all@[k] != cur,
        decreases n - i,
    {
        proof {
            reveal(vstd::laws_eq::obeys_concrete_eq);
        }
        if all[i] == cur {
            found = true;
            break;
        }
        i = i + 1;
    }
    proof {
        all@.index_of_first_ensures(cur);
        if found {
            assert(all@.contains(cur));
        } else {
            assert(!all@.contains(cur));
        }
    }
    let start = if found {
        i
    } else {
        0
    };
    let j = if forward {
        if start + 1 == n {
            0
        } else {
            start + 1
        }
    } else {
        if start == 0 {
            n - 1
        } else {
            start - 1
        }
    };
    proof {
        if forward {
            if start + 1 == n {
                assert((start + 1) % (n as int) == 0) by (nonlinear_arith)
                    requires
                        start + 1 == n,
                        n > 0,
                ;
            } else {
                assert((start + 1) % (n as int) == start + 1) by (nonlinear_arith)
                    requires
                        start + 1 < n,
                ;
            }
        } else {
            if start == 0 {
                assert((0 + n - 1) % (n as int) == n - 1) by (nonlinear_arith)
                    requires
                        n > 0,
                ;
            } else {
                assert((start + n - 1) % (n as int) == start - 1) by (nonlinear_arith)
                    requires
                        0 < start < n,
                ;
            }
        }
    }
    all[j]
}

// ---------------------------------------------------------------------------
// Dithering
// ---------------------------------------------------------------------------

/// Dithering method used by ffmpeg's `paletteuse`.
#[derive(Clone, Copy, Debug)]
pub enum Dither {
    /// No dithering (flat areas, lighter file).
    Off,
    /// Ordered Bayer pattern.
    Bayer,
    /// Floyd-Steinberg error diffusion.
    Floyd,
    /// Sierra2 error diffusion (the default, a good compromise).
    Sierra2,
}

impl PartialEq for Dither {
    fn eq(&self, other: &Dither) -> (r: bool) {
        match (self, other) {
            (Dither::Off, Dither::Off) => true,
            (Dither::Bayer, Dither::Bayer) => true,
            (Dither::Floyd, Dither::Floyd) => true,
            (Dither::Sierra2, Dither::Sierra2) => true,
            _ => false,
        }
    }
}

impl Eq for Dither {}

impl PartialEqSpecImpl for Dither {
    open spec fn obeys_eq_spec() -> bool {
        true
    }

    open spec fn eq_spec(&self, other: &Dither) -> bool {
        *self == *other
    }
}

/// Position of a dithering method in `Dither::ALL`.
pub open spec fn dither_index(d: Dither) -> int {
    match d {
        Dither::Off => 0,
        Dither::Bayer => 1,
        Dither::Floyd => 2,
        Dither::Sierra2 => 3,
    }
}

/// The dithering method at position `i` of `Dither::ALL`.
pub open spec fn dither_at(i: int) -> Dither {
    if i == 0 {
        Dither::Off
    } else if i == 1 {
        Dither::Bayer
    } else if i == 2 {
        Dither::Floyd
    } else {
        Dither::Sierra2
    }
}

/// The value of `paletteuse`'s `dither=` option for a dithering method.
pub open spec fn dither_name(d: Dither) -> Seq<char> {
    match d {
        Dither::Off => "none"@,
        Dither::Bayer => "bayer"@,
        Dither::Floyd => "floyd_steinberg"@,
        Dither::Sierra2 => "sierra2"@,
    }
}

/// The label of a dithering method in the terminal UI.
pub open spec fn dither_label(d: Dither) -> Seq<char> {
    match d {
        Dither::Off => "Aucun"@,
        Dither::Bayer => "Bayer"@,
        Dither::Floyd => "Floyd-Steinberg"@,
        Dither::Sierra2 => "Sierra2"@,
    }
}

impl Dither {
    /// Every dithering method, in cycling order.
    pub const ALL: [Dither; 4] = [Dither::Off, Dither::Bayer, Dither::Floyd, Dither::Sierra2];

    /// Value given to the `dither=` option of `paletteuse`.
    pub fn ffmpeg(self) -> (r: &'static str)
        ensures
            r@ == dither_name(self),
    {
        match self {
            Dither::Off => "none",
            Dither::Bayer => "bayer",
            Dither::Floyd => "floyd_steinberg",
            Dither::Sierra2 => "sierra2",
        }
    }

    /// Label shown in the terminal UI.
    pub fn label(self) -> (r: &'static str)
        ensures
            r@ == dither_label(self),
    {
        match self {
            Dither::Off => "Aucun",
            Dither::Bayer => "Bayer",
            Dither::Floyd => "Floyd-Steinberg",
            Dither::Sierra2 => "Sierra2",
        }
    }

    /// The next (`forward`) or previous method of `Dither::ALL`, wrapping around.
    pub fn cycle(self, forward: bool) -> (r: Dither)
        ensures
            r == dither_at(step_index(dither_index(self), 4, forward)),
    {
        let all = Self::ALL;
        proof {
            reveal(vstd::laws_eq::obeys_concrete_eq);
            assert(all@ =~= seq![Dither::Off, Dither::Bayer, Dither::Floyd, Dither::Sierra2]);
            all@.index_of_first_ensures(self);
            assert(all@[dither_index(self)] == self);
            assert(all@.contains(self));
            let j = all@.index_of_first(self)->0;
            assert(j == dither_index(self));
        }
        cycle_in(&all, self, forward)
    }
}

// ---------------------------------------------------------------------------
// Colour filters
// ---------------------------------------------------------------------------

/// Colour filter applied before the palette is generated.
#[derive(Clone, Copy, Debug)]
pub enum ColorFilter {
    /// Original colours.
    Off,
    /// Black and white.
    BlackWhite,
    /// Sepia tone.
    Sepia,
    /// Warm colour balance (more red).
    Warm,
    /// Cold colour balance (more blue).
    Cold,
    /// More saturated colours.
    Vibrant,
    /// Softened (desaturated) colours.
    Muted,
    /// Vintage look.
    Vintage,
}

impl PartialEq for ColorFilter {
    fn eq(&self, other: &ColorFilter) -> (r: bool) {
        match (self, other) {
            (ColorFilter::Off, ColorFilter::Off) => true,
            (ColorFilter::BlackWhite, ColorFilter::BlackWhite) => true,
            (ColorFilter::Sepia, ColorFilter::Sepia) => true,
            (ColorFilter::Warm, ColorFilter::Warm) => true,
            (ColorFilter::Cold, ColorFilter::Cold) => true,
            (ColorFilter::Vibrant, ColorFilter::Vibrant) => true,
            (ColorFilter::Muted, ColorFilter::Muted) => true,
            (ColorFilter::Vintage, ColorFilter::Vintage) => true,
            _ => false,
        }
    }
}

impl Eq for ColorFilter {}

impl PartialEqSpecImpl for ColorFilter {
    open spec fn obeys_eq_spec() -> bool {
        true
    }

    open spec fn eq_spec(&self, other: &ColorFilter) -> bool {
        *self == *other
    }
}

/// Position of a colour filter in `ColorFilter::ALL`.
pub open spec fn filter_index(f: ColorFilter) -> int {
    match f {
        ColorFilter::Off => 0,
        ColorFilter::BlackWhite => 1,
        ColorFilter::Sepia => 2,
        ColorFilter::Warm => 3,
        ColorFilter::Cold => 4,
        ColorFilter::Vibrant => 5,
        ColorFilter::Muted => 6,
        ColorFilter::Vintage => 7,
    }
}

/// The colour filter at position `i` of `ColorFilter::ALL`.
pub open spec fn filter_at(i: int) -> ColorFilter {
    if i == 0 {
        ColorFilter::Off
    } else if i == 1 {
        ColorFilter::BlackWhite
    } else if i == 2 {
        ColorFilter::Sepia
    } else if i == 3 {
        ColorFilter::Warm
    } else if i == 4 {
        ColorFilter::Cold
    } else if i == 5 {
        ColorFilter::Vibrant
    } else if i == 6 {
        ColorFilter::Muted
    } else {
        ColorFilter::Vintage
    }
}

/// The ffmpeg filter fragment of a colour filter, `None` to leave colours as they are.
pub open spec fn filter_fragment(f: ColorFilter) -> Option<Seq<char>> {
    match f {
        ColorFilter::Off => None,
        ColorFilter::BlackWhite => Some("hue=s=0"@),
        ColorFilter::Sepia => Some(
            "colorchannelmixer=.393:.769:.189:0:.349:.686:.168:0:.272:.534:.131"@,
        ),
        ColorFilter::Warm => Some("colorbalance=rm=0.3:gm=0.1:bm=-0.2"@),
        ColorFilter::Cold => Some("colorbalance=rm=-0.2:gm=0.0:bm=0.3"@),
        ColorFilter::Vibrant => Some("eq=saturation=1.6:contrast=1.05"@),
        ColorFilter::Muted => Some("eq=saturation=0.6"@),
        ColorFilter::Vintage => Some("curves=preset=vintage"@),
    }
}

/// The label of a colour filter in the terminal UI.
pub open spec fn filter_label(f: ColorFilter) -> Seq<char> {
    match f {
        ColorFilter::Off => "Aucun"@,
        ColorFilter::BlackWhite => "Noir & blanc"@,
        ColorFilter::Sepia => "Sépia"@,
        ColorFilter::Warm => "Chaud"@,
        ColorFilter::Cold => "Froid"@,
        ColorFilter::Vibrant => "Vibrant"@,
        ColorFilter::Muted => "Adouci"@,
        ColorFilter::Vintage => "Vintage"@,
    }
}

impl ColorFilter {
    /// Every colour filter, in cycling order.
    pub const ALL: [ColorFilter; 8] = [
        ColorFilter::Off,
        ColorFilter::BlackWhite,
        ColorFilter::Sepia,
        ColorFilter::Warm,
        ColorFilter::Cold,
        ColorFilter::Vibrant,
        ColorFilter::Muted,
        ColorFilter::Vintage,
    ];

    /// ffmpeg filter-chain fragment, or `None` to leave the picture as it is.
    pub fn ffmpeg(self) -> (r: Option<&'static str>)
        ensures
            match r {
                Some(s) => filter_fragment(self) == Some(s@),
                None => filter_fragment(self) is None,
            },
    {
        match self {
            ColorFilter::Off => None,
            ColorFilter::BlackWhite => Some("hue=s=0"),
            ColorFilter::Sepia => Some(
                "colorchannelmixer=.393:.769:.189:0:.349:.686:.168:0:.272:.534:.131",
            ),
            ColorFilter::Warm => Some("colorbalance=rm=0.3:gm=0.1:bm=-0.2"),
            ColorFilter::Cold => Some("colorbalance=rm=-0.2:gm=0.0:bm=0.3"),
            ColorFilter::Vibrant => Some("eq=saturation=1.6:contrast=1.05"),
            ColorFilter::Muted => Some("eq=saturation=0.6"),
            ColorFilter::Vintage => Some("curves=preset=vintage"),
        }
    }

    /// Label shown in the terminal UI.
    pub fn label(self) -> (r: &'static str)
        ensures
            r@ == filter_label(self),
    {
        match self {
            ColorFilter::Off => "Aucun",
            ColorFilter::BlackWhite => "Noir & blanc",
            ColorFilter::Sepia => "Sépia",
            ColorFilter::Warm => "Chaud",
            ColorFilter::Cold => "Froid",
            ColorFilter::Vibrant => "Vibrant",
            ColorFilter::Muted => "Adouci",
            ColorFilter::Vintage => "Vintage",
        }
    }

    /// The next (`forward`) or previous filter of `ColorFilter::ALL`, wrapping around.
    pub fn cycle(self, forward: bool) -> (r: ColorFilter)
        ensures
            r == filter_at(step_index(filter_index(self), 8, forward)),
    {
        let all = Self::ALL;
        proof {
            reveal(vstd::laws_eq::obeys_concrete_eq);
            assert(all@ =~= seq![
                ColorFilter::Off,
                ColorFilter::BlackWhite,
                ColorFilter::Sepia,
                ColorFilter::Warm,
                ColorFilter::Cold,
                ColorFilter::Vibrant,
                ColorFilter::Muted,
                ColorFilter::Vintage,
            ]);
            all@.index_of_first_ensures(self);
            assert(all@[filter_index(self)] == self);
            assert(all@.contains(self));
            let j = all@.index_of_first(self)->0;
            assert(j == filter_index(self));
        }
        cycle_in(&all, self, forward)
    }
}

// ---------------------------------------------------------------------------
// Laws
// ---------------------------------------------------------------------------

/// Cycling a dithering method forward and then backward (or backward then
/// forward) gives back the method one started from.
pub proof fn lemma_dither_cycle_inverse(d: Dither, forward: bool)
    ensures
        dither_at(step_index(dither_index(dither_at(step_index(dither_index(d), 4, forward))), 4, !forward)) == d,
{
}

/// Cycling a dithering method forward four times gives back the method one
/// started from, and every method is reached on the way.
pub proof fn lemma_dither_cycle_period(d: Dither)
    ensures
        ({
            let d1 = dither_at(step_index(dither_index(d), 4, true));
            let d2 = dither_at(step_index(dither_index(d1), 4, true));
            let d3 = dither_at(step_index(dither_index(d2), 4, true));
            let d4 = dither_at(step_index(dither_index(d3), 4, true));
            &&& d4 == d
            &&& d1 != d && d2 != d && d3 != d
        }),
{
}

/// Cycling a colour filter forward and then backward (or backward then forward)
/// gives back the filter one started from.
pub proof fn lemma_filter_cycle_inverse(f: ColorFilter, forward: bool)
    ensures
        filter_at(step_index(filter_index(filter_at(step_index(filter_index(f), 8, forward))), 8, !forward)) == f,
{
}

/// Cycling a colour filter forward eight times gives back the filter one started
/// from, and every filter is reached on the way.
pub proof fn lemma_filter_cycle_period(f: ColorFilter)
    ensures
        ({
            let next = |g: ColorFilter| filter_at(step_index(filter_index(g), 8, true));
            let f1 = next(f);
            let f2 = next(f1);
            let f3 = next(f2);
            let f4 = next(f3);
            let f5 = next(f4);
            let f6 = next(f5);
            let f7 = next(f6);
            &&& next(f7) == f
            &&& f1 != f && f2 != f && f3 != f && f4 != f && f5 != f && f6 != f && f7 != f
        }),
{
}

} // verus!
