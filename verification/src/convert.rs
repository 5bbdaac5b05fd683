//! Video to GIF conversion with ffmpeg's two-pass palette method: the options,
//! the filter chain, and the argument lists of the two ffmpeg runs.

use vstd::prelude::*;

use crate::filters::{dither_name, filter_fragment, ColorFilter, Dither};
use crate::tui::browser::{path_extension, path_file_name, path_parent};
use crate::text::{decimal, push_decimal, push_signed_decimal, push_str, signed_decimal, trim, trimmed};

verus! {

/// Conversion options shared by the command line and the terminal UI.
#[derive(Debug, Clone)]
pub struct ConvertOptions {
    pub fps: u32,
    pub width: u32,
    pub start: Option<String>,
    pub duration: Option<String>,
    pub colors: u32,
    pub dither: Dither,
    pub filter: ColorFilter,
    pub loop_count: i32,
    pub output: Option<String>,
}

/// The character sequences of a list of strings.
pub open spec fn strs(v: Seq<String>) -> Seq<Seq<char>> {
    Seq::new(v.len(), |i: int| v[i]@)
}

pub open spec fn at_least_one(x: u32) -> nat {
    if x < 1 {
        1
    } else {
        x as nat
    }
}

/// `x` brought into `lo..=hi`.
pub open spec fn clamp(x: int, lo: int, hi: int) -> int {
    if x < lo {
        lo
    } else if x > hi {
        hi
    } else {
        x
    }
}

/// The filter chain shared by both passes: frame rate, scaling, colour filter.
pub open spec fn base_chain_spec(o: ConvertOptions) -> Seq<char> {
    let head = "fps="@ + decimal(at_least_one(o.fps)) + ",scale="@ + decimal(
        at_least_one(o.width),
    ) + ":-1:flags=lanczos"@;
    match filter_fragment(o.filter) {
        Some(f) => head + seq![','] + f,
        None => head,
    }
}

/// Arguments that open every ffmpeg run.
pub open spec fn base_args_spec(verbose: bool) -> Seq<Seq<char>> {
    seq![
        "-y"@,
        "-hide_banner"@,
        "-loglevel"@,
        "error"@,
        if verbose {
            "-stats"@
        } else {
            "-nostats"@
        },
    ]
}

/// `-ss`/`-t` arguments for the start and the duration, each left out when the
/// field is absent or blank; the values are trimmed.
pub open spec fn trim_args_spec(o: ConvertOptions) -> Seq<Seq<char>> {
    let s = match o.start {
        Some(s) if trimmed(s@).len() > 0 => seq!["-ss"@, trimmed(s@)],
        _ => Seq::empty(),
    };
    let d = match o.duration {
        Some(d) if trimmed(d@).len() > 0 => seq!["-t"@, trimmed(d@)],
        _ => Seq::empty(),
    };
    s + d
}

/// Filter graph of the first pass: the base chain and palette generation with a
/// colour count brought into `2..=256`.
pub open spec fn palettegen_spec(o: ConvertOptions) -> Seq<char> {
    base_chain_spec(o) + ",palettegen=max_colors="@ + decimal(clamp(o.colors as int, 2, 256) as nat)
}

/// Filter graph of the second pass: the base chain and palette use with the
/// chosen dithering.
pub open spec fn paletteuse_spec(o: ConvertOptions, dither: Seq<char>) -> Seq<char> {
    base_chain_spec(o) + " [x]; [x][1:v] paletteuse=dither="@ + dither
}

/// The file name of the temporary palette of the process `pid`.
pub open spec fn palette_name_spec(pid: u32) -> Seq<char> {
    "gifust-palette-"@ + decimal(pid as nat) + ".png"@
}

impl ConvertOptions {
    /// Filter chain shared by both passes (frame rate, scaling, colour filter).
    pub fn base_chain(&self) -> (r: String)
        ensures
            r@ == base_chain_spec(*self),
    {
        let mut chain = String::new();
        push_str(&mut chain, "fps=");
        push_decimal(&mut chain, if self.fps < 1 { 1 } else { self.fps });
        push_str(&mut chain, ",scale=");
        push_decimal(&mut chain, if self.width < 1 { 1 } else { self.width });
        push_str(&mut chain, ":-1:flags=lanczos");
        let ghost head = chain@;
        match self.filter.ffmpeg() {
            Some(f) => {
                crate::text::push_char(&mut chain, ',');
                push_str(&mut chain, f);
                proof {
                    assert(chain@ =~= head + seq![','] + f@);
                }
            },
            None => {},
        }
        proof {
            assert(head =~= "fps="@ + decimal(at_least_one(self.fps)) + ",scale="@ + decimal(
                at_least_one(self.width),
            ) + ":-1:flags=lanczos"@);
        }
        chain
    }
}

/// The path of the GIF that is written by default for `path`: `path` with its
/// extension replaced by (or extended with) `ext`.
pub uninterp spec fn path_with_extension(path: Seq<char>, ext: Seq<char>) -> Seq<char>;

/// Calls `Path::with_extension` on `path` and returns the result as a string. Its
/// result, which follows std's rules on file names and extensions (those of the
/// build target), is named `path_with_extension`. Of it is claimed what std
/// documents of `with_extension`/`set_extension`: a path without a file name is
/// left as it is; otherwise the result is the path with only its extension
/// changed, so its parent is the same, and an extension that is not empty and
/// holds no dot becomes the result's extension. std panics when the extension
/// holds a path separator, so `ext` holds neither `/` nor `\`.
#[verifier::external_body]
fn with_extension(path: &str, ext: &str) -> (r: String)
    requires
        forall|i: int| 0 <= i < ext@.len() ==> #[trigger] ext@[i] != '/' && ext@[i] != '\\',
    ensures
        r@ == path_with_extension(path@, ext@),
        path_file_name(path@) is None ==> r@ == path@,
        path_file_name(path@) is Some ==> path_parent(r@) == path_parent(path@),
        path_file_name(path@) is Some && ext@.len() > 0 && !ext@.contains('.') ==> path_extension(
            r@,
        ) == Some(ext@),
{
    std::path::Path::new(path).with_extension(ext).to_string_lossy().into_owned()
}

/// Path of the GIF that a conversion writes: the `output` option when given,
/// otherwise the source with the extension `.gif`, in the source's directory.
pub fn output_path(src: &str, opts: &ConvertOptions) -> (r: String)
    ensures
        r@ == match opts.output {
            Some(o) => o@,
            None => path_with_extension(src@, "gif"@),
        },
        opts.output is None && path_file_name(src@) is Some ==> path_parent(r@) == path_parent(
            src@,
        ) && path_extension(r@) == Some("gif"@),
        opts.output is None && path_file_name(src@) is None ==> r@ == src@,
{
    match &opts.output {
        Some(o) => o.clone(),
        None => {
            proof {
                reveal_strlit("gif");
                assert("gif"@ =~= seq!['g', 'i', 'f']);
                assert(!"gif"@.contains('.'));
            }
            with_extension(src, "gif")
        },
    }
}

/// File name of the palette that the first pass writes for the process `pid`.
pub fn palette_file_name(pid: u32) -> (r: String)
    ensures
        r@ == palette_name_spec(pid),
{
    let mut r = String::new();
    push_str(&mut r, "gifust-palette-");
    push_decimal(&mut r, pid);
    push_str(&mut r, ".png");
    proof {
        assert(r@ =~= palette_name_spec(pid));
    }
    r
}

/// Appends `s` to the argument list.
fn push_arg(args: &mut Vec<String>, s: String)
    ensures
        strs(final(args)@) == strs(old(args)@).push(s@),
{
    args.push(s);
    proof {
        assert(strs(args@) =~= strs(old(args)@).push(s@));
    }
}

/// Appends a copy of `s` to the argument list.
fn push_lit(args: &mut Vec<String>, s: &str)
    ensures
        strs(final(args)@) == strs(old(args)@).push(s@),
{
    push_arg(args, crate::text::copy_str(s));
}

/// Arguments that open every ffmpeg run: overwrite, no banner, errors only, and
/// the progress statistics only when `verbose`.
pub fn base_args(verbose: bool) -> (r: Vec<String>)
    ensures
        strs(r@) == base_args_spec(verbose),
{
    let mut c: Vec<String> = Vec::new();
    push_lit(&mut c, "-y");
    push_lit(&mut c, "-hide_banner");
    push_lit(&mut c, "-loglevel");
    push_lit(&mut c, "error");
    if verbose {
        push_lit(&mut c, "-stats");
    } else {
        push_lit(&mut c, "-nostats");
    }
    proof {
        assert(strs(c@) =~= base_args_spec(verbose));
    }
    c
}

/// Appends the `-ss`/`-t` arguments of the segment to cut.
pub fn add_trim(c: &mut Vec<String>, opts: &ConvertOptions)
    ensures
        strs(final(c)@) == strs(old(c)@) + trim_args_spec(*opts),
{
    let ghost start = strs(c@);
    match &opts.start {
        Some(s) => {
            let t = trim(s.as_str());
            if !t.as_str().is_empty() {
                push_lit(c, "-ss");
                push_arg(c, t);
            }
        },
        None => {},
    }
    match &opts.duration {
        Some(d) => {
            let t = trim(d.as_str());
            if !t.as_str().is_empty() {
                push_lit(c, "-t");
                push_arg(c, t);
            }
        },
        None => {},
    }
    proof {
        assert(strs(c@) =~= start + trim_args_spec(*opts));
    }
}

/// The arguments of the first pass, which computes the palette of `src` into
/// `palette`.
pub fn pass1_args(src: &str, palette: &str, opts: &ConvertOptions, verbose: bool) -> (r: Vec<
    String,
>)
    ensures
        strs(r@) == base_args_spec(verbose) + trim_args_spec(*opts) + seq![
            "-i"@,
            src@,
            "-vf"@,
            palettegen_spec(*opts),
            "-update"@,
            "1"@,
            palette@,
        ],
{
    let mut c = base_args(verbose);
    add_trim(&mut c, opts);
    push_lit(&mut c, "-i");
    push_lit(&mut c, src);
    push_lit(&mut c, "-vf");
    let mut graph = opts.base_chain();
    push_str(&mut graph, ",palettegen=max_colors=");
    let colors: u32 = if opts.colors < 2 {
        2
    } else if opts.colors > 256 {
        256
    } else {
        opts.colors
    };
    push_decimal(&mut graph, colors);
    push_arg(&mut c, graph);
    push_lit(&mut c, "-update");
    push_lit(&mut c, "1");
    push_lit(&mut c, palette);
    proof {
        assert(strs(c@) =~= base_args_spec(verbose) + trim_args_spec(*opts) + seq![
            "-i"@,
            src@,
            "-vf"@,
            palettegen_spec(*opts),
            "-update"@,
            "1"@,
            palette@,
        ]);
    }
    c
}

/// The arguments of the second pass, which encodes `src` into the GIF `out`
/// with the palette `palette`.
pub fn pass2_args(src: &str, palette: &str, out: &str, opts: &ConvertOptions, verbose: bool) -> (r:
    Vec<String>)
    ensures
        strs(r@) == base_args_spec(verbose) + trim_args_spec(*opts) + seq![
            "-i"@,
            src@,
            "-i"@,
            palette@,
            "-lavfi"@,
            paletteuse_spec(*opts, dither_name(opts.dither)),
            "-loop"@,
            signed_decimal(opts.loop_count as int),
            out@,
        ],
{
    let mut c = base_args(verbose);
    add_trim(&mut c, opts);
    push_lit(&mut c, "-i");
    push_lit(&mut c, src);
    push_lit(&mut c, "-i");
    push_lit(&mut c, palette);
    push_lit(&mut c, "-lavfi");
    let mut graph = opts.base_chain();
    push_str(&mut graph, " [x]; [x][1:v] paletteuse=dither=");
    push_str(&mut graph, opts.dither.ffmpeg());
    push_arg(&mut c, graph);
    push_lit(&mut c, "-loop");
    let mut n = String::new();
    push_signed_decimal(&mut n, opts.loop_count);
    push_arg(&mut c, n);
    push_lit(&mut c, out);
    proof {
        assert(strs(c@) =~= base_args_spec(verbose) + trim_args_spec(*opts) + seq![
            "-i"@,
            src@,
            "-i"@,
            palette@,
            "-lavfi"@,
            paletteuse_spec(*opts, dither_name(opts.dither)),
            "-loop"@,
            signed_decimal(opts.loop_count as int),
            out@,
        ]);
    }
    c
}

/// Message of a failed ffmpeg run whose output was captured: its error output, trimmed.
pub fn failure_with_output(stderr: &str) -> (r: String)
    ensures
        r@ == "ffmpeg a échoué : "@ + trimmed(stderr@),
{
    let mut r = String::new();
    push_str(&mut r, "ffmpeg a échoué : ");
    let t = trim(stderr);
    push_str(&mut r, t.as_str());
    r
}

/// Message of a failed ffmpeg run that wrote to the terminal: its exit code as
/// `Some(n)`, or `None` when it was stopped by a signal.
pub fn failure_with_code(code: Option<i32>) -> (r: String)
    ensures
        r@ == "ffmpeg a échoué (code "@ + match code {
            Some(n) => "Some("@ + signed_decimal(n as int) + ")"@,
            None => "None"@,
        } + ")"@,
{
    let mut r = String::new();
    push_str(&mut r, "ffmpeg a échoué (code ");
    match code {
        Some(n) => {
            push_str(&mut r, "Some(");
            push_signed_decimal(&mut r, n);
            push_str(&mut r, ")");
        },
        None => {
            push_str(&mut r, "None");
        },
    }
    push_str(&mut r, ")");
    proof {
        assert(r@ =~= "ffmpeg a échoué (code "@ + match code {
            Some(n) => "Some("@ + signed_decimal(n as int) + ")"@,
            None => "None"@,
        } + ")"@);
    }
    r
}

// ---------------------------------------------------------------------------
// Laws
// ---------------------------------------------------------------------------

/// The shared filter chain: the frame rate (at least 1), the scaling to the width
/// (at least 1) with the height following, then, when the colour filter has a
/// fragment, a comma and that fragment at its end.
pub proof fn lemma_base_chain_parts(o: ConvertOptions)
    ensures
        ({
            let fps: nat = if o.fps < 1 {
                1
            } else {
                o.fps as nat
            };
            let width: nat = if o.width < 1 {
                1
            } else {
                o.width as nat
            };
            let head = "fps="@ + decimal(fps) + ",scale="@ + decimal(width) + ":-1:flags=lanczos"@;
            let b = base_chain_spec(o);
            &&& b.take(head.len() as int) == head
            &&& match filter_fragment(o.filter) {
                Some(f) => b.len() == head.len() + 1 + f.len() && b[head.len() as int] == ','
                    && b.skip((head.len() + 1) as int) == f,
                None => b == head,
            }
        }),
{
    let head = "fps="@ + decimal(at_least_one(o.fps)) + ",scale="@ + decimal(at_least_one(o.width))
        + ":-1:flags=lanczos"@;
    let b = base_chain_spec(o);
    match filter_fragment(o.filter) {
        Some(f) => {
            assert(b =~= head + seq![','] + f);
            assert(b.take(head.len() as int) =~= head);
            assert(b.skip((head.len() + 1) as int) =~= f);
        },
        None => {
            assert(b.take(head.len() as int) =~= head);
        },
    }
}

/// Both passes filter the frames the same way: the first pass's graph and the
/// second pass's graph both start with the shared filter chain (colour filter
/// included). The first then generates the palette with the colour count
/// brought into 2..=256 (the count itself when it lies there); the second uses
/// the palette with the given dithering.
pub proof fn lemma_passes_share_filter_chain(o: ConvertOptions, d: Seq<char>)
    ensures
        ({
            let b = base_chain_spec(o);
            let g1 = palettegen_spec(o);
            let g2 = paletteuse_spec(o, d);
            let tail1 = ",palettegen=max_colors="@;
            let tail2 = " [x]; [x][1:v] paletteuse=dither="@;
            &&& g1.take(b.len() as int) == b
            &&& g2.take(b.len() as int) == b
            &&& g1.skip(b.len() as int).take(tail1.len() as int) == tail1
            &&& g2.skip(b.len() as int) == tail2 + d
            &&& 2 <= o.colors <= 256 ==> g1.skip((b.len() + tail1.len()) as int) == decimal(o.colors as nat)
            &&& o.colors < 2 ==> g1.skip((b.len() + tail1.len()) as int) == decimal(2)
            &&& o.colors > 256 ==> g1.skip((b.len() + tail1.len()) as int) == decimal(256)
        }),
{
    let b = base_chain_spec(o);
    let tail1 = ",palettegen=max_colors="@;
    let tail2 = " [x]; [x][1:v] paletteuse=dither="@;
    let c = decimal(clamp(o.colors as int, 2, 256) as nat);
    let g1 = palettegen_spec(o);
    let g2 = paletteuse_spec(o, d);
    assert(g1 =~= b + tail1 + c);
    assert(g1.take(b.len() as int) =~= b);
    assert(g1.skip(b.len() as int).take(tail1.len() as int) =~= tail1);
    assert(g1.skip((b.len() + tail1.len()) as int) =~= c);
    assert(g2 =~= b + (tail2 + d));
    assert(g2.take(b.len() as int) =~= b);
    assert(g2.skip(b.len() as int) =~= tail2 + d);
}

/// The segment arguments: `-ss` and the trimmed start first when the start is
/// given and not blank, then `-t` and the trimmed duration when the duration is
/// given and not blank; each depends on its own option alone.
pub proof fn lemma_trim_args_parts(o: ConvertOptions)
    ensures
        ({
            let a = trim_args_spec(o);
            let has_start = o.start matches Some(s) && trimmed(s@).len() > 0;
            let has_dur = o.duration matches Some(d) && trimmed(d@).len() > 0;
            &&& a.len() == (if has_start {
                2int
            } else {
                0int
            }) + (if has_dur {
                2int
            } else {
                0int
            })
            &&& has_start ==> a[0] == "-ss"@ && a[1] == trimmed(o.start->0@)
            &&& has_dur ==> a[a.len() - 2] == "-t"@ && a[a.len() - 1] == trimmed(o.duration->0@)
        }),
{
}

} // verus!
