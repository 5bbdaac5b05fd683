use gifust::cli::{Cli, Command, ConvertArgs, Plan};
use gifust::convert::{
    add_trim, base_args, failure_with_code, failure_with_output, output_path,
    palette_file_name, pass1_args, pass2_args, ConvertOptions,
};
use gifust::filters::{ColorFilter, Dither};

fn options() -> ConvertOptions {
    ConvertOptions {
        fps: 15,
        width: 1080,
        start: None,
        duration: None,
        colors: 256,
        dither: Dither::Sierra2,
        filter: ColorFilter::Off,
        loop_count: 0,
        output: None,
    }
}

#[test]
fn base_chain_without_filter() {
    assert_eq!(options().base_chain(), "fps=15,scale=1080:-1:flags=lanczos");
}

#[test]
fn base_chain_raises_zero_to_one_and_adds_filter() {
    let mut o = options();
    o.fps = 0;
    o.width = 0;
    o.filter = ColorFilter::BlackWhite;
    assert_eq!(o.base_chain(), "fps=1,scale=1:-1:flags=lanczos,hue=s=0");
}

#[test]
fn output_path_defaults_to_gif_extension() {
    let o = options();
    assert_eq!(output_path("clip.mp4", &o), "clip.gif");
    assert_eq!(output_path("dir/movie.final.mov", &o), "dir/movie.final.gif");
    assert_eq!(output_path("noext", &o), "noext.gif");
    let mut o2 = options();
    o2.output = Some("out/x.gif".to_string());
    assert_eq!(output_path("clip.mp4", &o2), "out/x.gif");
}

#[test]
fn palette_name_holds_pid() {
    assert_eq!(palette_file_name(4242), "gifust-palette-4242.png");
}

#[test]
fn base_args_verbose_or_not() {
    assert_eq!(base_args(true), vec!["-y", "-hide_banner", "-loglevel", "error", "-stats"]);
    assert_eq!(base_args(false), vec!["-y", "-hide_banner", "-loglevel", "error", "-nostats"]);
}

#[test]
fn trim_arguments_skip_blank_and_trim_values() {
    let mut o = options();
    o.start = Some("  3 ".to_string());
    o.duration = Some("   ".to_string());
    let mut c: Vec<String> = Vec::new();
    add_trim(&mut c, &o);
    assert_eq!(c, vec!["-ss", "3"]);
    o.duration = Some("00:00:05".to_string());
    let mut c2: Vec<String> = Vec::new();
    add_trim(&mut c2, &o);
    assert_eq!(c2, vec!["-ss", "3", "-t", "00:00:05"]);
}

#[test]
fn first_pass_arguments() {
    let mut o = options();
    o.colors = 1000;
    o.filter = ColorFilter::Muted;
    let args = pass1_args("in.mp4", "/tmp/p.png", &o, false);
    assert_eq!(
        args,
        vec![
            "-y", "-hide_banner", "-loglevel", "error", "-nostats", "-i", "in.mp4", "-vf",
            "fps=15,scale=1080:-1:flags=lanczos,eq=saturation=0.6,palettegen=max_colors=256",
            "-update", "1", "/tmp/p.png",
        ]
    );
    o.colors = 1;
    let args = pass1_args("in.mp4", "p.png", &o, true);
    assert_eq!(args[8], "fps=15,scale=1080:-1:flags=lanczos,eq=saturation=0.6,palettegen=max_colors=2");
}

#[test]
fn second_pass_arguments() {
    let mut o = options();
    o.loop_count = -1;
    o.dither = Dither::Floyd;
    o.start = Some("3".to_string());
    let args = pass2_args("in.mp4", "p.png", "out.gif", &o, true);
    assert_eq!(
        args,
        vec![
            "-y", "-hide_banner", "-loglevel", "error", "-stats", "-ss", "3", "-i", "in.mp4",
            "-i", "p.png", "-lavfi",
            "fps=15,scale=1080:-1:flags=lanczos [x]; [x][1:v] paletteuse=dither=floyd_steinberg",
            "-loop", "-1", "out.gif",
        ]
    );
}

#[test]
fn failure_messages() {
    assert_eq!(failure_with_output("  boom \n"), "ffmpeg a échoué : boom");
    assert_eq!(failure_with_code(Some(1)), format!("ffmpeg a échoué (code {:?})", Some(1)));
    assert_eq!(failure_with_code(None), format!("ffmpeg a échoué (code {:?})", None::<i32>));
    assert_eq!(failure_with_code(Some(-3)), "ffmpeg a échoué (code Some(-3))");
}

fn args(input: Option<&str>) -> ConvertArgs {
    ConvertArgs {
        input: input.map(|s| s.to_string()),
        fps: 24,
        width: 640,
        start: Some("3".to_string()),
        duration: None,
        colors: 128,
        dither: Dither::Bayer,
        filter: ColorFilter::Sepia,
        loop_count: -1,
        output: Some("o.gif".to_string()),
    }
}

#[test]
fn arguments_become_options_field_for_field() {
    let o = args(Some("a.mp4")).to_options();
    assert_eq!(o.fps, 24);
    assert_eq!(o.width, 640);
    assert_eq!(o.start.as_deref(), Some("3"));
    assert_eq!(o.duration, None);
    assert_eq!(o.colors, 128);
    assert_eq!(o.dither, Dither::Bayer);
    assert_eq!(o.filter, ColorFilter::Sepia);
    assert_eq!(o.loop_count, -1);
    assert_eq!(o.output.as_deref(), Some("o.gif"));
}

#[test]
fn command_line_plans() {
    let tui = Cli { command: Some(Command::Tui), convert: args(Some("a.mp4")) };
    assert!(matches!(tui.plan(), Plan::Tui));
    let conv = Cli { command: None, convert: args(Some("a.mp4")) };
    assert!(matches!(conv.plan(), Plan::Convert(ref s) if s == "a.mp4"));
    let help = Cli { command: None, convert: args(None) };
    assert!(matches!(help.plan(), Plan::Help));
}

#[test]
fn default_output_keeps_directory_and_takes_gif_extension() {
    let o = options();
    assert_eq!(output_path("videos/ma-video.mp4", &o), "videos/ma-video.gif");
    for src in ["a/b/", "x.", ".hidden", "dir/clip.tar.mp4", "./v.mkv", "/", "..", "a/..", "."] {
        let out = output_path(src, &o);
        if std::path::Path::new(src).file_name().is_some() {
            assert_eq!(std::path::Path::new(&out).parent(), std::path::Path::new(src).parent(), "{src:?}");
            assert_eq!(std::path::Path::new(&out).extension().and_then(|e| e.to_str()), Some("gif"), "{src:?}");
        } else {
            assert_eq!(out, src);
        }
    }
}
