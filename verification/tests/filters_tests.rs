use gifust::filters::{cycle_in, ColorFilter, Dither};

#[test]
fn dither_ffmpeg_values() {
    assert_eq!(Dither::Off.ffmpeg(), "none");
    assert_eq!(Dither::Bayer.ffmpeg(), "bayer");
    assert_eq!(Dither::Floyd.ffmpeg(), "floyd_steinberg");
    assert_eq!(Dither::Sierra2.ffmpeg(), "sierra2");
}

#[test]
fn dither_labels() {
    assert_eq!(Dither::Off.label(), "Aucun");
    assert_eq!(Dither::Floyd.label(), "Floyd-Steinberg");
}

#[test]
fn dither_cycle_forward_and_back() {
    assert_eq!(Dither::Off.cycle(true), Dither::Bayer);
    assert_eq!(Dither::Sierra2.cycle(true), Dither::Off);
    assert_eq!(Dither::Off.cycle(false), Dither::Sierra2);
    for d in Dither::ALL {
        assert_eq!(d.cycle(true).cycle(false), d);
        assert_eq!(d.cycle(false).cycle(true), d);
        assert_eq!(d.cycle(true).cycle(true).cycle(true).cycle(true), d);
    }
}

#[test]
fn filter_ffmpeg_values() {
    assert_eq!(ColorFilter::Off.ffmpeg(), None);
    assert_eq!(ColorFilter::BlackWhite.ffmpeg(), Some("hue=s=0"));
    assert_eq!(ColorFilter::Muted.ffmpeg(), Some("eq=saturation=0.6"));
    assert_eq!(ColorFilter::Vintage.ffmpeg(), Some("curves=preset=vintage"));
    assert_eq!(ColorFilter::Sepia.label(), "Sépia");
}

#[test]
fn filter_cycle_wraps() {
    assert_eq!(ColorFilter::Vintage.cycle(true), ColorFilter::Off);
    assert_eq!(ColorFilter::Off.cycle(false), ColorFilter::Vintage);
    assert_eq!(ColorFilter::Sepia.cycle(true), ColorFilter::Warm);
    for f in ColorFilter::ALL {
        assert_eq!(f.cycle(true).cycle(false), f);
    }
}

#[test]
fn cycle_in_unknown_starts_from_first() {
    let all = [Dither::Bayer, Dither::Floyd];
    assert_eq!(cycle_in(&all, Dither::Off, true), Dither::Floyd);
    assert_eq!(cycle_in(&all, Dither::Off, false), Dither::Floyd);
    assert_eq!(cycle_in(&all, Dither::Floyd, true), Dither::Bayer);
    let one = [ColorFilter::Sepia];
    assert_eq!(cycle_in(&one, ColorFilter::Sepia, true), ColorFilter::Sepia);
}
