use raytracker::cli::{parse_args, parse_number, Options, RenderSettings};
use raytracker::text::str_eq;

fn args(list: &[&str]) -> Vec<String> {
    list.iter().map(|s| s.to_string()).collect()
}

fn parse_ok(list: &[&str]) -> Options {
    parse_args(&args(list)).unwrap().unwrap()
}

#[test]
fn defaults_apply_when_no_flags_are_given() {
    let options = parse_args(&[]).unwrap().unwrap();
    assert_eq!(options.scene, "three");
    assert_eq!(options.out, "render.png");
    assert_eq!(options.config.image_width, 400);
}

#[test]
fn flags_override_defaults() {
    let options = parse_args(&args(&[
        "--scene", "final", "--width", "800", "--samples", "10", "--depth", "5", "--seed",
        "99", "--out", "x.png",
    ]))
    .unwrap()
    .unwrap();
    assert_eq!(options.scene, "final");
    assert_eq!(options.config.image_width, 800);
    assert_eq!(options.config.samples_per_pixel, 10);
    assert_eq!(options.config.max_depth, 5);
    assert_eq!(options.config.seed, 99);
    assert_eq!(options.out, "x.png");
}

#[test]
fn bvh_is_on_unless_disabled() {
    assert!(parse_args(&[]).unwrap().unwrap().use_bvh);
    assert!(!parse_args(&args(&["--no-bvh"])).unwrap().unwrap().use_bvh);
}

#[test]
fn help_short_circuits() {
    assert!(parse_args(&args(&["--help"])).unwrap().is_none());
    assert!(parse_args(&args(&["-h"])).unwrap().is_none());
}

#[test]
fn bad_input_is_reported_not_ignored() {
    assert!(parse_args(&args(&["--width"])).is_err());
    assert!(parse_args(&args(&["--width", "abc"])).is_err());
    assert!(parse_args(&args(&["--width", "0"])).is_err());
    assert!(parse_args(&args(&["--samples", "0"])).is_err());
    assert!(parse_args(&args(&["--depth", "0"])).is_err());
    assert!(parse_args(&args(&["--nonsense"])).is_err());
}

#[test]
fn default_settings_match_the_documented_defaults() {
    let s = RenderSettings::default();
    assert_eq!(s, RenderSettings { image_width: 400, samples_per_pixel: 100, max_depth: 50, seed: 0 });
    let options = parse_ok(&[]);
    assert_eq!(options.config, s);
}

#[test]
fn error_messages_name_the_offending_argument() {
    assert_eq!(parse_args(&args(&["--width"])).err().unwrap(), "--width needs a value");
    assert_eq!(parse_args(&args(&["-o"])).err().unwrap(), "-o needs a value");
    assert_eq!(
        parse_args(&args(&["--width", "abc"])).err().unwrap(),
        "--width expects a number, got 'abc'"
    );
    assert_eq!(parse_args(&args(&["--width", "0"])).err().unwrap(), "--width must be at least 1");
    assert_eq!(parse_args(&args(&["--samples", "0"])).err().unwrap(), "--samples must be at least 1");
    assert_eq!(parse_args(&args(&["--depth", "0"])).err().unwrap(), "--depth must be at least 1");
    assert_eq!(
        parse_args(&args(&["--nonsense"])).err().unwrap(),
        "unrecognized argument '--nonsense'"
    );
}

#[test]
fn help_wins_over_later_garbage_but_not_earlier() {
    assert!(parse_args(&args(&["--help", "--nonsense", "--width"])).unwrap().is_none());
    assert!(parse_args(&args(&["--width", "7", "-h", "--width", "0"])).unwrap().is_none());
    // An error before the request for help is reported.
    assert!(parse_args(&args(&["--nonsense", "--help"])).is_err());
    // Zero width is only refused once every argument has been read.
    assert!(parse_args(&args(&["--width", "0", "--help"])).unwrap().is_none());
}

#[test]
fn a_value_is_taken_verbatim_even_when_it_looks_like_a_flag() {
    let options = parse_ok(&["--scene", "--help", "-o", "--no-bvh"]);
    assert_eq!(options.scene, "--help");
    assert_eq!(options.out, "--no-bvh");
    assert!(options.use_bvh);
}

#[test]
fn the_last_occurrence_of_a_flag_wins() {
    let options = parse_ok(&["--width", "10", "--width", "20", "--out", "a.png", "-o", "b.png"]);
    assert_eq!(options.config.image_width, 20);
    assert_eq!(options.out, "b.png");
}

#[test]
fn numbers_follow_the_unsigned_integer_grammar() {
    assert_eq!(parse_number("--seed", "0", u64::MAX), Ok(0));
    assert_eq!(parse_number("--seed", "+42", u64::MAX), Ok(42));
    assert_eq!(parse_number("--seed", "007", u64::MAX), Ok(7));
    assert_eq!(parse_number("--seed", "18446744073709551615", u64::MAX), Ok(u64::MAX));
    assert!(parse_number("--seed", "18446744073709551616", u64::MAX).is_err());
    assert_eq!(parse_number("--width", "4294967295", u32::MAX as u64), Ok(4294967295));
    assert!(parse_number("--width", "4294967296", u32::MAX as u64).is_err());
    for bad in ["", "+", "-1", "-0", "1 ", " 1", "1.5", "x1", "++1", "٣"] {
        assert_eq!(
            parse_number("--width", bad, u32::MAX as u64),
            Err(format!("--width expects a number, got '{bad}'"))
        );
    }
}

#[test]
fn numbers_agree_with_std() {
    for raw in ["0", "1", "+9", "4294967295", "4294967296", "-3", "", "+", "12a", "99999999999"] {
        assert_eq!(parse_number("--depth", raw, u32::MAX as u64).ok(), raw.parse::<u32>().ok().map(u64::from));
    }
}

#[test]
fn seed_accepts_the_full_u64_range_but_width_does_not() {
    let options = parse_ok(&["--seed", "18446744073709551615"]);
    assert_eq!(options.config.seed, u64::MAX);
    assert!(parse_args(&args(&["--width", "4294967296"])).is_err());
}

#[test]
fn str_eq_compares_characters() {
    assert!(str_eq("", ""));
    assert!(str_eq("--width", "--width"));
    assert!(!str_eq("--width", "--widt"));
    assert!(!str_eq("é", "e"));
}
