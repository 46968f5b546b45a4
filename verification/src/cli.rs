use vstd::prelude::*;
use vstd::string::*;

use crate::text::{decimal, lemma_unsigned_value_of_decimal, parse_unsigned, str_eq, unsigned_value};

verus! {

/// The integer part of a render configuration that the command line can set.
#[derive(Clone, Copy, Debug, PartialEq, Eq, Structural)]
pub struct RenderSettings {
    pub image_width: u32,
    pub samples_per_pixel: u32,
    pub max_depth: u32,
    pub seed: u64,
}

/// The settings used when no flag overrides them.
pub open spec fn default_settings() -> RenderSettings {
    RenderSettings { image_width: 400, samples_per_pixel: 100, max_depth: 50, seed: 0 }
}

impl Default for RenderSettings {
    fn default() -> (r: RenderSettings)
        ensures
            r == default_settings(),
    {
        RenderSettings { image_width: 400, samples_per_pixel: 100, max_depth: 50, seed: 0 }
    }
}

/// What the command line asks for.
pub struct Options {
    pub scene: String,
    pub out: String,
    pub config: RenderSettings,
    pub use_bvh: bool,
}

/// The mathematical value of [`Options`].
pub struct OptionsModel {
    pub scene: Seq<char>,
    pub out: Seq<char>,
    pub config: RenderSettings,
    pub use_bvh: bool,
}

impl View for Options {
    type V = OptionsModel;

    open spec fn view(&self) -> OptionsModel {
        OptionsModel {
            scene: self.scene@,
            out: self.out@,
            config: self.config,
            use_bvh: self.use_bvh,
        }
    }
}

/// The options before any argument is read.
pub open spec fn default_options() -> OptionsModel {
    OptionsModel {
        scene: "three"@,
        out: "render.png"@,
        config: default_settings(),
        use_bvh: true,
    }
}

/// Whether `arg` asks for the usage text.
pub open spec fn is_help_flag(arg: Seq<char>) -> bool {
    arg == "-h"@ || arg == "--help"@
}

/// Whether `arg` is a flag that takes the next argument as its value.
pub open spec fn is_value_flag(arg: Seq<char>) -> bool {
    ||| arg == "--scene"@
    ||| arg == "--out"@
    ||| arg == "-o"@
    ||| arg == "--width"@
    ||| arg == "--samples"@
    ||| arg == "--depth"@
    ||| arg == "--seed"@
}

/// The message for a flag given as the last argument, with no value after it.
pub open spec fn needs_value_message(flag: Seq<char>) -> Seq<char> {
    flag + " needs a value"@
}

/// The message for an argument that is no flag.
pub open spec fn unrecognized_message(arg: Seq<char>) -> Seq<char> {
    "unrecognized argument '"@ + arg + "'"@
}

/// The message for a flag whose value is not a number.
pub open spec fn not_a_number_message(flag: Seq<char>, raw: Seq<char>) -> Seq<char> {
    flag + " expects a number, got '"@ + raw + "'"@
}

/// What `parse_number` gives for `raw`: the number, if `raw` holds one of
/// at most `max`, else the message that names `flag`.
pub open spec fn number_result(flag: Seq<char>, raw: Seq<char>, max: nat) -> Result<nat, Seq<char>> {
    match unsigned_value(raw, max) {
        Some(n) => Ok(n),
        None => Err(not_a_number_message(flag, raw)),
    }
}

/// The options after the value flag `flag` has read `value`.
pub open spec fn apply_value(acc: OptionsModel, flag: Seq<char>, value: Seq<char>) -> Result<OptionsModel, Seq<char>> {
    if flag == "--scene"@ {
        Ok(OptionsModel { scene: value, ..acc })
    } else if flag == "--out"@ || flag == "-o"@ {
        Ok(OptionsModel { out: value, ..acc })
    } else if flag == "--width"@ {
        match number_result(flag, value, u32::MAX as nat) {
            Ok(n) => Ok(OptionsModel { config: RenderSettings { image_width: n as u32, ..acc.config }, ..acc }),
            Err(e) => Err(e),
        }
    } else if flag == "--samples"@ {
        match number_result(flag, value, u32::MAX as nat) {
            Ok(n) => Ok(OptionsModel { config: RenderSettings { samples_per_pixel: n as u32, ..acc.config }, ..acc }),
            Err(e) => Err(e),
        }
    } else if flag == "--depth"@ {
        match number_result(flag, value, u32::MAX as nat) {
            Ok(n) => Ok(OptionsModel { config: RenderSettings { max_depth: n as u32, ..acc.config }, ..acc }),
            Err(e) => Err(e),
        }
    } else {
        match number_result(flag, value, u64::MAX as nat) {
            Ok(n) => Ok(OptionsModel { config: RenderSettings { seed: n as u64, ..acc.config }, ..acc }),
            Err(e) => Err(e),
        }
    }
}

/// The checks made once every argument has been read.
pub open spec fn finish(acc: OptionsModel) -> Result<Option<OptionsModel>, Seq<char>> {
    if acc.config.image_width == 0 {
        Err("--width must be at least 1"@)
    } else if acc.config.samples_per_pixel == 0 {
        Err("--samples must be at least 1"@)
    } else if acc.config.max_depth == 0 {
        Err("--depth must be at least 1"@)
    } else {
        Ok(Some(acc))
    }
}

/// Reading `args` from position `i` on, with the options `acc` so far:
/// `Ok(None)` for a request for help, `Ok(Some(..))` for the options, or
/// `Err(message)`.
pub open spec fn parse_from(args: Seq<Seq<char>>, i: int, acc: OptionsModel) -> Result<Option<OptionsModel>, Seq<char>>
    decreases args.len() - i,
{
    if i < 0 || i >= args.len() {
        finish(acc)
    } else {
        let arg = args[i];
        if is_help_flag(arg) {
            Ok(None)
        } else if arg == "--no-bvh"@ {
            parse_from(args, i + 1, OptionsModel { use_bvh: false, ..acc })
        } else if is_value_flag(arg) {
            if i + 1 >= args.len() {
                Err(needs_value_message(arg))
            } else {
                match apply_value(acc, arg, args[i + 1]) {
                    Ok(next) => parse_from(args, i + 2, next),
                    Err(e) => Err(e),
                }
            }
        } else {
            Err(unrecognized_message(arg))
        }
    }
}

/// What the command line `args` means.
pub open spec fn parse_spec(args: Seq<Seq<char>>) -> Result<Option<OptionsModel>, Seq<char>> {
    parse_from(args, 0, default_options())
}

/// The strings of `args`, each taken as its characters.
pub open spec fn arg_views(args: Seq<String>) -> Seq<Seq<char>> {
    args.map_values(|s: String| s@)
}

/// Whether the result `res` of a parse is the one that `expected` describes.
pub open spec fn parse_result_is(res: Result<Option<Options>, String>, expected: Result<Option<OptionsModel>, Seq<char>>) -> bool {
    match (res, expected) {
        (Ok(None), Ok(None)) => true,
        (Ok(Some(o)), Ok(Some(m))) => o@ == m,
        (Err(e), Err(m)) => e@ == m,
        _ => false,
    }
}

/// Joins the parts of a message.
fn message(a: &str, b: &str, c: &str) -> (r: String)
    ensures
        r@ == a@ + b@ + c@,
{
    let mut s = a.to_owned();
    s.append(b);
    s.append(c);
    s
}

/// Reads the value of `flag` as an unsigned number no greater than `max`.
pub fn parse_number(flag: &str, raw: &str, max: u64) -> (r: Result<u64, String>)
    ensures
        match number_result(flag@, raw@, max as nat) {
            Ok(n) => r == Ok::<u64, String>(n as u64),
            Err(m) => r matches Err(e) && e@ == m,
        },
{
    match parse_unsigned(raw, max) {
        Some(n) => Ok(n),
        None => Err(message(flag, " expects a number, got '", raw) .concat("'")),
    }
}


/// Whether `arg` is one of the flags that take a value, read from its characters.
fn takes_value(arg: &str) -> (r: bool)
    ensures
        r == is_value_flag(arg@),
{
    str_eq(arg, "--scene") || str_eq(arg, "--out") || str_eq(arg, "-o") || str_eq(arg, "--width")
        || str_eq(arg, "--samples") || str_eq(arg, "--depth") || str_eq(arg, "--seed")
}

/// Lets the value flag `flag` read `value` into `options`.
fn apply_flag(options: &mut Options, flag: &str, value: &str) -> (r: Result<(), String>)
    requires
        is_value_flag(flag@),
    ensures
        match apply_value(old(options)@, flag@, value@) {
            Ok(m) => r is Ok && final(options)@ == m,
            Err(m) => r matches Err(e) && e@ == m,
        },
{
    if str_eq(flag, "--scene") {
        options.scene = value.to_owned();
    } else if str_eq(flag, "--out") || str_eq(flag, "-o") {
        options.out = value.to_owned();
    } else if str_eq(flag, "--width") {
        let n = parse_number(flag, value, 0xffff_ffff)?;
        options.config.image_width = n as u32;
    } else if str_eq(flag, "--samples") {
        let n = parse_number(flag, value, 0xffff_ffff)?;
        options.config.samples_per_pixel = n as u32;
    } else if str_eq(flag, "--depth") {
        let n = parse_number(flag, value, 0xffff_ffff)?;
        options.config.max_depth = n as u32;
    } else {
        let n = parse_number(flag, value, 0xffff_ffff_ffff_ffff)?;
        options.config.seed = n;
    }
    Ok(())
}

/// Reads the command line (without the program name). `Ok(None)` means
/// that help was asked for.
pub fn parse_args(args: &[String]) -> (r: Result<Option<Options>, String>)
    ensures
        parse_result_is(r, parse_spec(arg_views(args@))),
        r matches Ok(Some(o)) ==> o.config.image_width >= 1 && o.config.samples_per_pixel >= 1
            && o.config.max_depth >= 1,
{
    let ghost views = arg_views(args@);
    let mut options = Options {
        scene: "three".to_owned(),
        out: "render.png".to_owned(),
        config: RenderSettings::default(),
        use_bvh: true,
    };
    let mut i: usize = 0;
    while i < args.len()
        invariant
            views == arg_views(args@),
            views.len() == args@.len(),
            0 <= i <= args.len(),
            parse_spec(views) == parse_from(views, i as int, options@),
        decreases args.len() - i,
    {
        let arg = args[i].as_str();
        assert(arg@ == views[i as int]);
        if str_eq(arg, "-h") || str_eq(arg, "--help") {
            return Ok(None);
        } else if str_eq(arg, "--no-bvh") {
            options.use_bvh = false;
            i += 1;
        } else if takes_value(arg) {
            if i + 1 >= args.len() {
                return Err(arg.to_owned().concat(" needs a value"));
            }
            let value = args[i + 1].as_str();
            assert(value@ == views[i + 1]);
            apply_flag(&mut options, arg, value)?;
            i += 2;
        } else {
            return Err(message("unrecognized argument '", arg, "'"));
        }
    }
    if options.config.image_width == 0 {
        return Err("--width must be at least 1".to_owned());
    }
    if options.config.samples_per_pixel == 0 {
        return Err("--samples must be at least 1".to_owned());
    }
    if options.config.max_depth == 0 {
        return Err("--depth must be at least 1".to_owned());
    }
    Ok(Some(options))
}


/// The flags are told apart by their characters.
proof fn lemma_flags_distinct()
    ensures
        "-h"@ != "-o"@,
        "--help"@ != "--seed"@,
        "--scene"@ != "--width"@,
        "--scene"@ != "--depth"@,
        "--width"@ != "--depth"@,
        "-h"@.len() == 2,
        "-o"@.len() == 2,
        "--help"@.len() == 6,
        "--seed"@.len() == 6,
        "--no-bvh"@.len() == 8,
        "--scene"@.len() == 7,
        "--width"@.len() == 7,
        "--depth"@.len() == 7,
        "--out"@.len() == 5,
        "--samples"@.len() == 9,
{
    reveal_strlit("-h");
    reveal_strlit("-o");
    reveal_strlit("--help");
    reveal_strlit("--seed");
    reveal_strlit("--no-bvh");
    reveal_strlit("--scene");
    reveal_strlit("--width");
    reveal_strlit("--depth");
    reveal_strlit("--out");
    reveal_strlit("--samples");
    assert("-h"@[1] != "-o"@[1]);
    assert("--help"@[2] != "--seed"@[2]);
    assert("--scene"@[2] != "--width"@[2]);
    assert("--scene"@[2] != "--depth"@[2]);
    assert("--width"@[2] != "--depth"@[2]);
}

/// Asking for help ends the reading of the command line: whatever follows
/// the flag, even something erroneous, is not looked at.
pub proof fn lemma_help_short_circuits(flag: Seq<char>, rest: Seq<Seq<char>>)
    requires
        is_help_flag(flag),
    ensures
        parse_spec(seq![flag] + rest) == Ok::<Option<OptionsModel>, Seq<char>>(None),
{
    assert((seq![flag] + rest)[0] == flag);
}

/// A flag that takes a value is an error when no value follows it, rather
/// than a silent default.
pub proof fn lemma_missing_value_is_an_error(flag: Seq<char>)
    requires
        is_value_flag(flag),
    ensures
        parse_spec(seq![flag]) == Err::<Option<OptionsModel>, Seq<char>>(needs_value_message(flag)),
{
    lemma_flags_distinct();
}

/// An argument that is no flag is reported, whatever follows it.
pub proof fn lemma_unknown_argument_is_an_error(arg: Seq<char>, rest: Seq<Seq<char>>)
    requires
        !is_help_flag(arg),
        arg != "--no-bvh"@,
        !is_value_flag(arg),
    ensures
        parse_spec(seq![arg] + rest) == Err::<Option<OptionsModel>, Seq<char>>(unrecognized_message(arg)),
{
    assert((seq![arg] + rest)[0] == arg);
}

/// Each number flag given the decimal rendering of a number sets its
/// setting to that number and leaves every other option at its default.
pub proof fn lemma_number_flags_set_their_setting(n: nat)
    ensures
        1 <= n <= u32::MAX ==> parse_spec(seq!["--width"@, decimal(n)]) == Ok::<Option<OptionsModel>, Seq<char>>(
            Some(OptionsModel { config: RenderSettings { image_width: n as u32, ..default_settings() }, ..default_options() })),
        1 <= n <= u32::MAX ==> parse_spec(seq!["--samples"@, decimal(n)]) == Ok::<Option<OptionsModel>, Seq<char>>(
            Some(OptionsModel { config: RenderSettings { samples_per_pixel: n as u32, ..default_settings() }, ..default_options() })),
        1 <= n <= u32::MAX ==> parse_spec(seq!["--depth"@, decimal(n)]) == Ok::<Option<OptionsModel>, Seq<char>>(
            Some(OptionsModel { config: RenderSettings { max_depth: n as u32, ..default_settings() }, ..default_options() })),
        n <= u64::MAX ==> parse_spec(seq!["--seed"@, decimal(n)]) == Ok::<Option<OptionsModel>, Seq<char>>(
            Some(OptionsModel { config: RenderSettings { seed: n as u64, ..default_settings() }, ..default_options() })),
{
    lemma_flags_distinct();
    if 1 <= n <= u32::MAX {
        lemma_unsigned_value_of_decimal(n, u32::MAX as nat);
        lemma_one_value_flag("--width"@, decimal(n));
        lemma_one_value_flag("--samples"@, decimal(n));
        lemma_one_value_flag("--depth"@, decimal(n));
    }
    if n <= u64::MAX {
        lemma_unsigned_value_of_decimal(n, u64::MAX as nat);
        lemma_one_value_flag("--seed"@, decimal(n));
    }
}

/// A command line of one value flag and its value reads as that flag
/// applied to the defaults.
proof fn lemma_one_value_flag(flag: Seq<char>, value: Seq<char>)
    requires
        is_value_flag(flag),
    ensures
        parse_spec(seq![flag, value]) == match apply_value(default_options(), flag, value) {
            Ok(m) => finish(m),
            Err(e) => Err(e),
        },
{
    lemma_flags_distinct();
    let args = seq![flag, value];
    assert(args[0] == flag && args[1] == value);
    match apply_value(default_options(), flag, value) {
        Ok(m) => {
            assert(parse_from(args, 2, m) == finish(m));
        },
        Err(e) => {},
    }
}


/// Reading from position `i` depends only on the arguments from `i` on.
proof fn lemma_suffix(args: Seq<Seq<char>>, i: int, acc: OptionsModel)
    requires
        0 <= i <= args.len(),
    ensures
        parse_from(args, i, acc) == parse_from(args.skip(i), 0, acc),
    decreases args.len() - i,
{
    let t = args.skip(i);
    if i < args.len() {
        assert(t[0] == args[i]);
        let arg = args[i];
        if is_help_flag(arg) {
        } else if arg == "--no-bvh"@ {
            let next = OptionsModel { use_bvh: false, ..acc };
            lemma_suffix(args, i + 1, next);
            lemma_suffix(t, 1, next);
            assert(t.skip(1) =~= args.skip(i + 1));
        } else if is_value_flag(arg) {
            if i + 1 < args.len() {
                assert(t[1] == args[i + 1]);
                match apply_value(acc, arg, args[i + 1]) {
                    Ok(next) => {
                        lemma_suffix(args, i + 2, next);
                        lemma_suffix(t, 2, next);
                        assert(t.skip(2) =~= args.skip(i + 2));
                    },
                    Err(_) => {},
                }
            }
        }
    }
}

/// Once a run of arguments `p` has been read through to options `m`, what
/// follows is read starting from `m`.
proof fn lemma_compose(p: Seq<Seq<char>>, rest: Seq<Seq<char>>, i: int, acc: OptionsModel, m: OptionsModel)
    requires
        0 <= i <= p.len(),
        parse_from(p, i, acc) == Ok::<Option<OptionsModel>, Seq<char>>(Some(m)),
    ensures
        parse_from(p + rest, i, acc) == parse_from(rest, 0, m),
    decreases p.len() - i,
{
    let a = p + rest;
    if i == p.len() {
        lemma_suffix(a, i, acc);
        assert(a.skip(i) =~= rest);
    } else {
        assert(a[i] == p[i]);
        let arg = p[i];
        if is_help_flag(arg) {
        } else if arg == "--no-bvh"@ {
            lemma_compose(p, rest, i + 1, OptionsModel { use_bvh: false, ..acc }, m);
        } else if is_value_flag(arg) {
            assert(i + 1 < p.len());
            assert(a[i + 1] == p[i + 1]);
            match apply_value(acc, arg, p[i + 1]) {
                Ok(next) => {
                    lemma_compose(p, rest, i + 2, next, m);
                },
                Err(_) => {},
            }
        }
    }
}

/// The options of a parse with the hierarchy switched off.
pub open spec fn with_bvh_off(r: Result<Option<OptionsModel>, Seq<char>>) -> Result<Option<OptionsModel>, Seq<char>> {
    match r {
        Ok(Some(m)) => Ok(Some(OptionsModel { use_bvh: false, ..m })),
        other => other,
    }
}

/// Starting with the hierarchy switched off changes nothing else.
proof fn lemma_bvh_off(args: Seq<Seq<char>>, i: int, acc: OptionsModel)
    ensures
        parse_from(args, i, OptionsModel { use_bvh: false, ..acc }) == with_bvh_off(parse_from(args, i, acc)),
    decreases args.len() - i,
{
    let off = OptionsModel { use_bvh: false, ..acc };
    if i < 0 || i >= args.len() {
    } else {
        let arg = args[i];
        if is_help_flag(arg) {
        } else if arg == "--no-bvh"@ {
            assert(OptionsModel { use_bvh: false, ..off } == off);
            lemma_bvh_off(args, i + 1, acc);
        } else if is_value_flag(arg) {
            if i + 1 < args.len() {
                match apply_value(acc, arg, args[i + 1]) {
                    Ok(next) => {
                        assert(apply_value(off, arg, args[i + 1]) == Ok::<OptionsModel, Seq<char>>(
                            OptionsModel { use_bvh: false, ..next }));
                        lemma_bvh_off(args, i + 2, next);
                    },
                    Err(e) => {
                        assert(apply_value(off, arg, args[i + 1]) == Err::<OptionsModel, Seq<char>>(e));
                    },
                }
            }
        }
    }
}

/// `--no-bvh` takes no value: wherever it stands after a run of arguments
/// that reads cleanly, the command line means the same as without it, with
/// the hierarchy switched off.
pub proof fn lemma_no_bvh_takes_no_value(p: Seq<Seq<char>>, rest: Seq<Seq<char>>)
    requires
        parse_spec(p) matches Ok(Some(_)),
    ensures
        parse_spec(p + seq!["--no-bvh"@] + rest) == with_bvh_off(parse_spec(p + rest)),
{
    lemma_flags_distinct();
    let m = parse_spec(p)->Ok_0->Some_0;
    let tail = seq!["--no-bvh"@] + rest;
    assert(p + seq!["--no-bvh"@] + rest =~= p + tail);
    lemma_compose(p, tail, 0, default_options(), m);
    lemma_compose(p, rest, 0, default_options(), m);
    assert(tail[0] == "--no-bvh"@);
    lemma_suffix(tail, 1, OptionsModel { use_bvh: false, ..m });
    assert(tail.skip(1) =~= rest);
    lemma_bvh_off(rest, 0, m);
}

/// After a run of arguments that reads cleanly to options `m`, one more
/// value flag with its value changes that flag's option and nothing else.
pub proof fn lemma_value_flags_change_only_their_option(
    p: Seq<Seq<char>>,
    m: OptionsModel,
    value: Seq<char>,
)
    requires
        parse_spec(p) == Ok::<Option<OptionsModel>, Seq<char>>(Some(m)),
    ensures
        parse_spec(p + seq!["--scene"@, value]) == Ok::<Option<OptionsModel>, Seq<char>>(
            Some(OptionsModel { scene: value, ..m })),
        parse_spec(p + seq!["--out"@, value]) == Ok::<Option<OptionsModel>, Seq<char>>(
            Some(OptionsModel { out: value, ..m })),
        parse_spec(p + seq!["-o"@, value]) == Ok::<Option<OptionsModel>, Seq<char>>(
            Some(OptionsModel { out: value, ..m })),
        match unsigned_value(value, u32::MAX as nat) {
            Some(n) => n >= 1 ==> parse_spec(p + seq!["--width"@, value]) == Ok::<Option<OptionsModel>, Seq<char>>(
            Some(OptionsModel { config: RenderSettings { image_width: n as u32, ..m.config }, ..m })),
            None => true,
        },
        match unsigned_value(value, u32::MAX as nat) {
            Some(n) => n >= 1 ==> parse_spec(p + seq!["--samples"@, value]) == Ok::<Option<OptionsModel>, Seq<char>>(
            Some(OptionsModel { config: RenderSettings { samples_per_pixel: n as u32, ..m.config }, ..m })),
            None => true,
        },
        match unsigned_value(value, u32::MAX as nat) {
            Some(n) => n >= 1 ==> parse_spec(p + seq!["--depth"@, value]) == Ok::<Option<OptionsModel>, Seq<char>>(
            Some(OptionsModel { config: RenderSettings { max_depth: n as u32, ..m.config }, ..m })),
            None => true,
        },
        match unsigned_value(value, u64::MAX as nat) {
            Some(n) => parse_spec(p + seq!["--seed"@, value]) == Ok::<Option<OptionsModel>, Seq<char>>(
            Some(OptionsModel { config: RenderSettings { seed: n as u64, ..m.config }, ..m })),
            None => true,
        },
{
    lemma_flags_distinct();
    assert(finish(m) == Ok::<Option<OptionsModel>, Seq<char>>(Some(m))) by {
        lemma_finish_of_parse(p);
    }
    lemma_flag_then_value(p, m, "--scene"@, value);
    lemma_flag_then_value(p, m, "--out"@, value);
    lemma_flag_then_value(p, m, "-o"@, value);
    lemma_flag_then_value(p, m, "--width"@, value);
    lemma_flag_then_value(p, m, "--samples"@, value);
    lemma_flag_then_value(p, m, "--depth"@, value);
    lemma_flag_then_value(p, m, "--seed"@, value);
}

/// The options that a parse gives pass the final checks.
proof fn lemma_finish_of_parse(p: Seq<Seq<char>>)
    requires
        parse_spec(p) matches Ok(Some(_)),
    ensures
        finish(parse_spec(p)->Ok_0->Some_0) == parse_spec(p),
{
    lemma_finish_passes(p, 0, default_options());
}

proof fn lemma_finish_passes(args: Seq<Seq<char>>, i: int, acc: OptionsModel)
    requires
        parse_from(args, i, acc) matches Ok(Some(_)),
    ensures
        finish(parse_from(args, i, acc)->Ok_0->Some_0) == parse_from(args, i, acc),
    decreases args.len() - i,
{
    if i < 0 || i >= args.len() {
    } else {
        let arg = args[i];
        if is_help_flag(arg) {
        } else if arg == "--no-bvh"@ {
            lemma_finish_passes(args, i + 1, OptionsModel { use_bvh: false, ..acc });
        } else if is_value_flag(arg) {
            if i + 1 < args.len() {
                match apply_value(acc, arg, args[i + 1]) {
                    Ok(next) => lemma_finish_passes(args, i + 2, next),
                    Err(_) => {},
                }
            }
        }
    }
}

/// After a clean run `p`, a value flag and its value mean the flag applied
/// to the options of `p`, followed by the final checks.
proof fn lemma_flag_then_value(p: Seq<Seq<char>>, m: OptionsModel, flag: Seq<char>, value: Seq<char>)
    requires
        parse_spec(p) == Ok::<Option<OptionsModel>, Seq<char>>(Some(m)),
        is_value_flag(flag),
    ensures
        parse_spec(p + seq![flag, value]) == match apply_value(m, flag, value) {
            Ok(next) => finish(next),
            Err(e) => Err(e),
        },
{
    lemma_flags_distinct();
    let tail = seq![flag, value];
    lemma_compose(p, tail, 0, default_options(), m);
    assert(tail[0] == flag && tail[1] == value);
    match apply_value(m, flag, value) {
        Ok(next) => {
            assert(parse_from(tail, 2, next) == finish(next));
        },
        Err(_) => {},
    }
}

/// After a run of arguments that reads cleanly, a number flag whose value
/// is no number in its range is reported, whatever follows.
pub proof fn lemma_bad_number_is_an_error_anywhere(
    p: Seq<Seq<char>>,
    flag: Seq<char>,
    raw: Seq<char>,
    rest: Seq<Seq<char>>,
)
    requires
        parse_spec(p) matches Ok(Some(_)),
        flag == "--width"@ || flag == "--samples"@ || flag == "--depth"@,
        unsigned_value(raw, u32::MAX as nat) is None,
    ensures
        parse_spec(p + seq![flag, raw] + rest) == Err::<Option<OptionsModel>, Seq<char>>(
            flag + " expects a number, got '"@ + raw + "'"@),
{
    lemma_flags_distinct();
    let m = parse_spec(p)->Ok_0->Some_0;
    let tail = seq![flag, raw] + rest;
    assert(p + seq![flag, raw] + rest =~= p + tail);
    lemma_compose(p, tail, 0, default_options(), m);
    assert(tail[0] == flag && tail[1] == raw);
}

/// After a run of arguments that reads cleanly, a flag that takes a value
/// but comes last is an error, rather than a silent default.
pub proof fn lemma_missing_value_is_an_error_anywhere(p: Seq<Seq<char>>, flag: Seq<char>)
    requires
        parse_spec(p) matches Ok(Some(_)),
        flag == "--scene"@ || flag == "--out"@ || flag == "-o"@ || flag == "--width"@ || flag
            == "--samples"@ || flag == "--depth"@ || flag == "--seed"@,
    ensures
        parse_spec(p + seq![flag]) == Err::<Option<OptionsModel>, Seq<char>>(flag + " needs a value"@),
{
    lemma_flags_distinct();
    let m = parse_spec(p)->Ok_0->Some_0;
    lemma_compose(p, seq![flag], 0, default_options(), m);
}

/// After a run of arguments that reads cleanly, an argument that is no flag
/// is reported, whatever follows it.
pub proof fn lemma_unknown_argument_is_an_error_anywhere(
    p: Seq<Seq<char>>,
    arg: Seq<char>,
    rest: Seq<Seq<char>>,
)
    requires
        parse_spec(p) matches Ok(Some(_)),
        arg != "-h"@,
        arg != "--help"@,
        arg != "--no-bvh"@,
        arg != "--scene"@,
        arg != "--out"@,
        arg != "-o"@,
        arg != "--width"@,
        arg != "--samples"@,
        arg != "--depth"@,
        arg != "--seed"@,
    ensures
        parse_spec(p + seq![arg] + rest) == Err::<Option<OptionsModel>, Seq<char>>(
            "unrecognized argument '"@ + arg + "'"@),
{
    let m = parse_spec(p)->Ok_0->Some_0;
    let tail = seq![arg] + rest;
    assert(p + seq![arg] + rest =~= p + tail);
    lemma_compose(p, tail, 0, default_options(), m);
    assert(tail[0] == arg);
}

/// After a run of arguments that reads cleanly, asking for help ends the
/// reading, whatever follows.
pub proof fn lemma_help_short_circuits_anywhere(p: Seq<Seq<char>>, flag: Seq<char>, rest: Seq<Seq<char>>)
    requires
        parse_spec(p) matches Ok(Some(_)),
        flag == "-h"@ || flag == "--help"@,
    ensures
        parse_spec(p + seq![flag] + rest) == Ok::<Option<OptionsModel>, Seq<char>>(None),
{
    let m = parse_spec(p)->Ok_0->Some_0;
    let tail = seq![flag] + rest;
    assert(p + seq![flag] + rest =~= p + tail);
    lemma_compose(p, tail, 0, default_options(), m);
    assert(tail[0] == flag);
}


/// Settings are only checked once every argument has been read, in the
/// order width, samples, depth: after a run that reads cleanly, a zero for
/// one of them is reported by name, and of two zeros the earlier in that
/// order is the one reported, whatever order the flags came in.
pub proof fn lemma_zero_settings_are_refused_in_order(p: Seq<Seq<char>>, zero: Seq<char>)
    requires
        parse_spec(p) matches Ok(Some(_)),
        unsigned_value(zero, u32::MAX as nat) == Some(0nat),
    ensures
        parse_spec(p + seq!["--width"@, zero]) == Err::<Option<OptionsModel>, Seq<char>>(
            "--width must be at least 1"@),
        parse_spec(p + seq!["--samples"@, zero]) == Err::<Option<OptionsModel>, Seq<char>>(
            "--samples must be at least 1"@),
        parse_spec(p + seq!["--depth"@, zero]) == Err::<Option<OptionsModel>, Seq<char>>(
            "--depth must be at least 1"@),
        parse_spec(p + seq!["--samples"@, zero, "--width"@, zero]) == Err::<Option<OptionsModel>, Seq<char>>(
            "--width must be at least 1"@),
        parse_spec(p + seq!["--depth"@, zero, "--samples"@, zero]) == Err::<Option<OptionsModel>, Seq<char>>(
            "--samples must be at least 1"@),
{
    lemma_flags_distinct();
    let m = parse_spec(p)->Ok_0->Some_0;
    lemma_finish_of_parse(p);
    lemma_flag_then_value(p, m, "--width"@, zero);
    lemma_flag_then_value(p, m, "--samples"@, zero);
    lemma_flag_then_value(p, m, "--depth"@, zero);
    let t1 = seq!["--samples"@, zero, "--width"@, zero];
    let t2 = seq!["--depth"@, zero, "--samples"@, zero];
    lemma_compose(p, t1, 0, default_options(), m);
    lemma_compose(p, t2, 0, default_options(), m);
    assert(t1[0] == "--samples"@ && t1[1] == zero && t1[2] == "--width"@ && t1[3] == zero);
    assert(t2[0] == "--depth"@ && t2[1] == zero && t2[2] == "--samples"@ && t2[3] == zero);
    let s0 = OptionsModel { config: RenderSettings { samples_per_pixel: 0, ..m.config }, ..m };
    let d0 = OptionsModel { config: RenderSettings { max_depth: 0, ..m.config }, ..m };
    let s0w0 = OptionsModel { config: RenderSettings { image_width: 0, ..s0.config }, ..s0 };
    let d0s0 = OptionsModel { config: RenderSettings { samples_per_pixel: 0, ..d0.config }, ..d0 };
    assert(apply_value(m, "--samples"@, zero) == Ok::<OptionsModel, Seq<char>>(s0));
    assert(apply_value(s0, "--width"@, zero) == Ok::<OptionsModel, Seq<char>>(s0w0));
    assert(apply_value(m, "--depth"@, zero) == Ok::<OptionsModel, Seq<char>>(d0));
    assert(apply_value(d0, "--samples"@, zero) == Ok::<OptionsModel, Seq<char>>(d0s0));
    assert(parse_from(t1, 4, s0w0) == finish(s0w0));
    assert(parse_from(t1, 2, s0) == parse_from(t1, 4, s0w0));
    assert(parse_from(t1, 0, m) == parse_from(t1, 2, s0));
    assert(parse_from(t2, 4, d0s0) == finish(d0s0));
    assert(parse_from(t2, 2, d0) == parse_from(t2, 4, d0s0));
    assert(parse_from(t2, 0, m) == parse_from(t2, 2, d0));
}

} // verus!
