//! The command-line surface: which command the given arguments select.
//!
//! Option recognition is delegated to the `getopts` crate behind a small
//! trusted boundary; the validation rules — exactly one of the list and
//! resize commands, and the arguments a resize needs — and their exact
//! messages are the library's own, verified in `validate_args`.

use vstd::prelude::*;
use crate::decimal::parse_dec_i32;
use crate::decimal::parse_i32;

verus! {

#[verifier::external_type_specification]
#[verifier::external_body]
pub struct ExOptions(getopts::Options);

#[verifier::external_type_specification]
#[verifier::external_body]
pub struct ExMatches(getopts::Matches);

#[verifier::external_type_specification]
#[verifier::external_body]
pub struct ExFail(getopts::Fail);

/// The names an option set has registered, short and long alike: the names
/// its parse results may be queried with.
pub uninterp spec fn registered_names(opts: getopts::Options) -> Set<Seq<char>>;

/// The names a parse result answers to without panicking.
pub uninterp spec fn queryable_names(m: getopts::Matches) -> Set<Seq<char>>;

/// What an option set holds, declaration by declaration, in registration
/// order: short name, long name, description, argument hint, and whether
/// the option takes an argument — everything parsing and usage rendering
/// read of it.
pub uninterp spec fn options_model(opts: getopts::Options) -> Seq<
    (Seq<char>, Seq<char>, Seq<char>, Seq<char>, bool),
>;

/// Whether `getopts` accepts this command line under these options; the
/// outcome depends on the declarations and the line alone.
pub uninterp spec fn parse_ok(
    groups: Seq<(Seq<char>, Seq<char>, Seq<char>, Seq<char>, bool)>,
    args: Seq<Seq<char>>,
) -> bool;

/// The failure text `getopts` reports when it rejects this command line
/// under these options.
pub uninterp spec fn parse_fail_text(
    groups: Seq<(Seq<char>, Seq<char>, Seq<char>, Seq<char>, bool)>,
    args: Seq<Seq<char>>,
) -> Seq<char>;

/// Whether the named option occurred on the command line these options
/// accepted.
pub uninterp spec fn flag_of(
    groups: Seq<(Seq<char>, Seq<char>, Seq<char>, Seq<char>, bool)>,
    args: Seq<Seq<char>>,
    name: Seq<char>,
) -> bool;

/// The argument the named option carried on the command line these
/// options accepted, if it occurred with one.
pub uninterp spec fn value_of(
    groups: Seq<(Seq<char>, Seq<char>, Seq<char>, Seq<char>, bool)>,
    args: Seq<Seq<char>>,
    name: Seq<char>,
) -> Option<Seq<char>>;

/// What `opt_present` answers on this parse result for this name.
pub uninterp spec fn matches_flag(m: getopts::Matches, name: Seq<char>) -> bool;

/// What `opt_str` answers on this parse result for this name.
pub uninterp spec fn matches_value(m: getopts::Matches, name: Seq<char>) -> Option<Seq<char>>;

/// The text `getopts` renders for a failure value.
pub uninterp spec fn fail_text(f: getopts::Fail) -> Seq<char>;

/// The usage text `getopts` renders for these options under this brief
/// line.
pub uninterp spec fn usage_of(
    groups: Seq<(Seq<char>, Seq<char>, Seq<char>, Seq<char>, bool)>,
    brief: Seq<char>,
) -> Seq<char>;

/// The queryable names one option declaration contributes: `getopts` files
/// a one-character name as a short option and a longer one as a long
/// option, and looks names up by the same rule.
pub open spec fn name_set(short: Seq<char>, long: Seq<char>) -> Set<Seq<char>> {
    let with_short = if short.len() == 1 {
        Set::<Seq<char>>::empty().insert(short)
    } else {
        Set::<Seq<char>>::empty()
    };
    if long.len() >= 2 {
        with_short.insert(long)
    } else {
        with_short
    }
}

/// Relies on `getopts::Options::new`: a blank option set.
#[verifier::external_body]
fn options_new() -> (r: getopts::Options)
    ensures
        registered_names(r) == Set::<Seq<char>>::empty(),
        options_model(r) == Seq::<(Seq<char>, Seq<char>, Seq<char>, Seq<char>, bool)>::empty(),
{
    getopts::Options::new()
}

/// Relies on `getopts::Options::optflag`: registers an option that takes no
/// argument. The bounds mirror the name rules `getopts` enforces (a short
/// name of at most one character, a long name of none or several, at least
/// one of the two), so that registration and later parsing cannot panic.
#[verifier::external_body]
fn optflag(opts: &mut getopts::Options, short: &str, long: &str, desc: &str)
    requires
        vstd::string::is_ascii(short),
        vstd::string::is_ascii(long),
        short@.len() <= 1,
        long@.len() == 0 || long@.len() >= 2,
        short@.len() + long@.len() >= 1,
    ensures
        registered_names(*final(opts)) == registered_names(*old(opts)).union(
            name_set(short@, long@),
        ),
        options_model(*final(opts)) == options_model(*old(opts)).push(
            (short@, long@, desc@, ""@, false),
        ),
{
    opts.optflag(short, long, desc);
}

/// Relies on `getopts::Options::optopt`: registers an option that takes an
/// argument, under the same name rules as `optflag`.
#[verifier::external_body]
fn optopt(opts: &mut getopts::Options, short: &str, long: &str, desc: &str, hint: &str)
    requires
        vstd::string::is_ascii(short),
        vstd::string::is_ascii(long),
        short@.len() <= 1,
        long@.len() == 0 || long@.len() >= 2,
        short@.len() + long@.len() >= 1,
    ensures
        registered_names(*final(opts)) == registered_names(*old(opts)).union(
            name_set(short@, long@),
        ),
        options_model(*final(opts)) == options_model(*old(opts)).push(
            (short@, long@, desc@, hint@, true),
        ),
{
    opts.optopt(short, long, desc, hint);
}

/// Relies on `getopts::Options::parse`: parses a command line against the
/// registered options. Acceptance, the flags and values a success carries,
/// and the text of a rejection are all functions of the declarations and
/// the line alone; a success can be queried under every registered name.
#[verifier::external_body]
fn parse_opts(opts: &getopts::Options, args: &Vec<String>) -> (r: Result<
    getopts::Matches,
    getopts::Fail,
>)
    ensures
        r is Ok <==> parse_ok(options_model(*opts), args.deep_view()),
        r is Ok ==> queryable_names(r.unwrap()) == registered_names(*opts),
        r is Ok ==> forall|n: Seq<char>| #[trigger]
            matches_flag(r.unwrap(), n) == flag_of(options_model(*opts), args.deep_view(), n),
        r is Ok ==> forall|n: Seq<char>| #[trigger]
            matches_value(r.unwrap(), n) == value_of(options_model(*opts), args.deep_view(), n),
        r is Err ==> fail_text(r->Err_0) == parse_fail_text(options_model(*opts), args.deep_view()),
{
    opts.parse(args)
}

/// Relies on `getopts::Matches::opt_present`: whether the named option,
/// which must be a registered name, occurred on the command line.
#[verifier::external_body]
fn opt_present(m: &getopts::Matches, name: &str) -> (r: bool)
    requires
        queryable_names(*m).contains(name@),
    ensures
        r == matches_flag(*m, name@),
{
    m.opt_present(name)
}

/// Relies on `getopts::Matches::opt_str`: the argument supplied to the
/// named option, which must be a registered name, if it occurred with one.
#[verifier::external_body]
fn opt_str(m: &getopts::Matches, name: &str) -> (r: Option<String>)
    requires
        queryable_names(*m).contains(name@),
    ensures
        r is Some <==> matches_value(*m, name@) is Some,
        r is Some ==> r.unwrap()@ == matches_value(*m, name@).unwrap(),
{
    m.opt_str(name)
}

/// Relies on `getopts::Options::usage`: the rendered usage text for the
/// registered options under the given brief line, a function of the two
/// alone.
#[verifier::external_body]
fn usage(opts: &getopts::Options, brief: &str) -> (r: String)
    ensures
        r@ == usage_of(options_model(*opts), brief@),
{
    opts.usage(brief)
}

/// Relies on `getopts::Fail`'s `Display` rendering: the human-readable
/// description of a rejected command line, a function of the value alone.
#[verifier::external_body]
fn fail_message(f: &getopts::Fail) -> (r: String)
    ensures
        r@ == fail_text(*f),
{
    format!("{}", f)
}

/// The parsed command line: which command runs, and with what title and
/// geometry.
#[derive(Debug)]
pub struct Args {
    pub showed_help: bool,
    pub cmd_list_windows: bool,
    pub cmd_resize_window: bool,
    pub window_width: i32,
    pub window_height: i32,
    pub window_title: String,
}

/// The tool's six option declarations, in registration order: what
/// `make_options` builds.
pub open spec fn tool_options() -> Seq<(Seq<char>, Seq<char>, Seq<char>, Seq<char>, bool)> {
    seq![
        ("l"@, "list-windows"@, "List title windows."@, ""@, false),
        ("r"@, "resize-window"@, "Resize window."@, ""@, false),
        ("w"@, "width"@, "Window width."@, "WIDTH"@, true),
        ("h"@, "height"@, "Window height."@, "HEIGHT"@, true),
        ("t"@, "title"@, "Window title."@, "TITLE"@, true),
        (""@, "help"@, "Show usage."@, ""@, false),
    ]
}

/// Whether the named flag occurred on the command line, under the tool's
/// options.
pub open spec fn spec_flag(a: Seq<Seq<char>>, name: Seq<char>) -> bool {
    flag_of(tool_options(), a, name)
}

/// The argument the named option carried on the command line, under the
/// tool's options.
pub open spec fn spec_value(a: Seq<Seq<char>>, name: Seq<char>) -> Option<Seq<char>> {
    value_of(tool_options(), a, name)
}

/// The width or height one option value denotes: an absent flag means
/// zero, a present value must read as a decimal integer.
pub open spec fn spec_dimension(v: Option<Seq<char>>) -> Option<int> {
    match v {
        Option::None => Option::Some(0 as int),
        Option::Some(s) => parse_dec_i32(s),
    }
}

/// The command lines the tool accepts: usage asked for, or a command with
/// everything a resize needs and readable dimensions.
pub open spec fn spec_accepted(a: Seq<Seq<char>>) -> bool {
    ||| spec_flag(a, "help"@)
    ||| {
        &&& (spec_flag(a, "l"@) || spec_flag(a, "r"@))
        &&& (spec_flag(a, "r"@) ==> spec_flag(a, "w"@) && spec_flag(a, "h"@) && spec_flag(
            a,
            "t"@,
        ))
        &&& spec_dimension(spec_value(a, "w"@)) is Some
        &&& spec_dimension(spec_value(a, "h"@)) is Some
    }
}

/// Every name the tool's options answer to.
pub open spec fn option_name_set() -> Set<Seq<char>> {
    Set::<Seq<char>>::empty().union(name_set("l"@, "list-windows"@)).union(
        name_set("r"@, "resize-window"@),
    ).union(name_set("w"@, "width"@)).union(name_set("h"@, "height"@)).union(
        name_set("t"@, "title"@),
    ).union(name_set(""@, "help"@))
}

/// Registers the tool's six options.
fn make_options() -> (r: getopts::Options)
    ensures
        registered_names(r) == option_name_set(),
        options_model(r) == tool_options(),
{
    proof {
        reveal_strlit("l");
        reveal_strlit("list-windows");
        reveal_strlit("r");
        reveal_strlit("resize-window");
        reveal_strlit("w");
        reveal_strlit("width");
        reveal_strlit("h");
        reveal_strlit("height");
        reveal_strlit("t");
        reveal_strlit("title");
        reveal_strlit("");
        reveal_strlit("help");
    }
    let mut opts = options_new();
    optflag(&mut opts, "l", "list-windows", "List title windows.");
    optflag(&mut opts, "r", "resize-window", "Resize window.");
    optopt(&mut opts, "w", "width", "Window width.", "WIDTH");
    optopt(&mut opts, "h", "height", "Window height.", "HEIGHT");
    optopt(&mut opts, "t", "title", "Window title.", "TITLE");
    optflag(&mut opts, "", "help", "Show usage.");
    proof {
        assert(options_model(opts) =~= tool_options());
    }
    opts
}

/// The usage text shown for `--help`: the rendering of the tool's six
/// options under its brief line, as the option parser produces it.
pub fn usage_text() -> (r: String)
    ensures
        r@ == usage_of(tool_options(), "Usage: wndsize [options]"@),
{
    let opts = make_options();
    usage(&opts, "Usage: wndsize [options]")
}

/// The argument-validation rules, decided from what occurred on the
/// command line: usage asked for is always in order; otherwise at least
/// one of the two commands must be requested, and a resize needs all of
/// width, height and title. Each rejection carries its exact message.
pub fn validate_args(
    help: bool,
    list: bool,
    resize: bool,
    has_width: bool,
    has_height: bool,
    has_title: bool,
) -> (r: Result<(), &'static str>)
    ensures
        r is Ok <==> (help || ((list || resize) && (resize ==> (has_width && has_height
            && has_title)))),
        (!help && !list && !resize) ==> r is Err && r->Err_0@
            == "One of the following values are required: --list-windows or --resize-window"@,
        (!help && resize && !(has_width && has_height && has_title)) ==> r is Err && r->Err_0@
            == "These arguments are required: --width, --height, --title."@,
{
    if help {
        return Ok(());
    }
    if !list && !resize {
        return Err("One of the following values are required: --list-windows or --resize-window");
    }
    if resize && !(has_width && has_height && has_title) {
        return Err("These arguments are required: --width, --height, --title.");
    }
    Ok(())
}

/// Parses a command line (the arguments after the program name) into the
/// command to run. A line the option parser rejects comes back as its
/// failure text; an accepted line is validated by the rules of
/// `validate_args`, with their exact messages; a width or height that is
/// not an integer is reported too, rather than aborting the process; and
/// the returned fields are exactly the flags and values that occurred,
/// with zero and empty defaults for absent dimensions and title.
pub fn parse_args(args: &Vec<String>) -> (r: Result<Args, String>)
    ensures
        ({
            let a = args.deep_view();
            let accepted = parse_ok(tool_options(), a);
            let help = spec_flag(a, "help"@);
            let list = spec_flag(a, "l"@);
            let resize = spec_flag(a, "r"@);
            let has_w = spec_flag(a, "w"@);
            let has_h = spec_flag(a, "h"@);
            let has_t = spec_flag(a, "t"@);
            let wv = spec_dimension(spec_value(a, "w"@));
            let hv = spec_dimension(spec_value(a, "h"@));
            &&& (r is Ok <==> accepted && spec_accepted(a))
            &&& (r is Ok ==> ({
                let ar = r.unwrap();
                &&& ar.showed_help == help
                &&& (help ==> !ar.cmd_list_windows && !ar.cmd_resize_window && ar.window_width
                    == 0 && ar.window_height == 0 && ar.window_title@ == Seq::<char>::empty())
                &&& (!help ==> {
                    &&& ar.cmd_list_windows == list
                    &&& ar.cmd_resize_window == resize
                    &&& ar.window_width == wv.unwrap()
                    &&& ar.window_height == hv.unwrap()
                    &&& ar.window_title@ == (match spec_value(a, "t"@) {
                        Option::Some(s) => s,
                        Option::None => Seq::<char>::empty(),
                    })
                })
            }))
            &&& (!accepted ==> r is Err && r->Err_0@ == parse_fail_text(tool_options(), a))
            &&& (accepted && !help && !list && !resize ==> r is Err && r->Err_0@
                == "One of the following values are required: --list-windows or --resize-window"@)
            &&& (accepted && !help && resize && !(has_w && has_h && has_t) ==> r is Err
                && r->Err_0@ == "These arguments are required: --width, --height, --title."@)
            &&& (accepted && !help && (list || resize) && (resize ==> has_w && has_h && has_t)
                && (wv is None || hv is None) ==> r is Err && r->Err_0@
                == "These arguments must be integers: --width, --height."@)
        }),
{
    proof {
        reveal_strlit("l");
        reveal_strlit("list-windows");
        reveal_strlit("r");
        reveal_strlit("resize-window");
        reveal_strlit("w");
        reveal_strlit("width");
        reveal_strlit("h");
        reveal_strlit("height");
        reveal_strlit("t");
        reveal_strlit("title");
        reveal_strlit("");
        reveal_strlit("help");
    }
    let opts = make_options();
    let m: getopts::Matches = match parse_opts(&opts, args) {
        Ok(m) => m,
        Err(f) => {
            return Err(fail_message(&f));
        },
    };
    if opt_present(&m, "help") {
        return Ok(
            Args {
                showed_help: true,
                cmd_list_windows: false,
                cmd_resize_window: false,
                window_width: 0,
                window_height: 0,
                window_title: String::new(),
            },
        );
    }
    let list = opt_present(&m, "l");
    let resize = opt_present(&m, "r");
    let has_width = opt_present(&m, "w");
    let has_height = opt_present(&m, "h");
    let has_title = opt_present(&m, "t");
    match validate_args(false, list, resize, has_width, has_height, has_title) {
        Err(msg) => {
            return Err(msg.to_owned());
        },
        Ok(_) => {
        },
    }
    let width: i32 = match opt_str(&m, "w") {
        Some(s) => match parse_i32(s.as_str()) {
            Some(v) => v,
            None => {
                return Err("These arguments must be integers: --width, --height.".to_owned());
            },
        },
        None => 0,
    };
    let height: i32 = match opt_str(&m, "h") {
        Some(s) => match parse_i32(s.as_str()) {
            Some(v) => v,
            None => {
                return Err("These arguments must be integers: --width, --height.".to_owned());
            },
        },
        None => 0,
    };
    let title: String = match opt_str(&m, "t") {
        Some(s) => s,
        None => String::new(),
    };
    Ok(
        Args {
            showed_help: false,
            cmd_list_windows: list,
            cmd_resize_window: resize,
            window_width: width,
            window_height: height,
            window_title: title,
        },
    )
}

} // verus!

