use vstd::prelude::*;

use crate::text::{chars_of, strip_prefix_chars, strip_prefix_spec, string_from_chars};

verus! {

/// What the command line asks for.
#[derive(Debug)]
pub enum CliOutcome {
    /// Run with the configuration file at this path.
    Run { config_path: String },
    /// Print the usage text and stop successfully.
    Help,
    /// Print this complaint and stop with a usage error.
    Fail { message: String },
}

/// The usage text.
pub fn usage() -> (s: String)
    ensures
        s@ == "Usage: milky-ob11-bridge [--config <path>]"@,
{
    String::from_str("Usage: milky-ob11-bridge [--config <path>]")
}

/// `s` with every leading copy of `p` removed (`str::trim_start_matches`).
pub open spec fn trim_start_all(s: Seq<char>, p: Seq<char>) -> Seq<char>
    decreases s.len(),
{
    if p.len() > 0 && strip_prefix_spec(s, p) is Some {
        trim_start_all(s.skip(p.len() as int), p)
    } else {
        s
    }
}

/// An outcome by its values.
pub enum CliView {
    Run(Seq<char>),
    Help,
    Fail(Seq<char>),
}

pub open spec fn cli_view(o: CliOutcome) -> CliView {
    match o {
        CliOutcome::Run { config_path } => CliView::Run(config_path@),
        CliOutcome::Help => CliView::Help,
        CliOutcome::Fail { message } => CliView::Fail(message@),
    }
}

/// Whether `a` names the configuration option that takes its value from
/// the next argument.
pub open spec fn config_flag(a: Seq<char>) -> bool {
    a == "-config"@ || a == "--config"@ || a == "-c"@
}

/// Reading the arguments from `i` on, with `path` the configuration path
/// chosen so far: a later option overrides an earlier one, help stops at
/// once, an option without its value or an unknown argument is refused.
pub open spec fn cli_from(args: Seq<Seq<char>>, i: int, path: Seq<char>) -> CliView
    decreases args.len() - i,
{
    if i < 0 || i >= args.len() {
        CliView::Run(path)
    } else {
        let a = args[i];
        if config_flag(a) {
            if i + 1 < args.len() {
                cli_from(args, i + 2, args[i + 1])
            } else {
                CliView::Fail(a + " requires a value"@)
            }
        } else if a == "-h"@ || a == "--help"@ {
            CliView::Help
        } else if strip_prefix_spec(a, "--config="@) is Some {
            cli_from(args, i + 1, trim_start_all(a, "--config="@))
        } else {
            CliView::Fail("unknown argument: "@ + a)
        }
    }
}

pub open spec fn string_views(v: Seq<String>) -> Seq<Seq<char>> {
    v.map_values(|s: String| s@)
}

fn trim_start_all_chars(s: &Vec<char>, p: &Vec<char>) -> (r: Vec<char>)
    requires
        p@.len() > 0,
    ensures
        r@ == trim_start_all(s@, p@),
    decreases s@.len(),
{
    match strip_prefix_chars(s, p) {
        Some(t) => {
            assert(t@ == s@.skip(p@.len() as int));
            trim_start_all_chars(&t, p)
        },
        None => s.clone(),
    }
}

/// Reads the command line (without the program name): the configuration
/// path, `config.json` unless given.
pub fn parse_args(args: &[String]) -> (r: CliOutcome)
    ensures
        cli_view(r) == cli_from(string_views(args@), 0, "config.json"@),
{
    let ghost av = string_views(args@);
    let mut path = String::from_str("config.json");
    let mut i: usize = 0;
    while i < args.len()
        invariant
            i <= args@.len() + 1,
            av == string_views(args@),
            av.len() == args@.len(),
            cli_from(av, 0, "config.json"@) == cli_from(av, i as int, path@),
        decreases args@.len() + 1 - i,
    {
        let a = args[i].as_str();
        assert(av[i as int] == a@);
        if crate::text::str_eq(a, "-config") || crate::text::str_eq(a, "--config")
            || crate::text::str_eq(a, "-c") {
            if i + 1 < args.len() {
                assert(av[i + 1] == args@[i + 1]@);
                path = args[i + 1].clone();
                i = i + 2;
                continue;
            }
            let mut m = String::from_str(a);
            m.append(" requires a value");
            return CliOutcome::Fail { message: m };
        }
        if crate::text::str_eq(a, "-h") || crate::text::str_eq(a, "--help") {
            return CliOutcome::Help;
        }
        let cs = chars_of(a);
        let prefix = chars_of("--config=");
        if strip_prefix_chars(&cs, &prefix).is_some() {
            proof {
                reveal_strlit("--config=");
            }
            let t = trim_start_all_chars(&cs, &prefix);
            path = string_from_chars(t.as_slice());
            i = i + 1;
            continue;
        }
        let mut m = String::from_str("unknown argument: ");
        m.append(a);
        return CliOutcome::Fail { message: m };
    }
    CliOutcome::Run { config_path: path }
}

/// The arguments: none runs with `config.json`; `--config`, `-config` or
/// `-c` followed by a path runs with that path; `-h` or `--help` asks for
/// help; a flag without its value, or an argument the program does not
/// know, is refused with a message naming it.
pub proof fn law_arguments(p: Seq<char>, flag: Seq<char>, other: Seq<char>)
    ensures
        cli_from(Seq::empty(), 0, "config.json"@) == CliView::Run("config.json"@),
        config_flag(flag) ==> cli_from(seq![flag, p], 0, "config.json"@) == CliView::Run(p),
        config_flag(flag) ==> cli_from(seq![flag], 0, "config.json"@) == CliView::Fail(
            flag + " requires a value"@,
        ),
        cli_from(seq!["-h"@], 0, "config.json"@) == CliView::Help,
        cli_from(seq!["--help"@], 0, "config.json"@) == CliView::Help,
        !config_flag(other) && other != "-h"@ && other != "--help"@ && strip_prefix_spec(
            other,
            "--config="@,
        ) is None ==> cli_from(seq![other], 0, "config.json"@) == CliView::Fail(
            "unknown argument: "@ + other,
        ),
        config_flag("--config"@) && config_flag("-config"@) && config_flag("-c"@),
{
    reveal_strlit("-h");
    reveal_strlit("--help");
    reveal_strlit("-c");
    reveal_strlit("-config");
    reveal_strlit("--config");
    assert(!config_flag("-h"@)) by {
        assert("-h"@[1] != "-c"@[1]);
        assert("-h"@[1] != "-config"@[1]);
        assert("-h"@[1] != "--config"@[1]);
    }
    assert(!config_flag("--help"@)) by {
        assert("--help"@[1] != "-c"@[1]);
        assert("--help"@[1] != "-config"@[1]);
        assert("--help"@[2] != "--config"@[2]);
    }
    let two = seq![flag, p];
    assert(cli_from(two, 2, p) == CliView::Run(p));
}

} // verus!
