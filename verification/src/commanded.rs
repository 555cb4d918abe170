//! What a command line sets.

use vstd::prelude::*;

use crate::cli;
use crate::cli::{CliView, Overrides};
use crate::ir::OptionsView;
use crate::text;

verus! {

proof fn option_names()
    ensures
        "-o"@.len() == 2,
        "--output"@.len() == 8 && "--output"@[2] == 'o',
        "--config"@.len() == 8 && "--config"@[2] == 'c',
        "--strict"@.len() == 8 && "--strict"@[2] == 's',
        "--ppq"@.len() == 5,
        "--loop-count"@.len() == 12 && "--loop-count"@[2] == 'l',
        "--rhythm-map"@.len() == 12 && "--rhythm-map"@[2] == 'r',
        "--manual-smf"@.len() == 12 && "--manual-smf"@[2] == 'm',
        "--loop-marker-name"@.len() == 18 && "--loop-marker-name"@[2] == 'l',
        "--channel-overflow"@.len() == 18 && "--channel-overflow"@[2] == 'c',
        "--psg-envelope-map"@.len() == 18 && "--psg-envelope-map"@[2] == 'p',
        "--envelope-mode"@.len() == 15,
        "--tone-policy"@.len() == 13 && "--tone-policy"@[2] == 't',
        "--octave-base"@.len() == 13 && "--octave-base"@[2] == 'o',
        "--diagnostics"@.len() == 13 && "--diagnostics"@[2] == 'd',
        "--encoding"@.len() == 10 && "--encoding"@[2] == 'e',
        "--tone-map"@.len() == 10 && "--tone-map"@[2] == 't',
        "--emit-config-skeleton"@.len() == 22,
        "--psg-noise-drum-map"@.len() == 20,
        "--register-map"@.len() == 14,
        "--program-numbering"@.len() == 19 && "--program-numbering"@[2] == 'p',
        "--channel-numbering"@.len() == 19 && "--channel-numbering"@[2] == 'c',
{
    reveal_strlit("-o");
    reveal_strlit("--output");
    reveal_strlit("--config");
    reveal_strlit("--strict");
    reveal_strlit("--ppq");
    reveal_strlit("--loop-count");
    reveal_strlit("--rhythm-map");
    reveal_strlit("--manual-smf");
    reveal_strlit("--loop-marker-name");
    reveal_strlit("--channel-overflow");
    reveal_strlit("--psg-envelope-map");
    reveal_strlit("--envelope-mode");
    reveal_strlit("--tone-policy");
    reveal_strlit("--octave-base");
    reveal_strlit("--diagnostics");
    reveal_strlit("--encoding");
    reveal_strlit("--tone-map");
    reveal_strlit("--emit-config-skeleton");
    reveal_strlit("--psg-noise-drum-map");
    reveal_strlit("--register-map");
    reveal_strlit("--program-numbering");
    reveal_strlit("--channel-numbering");
}

/// The paths on a command line: where the song goes, where the report goes, which
/// configurations are read, and where a first configuration is written.
pub proof fn paths_are_taken(cli: CliView, path: Seq<char>)
    ensures
        cli::set_option(cli, "-o"@, path) == Ok::<CliView, Seq<char>>(
            CliView { output: Some(path), ..cli },
        ),
        cli::set_option(cli, "--output"@, path) == Ok::<CliView, Seq<char>>(
            CliView { output: Some(path), ..cli },
        ),
        cli::set_option(cli, "--diagnostics"@, path) == Ok::<CliView, Seq<char>>(
            CliView { diagnostics: Some(path), ..cli },
        ),
        cli::set_option(cli, "--config"@, path) == Ok::<CliView, Seq<char>>(
            CliView { config_paths: cli.config_paths + seq![path], ..cli },
        ),
        cli::set_option(cli, "--emit-config-skeleton"@, path) == Ok::<CliView, Seq<char>>(
            CliView { emit_config_skeleton: Some(path), ..cli },
        ),
{
    option_names();
    assert(cli.config_paths + seq![path] =~= cli.config_paths.push(path));
}

proof fn decimal_is_a_number(n: nat)
    ensures
        text::whole_number(text::decimal(n), 10, false, 0, n as int) == Some(n as int),
        text::whole_number(text::decimal(n), 10, true, 0, n as int) == Some(n as int),
        text::decimal(n).len() > 0,
        text::is_digit(text::decimal(n)[0]),
{
    request_digits(n);
}

proof fn request_digits(n: nat)
    ensures
        text::radix_value(text::decimal(n), 10) == Some(n as int),
        text::decimal(n).len() > 0,
        text::is_digit(text::decimal(n)[0]),
    decreases n,
{
    let s = text::decimal(n);
    if n < 10 {
        assert(s.drop_last() =~= Seq::empty());
        assert(text::radix_value(s.drop_last(), 10) == Some(0int));
        assert(s.last() == text::digit_char(n));
    } else {
        request_digits(n / 10);
        assert(s.drop_last() =~= text::decimal(n / 10));
        assert(s.last() == text::digit_char(n % 10));
    }
}

/// The numbers on a command line: ticks of a quarter note and rounds of endless
/// loops, each as it is written.
pub proof fn numbers_are_taken(cli: CliView, n: nat)
    ensures
        n <= 65535 ==> (cli::set_option(cli, "--ppq"@, text::decimal(n)) matches Ok(k) && k.options == (
        OptionsView { ppq: n as u16, ..cli.options }) && k.overrides.ppq == Some(n as u16)),
        n > 65535 ==> cli::set_option(cli, "--ppq"@, text::decimal(n)) is Err,
        n <= 0xffff_ffff ==> (cli::set_option(cli, "--loop-count"@, text::decimal(n)) matches Ok(k)
            && k.options == (OptionsView { loop_count: Some(n as u32), ..cli.options })),
{
    option_names();
    decimal_is_a_number(n);
}

/// The key of `c` in the fourth octave, with or without its name before it, is one
/// of the 128 keys of MIDI.
pub proof fn octave_bases_are_taken(cli: CliView, n: nat)
    ensures
        n <= 127 ==> (cli::set_option(cli, "--octave-base"@, "o4c="@ + text::decimal(n)) matches Ok(k)
            && k.options == (OptionsView { octave_base: n as i32, ..cli.options })),
        n <= 127 ==> (cli::set_option(cli, "--octave-base"@, text::decimal(n)) matches Ok(k) && k.options == (
        OptionsView { octave_base: n as i32, ..cli.options })),
        n > 127 ==> cli::set_option(cli, "--octave-base"@, text::decimal(n)) is Err,
{
    option_names();
    decimal_is_a_number(n);
    reveal_strlit("o4c=");
    let s = "o4c="@ + text::decimal(n);
    assert(s.take(4) =~= "o4c="@);
    assert(s.skip(4) =~= text::decimal(n));
    if text::decimal(n).len() >= 4 {
        assert(text::decimal(n).take(4)[0] == text::decimal(n)[0]);
    }
}

proof fn colon_is_found(a: Seq<char>, s: Seq<char>, i: int)
    requires
        0 <= i <= a.len() < s.len(),
        forall|j: int| 0 <= j < a.len() ==> #[trigger] a[j] != ':' && a[j] == s[j],
        s[a.len() as int] == ':',
    ensures
        text::find_from(s, i, ':') == Some(a.len() as int),
    decreases a.len() - i,
{
    if i < a.len() {
        assert(a[i] != ':');
        colon_is_found(a, s, i + 1);
    }
}

/// The marks of endless loops are named with a colon between them, the one for
/// the start first.
pub proof fn marks_are_taken(cli: CliView, start: Seq<char>, end: Seq<char>)
    requires
        start.len() > 0,
        end.len() > 0,
        forall|j: int| 0 <= j < start.len() ==> #[trigger] start[j] != ':',
    ensures
        cli::set_option(cli, "--loop-marker-name"@, start + seq![':'] + end) matches Ok(k) && k.options
            == (OptionsView { loop_marker_start: start, loop_marker_end: end, ..cli.options }),
{
    option_names();
    let s = start + seq![':'] + end;
    assert forall|j: int| 0 <= j < start.len() implies #[trigger] start[j] != ':' && start[j]
        == s[j] by {}
    assert(s[start.len() as int] == ':');
    colon_is_found(start, s, 0);
    assert(s.take(start.len() as int) =~= start);
    assert(s.skip(start.len() as int + 1) =~= end);
}

/// A switch is on or off as the word behind it says, above any configuration.
pub proof fn switches_are_taken(cli: CliView, value: Seq<char>, on: bool)
    requires
        (on && (value == "on"@ || value == "true"@ || value == "yes"@)) || (!on && (value == "off"@
            || value == "false"@ || value == "no"@)),
    ensures
        cli::set_option(cli, "--manual-smf"@, value) matches Ok(k) && k.overrides == (Overrides {
            manual_smf: Some(on),
            ..cli.overrides
        }) && k.options.smfmap.manual_smf_enabled == on,
        cli::set_option(cli, "--tone-map"@, value) matches Ok(k) && k.overrides == (Overrides {
            tone_map: Some(on),
            ..cli.overrides
        }) && k.options.smfmap.tone_map_enabled == on,
        cli::set_option(cli, "--psg-envelope-map"@, value) matches Ok(k) && k.overrides == (Overrides {
            psg_envelope_map: Some(on),
            ..cli.overrides
        }) && k.options.smfmap.psg_envelope_map_enabled == on,
        cli::set_option(cli, "--psg-noise-drum-map"@, value) matches Ok(k) && k.overrides == (
        Overrides { psg_noise_drum_map: Some(on), ..cli.overrides })
            && k.options.smfmap.psg_noise_drum_map_enabled == on,
{
    option_names();
    reveal_strlit("on");
    reveal_strlit("true");
    reveal_strlit("yes");
    reveal_strlit("off");
    reveal_strlit("false");
    reveal_strlit("no");
    assert("on"@.len() == 2 && "no"@.len() == 2 && "on"@[0] != "no"@[0]);
    assert("yes"@.len() == 3 && "off"@.len() == 3 && "yes"@[0] != "off"@[0]);
    assert("true"@.len() == 4 && "false"@.len() == 5);
}

/// One song is read, and it has to be named; what is named twice is refused.
pub proof fn one_input_is_named(a: Seq<char>, b: Seq<char>)
    requires
        a.len() > 0 && a[0] != '-',
        b.len() > 0 && b[0] != '-',
    ensures
        cli::command_line(seq![a]) matches Ok(k) && k.input == a && k.output is None && k.diagnostics
            is None && k.config_paths.len() == 0 && k.options == OptionsView::initial() && !k.help,
        cli::command_line(Seq::empty()) is Err,
        cli::command_line(seq![a, b]) is Err,
{
    let one = seq![a];
    let two = seq![a, b];
    let none = Seq::<Seq<char>>::empty();
    let start = cli::empty_line(false);
    let named = CliView { input: a, ..start };
    no_help(none);
    no_help(one);
    no_help(two);
    positional(one, 0, start);
    positional(two, 0, start);
    positional(two, 1, named);
    assert(cli::read_args(one, 1, named, true) == Ok::<CliView, Seq<char>>(named));
    assert(cli::read_args(none, 0, start, false) is Err);
}

proof fn no_help(args: Seq<Seq<char>>)
    requires
        forall|i: int| 0 <= i < args.len() ==> (#[trigger] args[i]).len() > 0 && args[i][0] != '-',
    ensures
        !cli::asks_help(args),
{
    reveal_strlit("-h");
    reveal_strlit("--help");
    assert("-h"@[0] == '-' && "--help"@[0] == '-');
}

proof fn positional(args: Seq<Seq<char>>, i: int, cli: CliView)
    requires
        0 <= i < args.len(),
        args[i].len() > 0 && args[i][0] != '-',
    ensures
        cli::read_args(args, i, cli, true) is Err,
        cli::read_args(args, i, cli, false) == cli::read_args(
            args,
            i + 1,
            CliView { input: args[i], ..cli },
            true,
        ),
{
    no_option(args[i]);
}

proof fn no_option(a: Seq<char>)
    requires
        a.len() > 0 && a[0] != '-',
    ensures
        cli::missing_value(a) is None,
        a != "--strict"@,
{
    option_letters();
}

proof fn option_letters()
    ensures
        "-o"@[0] == '-' && "--output"@[0] == '-' && "--config"@[0] == '-' && "--strict"@[0] == '-',
        "--ppq"@[0] == '-' && "--loop-count"@[0] == '-' && "--rhythm-map"@[0] == '-',
        "--manual-smf"@[0] == '-' && "--loop-marker-name"@[0] == '-',
        "--channel-overflow"@[0] == '-' && "--psg-envelope-map"@[0] == '-',
        "--envelope-mode"@[0] == '-' && "--tone-policy"@[0] == '-' && "--octave-base"@[0] == '-',
        "--diagnostics"@[0] == '-' && "--encoding"@[0] == '-' && "--tone-map"@[0] == '-',
        "--emit-config-skeleton"@[0] == '-' && "--psg-noise-drum-map"@[0] == '-',
        "--register-map"@[0] == '-' && "--program-numbering"@[0] == '-',
        "--channel-numbering"@[0] == '-',
{
    reveal_strlit("-o");
    reveal_strlit("--output");
    reveal_strlit("--config");
    reveal_strlit("--strict");
    reveal_strlit("--ppq");
    reveal_strlit("--loop-count");
    reveal_strlit("--rhythm-map");
    reveal_strlit("--manual-smf");
    reveal_strlit("--loop-marker-name");
    reveal_strlit("--channel-overflow");
    reveal_strlit("--psg-envelope-map");
    reveal_strlit("--envelope-mode");
    reveal_strlit("--tone-policy");
    reveal_strlit("--octave-base");
    reveal_strlit("--diagnostics");
    reveal_strlit("--encoding");
    reveal_strlit("--tone-map");
    reveal_strlit("--emit-config-skeleton");
    reveal_strlit("--psg-noise-drum-map");
    reveal_strlit("--register-map");
    reveal_strlit("--program-numbering");
    reveal_strlit("--channel-numbering");
}

/// Configurations named on the command line take the place of those that were
/// found; each is read once, in the order of their first mention.
pub proof fn configurations_are_read_once(
    found: Seq<Seq<char>>,
    explicit: Seq<Seq<char>>,
    path: Seq<char>,
)
    ensures
        ({
            let chosen = cli::chosen_configs(found, explicit);
            &&& forall|i: int, j: int|
                0 <= i < j < chosen.len() ==> #[trigger] chosen[i] != #[trigger] chosen[j]
            &&& explicit.len() > 0 ==> chosen.contains(path) == explicit.contains(path)
            &&& explicit.len() == 0 ==> chosen.contains(path) == found.contains(path)
            &&& explicit.len() > 0 ==> chosen.len() > 0 && chosen[0] == explicit[0]
        }),
{
    distinct_paths(found, found.len() as int, path);
    distinct_paths(explicit, explicit.len() as int, path);
    assert(explicit.take(explicit.len() as int) =~= explicit);
    assert(found.take(found.len() as int) =~= found);
}

proof fn distinct_paths(paths: Seq<Seq<char>>, n: int, path: Seq<char>)
    requires
        0 <= n <= paths.len(),
    ensures
        ({
            let d = cli::distinct(paths, n);
            &&& forall|i: int, j: int|
                0 <= i < j < d.len() ==> #[trigger] d[i] != #[trigger] d[j]
            &&& d.contains(path) == paths.take(n).contains(path)
            &&& n > 0 ==> d.len() > 0 && d[0] == paths[0]
        }),
    decreases n,
{
    if n > 0 {
        distinct_paths(paths, n - 1, path);
        distinct_paths(paths, n - 1, paths[n - 1]);
        let before = cli::distinct(paths, n - 1);
        let d = cli::distinct(paths, n);
        assert(paths.take(n) =~= paths.take(n - 1).push(paths[n - 1]));
        assert(paths.take(n).contains(path) == (paths.take(n - 1).contains(path) || path == paths[n
            - 1])) by {
            let t = paths.take(n - 1);
            let u = t.push(paths[n - 1]);
            if u.contains(path) {
                let i = choose|i: int| 0 <= i < u.len() && u[i] == path;
                if i < t.len() {
                    assert(t[i] == path);
                }
            }
            if t.contains(path) {
                let i = choose|i: int| 0 <= i < t.len() && t[i] == path;
                assert(u[i] == path);
            }
            assert(u[t.len() as int] == paths[n - 1]);
        }
        if !before.contains(paths[n - 1]) {
            assert(d == before.push(paths[n - 1]));
            assert(d.contains(path) == (before.contains(path) || path == paths[n - 1])) by {
                if d.contains(path) {
                    let i = choose|i: int| 0 <= i < d.len() && d[i] == path;
                    if i < before.len() {
                        assert(before[i] == path);
                    }
                }
                if before.contains(path) {
                    let i = choose|i: int| 0 <= i < before.len() && before[i] == path;
                    assert(d[i] == path);
                }
                assert(d[before.len() as int] == paths[n - 1]);
            }
            assert forall|i: int, j: int| 0 <= i < j < d.len() implies #[trigger] d[i]
                != #[trigger] d[j] by {
                if j < before.len() {
                    assert(before[i] != before[j]);
                } else {
                    assert(before[i] == d[i]);
                }
            }
        }
    }
}

} // verus!
