//! A conversion from a loaded source to what is written.

use vstd::prelude::*;

use crate::cli::{Cli, CliView};
use crate::diagnostics::DiagnosticsView;
use crate::ir::{SongIr, SongIrView};
use crate::parser;
use crate::parser::parse_source;
use crate::parser::loader::{LoadedSource, LoadedView};
use crate::render;
use crate::render::render_smf;
use crate::report;
use crate::smfmap::skeleton;
use crate::smfmap::skeleton::emit_config_skeleton;
use crate::text::{copy_opt, copy_text};
use crate::views;
use crate::views::push_viewed;

verus! {

/// What a conversion writes, and how it ends. What is written comes in this
/// order: the skeleton, the MIDI file, the diagnostics.
#[derive(Debug)]
pub struct Conversion {
    pub skeleton: Option<String>,
    pub midi: Option<Vec<u8>>,
    pub diagnostics: Option<String>,
    pub result: Result<(), String>,
}

#[verifier::ext_equal]
pub struct ConversionView {
    pub skeleton: Option<Seq<char>>,
    pub midi: Option<Seq<u8>>,
    pub diagnostics: Option<Seq<char>>,
    pub error: Option<Seq<char>>,
}

impl DeepView for Conversion {
    type V = ConversionView;

    open spec fn deep_view(&self) -> ConversionView {
        ConversionView {
            skeleton: self.skeleton.deep_view(),
            midi: match self.midi {
                Some(bytes) => Some(bytes@),
                None => None,
            },
            diagnostics: self.diagnostics.deep_view(),
            error: match self.result {
                Ok(_) => None,
                Err(e) => Some(e@),
            },
        }
    }
}

impl ConversionView {
    pub open spec fn failed(skeleton: Option<Seq<char>>, error: Seq<char>) -> Self {
        ConversionView { skeleton, midi: None, diagnostics: None, error: Some(error) }
    }
}

/// The first `n` warnings of the loader.
pub open spec fn with_warnings(d: DiagnosticsView, warnings: Seq<Seq<char>>, n: int) ->
    DiagnosticsView
    decreases n,
{
    if n <= 0 || n > warnings.len() {
        d
    } else {
        with_warnings(d, warnings, n - 1).with_warning(None, None, warnings[n - 1])
    }
}

/// A song with what is known of its files.
pub open spec fn labelled(
    song: SongIrView,
    cli: CliView,
    loaded: LoadedView,
    config_files: Seq<Seq<char>>,
) -> SongIrView {
    let d = DiagnosticsView {
        input_file: Some(cli.input),
        output_file: cli.output,
        config_files,
        ppq: cli.options.ppq,
        encoding: Some(loaded.encoding_used),
        ..song.diagnostics
    };
    song.with_diagnostics(with_warnings(d, loaded.warnings, loaded.warnings.len() as int))
}

pub open spec fn has_warned(d: DiagnosticsView) -> bool {
    d.parse_warnings.len() > 0 || d.unsupported_commands.len() > 0
}

/// The diagnostics, if they are asked for.
pub open spec fn report_of(cli: CliView, song: SongIrView, d: DiagnosticsView) -> Option<Seq<char>> {
    if cli.diagnostics is Some {
        Some(report::report_json(d, song.tempo_events))
    } else {
        None
    }
}

/// The rest of a conversion, from a song with its labels. Without an output a
/// skeleton is all that is asked for; a strict conversion ends at the first
/// stage that warns.
pub open spec fn converted_song(song: SongIrView, cli: CliView) -> ConversionView {
    let writes = skeleton::song_writes(song);
    let skeleton = if cli.emit_config_skeleton is Some {
        Some(
            skeleton::skeleton(
                skeleton::song_usages(song, song.tracks.len() as int),
                skeleton::in_order(writes, writes.len() as int),
            ),
        )
    } else {
        None
    };
    if skeleton is Some && cli.output is None {
        ConversionView {
            skeleton,
            midi: None,
            diagnostics: report_of(cli, song, song.diagnostics),
            error: None,
        }
    } else if cli.options.strict && has_warned(song.diagnostics) {
        ConversionView {
            skeleton,
            midi: None,
            diagnostics: report_of(cli, song, song.diagnostics),
            error: Some("strict mode rejected warnings before rendering"@),
        }
    } else {
        match render::rendered_file(song, cli.options) {
            Err(f) => ConversionView::failed(skeleton, f.message),
            Ok((midi, d)) => if cli.options.strict && has_warned(d) {
                ConversionView {
                    skeleton,
                    midi: None,
                    diagnostics: report_of(cli, song, d),
                    error: Some("strict mode rejected warnings during rendering"@),
                }
            } else if cli.output is None {
                ConversionView::failed(skeleton, "missing output path; use -o output.mid"@)
            } else {
                ConversionView {
                    skeleton,
                    midi: Some(midi),
                    diagnostics: report_of(cli, song, d),
                    error: None,
                }
            },
        }
    }
}

/// A conversion.
pub open spec fn converted(cli: CliView, loaded: LoadedView, config_files: Seq<Seq<char>>) ->
    ConversionView {
    match parser::parsed(loaded.text, cli.options) {
        Err(e) => ConversionView::failed(None, e),
        Ok(song) => converted_song(labelled(song, cli, loaded, config_files), cli),
    }
}

fn label_song(song: &mut SongIr, cli: &Cli, loaded: &LoadedSource, config_files: &[String])
    ensures
        final(song).deep_view() == labelled(
            old(song).deep_view(),
            cli.deep_view(),
            loaded.deep_view(),
            views::all_views(config_files@),
        ),
{
    let mut files: Vec<String> = Vec::new();
    let mut i: usize = 0;
    assert(views::all_views(files@) =~= views::all_views(config_files@).take(0));
    while i < config_files.len()
        invariant
            i <= config_files@.len(),
            views::all_views(files@) == views::all_views(config_files@).take(i as int),
        decreases config_files@.len() - i,
    {
        push_viewed(&mut files, copy_text(config_files[i].as_str()));
        assert(views::all_views(files@) =~= views::all_views(config_files@).take(i + 1));
        i += 1;
    }
    assert(views::all_views(config_files@).take(i as int) =~= views::all_views(config_files@));
    song.diagnostics.input_file = Some(copy_text(cli.input.as_str()));
    song.diagnostics.output_file = copy_opt(&cli.output);
    song.diagnostics.config_files = files;
    song.diagnostics.ppq = cli.options.ppq;
    song.diagnostics.encoding = Some(copy_text(loaded.encoding_used.as_str()));
    let ghost start = song.deep_view();
    let ghost warnings = loaded.deep_view().warnings;
    let mut k: usize = 0;
    while k < loaded.warnings.len()
        invariant
            k <= loaded.warnings@.len(),
            warnings == views::all_views(loaded.warnings@),
            song.deep_view() == start.with_diagnostics(
                with_warnings(start.diagnostics, warnings, k as int),
            ),
        decreases loaded.warnings@.len() - k,
    {
        assert(warnings[k as int] == loaded.warnings@[k as int]@);
        song.diagnostics.add_parse_warning(None, None, loaded.warnings[k].as_str());
        k += 1;
    }
}

fn make_report(cli: &Cli, song: &SongIr) -> (r: Option<String>)
    ensures
        r.deep_view() == report_of(
            cli.deep_view(),
            song.deep_view(),
            song.deep_view().diagnostics,
        ),
{
    if cli.diagnostics.is_some() {
        Some(song.diagnostics.to_json(song.tempo_events.as_slice()))
    } else {
        None
    }
}

fn convert_song(song: &mut SongIr, cli: &Cli) -> (r: Conversion)
    ensures
        r.deep_view() == converted_song(old(song).deep_view(), cli.deep_view()),
{
    let skeleton = if cli.emit_config_skeleton.is_some() {
        Some(emit_config_skeleton(song))
    } else {
        None
    };
    if skeleton.is_some() && cli.output.is_none() {
        return Conversion {
            skeleton,
            midi: None,
            diagnostics: make_report(cli, song),
            result: Ok(()),
        };
    }
    if cli.options.strict && song.diagnostics.has_warnings() {
        return Conversion {
            skeleton,
            midi: None,
            diagnostics: make_report(cli, song),
            result: Err(copy_text("strict mode rejected warnings before rendering")),
        };
    }
    let midi = match render_smf(song, &cli.options) {
        Ok(midi) => midi,
        Err(e) => {
            return Conversion { skeleton, midi: None, diagnostics: None, result: Err(e) };
        },
    };
    if cli.options.strict && song.diagnostics.has_warnings() {
        return Conversion {
            skeleton,
            midi: None,
            diagnostics: make_report(cli, song),
            result: Err(copy_text("strict mode rejected warnings during rendering")),
        };
    }
    if cli.output.is_none() {
        return Conversion {
            skeleton,
            midi: None,
            diagnostics: None,
            result: Err(copy_text("missing output path; use -o output.mid")),
        };
    }
    Conversion {
        skeleton,
        midi: Some(midi),
        diagnostics: make_report(cli, song),
        result: Ok(()),
    }
}

/// Converts a loaded source as a command line asks for.
pub fn convert(cli: &Cli, loaded: &LoadedSource, config_files: &[String]) -> (r: Conversion)
    ensures
        r.deep_view() == converted(
            cli.deep_view(),
            loaded.deep_view(),
            views::all_views(config_files@),
        ),
{
    match parse_source(loaded.text.as_str(), &cli.options) {
        Err(e) => Conversion { skeleton: None, midi: None, diagnostics: None, result: Err(e) },
        Ok(song) => {
            let mut song = song;
            label_song(&mut song, cli, loaded, config_files);
            convert_song(&mut song, cli)
        },
    }
}

/// A strict conversion never writes a MIDI file with warnings: where the source
/// or its rendering warns, there is an error and no file.
pub proof fn strict_refuses_warnings(song: SongIrView, cli: CliView)
    requires
        cli.options.strict,
    ensures
        converted_song(song, cli).midi is Some ==> !has_warned(song.diagnostics) && (render::rendered_file(
            song,
            cli.options,
        ) matches Ok((_, d)) && !has_warned(d)),
        cli.output is Some && has_warned(song.diagnostics) ==> converted_song(
            song,
            cli,
        ).error is Some,
{
}

/// A MIDI file is written exactly when the conversion succeeds and an output is
/// named.
pub proof fn success_writes_the_output(song: SongIrView, cli: CliView)
    ensures
        converted_song(song, cli).midi is Some <==> (cli.output is Some && converted_song(
            song,
            cli,
        ).error is None),
{
}

} // verus!
