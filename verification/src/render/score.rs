//! The events of a song as they are rendered, with the diagnostics beside them.

use vstd::prelude::*;

use crate::diagnostics::{Diagnostics, DiagnosticsView};
use crate::render::events;
use crate::render::events::{
    KindView, PRI_META, RenderedEvent, RenderedEventKind, RenderedEventView, push_event,
};
use crate::text::copy_text;
use crate::views;

verus! {

/// What has been rendered so far.
pub struct Score {
    pub events: Vec<RenderedEvent>,
    pub diagnostics: Diagnostics,
}

#[verifier::ext_equal]
pub struct ScoreView {
    pub events: Seq<RenderedEventView>,
    pub diagnostics: DiagnosticsView,
}

impl DeepView for Score {
    type V = ScoreView;

    open spec fn deep_view(&self) -> ScoreView {
        ScoreView {
            events: views::all_views(self.events@),
            diagnostics: self.diagnostics.deep_view(),
        }
    }
}

/// A rendering that stopped: why, and what had been reported by then.
#[verifier::ext_equal]
pub struct Failure {
    pub message: Seq<char>,
    pub diagnostics: DiagnosticsView,
}

/// Whether a changed score is the expected one, or the refusal and what was
/// reported before it are.
pub open spec fn score_is(
    expected: Result<ScoreView, Failure>,
    after: ScoreView,
    r: Result<(), String>,
) -> bool {
    match expected {
        Ok(s) => r is Ok && after == s,
        Err(f) => r matches Err(x) && x@ == f.message && after.diagnostics == f.diagnostics,
    }
}

/// A track of the output, a tick and a channel.
#[derive(Clone, Copy, Debug, PartialEq, Eq, Structural)]
pub struct Place {
    pub midi_track: usize,
    pub tick: u64,
    pub channel: u8,
}

impl ScoreView {
    pub open spec fn with(self, p: Place, priority: u8, kind: KindView) -> Self {
        ScoreView { events: self.events.push(events::event(p.midi_track, p.tick, priority, kind)), ..self }
    }

    pub open spec fn plus_events(self, events: Seq<RenderedEventView>) -> Self {
        ScoreView { events: self.events + events, ..self }
    }

    pub open spec fn with_diagnostics(self, diagnostics: DiagnosticsView) -> Self {
        ScoreView { diagnostics, ..self }
    }

    pub open spec fn failed(self, message: Seq<char>) -> Failure {
        Failure { message, diagnostics: self.diagnostics }
    }

    pub open spec fn warned(self, track: Option<Seq<char>>, message: Seq<char>) -> Self {
        self.with_diagnostics(self.diagnostics.with_warning(None, track, message))
    }

    pub open spec fn reported(
        self,
        line: Option<usize>,
        track: Seq<char>,
        command: Seq<char>,
        policy: Seq<char>,
    ) -> Self {
        self.with_diagnostics(
            self.diagnostics.with_unsupported(line, Some(track), command, policy),
        )
    }

    /// A controller set to a value.
    pub open spec fn with_control(self, p: Place, priority: u8, controller: u8, value: u8) -> Self {
        self.with(
            p,
            priority,
            KindView::ControlChange { channel: p.channel, controller, value },
        )
    }

    pub open spec fn with_text(self, p: Place, text: Seq<char>) -> Self {
        self.with(p, PRI_META, KindView::Text(text))
    }
}

impl Score {
    pub fn push(&mut self, p: Place, priority: u8, kind: RenderedEventKind)
        ensures
            final(self).deep_view() == old(self).deep_view().with(p, priority, kind.deep_view()),
    {
        push_event(&mut self.events, p.midi_track, p.tick, priority, kind);
    }

    pub fn warn(&mut self, track: Option<String>, message: &str)
        ensures
            final(self).deep_view() == old(self).deep_view().warned(track.deep_view(), message@),
    {
        self.diagnostics.add_parse_warning(None, track, message);
    }

    pub fn report(&mut self, line: Option<usize>, track: &str, command: &str, policy: &str)
        ensures
            final(self).deep_view() == old(self).deep_view().reported(
                line,
                track@,
                command@,
                policy@,
            ),
    {
        self.diagnostics.add_unsupported(line, Some(copy_text(track)), command, policy);
    }

    pub fn control(&mut self, p: Place, priority: u8, controller: u8, value: u8)
        ensures
            final(self).deep_view() == old(self).deep_view().with_control(
                p,
                priority,
                controller,
                value,
            ),
    {
        self.push(
            p,
            priority,
            RenderedEventKind::ControlChange { channel: p.channel, controller, value },
        );
    }

    pub fn text(&mut self, p: Place, text: &str)
        ensures
            final(self).deep_view() == old(self).deep_view().with_text(p, text@),
    {
        self.push(p, PRI_META, RenderedEventKind::Text(copy_text(text)));
    }
}

} // verus!
