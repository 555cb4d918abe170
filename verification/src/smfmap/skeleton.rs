//! A configuration to start from, that lists what a song uses.

use vstd::prelude::*;

use crate::ir::{
    AtSpelling, ECommand, EnvelopeEView, EnvelopeTable, EnvelopeTableView, IrEvent, IrEventView,
    RegisterContext, SongIr, SongIrView, SourceFamily, TrackIrView,
};
use crate::text;
use crate::text::{chars_of, clamp_i64, copy_text, number_text, same_text};
use crate::views;
use crate::views::push_viewed;

verus! {

// ---------------------------------------------------------------------------
// What a song uses
// ---------------------------------------------------------------------------
/// An envelope or a tone that a track selects.
#[derive(Clone, Copy, Debug, PartialEq, Eq, Structural)]
pub enum Usage {
    PsgEnvelope(u8),
    Tone(SourceFamily, u8),
    Envelope(SourceFamily, u8, AtSpelling),
}

/// The tones that an envelope switches to.
pub open spec fn envelope_tones(family: SourceFamily, commands: Seq<ECommand>, n: int) -> Seq<Usage>
    decreases n,
{
    if n <= 0 || n > commands.len() {
        Seq::empty()
    } else {
        let before = envelope_tones(family, commands, n - 1);
        match commands[n - 1] {
            ECommand::ToneChange(tone) => before.push(Usage::Tone(family, tone)),
            _ => before,
        }
    }
}

/// What an `@` command uses.
pub open spec fn at_usages(
    family: SourceFamily,
    number: u8,
    spelling: AtSpelling,
    envelopes: EnvelopeTableView,
) -> Seq<Usage> {
    match family {
        SourceFamily::Psg | SourceFamily::PsgNoise => seq![Usage::PsgEnvelope(number)],
        SourceFamily::Rhythm => Seq::empty(),
        SourceFamily::Scc | SourceFamily::Opll => if spelling == AtSpelling::At {
            seq![Usage::Tone(family, number)]
        } else if spelling == AtSpelling::AtE && envelopes.e.contains_key(number) {
            let commands = envelopes.e[number].commands;
            seq![Usage::Envelope(family, number, spelling)] + envelope_tones(
                family,
                commands,
                commands.len() as int,
            )
        } else {
            seq![Usage::Envelope(family, number, spelling)]
        },
    }
}

/// What the first `n` events of a track use.
pub open spec fn track_usages(
    events: Seq<IrEventView>,
    n: int,
    envelopes: EnvelopeTableView,
) -> Seq<Usage>
    decreases n,
{
    if n <= 0 || n > events.len() {
        Seq::empty()
    } else {
        let before = track_usages(events, n - 1, envelopes);
        match events[n - 1] {
            IrEventView::AtCommand { family, number, spelling, .. } => before + at_usages(
                family,
                number,
                spelling,
                envelopes,
            ),
            _ => before,
        }
    }
}

/// What the first `n` tracks of a song use.
pub open spec fn song_usages(song: SongIrView, n: int) -> Seq<Usage>
    decreases n,
{
    if n <= 0 || n > song.tracks.len() {
        Seq::empty()
    } else {
        let events = song.tracks[n - 1].events;
        song_usages(song, n - 1) + track_usages(events, events.len() as int, song.envelopes)
    }
}

fn push_envelope_tones(out: &mut Vec<Usage>, family: SourceFamily, commands: &[ECommand])
    ensures
        final(out)@ == old(out)@ + envelope_tones(family, commands@, commands@.len() as int),
{
    let mut i: usize = 0;
    assert(out@ + Seq::<Usage>::empty() =~= out@);
    while i < commands.len()
        invariant
            i <= commands@.len(),
            out@ == old(out)@ + envelope_tones(family, commands@, i as int),
        decreases commands@.len() - i,
    {
        let ghost before = envelope_tones(family, commands@, i as int);
        if let ECommand::ToneChange(tone) = commands[i] {
            out.push(Usage::Tone(family, tone));
            assert(out@ =~= old(out)@ + before.push(Usage::Tone(family, tone)));
        }
        i += 1;
    }
}

fn push_at_usages(
    out: &mut Vec<Usage>,
    family: SourceFamily,
    number: u8,
    spelling: AtSpelling,
    envelopes: &EnvelopeTable,
)
    ensures
        final(out)@ == old(out)@ + at_usages(family, number, spelling, envelopes.deep_view()),
{
    match family {
        SourceFamily::Psg | SourceFamily::PsgNoise => {
            out.push(Usage::PsgEnvelope(number));
        },
        SourceFamily::Rhythm => {},
        SourceFamily::Scc | SourceFamily::Opll => {
            if spelling == AtSpelling::At {
                out.push(Usage::Tone(family, number));
            } else {
                out.push(Usage::Envelope(family, number, spelling));
                if spelling == AtSpelling::AtE {
                    if let Some(envelope) = envelopes.e.get(&number) {
                        push_envelope_tones(out, family, envelope.commands.as_slice());
                    }
                }
            }
        },
    }
    assert(out@ =~= old(out)@ + at_usages(family, number, spelling, envelopes.deep_view()));
}

fn push_track_usages(out: &mut Vec<Usage>, events: &[IrEvent], envelopes: &EnvelopeTable)
    ensures
        final(out)@ == old(out)@ + track_usages(
            views::all_views(events@),
            events@.len() as int,
            envelopes.deep_view(),
        ),
{
    let ghost all = views::all_views(events@);
    let mut i: usize = 0;
    assert(out@ + Seq::<Usage>::empty() =~= out@);
    while i < events.len()
        invariant
            i <= events@.len(),
            all == views::all_views(events@),
            out@ == old(out)@ + track_usages(all, i as int, envelopes.deep_view()),
        decreases events@.len() - i,
    {
        assert(all[i as int] == events@[i as int].deep_view());
        let ghost before = track_usages(all, i as int, envelopes.deep_view());
        if let IrEvent::AtCommand { family, number, spelling, .. } = &events[i] {
            push_at_usages(out, *family, *number, *spelling, envelopes);
            assert(out@ =~= old(out)@ + (before + at_usages(
                *family,
                *number,
                *spelling,
                envelopes.deep_view(),
            )));
        }
        i += 1;
    }
}

fn usages_of(song: &SongIr) -> (r: Vec<Usage>)
    ensures
        r@ == song_usages(song.deep_view(), song.deep_view().tracks.len() as int),
{
    let ghost view = song.deep_view();
    let mut out: Vec<Usage> = Vec::new();
    let mut i: usize = 0;
    while i < song.tracks.len()
        invariant
            i <= song.tracks@.len(),
            view == song.deep_view(),
            out@ == song_usages(view, i as int),
        decreases song.tracks@.len() - i,
    {
        assert(view.tracks[i as int] == song.tracks@[i as int].deep_view());
        push_track_usages(&mut out, song.tracks[i].events.as_slice(), &song.envelopes);
        i += 1;
    }
    out
}

fn is_used(usages: &[Usage], usage: Usage) -> (r: bool)
    ensures
        r == usages@.contains(usage),
{
    let mut i: usize = 0;
    while i < usages.len()
        invariant
            i <= usages@.len(),
            forall|k: int| 0 <= k < i ==> usages@[k] != usage,
        decreases usages@.len() - i,
    {
        if usages[i] == usage {
            return true;
        }
        i += 1;
    }
    false
}

// ---------------------------------------------------------------------------
// Register writes, in order
// ---------------------------------------------------------------------------
/// A register write, and where it was seen.
#[derive(Debug)]
pub struct RegisterUse {
    pub family: SourceFamily,
    pub track: String,
    pub register: u8,
    pub data: u8,
    pub context: RegisterContext,
}

#[verifier::ext_equal]
pub struct RegisterUseView {
    pub family: SourceFamily,
    pub track: Seq<char>,
    pub register: u8,
    pub data: u8,
    pub context: RegisterContext,
}

impl DeepView for RegisterUse {
    type V = RegisterUseView;

    open spec fn deep_view(&self) -> RegisterUseView {
        RegisterUseView {
            family: self.family,
            track: self.track@,
            register: self.register,
            data: self.data,
            context: self.context,
        }
    }
}

/// The order of texts: by the first character in which they differ.
pub open spec fn text_before(a: Seq<char>, b: Seq<char>) -> bool
    decreases a.len(),
{
    if b.len() == 0 {
        false
    } else if a.len() == 0 {
        true
    } else if a[0] != b[0] {
        a[0] < b[0]
    } else {
        text_before(a.skip(1), b.skip(1))
    }
}

pub open spec fn family_rank(family: SourceFamily) -> int {
    match family {
        SourceFamily::Psg => 0,
        SourceFamily::PsgNoise => 1,
        SourceFamily::Scc => 2,
        SourceFamily::Opll => 3,
        SourceFamily::Rhythm => 4,
    }
}

pub open spec fn context_rank(context: RegisterContext) -> int {
    match context {
        RegisterContext::NormalMml => 0,
        RegisterContext::EnvelopeData => 1,
    }
}

/// The order of register writes: by family, track, register, data and place.
pub open spec fn write_before(a: RegisterUseView, b: RegisterUseView) -> bool {
    if a.family != b.family {
        family_rank(a.family) < family_rank(b.family)
    } else if a.track != b.track {
        text_before(a.track, b.track)
    } else if a.register != b.register {
        a.register < b.register
    } else if a.data != b.data {
        a.data < b.data
    } else {
        context_rank(a.context) < context_rank(b.context)
    }
}

/// An ordered list with a write put in its place, from place `i` on.
pub open spec fn put_in(s: Seq<RegisterUseView>, i: int, x: RegisterUseView) -> Seq<RegisterUseView>
    decreases s.len() - i,
{
    if i < 0 || i >= s.len() {
        s.push(x)
    } else if s[i] == x {
        s
    } else if write_before(x, s[i]) {
        s.insert(i, x)
    } else {
        put_in(s, i + 1, x)
    }
}

/// The writes in order, each once.
pub open spec fn in_order(writes: Seq<RegisterUseView>, n: int) -> Seq<RegisterUseView>
    decreases n,
{
    if n <= 0 || n > writes.len() {
        Seq::empty()
    } else {
        put_in(in_order(writes, n - 1), 0, writes[n - 1])
    }
}

/// The register writes among the first `n` events of a track.
pub open spec fn track_writes(events: Seq<IrEventView>, n: int) -> Seq<RegisterUseView>
    decreases n,
{
    if n <= 0 || n > events.len() {
        Seq::empty()
    } else {
        let before = track_writes(events, n - 1);
        match events[n - 1] {
            IrEventView::RegisterWrite { track, family, register, data, context, .. } => before.push(
                RegisterUseView { family, track, register, data, context },
            ),
            _ => before,
        }
    }
}

pub open spec fn tracks_writes(tracks: Seq<TrackIrView>, n: int) -> Seq<RegisterUseView>
    decreases n,
{
    if n <= 0 || n > tracks.len() {
        Seq::empty()
    } else {
        let events = tracks[n - 1].events;
        tracks_writes(tracks, n - 1) + track_writes(events, events.len() as int)
    }
}

/// The register writes among the first `n` commands of an envelope.
pub open spec fn envelope_writes(commands: Seq<ECommand>, n: int) -> Seq<RegisterUseView>
    decreases n,
{
    if n <= 0 || n > commands.len() {
        Seq::empty()
    } else {
        let before = envelope_writes(commands, n - 1);
        match commands[n - 1] {
            ECommand::RegisterWrite { register, data } => before.push(
                RegisterUseView {
                    family: SourceFamily::Opll,
                    track: "*"@,
                    register: text::clamp_int(register as int, 0, 255) as u8,
                    data: text::clamp_int(data as int, 0, 255) as u8,
                    context: RegisterContext::EnvelopeData,
                },
            ),
            _ => before,
        }
    }
}

/// The register writes of the `@e` envelopes with numbers below `n`.
pub open spec fn envelopes_writes(envelopes: Map<u8, EnvelopeEView>, n: int) -> Seq<RegisterUseView>
    decreases n,
{
    if n <= 0 || n > 256 {
        Seq::empty()
    } else {
        let before = envelopes_writes(envelopes, n - 1);
        let id = (n - 1) as u8;
        if envelopes.contains_key(id) {
            before + envelope_writes(envelopes[id].commands, envelopes[id].commands.len() as int)
        } else {
            before
        }
    }
}

/// Every register write of a song.
pub open spec fn song_writes(song: SongIrView) -> Seq<RegisterUseView> {
    tracks_writes(song.tracks, song.tracks.len() as int) + envelopes_writes(song.envelopes.e, 256)
}

pub proof fn text_before_total(a: Seq<char>, b: Seq<char>)
    requires
        a != b,
    ensures
        text_before(a, b) || text_before(b, a),
    decreases a.len(),
{
    if a.len() > 0 && b.len() > 0 && a[0] == b[0] {
        if a.skip(1) == b.skip(1) {
            assert(a =~= seq![a[0]] + a.skip(1));
            assert(b =~= seq![b[0]] + b.skip(1));
        }
        text_before_total(a.skip(1), b.skip(1));
    } else if a.len() == 0 && b.len() == 0 {
        assert(a =~= b);
    }
}

pub proof fn text_before_chains(a: Seq<char>, b: Seq<char>, c: Seq<char>)
    requires
        text_before(a, b),
        text_before(b, c),
    ensures
        text_before(a, c),
    decreases a.len(),
{
    if a.len() > 0 && a[0] == b[0] && b[0] == c[0] {
        text_before_chains(a.skip(1), b.skip(1), c.skip(1));
    }
}

pub proof fn text_before_is_strict(a: Seq<char>)
    ensures
        !text_before(a, a),
    decreases a.len(),
{
    if a.len() > 0 {
        text_before_is_strict(a.skip(1));
    }
}

pub proof fn write_before_total(a: RegisterUseView, b: RegisterUseView)
    requires
        a != b,
    ensures
        write_before(a, b) || write_before(b, a),
{
    if a.family == b.family && a.track != b.track {
        text_before_total(a.track, b.track);
    }
}

pub proof fn write_before_chains(a: RegisterUseView, b: RegisterUseView, c: RegisterUseView)
    requires
        write_before(a, b),
        write_before(b, c),
    ensures
        write_before(a, c),
{
    if a.family == b.family && b.family == c.family && a.track != b.track && b.track != c.track {
        text_before_chains(a.track, b.track, c.track);
        if a.track == c.track {
            text_before_is_strict(a.track);
        }
    }
}

/// Every write stands before all that follow it.
pub open spec fn ascending(s: Seq<RegisterUseView>) -> bool {
    forall|i: int, j: int| 0 <= i < j < s.len() ==> write_before(#[trigger] s[i], #[trigger] s[j])
}

proof fn put_in_keeps_order(s: Seq<RegisterUseView>, i: int, x: RegisterUseView)
    requires
        ascending(s),
        0 <= i <= s.len(),
        forall|k: int| 0 <= k < i ==> write_before(#[trigger] s[k], x),
    ensures
        ascending(put_in(s, i, x)),
        forall|y: RegisterUseView|
            put_in(s, i, x).contains(y) <==> (#[trigger] s.contains(y) || y == x),
    decreases s.len() - i,
{
    if i >= s.len() {
        assert(s.push(x)[s.len() as int] == x);
        assert forall|y: RegisterUseView| s.push(x).contains(y) <==> (#[trigger] s.contains(y) || y
            == x) by {
            if s.contains(y) {
                let k = choose|k: int| 0 <= k < s.len() && s[k] == y;
                assert(s.push(x)[k] == y);
            }
        }
    } else if s[i] == x {
    } else if write_before(x, s[i]) {
        let t = s.insert(i, x);
        assert(t[i] == x);
        assert forall|a: int, b: int| 0 <= a < b < t.len() implies write_before(
            #[trigger] t[a],
            #[trigger] t[b],
        ) by {
            if a == i {
                if b - 1 > i {
                    write_before_chains(x, s[i], s[b - 1]);
                }
            }
        }
        assert forall|y: RegisterUseView| t.contains(y) <==> (#[trigger] s.contains(y) || y == x) by {
            if s.contains(y) {
                let k = choose|k: int| 0 <= k < s.len() && s[k] == y;
                assert(t[if k < i {
                    k
                } else {
                    k + 1
                }] == y);
            }
            if t.contains(y) && y != x {
                let k = choose|k: int| 0 <= k < t.len() && t[k] == y;
                assert(s[if k < i {
                    k
                } else {
                    k - 1
                }] == y);
            }
        }
    } else {
        write_before_total(x, s[i]);
        put_in_keeps_order(s, i + 1, x);
    }
}

/// The listed writes ascend, and they are the writes that occur: each is listed
/// once, and nothing else is.
pub proof fn in_order_lists_each_once(writes: Seq<RegisterUseView>, n: int)
    requires
        0 <= n <= writes.len(),
    ensures
        ascending(in_order(writes, n)),
        forall|y: RegisterUseView|
            in_order(writes, n).contains(y) <==> #[trigger] writes.take(n).contains(y),
    decreases n,
{
    if n > 0 {
        in_order_lists_each_once(writes, n - 1);
        put_in_keeps_order(in_order(writes, n - 1), 0, writes[n - 1]);
        let x = writes[n - 1];
        assert forall|y: RegisterUseView|
            in_order(writes, n).contains(y) <==> #[trigger] writes.take(n).contains(y) by {
            let s = in_order(writes, n - 1);
            let less = writes.take(n - 1);
            assert(put_in(s, 0, x).contains(y) <==> (s.contains(y) || y == x));
            assert(s.contains(y) <==> less.contains(y));
            if less.contains(y) {
                let k = choose|k: int| 0 <= k < n - 1 && less[k] == y;
                assert(writes.take(n)[k] == y);
            }
            if y == x {
                assert(writes.take(n)[n - 1] == y);
            }
            if writes.take(n).contains(y) && y != x {
                let more = writes.take(n);
                let k = choose|k: int| 0 <= k < n && more[k] == y;
                assert(less[k] == y);
            }
        }
    } else {
        assert(in_order(writes, n) =~= writes.take(n));
    }
}

fn is_text_before(a: &[char], b: &[char]) -> (r: bool)
    ensures
        r == text_before(a@, b@),
{
    let mut i: usize = 0;
    assert(a@.skip(0) =~= a@ && b@.skip(0) =~= b@);
    while i < a.len() && i < b.len() && a[i] == b[i]
        invariant
            i <= a@.len(),
            i <= b@.len(),
            text_before(a@, b@) == text_before(a@.skip(i as int), b@.skip(i as int)),
        decreases a@.len() - i,
    {
        assert(a@.skip(i as int).skip(1) =~= a@.skip(i + 1));
        assert(b@.skip(i as int).skip(1) =~= b@.skip(i + 1));
        i += 1;
    }
    if i >= b.len() {
        false
    } else if i >= a.len() {
        true
    } else {
        a[i] < b[i]
    }
}

fn rank_of_family(family: SourceFamily) -> (r: u8)
    ensures
        r == family_rank(family),
{
    match family {
        SourceFamily::Psg => 0,
        SourceFamily::PsgNoise => 1,
        SourceFamily::Scc => 2,
        SourceFamily::Opll => 3,
        SourceFamily::Rhythm => 4,
    }
}

fn is_write_before(a: &RegisterUse, b: &RegisterUse) -> (r: bool)
    ensures
        r == write_before(a.deep_view(), b.deep_view()),
{
    if a.family != b.family {
        return rank_of_family(a.family) < rank_of_family(b.family);
    }
    if !same_text(a.track.as_str(), b.track.as_str()) {
        let x = chars_of(a.track.as_str());
        let y = chars_of(b.track.as_str());
        return is_text_before(x.as_slice(), y.as_slice());
    }
    if a.register != b.register {
        a.register < b.register
    } else if a.data != b.data {
        a.data < b.data
    } else {
        a.context == RegisterContext::NormalMml && b.context == RegisterContext::EnvelopeData
    }
}

fn same_write(a: &RegisterUse, b: &RegisterUse) -> (r: bool)
    ensures
        r == (a.deep_view() == b.deep_view()),
{
    a.family == b.family && same_text(a.track.as_str(), b.track.as_str()) && a.register
        == b.register && a.data == b.data && a.context == b.context
}

fn put_write(writes: &mut Vec<RegisterUse>, x: RegisterUse)
    ensures
        views::all_views(final(writes)@) == put_in(views::all_views(old(writes)@), 0, x.deep_view()),
{
    let ghost before = views::all_views(writes@);
    let mut i: usize = 0;
    while i < writes.len()
        invariant
            i <= writes@.len(),
            writes@ == old(writes)@,
            before == views::all_views(writes@),
            put_in(before, 0, x.deep_view()) == put_in(before, i as int, x.deep_view()),
        decreases writes@.len() - i,
    {
        assert(before[i as int] == writes@[i as int].deep_view());
        if same_write(&writes[i], &x) {
            return;
        }
        if is_write_before(&x, &writes[i]) {
            writes.insert(i, x);
            assert(views::all_views(writes@) =~= before.insert(i as int, x.deep_view()));
            return;
        }
        i += 1;
    }
    push_viewed(writes, x);
}

fn put_track_writes(out: &mut Vec<RegisterUse>, events: &[IrEvent], Ghost(all): Ghost<Seq<RegisterUseView>>)
    requires
        views::all_views(old(out)@) == in_order(all, all.len() as int),
    ensures
        ({
            let writes = all + track_writes(views::all_views(events@), events@.len() as int);
            views::all_views(final(out)@) == in_order(writes, writes.len() as int)
        }),
{
    let ghost view = views::all_views(events@);
    let mut i: usize = 0;
    assert(all + Seq::<RegisterUseView>::empty() =~= all);
    while i < events.len()
        invariant
            i <= events@.len(),
            view == views::all_views(events@),
            ({
                let writes = all + track_writes(view, i as int);
                views::all_views(out@) == in_order(writes, writes.len() as int)
            }),
        decreases events@.len() - i,
    {
        assert(view[i as int] == events@[i as int].deep_view());
        let ghost before = all + track_writes(view, i as int);
        if let IrEvent::RegisterWrite { source_track, family, register, data, context, .. } =
            &events[i] {
            let x = RegisterUse {
                family: *family,
                track: copy_text(source_track.as_str()),
                register: *register,
                data: *data,
                context: *context,
            };
            let ghost xv = x.deep_view();
            put_write(out, x);
            proof {
                in_order_grows(before, xv);
                assert(before.push(xv) =~= all + track_writes(view, i + 1));
            }
        }
        i += 1;
    }
}

proof fn in_order_prefix(a: Seq<RegisterUseView>, b: Seq<RegisterUseView>, n: int)
    requires
        0 <= n <= a.len(),
        n <= b.len(),
        forall|k: int| 0 <= k < n ==> a[k] == b[k],
    ensures
        in_order(a, n) == in_order(b, n),
    decreases n,
{
    if n > 0 {
        in_order_prefix(a, b, n - 1);
    }
}

proof fn in_order_grows(s: Seq<RegisterUseView>, x: RegisterUseView)
    ensures
        in_order(s.push(x), s.len() as int + 1) == put_in(in_order(s, s.len() as int), 0, x),
{
    in_order_prefix(s, s.push(x), s.len() as int);
}

fn clamped_byte(v: i32) -> (r: u8)
    ensures
        r == text::clamp_int(v as int, 0, 255) as u8,
{
    clamp_i64(v as i64, 0, 255) as u8
}

fn put_envelope_writes(
    out: &mut Vec<RegisterUse>,
    commands: &[ECommand],
    Ghost(all): Ghost<Seq<RegisterUseView>>,
)
    requires
        views::all_views(old(out)@) == in_order(all, all.len() as int),
    ensures
        ({
            let writes = all + envelope_writes(commands@, commands@.len() as int);
            views::all_views(final(out)@) == in_order(writes, writes.len() as int)
        }),
{
    let mut i: usize = 0;
    assert(all + Seq::<RegisterUseView>::empty() =~= all);
    while i < commands.len()
        invariant
            i <= commands@.len(),
            ({
                let writes = all + envelope_writes(commands@, i as int);
                views::all_views(out@) == in_order(writes, writes.len() as int)
            }),
        decreases commands@.len() - i,
    {
        let ghost before = all + envelope_writes(commands@, i as int);
        if let ECommand::RegisterWrite { register, data } = &commands[i] {
            let x = RegisterUse {
                family: SourceFamily::Opll,
                track: copy_text("*"),
                register: clamped_byte(*register),
                data: clamped_byte(*data),
                context: RegisterContext::EnvelopeData,
            };
            let ghost xv = x.deep_view();
            put_write(out, x);
            proof {
                in_order_grows(before, xv);
                assert(before.push(xv) =~= all + envelope_writes(commands@, i + 1));
            }
        }
        i += 1;
    }
}

fn writes_of(song: &SongIr) -> (r: Vec<RegisterUse>)
    ensures
        views::all_views(r@) == in_order(
            song_writes(song.deep_view()),
            song_writes(song.deep_view()).len() as int,
        ),
{
    let ghost view = song.deep_view();
    let mut out: Vec<RegisterUse> = Vec::new();
    assert(views::all_views(out@) =~= Seq::empty());
    let mut i: usize = 0;
    while i < song.tracks.len()
        invariant
            i <= song.tracks@.len(),
            view == song.deep_view(),
            ({
                let writes = tracks_writes(view.tracks, i as int);
                views::all_views(out@) == in_order(writes, writes.len() as int)
            }),
        decreases song.tracks@.len() - i,
    {
        assert(view.tracks[i as int] == song.tracks@[i as int].deep_view());
        put_track_writes(
            &mut out,
            song.tracks[i].events.as_slice(),
            Ghost(tracks_writes(view.tracks, i as int)),
        );
        i += 1;
    }
    let ghost first = tracks_writes(view.tracks, view.tracks.len() as int);
    assert(first + Seq::<RegisterUseView>::empty() =~= first);
    let mut id: u16 = 0;
    while id < 256
        invariant
            id <= 256,
            view == song.deep_view(),
            first == tracks_writes(view.tracks, view.tracks.len() as int),
            ({
                let writes = first + envelopes_writes(view.envelopes.e, id as int);
                views::all_views(out@) == in_order(writes, writes.len() as int)
            }),
        decreases 256 - id,
    {
        let number: u8 = id as u8;
        let ghost before = first + envelopes_writes(view.envelopes.e, id as int);
        if let Some(envelope) = song.envelopes.e.get(&number) {
            assert(view.envelopes.e[number] == envelope.deep_view());
            put_envelope_writes(&mut out, envelope.commands.as_slice(), Ghost(before));
            assert(before + envelope_writes(envelope.commands@, envelope.commands@.len() as int)
                =~= first + envelopes_writes(view.envelopes.e, id + 1));
        } else {
            assert(!view.envelopes.e.contains_key(number));
        }
        id += 1;
    }
    out
}

// ---------------------------------------------------------------------------
// The text
// ---------------------------------------------------------------------------
pub open spec fn psg_line(id: u8) -> Seq<char> {
    "    \""@ + text::decimal(id as nat) + "\":\n      name: \"PSG envelope @"@ + text::decimal(id as nat)
        + "\"\n"@
}

pub open spec fn psg_lines(usages: Seq<Usage>, n: int) -> Seq<char>
    decreases n,
{
    if n <= 0 || n > 256 {
        Seq::empty()
    } else {
        let id = (n - 1) as u8;
        psg_lines(usages, n - 1) + if usages.contains(Usage::PsgEnvelope(id)) {
            psg_line(id)
        } else {
            Seq::empty()
        }
    }
}

pub open spec fn tone_line(label: Seq<char>, id: u8) -> Seq<char> {
    "      \""@ + text::decimal(id as nat) + "\":\n        name: \""@ + label + " @"@ + text::decimal(id as nat)
        + "\"\n        events: []\n"@
}

pub open spec fn tone_lines(usages: Seq<Usage>, family: SourceFamily, label: Seq<char>, n: int) -> Seq<
    char,
>
    decreases n,
{
    if n <= 0 || n > 256 {
        Seq::empty()
    } else {
        let id = (n - 1) as u8;
        tone_lines(usages, family, label, n - 1) + if usages.contains(Usage::Tone(family, id)) {
            tone_line(label, id)
        } else {
            Seq::empty()
        }
    }
}

pub open spec fn envelope_line(family: SourceFamily, id: u8, spelling: AtSpelling) -> Seq<char> {
    "    - { family: "@ + family.name() + ", spelling: \""@ + spelling.name() + "\", envelope: "@
        + text::decimal(id as nat) + (if spelling == AtSpelling::AtE {
        ", kind: E }\n"@
    } else {
        ", kind: R }\n"@
    })
}

/// The envelopes of a family with numbers below `n`.
pub open spec fn envelope_lines(usages: Seq<Usage>, family: SourceFamily, n: int) -> Seq<char>
    decreases n,
{
    if n <= 0 || n > 256 {
        Seq::empty()
    } else {
        let id = (n - 1) as u8;
        envelope_lines(usages, family, n - 1) + (if usages.contains(
            Usage::Envelope(family, id, AtSpelling::AtE),
        ) {
            envelope_line(family, id, AtSpelling::AtE)
        } else {
            Seq::empty()
        }) + (if usages.contains(Usage::Envelope(family, id, AtSpelling::AtR)) {
            envelope_line(family, id, AtSpelling::AtR)
        } else {
            Seq::empty()
        })
    }
}

pub open spec fn write_lines_of(w: RegisterUseView) -> Seq<char> {
    "    - name: observed_y"@ + text::decimal(w.register as nat) + "_"@ + text::decimal(w.data as nat)
        + "\n      enabled: false\n      match: { family: "@ + w.family.name()
        + ", source_track: \""@ + w.track + "\", register: "@ + text::decimal(w.register as nat)
        + ", data: "@ + text::decimal(w.data as nat) + ", context: "@ + w.context.name()
        + " }\n      emit: []\n"@
}

pub open spec fn write_lines(writes: Seq<RegisterUseView>, n: int) -> Seq<char>
    decreases n,
{
    if n <= 0 || n > writes.len() {
        Seq::empty()
    } else {
        write_lines(writes, n - 1) + write_lines_of(writes[n - 1])
    }
}

/// A list of entries, or an empty mapping in its place.
pub open spec fn or_empty(lines: Seq<char>, none: Seq<char>) -> Seq<char> {
    if lines.len() == 0 {
        none
    } else {
        lines
    }
}

pub open spec fn observed_envelopes(usages: Seq<Usage>) -> Seq<char> {
    let lines = envelope_lines(usages, SourceFamily::Scc, 256) + envelope_lines(
        usages,
        SourceFamily::Opll,
        256,
    );
    if lines.len() == 0 {
        Seq::empty()
    } else {
        "  observed:\n"@ + lines
    }
}

pub open spec fn observed_writes(writes: Seq<RegisterUseView>) -> Seq<char> {
    if writes.len() == 0 {
        "  rules: []\n"@
    } else {
        "  rules:\n"@ + write_lines(writes, writes.len() as int)
    }
}

/// The configuration that lists what a song uses.
pub open spec fn skeleton(usages: Seq<Usage>, writes: Seq<RegisterUseView>) -> Seq<char> {
    "version: 0.4.1\nprofile_name: observed-skeleton\n\npsg_envelope_map:\n  enabled: true\n  envelopes:\n"@
        + or_empty(psg_lines(usages, 256), "    {}\n"@)
        + "\ntone_map:\n  scc:\n    enabled: true\n    tones:\n"@ + or_empty(
        tone_lines(usages, SourceFamily::Scc, "SCC"@, 256),
        "      {}\n"@,
    ) + "  opll:\n    enabled: true\n    tones:\n"@ + or_empty(
        tone_lines(usages, SourceFamily::Opll, "OPLL"@, 256),
        "      {}\n"@,
    )
        + "\nenvelope_map:\n  enabled: true\n  families:\n    scc: { enabled: true }\n    opll: { enabled: true }\n"@
        + observed_envelopes(usages)
        + "\nopll_register_map:\n  enabled: true\n  default_policy: ignore_and_report\n"@
        + observed_writes(writes) + "\npitch_glide:\n  enabled: false\n"@
}

fn psg_text(usages: &[Usage]) -> (r: String)
    ensures
        r@ == psg_lines(usages@, 256),
{
    let mut out = String::new();
    let mut n: u16 = 0;
    while n < 256
        invariant
            n <= 256,
            out@ == psg_lines(usages@, n as int),
        decreases 256 - n,
    {
        let id: u8 = n as u8;
        let ghost before = out@;
        if is_used(usages, Usage::PsgEnvelope(id)) {
            let number = number_text(id as u64);
            out.append("    \"");
            out.append(number.as_str());
            out.append("\":\n      name: \"PSG envelope @");
            out.append(number.as_str());
            out.append("\"\n");
            assert(out@ =~= before + psg_line(id));
        } else {
            assert(before + Seq::<char>::empty() =~= before);
        }
        n += 1;
    }
    out
}

fn tone_text(usages: &[Usage], family: SourceFamily, label: &str) -> (r: String)
    ensures
        r@ == tone_lines(usages@, family, label@, 256),
{
    let mut out = String::new();
    let mut n: u16 = 0;
    while n < 256
        invariant
            n <= 256,
            out@ == tone_lines(usages@, family, label@, n as int),
        decreases 256 - n,
    {
        let id: u8 = n as u8;
        let ghost before = out@;
        if is_used(usages, Usage::Tone(family, id)) {
            let number = number_text(id as u64);
            out.append("      \"");
            out.append(number.as_str());
            out.append("\":\n        name: \"");
            out.append(label);
            out.append(" @");
            out.append(number.as_str());
            out.append("\"\n        events: []\n");
            assert(out@ =~= before + tone_line(label@, id));
        } else {
            assert(before + Seq::<char>::empty() =~= before);
        }
        n += 1;
    }
    out
}

fn push_envelope_line(
    out: &mut String,
    usages: &[Usage],
    family: SourceFamily,
    id: u8,
    spelling: AtSpelling,
)
    requires
        spelling != AtSpelling::At,
    ensures
        final(out)@ == old(out)@ + (if usages@.contains(Usage::Envelope(family, id, spelling)) {
            envelope_line(family, id, spelling)
        } else {
            Seq::empty()
        }),
{
    if is_used(usages, Usage::Envelope(family, id, spelling)) {
        let number = number_text(id as u64);
        out.append("    - { family: ");
        out.append(family.as_str());
        out.append(", spelling: \"");
        out.append(spelling.as_str());
        out.append("\", envelope: ");
        out.append(number.as_str());
        if spelling == AtSpelling::AtE {
            out.append(", kind: E }\n");
        } else {
            out.append(", kind: R }\n");
        }
        assert(out@ =~= old(out)@ + envelope_line(family, id, spelling));
    } else {
        assert(out@ + Seq::<char>::empty() =~= out@);
    }
}

fn push_envelope_lines(out: &mut String, usages: &[Usage], family: SourceFamily)
    ensures
        final(out)@ == old(out)@ + envelope_lines(usages@, family, 256),
{
    let mut n: u16 = 0;
    assert(out@ + Seq::<char>::empty() =~= out@);
    while n < 256
        invariant
            n <= 256,
            out@ == old(out)@ + envelope_lines(usages@, family, n as int),
        decreases 256 - n,
    {
        let id: u8 = n as u8;
        push_envelope_line(out, usages, family, id, AtSpelling::AtE);
        push_envelope_line(out, usages, family, id, AtSpelling::AtR);
        assert(out@ =~= old(out)@ + envelope_lines(usages@, family, n + 1));
        n += 1;
    }
}

fn push_write_lines(out: &mut String, w: &RegisterUse)
    ensures
        final(out)@ == old(out)@ + write_lines_of(w.deep_view()),
{
    let register = number_text(w.register as u64);
    let data = number_text(w.data as u64);
    out.append("    - name: observed_y");
    out.append(register.as_str());
    out.append("_");
    out.append(data.as_str());
    out.append("\n      enabled: false\n      match: { family: ");
    out.append(w.family.as_str());
    out.append(", source_track: \"");
    out.append(w.track.as_str());
    out.append("\", register: ");
    out.append(register.as_str());
    out.append(", data: ");
    out.append(data.as_str());
    out.append(", context: ");
    out.append(w.context.as_str());
    out.append(" }\n      emit: []\n");
    assert(out@ =~= old(out)@ + write_lines_of(w.deep_view()));
}

fn write_text(writes: &[RegisterUse]) -> (r: String)
    ensures
        r@ == write_lines(views::all_views(writes@), writes@.len() as int),
{
    let ghost all = views::all_views(writes@);
    let mut out = String::new();
    let mut i: usize = 0;
    while i < writes.len()
        invariant
            i <= writes@.len(),
            all == views::all_views(writes@),
            out@ == write_lines(all, i as int),
        decreases writes@.len() - i,
    {
        assert(all[i as int] == writes@[i as int].deep_view());
        push_write_lines(&mut out, &writes[i]);
        i += 1;
    }
    out
}

fn push_or(out: &mut String, lines: &str, none: &str)
    ensures
        final(out)@ == old(out)@ + or_empty(lines@, none@),
{
    if same_text(lines, "") {
        proof {
            reveal_strlit("");
        }
        out.append(none);
    } else {
        proof {
            reveal_strlit("");
            if lines@.len() == 0 {
                assert(lines@ =~= ""@);
            }
        }
        out.append(lines);
    }
}

/// A configuration that lists what a song uses, ready to be filled in.
pub fn emit_config_skeleton(song: &SongIr) -> (r: String)
    ensures
        ({
            let view = song.deep_view();
            let writes = song_writes(view);
            r@ == skeleton(
                song_usages(view, view.tracks.len() as int),
                in_order(writes, writes.len() as int),
            )
        }),
{
    let usages = usages_of(song);
    let writes = writes_of(song);
    let psg = psg_text(usages.as_slice());
    let scc = tone_text(usages.as_slice(), SourceFamily::Scc, "SCC");
    let opll = tone_text(usages.as_slice(), SourceFamily::Opll, "OPLL");
    let mut envelopes = String::new();
    push_envelope_lines(&mut envelopes, usages.as_slice(), SourceFamily::Scc);
    push_envelope_lines(&mut envelopes, usages.as_slice(), SourceFamily::Opll);
    assert(envelopes@ =~= envelope_lines(usages@, SourceFamily::Scc, 256) + envelope_lines(
        usages@,
        SourceFamily::Opll,
        256,
    ));
    let mut out = copy_text(
        "version: 0.4.1\nprofile_name: observed-skeleton\n\npsg_envelope_map:\n  enabled: true\n  envelopes:\n",
    );
    push_or(&mut out, psg.as_str(), "    {}\n");
    out.append("\ntone_map:\n  scc:\n    enabled: true\n    tones:\n");
    push_or(&mut out, scc.as_str(), "      {}\n");
    out.append("  opll:\n    enabled: true\n    tones:\n");
    push_or(&mut out, opll.as_str(), "      {}\n");
    out.append(
        "\nenvelope_map:\n  enabled: true\n  families:\n    scc: { enabled: true }\n    opll: { enabled: true }\n",
    );
    let ghost before = out@;
    if same_text(envelopes.as_str(), "") {
        proof {
            reveal_strlit("");
        }
        assert(before + Seq::<char>::empty() =~= before);
    } else {
        proof {
            reveal_strlit("");
            if envelopes@.len() == 0 {
                assert(envelopes@ =~= ""@);
            }
        }
        out.append("  observed:\n");
        out.append(envelopes.as_str());
        assert(out@ =~= before + ("  observed:\n"@ + envelopes@));
    }
    out.append("\nopll_register_map:\n  enabled: true\n  default_policy: ignore_and_report\n");
    let ghost before = out@;
    if writes.len() == 0 {
        out.append("  rules: []\n");
    } else {
        let lines = write_text(writes.as_slice());
        out.append("  rules:\n");
        out.append(lines.as_str());
        assert(out@ =~= before + ("  rules:\n"@ + lines@));
    }
    out.append("\npitch_glide:\n  enabled: false\n");
    out
}

// ---------------------------------------------------------------------------
// Laws
// ---------------------------------------------------------------------------
/// Whether an event uses something that a skeleton lists.
pub open spec fn uses(e: IrEventView, envelopes: EnvelopeTableView, u: Usage) -> bool {
    match e {
        IrEventView::AtCommand { family, number, spelling, .. } => at_usages(
            family,
            number,
            spelling,
            envelopes,
        ).contains(u),
        _ => false,
    }
}

/// Whether one of the first `n` events uses something.
pub open spec fn some_event_uses(
    events: Seq<IrEventView>,
    n: int,
    envelopes: EnvelopeTableView,
    u: Usage,
) -> bool {
    exists|i: int| 0 <= i < n && uses(#[trigger] events[i], envelopes, u)
}

proof fn joined_contains(a: Seq<Usage>, b: Seq<Usage>, u: Usage)
    ensures
        (a + b).contains(u) <==> a.contains(u) || b.contains(u),
{
    if a.contains(u) {
        let k = choose|k: int| 0 <= k < a.len() && a[k] == u;
        assert((a + b)[k] == u);
    }
    if b.contains(u) {
        let k = choose|k: int| 0 <= k < b.len() && b[k] == u;
        assert((a + b)[a.len() + k] == u);
    }
}

proof fn track_lists_what_is_used(
    events: Seq<IrEventView>,
    n: int,
    envelopes: EnvelopeTableView,
    u: Usage,
)
    requires
        0 <= n <= events.len(),
    ensures
        track_usages(events, n, envelopes).contains(u) <==> some_event_uses(
            events,
            n,
            envelopes,
            u,
        ),
    decreases n,
{
    if n > 0 {
        track_lists_what_is_used(events, n - 1, envelopes, u);
        let before = track_usages(events, n - 1, envelopes);
        if let IrEventView::AtCommand { family, number, spelling, .. } = events[n - 1] {
            joined_contains(before, at_usages(family, number, spelling, envelopes), u);
        }
        if some_event_uses(events, n - 1, envelopes, u) {
            let i = choose|i: int| 0 <= i < n - 1 && uses(#[trigger] events[i], envelopes, u);
            assert(uses(events[i], envelopes, u));
        }
        if uses(events[n - 1], envelopes, u) {
            assert(some_event_uses(events, n, envelopes, u));
        }
    }
}

/// Whether one of the first `n` tracks uses something.
pub open spec fn some_track_uses(song: SongIrView, n: int, u: Usage) -> bool {
    exists|t: int|
        0 <= t < n && some_event_uses(
            (#[trigger] song.tracks[t]).events,
            song.tracks[t].events.len() as int,
            song.envelopes,
            u,
        )
}

/// A skeleton lists what a song uses, and nothing else.
pub proof fn skeleton_lists_what_is_used(song: SongIrView, n: int, u: Usage)
    requires
        0 <= n <= song.tracks.len(),
    ensures
        song_usages(song, n).contains(u) <==> some_track_uses(song, n, u),
    decreases n,
{
    if n > 0 {
        skeleton_lists_what_is_used(song, n - 1, u);
        let events = song.tracks[n - 1].events;
        let k = events.len() as int;
        track_lists_what_is_used(events, k, song.envelopes, u);
        joined_contains(song_usages(song, n - 1), track_usages(events, k, song.envelopes), u);
        if some_track_uses(song, n - 1, u) {
            let t = choose|t: int|
                0 <= t < n - 1 && some_event_uses(
                    (#[trigger] song.tracks[t]).events,
                    song.tracks[t].events.len() as int,
                    song.envelopes,
                    u,
                );
            assert(song.tracks[t].events.len() >= 0);
        }
        if some_event_uses(events, k, song.envelopes, u) {
            assert(some_track_uses(song, n, u));
        }
    }
}

proof fn rest_holds_the_others(s: Seq<RegisterUseView>, x: RegisterUseView)
    requires
        s.len() > 0,
        ascending(s),
    ensures
        s.drop_first().contains(x) <==> s.contains(x) && x != s[0],
        ascending(s.drop_first()),
{
    let rest = s.drop_first();
    if rest.contains(x) {
        let k = choose|k: int| 0 <= k < rest.len() && rest[k] == x;
        assert(s[k + 1] == x);
        assert(write_before(s[0], s[k + 1]));
    }
    if s.contains(x) && x != s[0] {
        let k = choose|k: int| 0 <= k < s.len() && s[k] == x;
        assert(rest[k - 1] == x);
    }
    assert forall|i: int, j: int| 0 <= i < j < rest.len() implies write_before(
        #[trigger] rest[i],
        #[trigger] rest[j],
    ) by {
        assert(write_before(s[i + 1], s[j + 1]));
    }
}

/// Ordered lists of the same writes are equal.
proof fn ordered_lists_are_equal(s: Seq<RegisterUseView>, t: Seq<RegisterUseView>)
    requires
        ascending(s),
        ascending(t),
        forall|x: RegisterUseView| #[trigger] s.contains(x) <==> t.contains(x),
    ensures
        s == t,
    decreases s.len(),
{
    if s.len() == 0 {
        if t.len() > 0 {
            assert(t.contains(t[0]));
            assert(s.contains(t[0]));
        }
        assert(s =~= t);
    } else {
        assert(s.contains(s[0]));
        assert(t.contains(s[0]));
        let k = choose|k: int| 0 <= k < t.len() && t[k] == s[0];
        assert(t.contains(t[0]));
        assert(s.contains(t[0]));
        let j = choose|j: int| 0 <= j < s.len() && s[j] == t[0];
        if s[0] != t[0] {
            assert(write_before(t[0], t[k]));
            assert(write_before(s[0], s[j]));
            write_before_chains(s[0], t[0], s[0]);
        }
        assert forall|x: RegisterUseView|
            #[trigger] s.drop_first().contains(x) <==> t.drop_first().contains(x) by {
            rest_holds_the_others(s, x);
            rest_holds_the_others(t, x);
            assert(s.contains(x) <==> t.contains(x));
        }
        rest_holds_the_others(s, s[0]);
        rest_holds_the_others(t, t[0]);
        ordered_lists_are_equal(s.drop_first(), t.drop_first());
        assert(s =~= seq![s[0]] + s.drop_first());
        assert(t =~= seq![t[0]] + t.drop_first());
    }
}

proof fn same_uses_same_lines(
    a: Seq<Usage>,
    b: Seq<Usage>,
    family: SourceFamily,
    label: Seq<char>,
    n: int,
)
    requires
        forall|u: Usage| #[trigger] a.contains(u) <==> b.contains(u),
    ensures
        psg_lines(a, n) == psg_lines(b, n),
        tone_lines(a, family, label, n) == tone_lines(b, family, label, n),
        envelope_lines(a, family, n) == envelope_lines(b, family, n),
    decreases n,
{
    if 0 < n <= 256 {
        same_uses_same_lines(a, b, family, label, n - 1);
        let id = (n - 1) as u8;
        assert(a.contains(Usage::PsgEnvelope(id)) <==> b.contains(Usage::PsgEnvelope(id)));
        assert(a.contains(Usage::Tone(family, id)) <==> b.contains(Usage::Tone(family, id)));
    }
}

/// The text of a skeleton rests on what is used alone, not on the order or on how
/// often: with the same uses and the same register writes it is the same.
pub proof fn same_uses_same_skeleton(
    a: Seq<Usage>,
    b: Seq<Usage>,
    s: Seq<RegisterUseView>,
    t: Seq<RegisterUseView>,
)
    requires
        forall|u: Usage| #[trigger] a.contains(u) <==> b.contains(u),
        forall|w: RegisterUseView| #[trigger] s.contains(w) <==> t.contains(w),
    ensures
        skeleton(a, in_order(s, s.len() as int)) == skeleton(b, in_order(t, t.len() as int)),
{
    same_uses_same_lines(a, b, SourceFamily::Scc, "SCC"@, 256);
    same_uses_same_lines(a, b, SourceFamily::Opll, "OPLL"@, 256);
    in_order_lists_each_once(s, s.len() as int);
    in_order_lists_each_once(t, t.len() as int);
    assert(s.take(s.len() as int) =~= s);
    assert(t.take(t.len() as int) =~= t);
    let x = in_order(s, s.len() as int);
    let y = in_order(t, t.len() as int);
    assert forall|w: RegisterUseView| #[trigger] x.contains(w) <==> y.contains(w) by {
        assert(x.contains(w) <==> s.take(s.len() as int).contains(w));
        assert(y.contains(w) <==> t.take(t.len() as int).contains(w));
        assert(s.contains(w) <==> t.contains(w));
    }
    ordered_lists_are_equal(x, y);
}

/// Whether an event of the first `n` tracks of a song is this one.
pub open spec fn song_holds(song: SongIrView, n: int, e: IrEventView) -> bool {
    exists|k: int| 0 <= k < n && (#[trigger] song.tracks[k]).events.contains(e)
}

/// Whether an event is this register write.
pub open spec fn writes(e: IrEventView, w: RegisterUseView) -> bool {
    match e {
        IrEventView::RegisterWrite { track, family, register, data, context, .. } => w
            == (RegisterUseView { family, track, register, data, context }),
        _ => false,
    }
}

/// Whether one of the first `n` events is a register write.
pub open spec fn some_event_writes(
    events: Seq<IrEventView>,
    n: int,
    w: RegisterUseView,
) -> bool {
    exists|i: int| 0 <= i < n && writes(#[trigger] events[i], w)
}

proof fn track_lists_its_writes(events: Seq<IrEventView>, n: int, w: RegisterUseView)
    requires
        0 <= n <= events.len(),
    ensures
        track_writes(events, n).contains(w) <==> some_event_writes(events, n, w),
    decreases n,
{
    if n > 0 {
        track_lists_its_writes(events, n - 1, w);
        let before = track_writes(events, n - 1);
        let all = track_writes(events, n);
        if before.contains(w) {
            let k = choose|k: int| 0 <= k < before.len() && before[k] == w;
            assert(all[k] == w);
            let i = choose|i: int| 0 <= i < n - 1 && writes(#[trigger] events[i], w);
            assert(writes(events[i], w));
        }
        if writes(events[n - 1], w) {
            assert(all.last() == w);
        }
        if all.contains(w) && !before.contains(w) {
            let k = choose|k: int| 0 <= k < all.len() && all[k] == w;
            if k < before.len() {
                assert(before[k] == w);
            }
            assert(writes(events[n - 1], w));
        }
    }
}

/// Whether an event of the first `n` tracks of a song is a register write.
pub open spec fn some_track_writes(tracks: Seq<TrackIrView>, n: int, w: RegisterUseView) -> bool {
    exists|t: int|
        0 <= t < n && some_event_writes(
            (#[trigger] tracks[t]).events,
            tracks[t].events.len() as int,
            w,
        )
}

proof fn tracks_list_their_writes(tracks: Seq<TrackIrView>, n: int, w: RegisterUseView)
    requires
        0 <= n <= tracks.len(),
    ensures
        tracks_writes(tracks, n).contains(w) <==> some_track_writes(tracks, n, w),
    decreases n,
{
    if n > 0 {
        tracks_list_their_writes(tracks, n - 1, w);
        let events = tracks[n - 1].events;
        let k = events.len() as int;
        track_lists_its_writes(events, k, w);
        joined_writes(tracks_writes(tracks, n - 1), track_writes(events, k), w);
        if some_track_writes(tracks, n - 1, w) {
            let t = choose|t: int|
                0 <= t < n - 1 && some_event_writes(
                    (#[trigger] tracks[t]).events,
                    tracks[t].events.len() as int,
                    w,
                );
            assert(tracks[t].events.len() >= 0);
        }
        if some_event_writes(events, k, w) {
            assert(some_track_writes(tracks, n, w));
        }
    }
}

proof fn joined_writes(a: Seq<RegisterUseView>, b: Seq<RegisterUseView>, w: RegisterUseView)
    ensures
        (a + b).contains(w) <==> a.contains(w) || b.contains(w),
{
    let all = a + b;
    if a.contains(w) {
        let k = choose|k: int| 0 <= k < a.len() && a[k] == w;
        assert(all[k] == w);
    }
    if b.contains(w) {
        let k = choose|k: int| 0 <= k < b.len() && b[k] == w;
        assert(all[a.len() + k] == w);
    }
    if all.contains(w) {
        let k = choose|k: int| 0 <= k < all.len() && all[k] == w;
        if k < a.len() {
            assert(a[k] == w);
        } else {
            assert(b[k - a.len()] == w);
        }
    }
}

/// What one song uses and writes, another with the same events and envelopes
/// does too.
proof fn events_carry_over(a: SongIrView, b: SongIrView, u: Usage, w: RegisterUseView)
    requires
        a.envelopes == b.envelopes,
        forall|e: IrEventView| #[trigger]
            song_holds(a, a.tracks.len() as int, e) ==> song_holds(b, b.tracks.len() as int, e),
    ensures
        some_track_uses(a, a.tracks.len() as int, u) ==> some_track_uses(
            b,
            b.tracks.len() as int,
            u,
        ),
        some_track_writes(a.tracks, a.tracks.len() as int, w) ==> some_track_writes(
            b.tracks,
            b.tracks.len() as int,
            w,
        ),
{
    let n = a.tracks.len() as int;
    let m = b.tracks.len() as int;
    if some_track_uses(a, n, u) {
        let t = choose|t: int|
            0 <= t < n && some_event_uses(
                (#[trigger] a.tracks[t]).events,
                a.tracks[t].events.len() as int,
                a.envelopes,
                u,
            );
        let events = a.tracks[t].events;
        let i = choose|i: int| 0 <= i < events.len() && uses(#[trigger] events[i], a.envelopes, u);
        assert(a.tracks[t].events.contains(events[i]));
        assert(song_holds(a, n, events[i]));
        let k = choose|k: int| 0 <= k < m && (#[trigger] b.tracks[k]).events.contains(events[i]);
        let others = b.tracks[k].events;
        let j = choose|j: int| 0 <= j < others.len() && others[j] == events[i];
        assert(uses(others[j], b.envelopes, u));
        assert(some_event_uses(others, others.len() as int, b.envelopes, u));
    }
    if some_track_writes(a.tracks, n, w) {
        let t = choose|t: int|
            0 <= t < n && some_event_writes(
                (#[trigger] a.tracks[t]).events,
                a.tracks[t].events.len() as int,
                w,
            );
        let events = a.tracks[t].events;
        let i = choose|i: int| 0 <= i < events.len() && writes(#[trigger] events[i], w);
        assert(a.tracks[t].events.contains(events[i]));
        assert(song_holds(a, n, events[i]));
        let k = choose|k: int| 0 <= k < m && (#[trigger] b.tracks[k]).events.contains(events[i]);
        let others = b.tracks[k].events;
        let j = choose|j: int| 0 <= j < others.len() && others[j] == events[i];
        assert(writes(others[j], w));
        assert(some_event_writes(others, others.len() as int, w));
    }
}

/// Songs that hold the same events, in whatever order and however often, and the
/// same envelopes have the same skeleton.
pub proof fn same_events_same_skeleton(a: SongIrView, b: SongIrView)
    requires
        a.envelopes == b.envelopes,
        forall|e: IrEventView| #[trigger]
            song_holds(a, a.tracks.len() as int, e) <==> song_holds(b, b.tracks.len() as int, e),
    ensures
        skeleton(
            song_usages(a, a.tracks.len() as int),
            in_order(song_writes(a), song_writes(a).len() as int),
        ) == skeleton(
            song_usages(b, b.tracks.len() as int),
            in_order(song_writes(b), song_writes(b).len() as int),
        ),
{
    let n = a.tracks.len() as int;
    let m = b.tracks.len() as int;
    assert forall|e: IrEventView| #[trigger] song_holds(b, m, e) implies song_holds(a, n, e) by {
        assert(song_holds(a, n, e) <==> song_holds(b, m, e));
    }
    let some = RegisterUseView {
        family: SourceFamily::Opll,
        track: Seq::empty(),
        register: 0,
        data: 0,
        context: RegisterContext::NormalMml,
    };
    assert forall|u: Usage| #[trigger]
        song_usages(a, n).contains(u) <==> song_usages(b, m).contains(u) by {
        skeleton_lists_what_is_used(a, n, u);
        skeleton_lists_what_is_used(b, m, u);
        events_carry_over(a, b, u, some);
        events_carry_over(b, a, u, some);
    }
    assert forall|w: RegisterUseView| #[trigger]
        song_writes(a).contains(w) <==> song_writes(b).contains(w) by {
        tracks_list_their_writes(a.tracks, n, w);
        tracks_list_their_writes(b.tracks, m, w);
        joined_writes(tracks_writes(a.tracks, n), envelopes_writes(a.envelopes.e, 256), w);
        joined_writes(tracks_writes(b.tracks, m), envelopes_writes(b.envelopes.e, 256), w);
        events_carry_over(a, b, Usage::PsgEnvelope(0), w);
        events_carry_over(b, a, Usage::PsgEnvelope(0), w);
    }
    same_uses_same_skeleton(
        song_usages(a, n),
        song_usages(b, m),
        song_writes(a),
        song_writes(b),
    );
}

} // verus!
