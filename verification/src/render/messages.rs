//! What requested events send to a MIDI device.

use vstd::prelude::*;

use crate::ir::SmfRequestView;
use crate::render::events::{KindView, RenderedEventView};
use crate::render::requests;
use crate::render::score::{Failure, Place, ScoreView};

verus! {

/// A message of a channel, sent where a request is carried out.
pub open spec fn sends(e: RenderedEventView, p: Place, kind: KindView) -> bool {
    e.track_index == p.midi_track && e.abs_tick == p.tick && e.kind == kind
}

/// A controller set to a value, where a request is carried out.
pub open spec fn sets(e: RenderedEventView, p: Place, controller: u8, value: int) -> bool {
    e.track_index == p.midi_track && e.abs_tick == p.tick && (e.kind matches
        KindView::ControlChange { channel, controller: c, value: v } && channel == p.channel && c
        == controller && v == value)
}

/// What was there before stays.
pub open spec fn extends(a: Seq<RenderedEventView>, b: Seq<RenderedEventView>, n: int) -> bool {
    b.len() == a.len() + n && b.take(a.len() as int) == a
}

/// A parameter is selected, and then its value comes in two parts: controller 6
/// times 128 and controller 38 make it up.
pub open spec fn sets_parameter(
    before: Seq<RenderedEventView>,
    after: Seq<RenderedEventView>,
    p: Place,
    select: (u8, u8),
    msb: u8,
    lsb: u8,
    value: int,
) -> bool {
    let n = before.len() as int;
    &&& extends(before, after, 4)
    &&& sets(after[n], p, select.0, msb as int)
    &&& sets(after[n + 1], p, select.1, lsb as int)
    &&& exists|upper: int, lower: int|
        0 <= upper <= 127 && 0 <= lower <= 127 && upper * 128 + lower == value && #[trigger] sets(
            after[n + 2],
            p,
            6,
            upper,
        ) && #[trigger] sets(after[n + 3], p, 38, lower)
}

/// A registered parameter is selected by controllers 101 and 100, one that is not
/// by 99 and 98; either is given the requested value, as far as fourteen bits hold
/// it.
pub proof fn parameters_are_given_their_value(
    s: ScoreView,
    p: Place,
    msb: u8,
    lsb: u8,
    value: u16,
    programs: bool,
    macros: Map<Seq<char>, Seq<SmfRequestView>>,
    depth: nat,
)
    requires
        msb <= 127,
        lsb <= 127,
    ensures
        ({
            let given = if value <= 16383 {
                value as int
            } else {
                16383
            };
            &&& requests::with_request(
                s,
                p,
                SmfRequestView::Rpn { msb, lsb, value },
                programs,
                macros,
                depth,
            ) matches Ok(t) && sets_parameter(s.events, t.events, p, (101, 100), msb, lsb, given)
            &&& requests::with_request(
                s,
                p,
                SmfRequestView::Nrpn { msb, lsb, value },
                programs,
                macros,
                depth,
            ) matches Ok(t) && sets_parameter(s.events, t.events, p, (99, 98), msb, lsb, given)
        }),
{
    let given: int = if value <= 16383 {
        value as int
    } else {
        16383
    };
    let (upper, lower) = (given / 128, given % 128);
    let n = s.events.len() as int;
    let a = requests::with_request(
        s,
        p,
        SmfRequestView::Rpn { msb, lsb, value },
        programs,
        macros,
        depth,
    )->Ok_0;
    let b = requests::with_request(
        s,
        p,
        SmfRequestView::Nrpn { msb, lsb, value },
        programs,
        macros,
        depth,
    )->Ok_0;
    assert(a.events.take(n) =~= s.events);
    assert(b.events.take(n) =~= s.events);
    assert(sets(a.events[n + 2], p, 6, upper) && sets(a.events[n + 3], p, 38, lower));
    assert(sets(b.events[n + 2], p, 6, upper) && sets(b.events[n + 3], p, 38, lower));
}

/// A program is sent as it is, on the channel of the request.
pub proof fn programs_are_sent(
    s: ScoreView,
    p: Place,
    program: u8,
    macros: Map<Seq<char>, Seq<SmfRequestView>>,
    depth: nat,
)
    requires
        program <= 127,
    ensures
        requests::with_request(s, p, SmfRequestView::Pc { program }, true, macros, depth) matches Ok(t)
            && extends(s.events, t.events, 1) && sends(
            t.events.last(),
            p,
            KindView::ProgramChange { channel: p.channel, program },
        ),
        requests::with_request(s, p, SmfRequestView::Pc { program }, false, macros, depth) == Ok::<
            ScoreView,
            Failure,
        >(s),
{
    let t = requests::with_request(s, p, SmfRequestView::Pc { program }, true, macros, depth)->Ok_0;
    assert(t.events.take(s.events.len() as int) =~= s.events);
}

/// A bank is its upper part on controller 0 and then its lower part on
/// controller 32.
pub proof fn banks_are_sent(
    s: ScoreView,
    p: Place,
    msb: u8,
    lsb: u8,
    macros: Map<Seq<char>, Seq<SmfRequestView>>,
    depth: nat,
)
    requires
        msb <= 127,
        lsb <= 127,
    ensures
        requests::with_request(s, p, SmfRequestView::Bank { msb, lsb }, true, macros, depth) matches Ok(t)
            && extends(s.events, t.events, 2) && sets(
            t.events[s.events.len() as int],
            p,
            0,
            msb as int,
        ) && sets(t.events[s.events.len() as int + 1], p, 32, lsb as int),
        requests::with_request(s, p, SmfRequestView::Bank { msb, lsb }, false, macros, depth) == Ok::<
            ScoreView,
            Failure,
        >(s),
{
    let t = requests::with_request(s, p, SmfRequestView::Bank { msb, lsb }, true, macros, depth)->Ok_0;
    assert(t.events.take(s.events.len() as int) =~= s.events);
}

/// A controller is set to the requested value.
pub proof fn controllers_are_set(
    s: ScoreView,
    p: Place,
    controller: u8,
    value: u8,
    programs: bool,
    macros: Map<Seq<char>, Seq<SmfRequestView>>,
    depth: nat,
)
    requires
        controller <= 127,
        value <= 127,
    ensures
        requests::with_request(
            s,
            p,
            SmfRequestView::Cc { controller, value },
            programs,
            macros,
            depth,
        ) matches Ok(t) && extends(s.events, t.events, 1) && sets(
            t.events.last(),
            p,
            controller,
            value as int,
        ),
{
    let t = requests::with_request(
        s,
        p,
        SmfRequestView::Cc { controller, value },
        programs,
        macros,
        depth,
    )->Ok_0;
    assert(t.events.take(s.events.len() as int) =~= s.events);
}

/// A bend up to 8191 is a distance from the middle of the wheel, which stands at
/// 8192; a larger one is a position.
pub proof fn bends_are_sent(
    s: ScoreView,
    p: Place,
    value: i32,
    programs: bool,
    macros: Map<Seq<char>, Seq<SmfRequestView>>,
    depth: nat,
)
    requires
        -8192 <= value <= 16383,
    ensures
        requests::with_request(s, p, SmfRequestView::PitchBend { value }, programs, macros, depth) matches Ok(
            t,
        ) && extends(s.events, t.events, 1) && sends(
            t.events.last(),
            p,
            KindView::PitchBend {
                channel: p.channel,
                value: (if value < 8192 {
                    value + 8192
                } else {
                    value as int
                }) as u16,
            },
        ),
{
    let t = requests::with_request(
        s,
        p,
        SmfRequestView::PitchBend { value },
        programs,
        macros,
        depth,
    )->Ok_0;
    assert(t.events.take(s.events.len() as int) =~= s.events);
}

/// Texts and markers are written as they are.
pub proof fn texts_are_written(
    s: ScoreView,
    p: Place,
    text: Seq<char>,
    programs: bool,
    macros: Map<Seq<char>, Seq<SmfRequestView>>,
    depth: nat,
)
    ensures
        requests::with_request(s, p, SmfRequestView::Text { text }, programs, macros, depth) matches Ok(t)
            && extends(s.events, t.events, 1) && sends(t.events.last(), p, KindView::Text(text)),
        requests::with_request(s, p, SmfRequestView::Marker { text }, programs, macros, depth) matches Ok(t)
            && extends(s.events, t.events, 1) && sends(
            t.events.last(),
            p,
            KindView::Marker { text },
        ),
{
    let a = requests::with_request(s, p, SmfRequestView::Text { text }, programs, macros, depth)->Ok_0;
    let b = requests::with_request(s, p, SmfRequestView::Marker { text }, programs, macros, depth)->Ok_0;
    assert(a.events.take(s.events.len() as int) =~= s.events);
    assert(b.events.take(s.events.len() as int) =~= s.events);
}

proof fn first_requests_alone(
    s: ScoreView,
    p: Place,
    requests: Seq<SmfRequestView>,
    more: Seq<SmfRequestView>,
    n: int,
    programs: bool,
    macros: Map<Seq<char>, Seq<SmfRequestView>>,
    depth: nat,
)
    requires
        0 <= n <= requests.len(),
    ensures
        requests::with_requests(s, p, requests + more, n, programs, macros, depth) == requests::with_requests(
            s,
            p,
            requests,
            n,
            programs,
            macros,
            depth,
        ),
    decreases n,
{
    if n > 0 {
        first_requests_alone(s, p, requests, more, n - 1, programs, macros, depth);
        assert((requests + more)[n - 1] == requests[n - 1]);
    }
}

/// A macro carries out its requests in turn: with one more request it does what it
/// did without, and then that request.
pub proof fn macros_carry_out_their_requests(
    s: ScoreView,
    p: Place,
    name: Seq<char>,
    body: Seq<SmfRequestView>,
    last: SmfRequestView,
    programs: bool,
    macros: Map<Seq<char>, Seq<SmfRequestView>>,
    depth: nat,
)
    requires
        depth > 0,
        macros.contains_key(name),
        macros[name] == body.push(last),
    ensures
        requests::with_request(s, p, SmfRequestView::Macro { name }, programs, macros, depth) == (
        match requests::with_requests(
            s,
            p,
            body,
            body.len() as int,
            programs,
            macros,
            (depth - 1) as nat,
        ) {
            Ok(t) => requests::with_request(t, p, last, programs, macros, (depth - 1) as nat),
            Err(e) => Err(e),
        }),
        requests::with_requests(s, p, Seq::empty(), 0, programs, macros, depth) == Ok::<ScoreView, Failure>(
            s,
        ),
{
    let n = body.len() as int;
    first_requests_alone(s, p, body, seq![last], n, programs, macros, (depth - 1) as nat);
    assert(body + seq![last] =~= body.push(last));
    assert(body.push(last)[n] == last);
}

} // verus!
