//! Requested MIDI events.

use vstd::prelude::*;

use crate::ir::{SmfRequest, SmfRequestView};
use crate::name_map::NameMap;
use crate::render::events::{
    KindView, PRI_BANK, PRI_CONTROL, PRI_META, PRI_PITCH_BEND, PRI_PROGRAM, PRI_RPN_NRPN,
    RenderedEventKind,
};
use crate::render::score;
use crate::render::score::{Failure, Place, Score, ScoreView};
use crate::smfmap::SmfMacro;
use crate::text;
use crate::text::{copy_text, join2};
use crate::views;

verus! {

pub open spec fn data_byte(v: u8) -> u8 {
    text::min_int(v as int, 127) as u8
}

pub fn to_data_byte(v: u8) -> (r: u8)
    ensures
        r == data_byte(v),
{
    if v <= 127 {
        v
    } else {
        127
    }
}

/// The seven upper bits of a value of fourteen.
pub open spec fn upper_seven(v: u16) -> u8 {
    (text::min_int(v as int, 16383) / 128) as u8
}

/// The seven lower bits of a value of fourteen.
pub open spec fn lower_seven(v: u16) -> u8 {
    (text::min_int(v as int, 16383) % 128) as u8
}

/// The two parts of a value of fourteen bits make the value up.
pub proof fn sevens_make_the_value(v: u16)
    requires
        v <= 16383,
    ensures
        upper_seven(v) * 128 + lower_seven(v) == v,
        upper_seven(v) <= 127,
        lower_seven(v) <= 127,
{
}

pub fn split_sevens(v: u16) -> (r: (u8, u8))
    ensures
        r == (upper_seven(v), lower_seven(v)),
{
    let w: u16 = if v <= 16383 {
        v
    } else {
        16383
    };
    ((w / 128) as u8, (w % 128) as u8)
}

/// The position of the bend wheel for a requested value: a distance from its
/// middle, or from 8192 on the position itself.
pub open spec fn wheel_position(value: i32) -> u16 {
    if value <= 8191 {
        (8192 + text::clamp_int(value as int, -8192, 8191)) as u16
    } else {
        text::min_int(value as int, 16383) as u16
    }
}

fn find_wheel_position(value: i32) -> (r: u16)
    ensures
        r == wheel_position(value),
{
    if value <= -8192 {
        0
    } else if value <= 8191 {
        (8192 + value) as u16
    } else if value <= 16383 {
        value as u16
    } else {
        16383
    }
}

/// The parameter `msb`, `lsb` set through the controllers that select it.
pub open spec fn with_parameter(
    s: ScoreView,
    p: Place,
    select_msb: u8,
    select_lsb: u8,
    msb: u8,
    lsb: u8,
    value: u16,
) -> ScoreView {
    s.with_control(p, PRI_RPN_NRPN, select_msb, data_byte(msb)).with_control(
        p,
        PRI_RPN_NRPN,
        select_lsb,
        data_byte(lsb),
    ).with_control(p, PRI_RPN_NRPN, 6, upper_seven(value)).with_control(
        p,
        PRI_RPN_NRPN,
        38,
        lower_seven(value),
    )
}

/// A request that is no macro. Programs and banks are left out where programs
/// are.
pub open spec fn plain_request(s: ScoreView, p: Place, r: SmfRequestView, programs: bool) ->
    ScoreView {
    match r {
        SmfRequestView::Pc { program } => if programs {
            s.with(
                p,
                PRI_PROGRAM,
                KindView::ProgramChange { channel: p.channel, program: data_byte(program) },
            )
        } else {
            s
        },
        SmfRequestView::Bank { msb, lsb } => if programs {
            s.with_control(p, PRI_BANK, 0, data_byte(msb)).with_control(
                p,
                PRI_BANK,
                32,
                data_byte(lsb),
            )
        } else {
            s
        },
        SmfRequestView::Cc { controller, value } => s.with_control(
            p,
            PRI_CONTROL,
            data_byte(controller),
            data_byte(value),
        ),
        SmfRequestView::PitchBend { value } => s.with(
            p,
            PRI_PITCH_BEND,
            KindView::PitchBend { channel: p.channel, value: wheel_position(value) },
        ),
        SmfRequestView::Rpn { msb, lsb, value } => with_parameter(
            s,
            p,
            101,
            100,
            msb,
            lsb,
            value,
        ),
        SmfRequestView::Nrpn { msb, lsb, value } => with_parameter(
            s,
            p,
            99,
            98,
            msb,
            lsb,
            value,
        ),
        SmfRequestView::Marker { text } => s.with(p, PRI_META, KindView::Marker { text }),
        SmfRequestView::Text { text } => s.with_text(p, text),
        SmfRequestView::Macro { .. } | SmfRequestView::Reset { .. } => s,
    }
}

/// The macro that a request calls.
pub open spec fn called_macro(r: SmfRequestView) -> Option<Seq<char>> {
    match r {
        SmfRequestView::Macro { name } => Some(name),
        SmfRequestView::Reset { name: Some(name) } => Some(name),
        SmfRequestView::Reset { name: None } => Some("reset_channel"@),
        _ => None,
    }
}

/// A request with its macros expanded, at most `depth` of them inside each
/// other.
pub open spec fn with_request(
    s: ScoreView,
    p: Place,
    r: SmfRequestView,
    programs: bool,
    macros: Map<Seq<char>, Seq<SmfRequestView>>,
    depth: nat,
) -> Result<ScoreView, Failure>
    decreases depth, 0int,
{
    match called_macro(r) {
        None => Ok(plain_request(s, p, r, programs)),
        Some(name) => if !macros.contains_key(name) {
            Ok(s.warned(None, "undefined SMF macro "@ + name))
        } else if depth == 0 {
            Err(s.failed("SMF macros are nested too deeply: "@ + name))
        } else {
            with_requests(
                s,
                p,
                macros[name],
                macros[name].len() as int,
                programs,
                macros,
                (depth - 1) as nat,
            )
        },
    }
}

/// The first `n` requests of a list, one after the other.
pub open spec fn with_requests(
    s: ScoreView,
    p: Place,
    requests: Seq<SmfRequestView>,
    n: int,
    programs: bool,
    macros: Map<Seq<char>, Seq<SmfRequestView>>,
    depth: nat,
) -> Result<ScoreView, Failure>
    decreases depth, n,
{
    if n <= 0 || n > requests.len() {
        Ok(s)
    } else {
        match with_requests(s, p, requests, n - 1, programs, macros, depth) {
            Ok(t) => with_request(t, p, requests[n - 1], programs, macros, depth),
            Err(e) => Err(e),
        }
    }
}

impl Score {
    fn parameter(
        &mut self,
        p: Place,
        select_msb: u8,
        select_lsb: u8,
        msb: u8,
        lsb: u8,
        value: u16,
    )
        ensures
            final(self).deep_view() == with_parameter(
                old(self).deep_view(),
                p,
                select_msb,
                select_lsb,
                msb,
                lsb,
                value,
            ),
    {
        let (upper, lower) = split_sevens(value);
        self.control(p, PRI_RPN_NRPN, select_msb, to_data_byte(msb));
        self.control(p, PRI_RPN_NRPN, select_lsb, to_data_byte(lsb));
        self.control(p, PRI_RPN_NRPN, 6, upper);
        self.control(p, PRI_RPN_NRPN, 38, lower);
    }

    fn plain(&mut self, p: Place, r: &SmfRequest, programs: bool)
        ensures
            final(self).deep_view() == plain_request(
                old(self).deep_view(),
                p,
                r.deep_view(),
                programs,
            ),
    {
        match r {
            SmfRequest::Pc { program } => {
                if programs {
                    self.push(
                        p,
                        PRI_PROGRAM,
                        RenderedEventKind::ProgramChange {
                            channel: p.channel,
                            program: to_data_byte(*program),
                        },
                    );
                }
            },
            SmfRequest::Bank { msb, lsb } => {
                if programs {
                    self.control(p, PRI_BANK, 0, to_data_byte(*msb));
                    self.control(p, PRI_BANK, 32, to_data_byte(*lsb));
                }
            },
            SmfRequest::Cc { controller, value } => {
                self.control(p, PRI_CONTROL, to_data_byte(*controller), to_data_byte(*value));
            },
            SmfRequest::PitchBend { value } => {
                self.push(
                    p,
                    PRI_PITCH_BEND,
                    RenderedEventKind::PitchBend {
                        channel: p.channel,
                        value: find_wheel_position(*value),
                    },
                );
            },
            SmfRequest::Rpn { msb, lsb, value } => {
                self.parameter(p, 101, 100, *msb, *lsb, *value);
            },
            SmfRequest::Nrpn { msb, lsb, value } => {
                self.parameter(p, 99, 98, *msb, *lsb, *value);
            },
            SmfRequest::Marker { text } => {
                self.push(
                    p,
                    PRI_META,
                    RenderedEventKind::Marker { text: copy_text(text.as_str()) },
                );
            },
            SmfRequest::Text { text } => {
                self.text(p, text.as_str());
            },
            SmfRequest::Macro { .. } | SmfRequest::Reset { .. } => {},
        }
    }

    /// Adds a requested event, with its macros expanded.
    pub fn request(
        &mut self,
        p: Place,
        r: &SmfRequest,
        programs: bool,
        macros: &NameMap<SmfMacro>,
        depth: usize,
    ) -> (o: Result<(), String>)
        ensures
            score::score_is(
                with_request(
                    old(self).deep_view(),
                    p,
                    r.deep_view(),
                    programs,
                    macros.deep_view(),
                    depth as nat,
                ),
                final(self).deep_view(),
                o,
            ),
        decreases depth, 0int,
    {
        let name: &str = match r {
            SmfRequest::Macro { name } => name.as_str(),
            SmfRequest::Reset { name: Some(name) } => name.as_str(),
            SmfRequest::Reset { name: None } => "reset_channel",
            _ => {
                self.plain(p, r, programs);
                return Ok(());
            },
        };
        match macros.get(name) {
            None => {
                let message = join2("undefined SMF macro ", name);
                self.warn(None, message.as_str());
                Ok(())
            },
            Some(m) => {
                if depth == 0 {
                    return Err(join2("SMF macros are nested too deeply: ", name));
                }
                self.requests(p, m.events.as_slice(), programs, macros, depth - 1)
            },
        }
    }

    /// Adds the requested events of a list.
    pub fn requests(
        &mut self,
        p: Place,
        requests: &[SmfRequest],
        programs: bool,
        macros: &NameMap<SmfMacro>,
        depth: usize,
    ) -> (o: Result<(), String>)
        ensures
            score::score_is(
                with_requests(
                    old(self).deep_view(),
                    p,
                    views::all_views(requests@),
                    requests@.len() as int,
                    programs,
                    macros.deep_view(),
                    depth as nat,
                ),
                final(self).deep_view(),
                o,
            ),
        decreases depth, requests@.len() + 1,
    {
        let ghost all = views::all_views(requests@);
        let ghost start = self.deep_view();
        let mut i: usize = 0;
        while i < requests.len()
            invariant
                i <= requests@.len(),
                all == views::all_views(requests@),
                start == old(self).deep_view(),
                with_requests(
                    start,
                    p,
                    all,
                    i as int,
                    programs,
                    macros.deep_view(),
                    depth as nat,
                ) == Ok::<ScoreView, Failure>(self.deep_view()),
            decreases requests@.len() - i,
        {
            assert(all[i as int] == requests@[i as int].deep_view());
            match self.request(p, &requests[i], programs, macros, depth) {
                Ok(_) => {},
                Err(e) => {
                    proof {
                        failed_stays(
                            start,
                            p,
                            all,
                            i + 1,
                            all.len() as int,
                            programs,
                            macros.deep_view(),
                            depth as nat,
                        );
                    }
                    return Err(e);
                },
            }
            i += 1;
        }
        Ok(())
    }
}

proof fn failed_stays(
    s: ScoreView,
    p: Place,
    requests: Seq<SmfRequestView>,
    n: int,
    m: int,
    programs: bool,
    macros: Map<Seq<char>, Seq<SmfRequestView>>,
    depth: nat,
)
    requires
        0 <= n <= m <= requests.len(),
        with_requests(s, p, requests, n, programs, macros, depth) is Err,
    ensures
        with_requests(s, p, requests, m, programs, macros, depth) == with_requests(
            s,
            p,
            requests,
            n,
            programs,
            macros,
            depth,
        ),
    decreases m,
{
    if n < m {
        failed_stays(s, p, requests, n, m - 1, programs, macros, depth);
    }
}

} // verus!
