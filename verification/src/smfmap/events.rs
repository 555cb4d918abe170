//! MIDI requests written in a configuration.

use vstd::prelude::*;

use crate::ir::{SmfRequest, SmfRequestView};
use crate::smfmap::Numbering;
use crate::text::{after, begins_with, chars_of, copy_text, same_text, string_of};
use crate::views;
use crate::views::push_viewed;
use crate::yaml;
use crate::yaml::{
    Yaml, YamlView, get_field, yaml_i32, yaml_key_string, yaml_string, yaml_u16, yaml_u8,
};

verus! {

// ---------------------------------------------------------------------------
// One request
// ---------------------------------------------------------------------------
pub open spec fn either<T>(a: Option<T>, b: Option<T>) -> Option<T> {
    match a {
        Some(v) => Some(v),
        None => b,
    }
}

/// The text of a request: a field, or the value itself, or nothing.
pub open spec fn request_text(v: YamlView, key: Seq<char>) -> Seq<char> {
    match either(yaml::text_of(yaml::field(Some(v), key)), yaml::text_of(Some(v))) {
        Some(s) => s,
        None => Seq::empty(),
    }
}

/// A registered (or not registered) parameter.
pub open spec fn parameter_request(v: YamlView, registered: bool) -> Option<SmfRequestView> {
    match (
        yaml::u8_of(yaml::field(Some(v), "msb"@)),
        yaml::u8_of(yaml::field(Some(v), "lsb"@)),
        yaml::u16_of(yaml::field(Some(v), "value"@)),
    ) {
        (Some(msb), Some(lsb), Some(value)) => if registered {
            Some(SmfRequestView::Rpn { msb, lsb, value })
        } else {
            Some(SmfRequestView::Nrpn { msb, lsb, value })
        },
        _ => None,
    }
}

/// The request that a key and its value stand for.
pub open spec fn request_of(key: Seq<char>, v: YamlView, programs: Numbering) -> Option<
    SmfRequestView,
> {
    if key == "pc"@ {
        match either(yaml::u8_of(yaml::field(Some(v), "program"@)), yaml::u8_of(Some(v))) {
            Some(p) => Some(SmfRequestView::Pc { program: programs.base_zero(p) }),
            None => None,
        }
    } else if key == "bank"@ {
        match (yaml::u8_of(yaml::field(Some(v), "msb"@)), yaml::u8_of(yaml::field(Some(v), "lsb"@))) {
            (Some(msb), Some(lsb)) => Some(SmfRequestView::Bank { msb, lsb }),
            _ => None,
        }
    } else if key == "cc"@ {
        match (yaml::u8_of(yaml::field(Some(v), "controller"@)), yaml::u8_of(yaml::field(Some(v), "value"@))) {
            (Some(controller), Some(value)) => Some(SmfRequestView::Cc { controller, value }),
            _ => None,
        }
    } else if key == "pb"@ {
        match either(yaml::int_of(yaml::field(Some(v), "value"@)), yaml::int_of(Some(v))) {
            Some(value) => Some(SmfRequestView::PitchBend { value: value as i32 }),
            None => None,
        }
    } else if key == "rpn"@ {
        parameter_request(v, true)
    } else if key == "nrpn"@ {
        parameter_request(v, false)
    } else if key == "marker"@ {
        Some(SmfRequestView::Marker { text: request_text(v, "value"@) })
    } else if key == "text"@ {
        Some(SmfRequestView::Text { text: request_text(v, "value"@) })
    } else if key == "macro"@ {
        Some(SmfRequestView::Macro { name: request_text(v, "name"@) })
    } else {
        None
    }
}

fn read_request_text(v: &Yaml, key: &str) -> (r: String)
    ensures
        r@ == request_text(v.contents(), key@),
{
    match yaml_string(get_field(Some(v), key)) {
        Some(s) => copy_text(s),
        None => match yaml_string(Some(v)) {
            Some(s) => copy_text(s),
            None => {
                let r = String::new();
                assert(r@ =~= Seq::empty());
                r
            },
        },
    }
}

fn read_parameter(v: &Yaml, registered: bool) -> (r: Option<SmfRequest>)
    ensures
        r.deep_view() == parameter_request(v.contents(), registered),
{
    let msb = yaml_u8(get_field(Some(v), "msb"));
    let lsb = yaml_u8(get_field(Some(v), "lsb"));
    let value = yaml_u16(get_field(Some(v), "value"));
    match (msb, lsb, value) {
        (Some(msb), Some(lsb), Some(value)) => if registered {
            Some(SmfRequest::Rpn { msb, lsb, value })
        } else {
            Some(SmfRequest::Nrpn { msb, lsb, value })
        },
        _ => None,
    }
}

fn parse_event(key: &str, v: &Yaml, programs: Numbering) -> (r: Option<SmfRequest>)
    ensures
        r.deep_view() == request_of(key@, v.contents(), programs),
{
    if same_text(key, "pc") {
        let program = match yaml_u8(get_field(Some(v), "program")) {
            Some(p) => Some(p),
            None => yaml_u8(Some(v)),
        };
        match program {
            Some(p) => Some(SmfRequest::Pc { program: programs.normalize(p) }),
            None => None,
        }
    } else if same_text(key, "bank") {
        match (yaml_u8(get_field(Some(v), "msb")), yaml_u8(get_field(Some(v), "lsb"))) {
            (Some(msb), Some(lsb)) => Some(SmfRequest::Bank { msb, lsb }),
            _ => None,
        }
    } else if same_text(key, "cc") {
        match (yaml_u8(get_field(Some(v), "controller")), yaml_u8(get_field(Some(v), "value"))) {
            (Some(controller), Some(value)) => Some(SmfRequest::Cc { controller, value }),
            _ => None,
        }
    } else if same_text(key, "pb") {
        let value = match yaml_i32(get_field(Some(v), "value")) {
            Some(n) => Some(n),
            None => yaml_i32(Some(v)),
        };
        match value {
            Some(value) => Some(SmfRequest::PitchBend { value }),
            None => None,
        }
    } else if same_text(key, "rpn") {
        read_parameter(v, true)
    } else if same_text(key, "nrpn") {
        read_parameter(v, false)
    } else if same_text(key, "marker") {
        Some(SmfRequest::Marker { text: read_request_text(v, "value") })
    } else if same_text(key, "text") {
        Some(SmfRequest::Text { text: read_request_text(v, "value") })
    } else if same_text(key, "macro") {
        Some(SmfRequest::Macro { name: read_request_text(v, "name") })
    } else {
        None
    }
}

// ---------------------------------------------------------------------------
// Lists of requests
// ---------------------------------------------------------------------------
/// The requests of the first `n` entries of a mapping.
pub open spec fn entry_requests(
    entries: Seq<(YamlView, YamlView)>,
    n: int,
    programs: Numbering,
) -> Seq<SmfRequestView>
    decreases n,
{
    if n <= 0 || n > entries.len() {
        Seq::empty()
    } else {
        let before = entry_requests(entries, n - 1, programs);
        match yaml::key_text(entries[n - 1].0) {
            Some(key) => match request_of(key, entries[n - 1].1, programs) {
                Some(r) => before.push(r),
                None => before,
            },
            None => before,
        }
    }
}

/// The requests of a mapping, in its order.
pub open spec fn mapping_requests(v: YamlView, programs: Numbering) -> Seq<SmfRequestView> {
    match v {
        YamlView::Mapping(entries) => entry_requests(entries, entries.len() as int, programs),
        _ => Seq::empty(),
    }
}

/// The requests of the first `n` items of a list.
pub open spec fn item_requests(items: Seq<YamlView>, n: int, programs: Numbering) -> Seq<
    SmfRequestView,
>
    decreases n,
{
    if n <= 0 || n > items.len() {
        Seq::empty()
    } else {
        item_requests(items, n - 1, programs) + mapping_requests(items[n - 1], programs)
    }
}

/// The requests of a list of mappings; nothing where there is no list.
pub open spec fn list_requests(v: Option<YamlView>, programs: Numbering) -> Option<
    Seq<SmfRequestView>,
> {
    match v {
        Some(YamlView::Sequence(items)) => Some(
            item_requests(items, items.len() as int, programs),
        ),
        _ => None,
    }
}

pub open spec fn opt_requests(v: Option<Vec<SmfRequest>>) -> Option<Seq<SmfRequestView>> {
    match v {
        Some(r) => Some(views::all_views(r@)),
        None => None,
    }
}

/// Appends the requests of a mapping.
fn push_direct_events(out: &mut Vec<SmfRequest>, v: &Yaml, programs: Numbering)
    ensures
        views::all_views(final(out)@) == views::all_views(old(out)@) + mapping_requests(v.contents(), programs),
{
    match v {
        Yaml::Mapping(entries) => {
            let ghost all = v.contents()->Mapping_0;
            let ghost base = views::all_views(out@);
            let mut i: usize = 0;
            assert(base + entry_requests(all, 0, programs) =~= base);
            while i < entries.len()
                invariant
                    i <= entries@.len(),
                    all.len() == entries@.len(),
                    base == views::all_views(old(out)@),
                    v.contents() == YamlView::Mapping(all),
                    forall|k: int|
                        0 <= k < entries@.len() ==> #[trigger] all[k] == (
                            entries@[k].0.contents(),
                            entries@[k].1.contents(),
                        ),
                    views::all_views(out@) == base + entry_requests(all, i as int, programs),
                decreases entries@.len() - i,
            {
                assert(all[i as int] == (
                    entries@[i as int].0.contents(),
                    entries@[i as int].1.contents(),
                ));
                match yaml_key_string(&entries[i].0) {
                    Some(key) => {
                        match parse_event(key, &entries[i].1, programs) {
                            Some(e) => {
                                push_viewed(out, e);
                                assert(base + entry_requests(all, i as int, programs).push(
                                    e.deep_view(),
                                ) =~= (base + entry_requests(all, i as int, programs)).push(
                                    e.deep_view(),
                                ));
                            },
                            None => {},
                        }
                    },
                    None => {},
                }
                i += 1;
            }
        },
        _ => {
            assert(views::all_views(out@) + Seq::<SmfRequestView>::empty() =~= views::all_views(out@));
        },
    }
}

pub fn parse_direct_events(v: &Yaml, programs: Numbering) -> (r: Vec<SmfRequest>)
    ensures
        views::all_views(r@) == mapping_requests(v.contents(), programs),
{
    let mut out: Vec<SmfRequest> = Vec::new();
    assert(views::all_views(out@) =~= Seq::empty());
    push_direct_events(&mut out, v, programs);
    assert(Seq::empty() + mapping_requests(v.contents(), programs) =~= mapping_requests(
        v.contents(),
        programs,
    ));
    out
}

pub fn parse_events(v: Option<&Yaml>, programs: Numbering) -> (r: Option<Vec<SmfRequest>>)
    ensures
        opt_requests(r) == list_requests(yaml::opt_contents(v), programs),
{
    match v {
        Some(Yaml::Sequence(items)) => {
            let ghost all = v->0.contents()->Sequence_0;
            let mut out: Vec<SmfRequest> = Vec::new();
            let mut i: usize = 0;
            assert(views::all_views(out@) =~= Seq::empty());
            while i < items.len()
                invariant
                    i <= items@.len(),
                    all.len() == items@.len(),
                    yaml::opt_contents(v) == Some(YamlView::Sequence(all)),
                    forall|k: int|
                        0 <= k < items@.len() ==> #[trigger] all[k] == items@[k].contents(),
                    views::all_views(out@) == item_requests(all, i as int, programs),
                decreases items@.len() - i,
            {
                assert(all[i as int] == items@[i as int].contents());
                push_direct_events(&mut out, &items[i], programs);
                i += 1;
            }
            Some(out)
        },
        _ => None,
    }
}

// ---------------------------------------------------------------------------
// Requests with formulas
// ---------------------------------------------------------------------------
/// Requests, and for each the formula of its value where it has one.
#[verifier::ext_equal]
pub struct EmissionView {
    pub requests: Seq<SmfRequestView>,
    pub formulas: Seq<Option<Seq<char>>>,
}

pub struct Emission {
    pub requests: Vec<SmfRequest>,
    pub formulas: Vec<Option<String>>,
}

impl DeepView for Emission {
    type V = EmissionView;

    open spec fn deep_view(&self) -> EmissionView {
        EmissionView { requests: views::all_views(self.requests@), formulas: views::all_views(self.formulas@) }
    }
}

impl EmissionView {
    pub open spec fn none() -> Self {
        EmissionView { requests: Seq::empty(), formulas: Seq::empty() }
    }

    pub open spec fn with(self, request: SmfRequestView, formula: Option<Seq<char>>) -> Self {
        EmissionView {
            requests: self.requests.push(request),
            formulas: self.formulas.push(formula),
        }
    }
}

/// The formula in a value such as `expr: data * 2`.
pub open spec fn formula_of(v: Option<YamlView>) -> Option<Seq<char>> {
    match yaml::text_of(v) {
        Some(s) => if "expr:"@.is_prefix_of(s) {
            Some(s.skip("expr:"@.len() as int))
        } else {
            None
        },
        None => None,
    }
}

/// A request whose value is a formula; the value itself is not known yet.
pub open spec fn formula_request(key: Seq<char>, v: YamlView) -> Option<SmfRequestView> {
    let msb = yaml::u8_of(yaml::field(Some(v), "msb"@));
    let lsb = yaml::u8_of(yaml::field(Some(v), "lsb"@));
    if key == "cc"@ {
        match yaml::u8_of(yaml::field(Some(v), "controller"@)) {
            Some(controller) => Some(SmfRequestView::Cc { controller, value: 0 }),
            None => None,
        }
    } else if key == "pb"@ {
        Some(SmfRequestView::PitchBend { value: 0 })
    } else if key == "rpn"@ && msb is Some && lsb is Some {
        Some(SmfRequestView::Rpn { msb: msb->0, lsb: lsb->0, value: 0 })
    } else if key == "nrpn"@ && msb is Some && lsb is Some {
        Some(SmfRequestView::Nrpn { msb: msb->0, lsb: lsb->0, value: 0 })
    } else {
        None
    }
}

/// What is emitted after an entry more.
pub open spec fn with_entry(
    e: EmissionView,
    key: Seq<char>,
    v: YamlView,
    programs: Numbering,
) -> EmissionView {
    match request_of(key, v, programs) {
        Some(r) => e.with(r, None),
        None => match (formula_of(yaml::field(Some(v), "value"@)), formula_request(key, v)) {
            (Some(f), Some(r)) => e.with(r, Some(f)),
            _ => e,
        },
    }
}

/// What is emitted after the first `n` entries of a mapping.
pub open spec fn with_entries(
    e: EmissionView,
    entries: Seq<(YamlView, YamlView)>,
    n: int,
    programs: Numbering,
) -> EmissionView
    decreases n,
{
    if n <= 0 || n > entries.len() {
        e
    } else {
        let before = with_entries(e, entries, n - 1, programs);
        match yaml::key_text(entries[n - 1].0) {
            Some(key) => with_entry(before, key, entries[n - 1].1, programs),
            None => before,
        }
    }
}

/// What the first `n` items of a list emit.
pub open spec fn emitted(items: Seq<YamlView>, n: int, programs: Numbering) -> EmissionView
    decreases n,
{
    if n <= 0 || n > items.len() {
        EmissionView::none()
    } else {
        let before = emitted(items, n - 1, programs);
        match items[n - 1] {
            YamlView::Mapping(entries) => with_entries(
                before,
                entries,
                entries.len() as int,
                programs,
            ),
            _ => before,
        }
    }
}

/// What a list of mappings emits; nothing where there is no list.
pub open spec fn emission_of(v: Option<YamlView>, programs: Numbering) -> EmissionView {
    match v {
        Some(YamlView::Sequence(items)) => emitted(items, items.len() as int, programs),
        _ => EmissionView::none(),
    }
}

fn read_formula(v: Option<&Yaml>) -> (r: Option<String>)
    ensures
        r.deep_view() == formula_of(yaml::opt_contents(v)),
{
    match yaml_string(v) {
        Some(s) => {
            let c = chars_of(s);
            if begins_with(&c, "expr:") {
                proof {
                    reveal_strlit("expr:");
                }
                Some(string_of(after(&c, 5)))
            } else {
                None
            }
        },
        None => None,
    }
}

fn read_formula_request(key: &str, v: &Yaml) -> (r: Option<SmfRequest>)
    ensures
        r.deep_view() == formula_request(key@, v.contents()),
{
    let msb = yaml_u8(get_field(Some(v), "msb"));
    let lsb = yaml_u8(get_field(Some(v), "lsb"));
    if same_text(key, "cc") {
        match yaml_u8(get_field(Some(v), "controller")) {
            Some(controller) => Some(SmfRequest::Cc { controller, value: 0 }),
            None => None,
        }
    } else if same_text(key, "pb") {
        Some(SmfRequest::PitchBend { value: 0 })
    } else {
        match (msb, lsb) {
            (Some(msb), Some(lsb)) => if same_text(key, "rpn") {
                Some(SmfRequest::Rpn { msb, lsb, value: 0 })
            } else if same_text(key, "nrpn") {
                Some(SmfRequest::Nrpn { msb, lsb, value: 0 })
            } else {
                None
            },
            _ => None,
        }
    }
}

impl Emission {
    fn put(&mut self, request: SmfRequest, formula: Option<String>)
        ensures
            final(self).deep_view() == old(self).deep_view().with(
                request.deep_view(),
                formula.deep_view(),
            ),
    {
        push_viewed(&mut self.requests, request);
        push_viewed(&mut self.formulas, formula);
    }

    fn put_entry(&mut self, key: &str, v: &Yaml, programs: Numbering)
        ensures
            final(self).deep_view() == with_entry(
                old(self).deep_view(),
                key@,
                v.contents(),
                programs,
            ),
    {
        match parse_event(key, v, programs) {
            Some(r) => {
                self.put(r, None);
            },
            None => {
                match (read_formula(get_field(Some(v), "value")), read_formula_request(key, v)) {
                    (Some(f), Some(r)) => {
                        self.put(r, Some(f));
                    },
                    _ => {},
                }
            },
        }
    }

    fn put_entries(&mut self, v: &Yaml, programs: Numbering)
        ensures
            final(self).deep_view() == match v.contents() {
                YamlView::Mapping(entries) => with_entries(
                    old(self).deep_view(),
                    entries,
                    entries.len() as int,
                    programs,
                ),
                _ => old(self).deep_view(),
            },
    {
        match v {
            Yaml::Mapping(entries) => {
                let ghost all = v.contents()->Mapping_0;
                let ghost base = self.deep_view();
                let mut i: usize = 0;
                while i < entries.len()
                    invariant
                        i <= entries@.len(),
                        all.len() == entries@.len(),
                        base == old(self).deep_view(),
                        v.contents() == YamlView::Mapping(all),
                        forall|k: int|
                            0 <= k < entries@.len() ==> #[trigger] all[k] == (
                                entries@[k].0.contents(),
                                entries@[k].1.contents(),
                            ),
                        self.deep_view() == with_entries(base, all, i as int, programs),
                    decreases entries@.len() - i,
                {
                    assert(all[i as int] == (
                        entries@[i as int].0.contents(),
                        entries@[i as int].1.contents(),
                    ));
                    match yaml_key_string(&entries[i].0) {
                        Some(key) => {
                            self.put_entry(key, &entries[i].1, programs);
                        },
                        None => {},
                    }
                    i += 1;
                }
            },
            _ => {},
        }
    }
}

/// Reads what a rule emits.
pub fn parse_emission(v: Option<&Yaml>, programs: Numbering) -> (r: Emission)
    ensures
        r.deep_view() == emission_of(yaml::opt_contents(v), programs),
{
    let mut out = Emission { requests: Vec::new(), formulas: Vec::new() };
    assert(out.deep_view() =~= EmissionView::none());
    match v {
        Some(Yaml::Sequence(items)) => {
            let ghost all = v->0.contents()->Sequence_0;
            let mut i: usize = 0;
            while i < items.len()
                invariant
                    i <= items@.len(),
                    all.len() == items@.len(),
                    yaml::opt_contents(v) == Some(YamlView::Sequence(all)),
                    forall|k: int|
                        0 <= k < items@.len() ==> #[trigger] all[k] == items@[k].contents(),
                    out.deep_view() == emitted(all, i as int, programs),
                decreases items@.len() - i,
            {
                assert(all[i as int] == items@[i as int].contents());
                out.put_entries(&items[i], programs);
                i += 1;
            }
        },
        _ => {},
    }
    out
}

} // verus!
