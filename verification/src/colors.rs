//! Turning ANSI-styled text into styled segments: the text printed between
//! style changes, each with the style in force.
//!
//! The escape sequences are recognised by a terminal parser, which reports
//! printed characters and control sequences as events; this module keeps
//! the style state and cuts the text into segments.
use vstd::prelude::*;
use crate::text::string_from_chars;

verus! {

/// What the terminal parser reports.
pub enum AnsiEvent {
    /// A printable character.
    Print(char),
    /// A control sequence `ESC [ params action`: each parameter with its
    /// sub-parameters.
    Csi { params: Vec<Vec<u16>>, action: u8 },
}

/// A text style: the foreground colour (0-7 normal, 8-15 bright) and the
/// effects.
#[derive(Clone, Copy, Debug, PartialEq, Eq, Structural)]
pub struct SegmentStyle {
    pub fg: Option<u8>,
    pub bold: bool,
    pub italic: bool,
    pub underline: bool,
}

/// The plain style.
pub open spec fn plain() -> SegmentStyle {
    SegmentStyle { fg: None, bold: false, italic: false, underline: false }
}

/// The state while cutting segments: the style in force, the text printed
/// since the last cut, and the segments so far.
pub struct SegState {
    pub style: SegmentStyle,
    pub text: Seq<char>,
    pub segs: Seq<(Seq<char>, SegmentStyle)>,
}

/// Cuts the pending text into a segment, if there is any.
pub open spec fn flushed(s: SegState) -> SegState {
    if s.text.len() > 0 {
        SegState { style: s.style, text: Seq::empty(), segs: s.segs.push((s.text, s.style)) }
    } else {
        s
    }
}

/// The state after one SGR parameter: 0 resets, 1 bold, 3 italic,
/// 4 underline, 30-37 and 90-97 set the foreground, 39 clears it; each of
/// these first cuts the pending text. Others change nothing.
pub open spec fn sgr_step(s: SegState, p: u16) -> SegState {
    let f = flushed(s);
    if p == 0 {
        SegState { style: plain(), ..f }
    } else if p == 1 {
        SegState { style: SegmentStyle { bold: true, ..f.style }, ..f }
    } else if p == 3 {
        SegState { style: SegmentStyle { italic: true, ..f.style }, ..f }
    } else if p == 4 {
        SegState { style: SegmentStyle { underline: true, ..f.style }, ..f }
    } else if 30 <= p <= 37 {
        SegState { style: SegmentStyle { fg: Some((p - 30) as u8), ..f.style }, ..f }
    } else if p == 39 {
        SegState { style: SegmentStyle { fg: None, ..f.style }, ..f }
    } else if 90 <= p <= 97 {
        SegState { style: SegmentStyle { fg: Some((p - 90 + 8) as u8), ..f.style }, ..f }
    } else {
        s
    }
}

/// The state after the sub-parameters `subs[..k]`.
pub open spec fn subs_step(s: SegState, subs: Seq<u16>, k: int) -> SegState
    decreases k,
{
    if k <= 0 || k > subs.len() {
        s
    } else {
        sgr_step(subs_step(s, subs, k - 1), subs[k - 1])
    }
}

/// The state after the parameters `params[..k]`.
pub open spec fn params_step(s: SegState, params: Seq<Seq<u16>>, k: int) -> SegState
    decreases k,
{
    if k <= 0 || k > params.len() {
        s
    } else {
        let prev = params_step(s, params, k - 1);
        subs_step(prev, params[k - 1], params[k - 1].len() as int)
    }
}

/// The parameters of a control sequence as plain values.
pub open spec fn params_view(params: Seq<Vec<u16>>) -> Seq<Seq<u16>> {
    params.map_values(|p: Vec<u16>| p@)
}

/// The state after one event: printing appends the character; a control
/// sequence ending in `m` applies its parameters; others change nothing.
pub open spec fn event_step(s: SegState, e: AnsiEvent) -> SegState {
    match e {
        AnsiEvent::Print(c) => SegState { text: s.text.push(c), ..s },
        AnsiEvent::Csi { params, action } => if action == 109 {
            params_step(s, params_view(params@), params@.len() as int)
        } else {
            s
        },
    }
}

/// The state after the events `events[..k]`, from the plain style.
pub open spec fn events_state(events: Seq<AnsiEvent>, k: int) -> SegState
    decreases k,
{
    if k <= 0 || k > events.len() {
        SegState { style: plain(), text: Seq::empty(), segs: Seq::empty() }
    } else {
        event_step(events_state(events, k - 1), events[k - 1])
    }
}

/// The segments of a whole event stream: the pending text is cut at the end.
pub open spec fn segments_spec(events: Seq<AnsiEvent>) -> Seq<(Seq<char>, SegmentStyle)> {
    flushed(events_state(events, events.len() as int)).segs
}

/// The characters printed by `events[..k]`.
pub open spec fn printed(events: Seq<AnsiEvent>, k: int) -> Seq<char>
    decreases k,
{
    if k <= 0 || k > events.len() {
        Seq::empty()
    } else {
        match events[k - 1] {
            AnsiEvent::Print(c) => printed(events, k - 1).push(c),
            _ => printed(events, k - 1),
        }
    }
}

/// The texts of segments, one after the other.
pub open spec fn joined(segs: Seq<(Seq<char>, SegmentStyle)>) -> Seq<char>
    decreases segs.len(),
{
    if segs.len() == 0 {
        Seq::empty()
    } else {
        joined(segs.drop_last()) + segs.last().0
    }
}

/// The text seen so far: the segments then the pending text.
pub open spec fn seen(s: SegState) -> Seq<char> {
    joined(s.segs) + s.text
}

proof fn lemma_flushed_seen(s: SegState)
    ensures
        seen(flushed(s)) == seen(s),
        flushed(s).text.len() == 0,
{
    if s.text.len() > 0 {
        let t = s.segs.push((s.text, s.style));
        assert(t.drop_last() =~= s.segs);
        assert(joined(t) == joined(s.segs) + s.text);
        assert(seen(flushed(s)) =~= seen(s));
    }
}

proof fn lemma_sgr_seen(s: SegState, p: u16)
    ensures
        seen(sgr_step(s, p)) == seen(s),
{
    lemma_flushed_seen(s);
}

proof fn lemma_subs_seen(s: SegState, subs: Seq<u16>, k: int)
    ensures
        seen(subs_step(s, subs, k)) == seen(s),
    decreases k,
{
    if 0 < k <= subs.len() {
        lemma_subs_seen(s, subs, k - 1);
        lemma_sgr_seen(subs_step(s, subs, k - 1), subs[k - 1]);
    }
}

proof fn lemma_params_seen(s: SegState, params: Seq<Seq<u16>>, k: int)
    ensures
        seen(params_step(s, params, k)) == seen(s),
    decreases k,
{
    if 0 < k <= params.len() {
        lemma_params_seen(s, params, k - 1);
        lemma_subs_seen(params_step(s, params, k - 1), params[k - 1], params[k - 1].len() as int);
    }
}

/// Cutting text into segments loses and adds nothing: the segment texts,
/// one after the other, are the printed characters.
pub proof fn lemma_segments_keep_text(events: Seq<AnsiEvent>)
    ensures
        joined(segments_spec(events)) == printed(events, events.len() as int),
{
    lemma_events_seen(events, events.len() as int);
    let s = events_state(events, events.len() as int);
    lemma_flushed_seen(s);
    assert(seen(flushed(s)) =~= joined(flushed(s).segs));
}

proof fn lemma_events_seen(events: Seq<AnsiEvent>, k: int)
    requires
        0 <= k <= events.len(),
    ensures
        seen(events_state(events, k)) == printed(events, k),
    decreases k,
{
    if k > 0 {
        lemma_events_seen(events, k - 1);
        let s = events_state(events, k - 1);
        match events[k - 1] {
            AnsiEvent::Print(c) => {
                assert(seen(event_step(s, events[k - 1])) =~= seen(s).push(c));
            },
            AnsiEvent::Csi { params, action } => {
                if action == 109 {
                    lemma_params_seen(s, params_view(params@), params@.len() as int);
                }
            },
        }
    }
}

/// The exec state: style, pending text, segments.
struct Cutter {
    style: SegmentStyle,
    text: Vec<char>,
    segs: Vec<(String, SegmentStyle)>,
}

/// The segments as plain values.
pub open spec fn segs_view(v: Seq<(String, SegmentStyle)>) -> Seq<(Seq<char>, SegmentStyle)> {
    v.map_values(|p: (String, SegmentStyle)| (p.0@, p.1))
}

impl Cutter {
    spec fn view_state(&self) -> SegState {
        SegState { style: self.style, text: self.text@, segs: segs_view(self.segs@) }
    }

    fn flush(&mut self)
        ensures
            final(self).view_state() == flushed(old(self).view_state()),
    {
        if self.text.len() > 0 {
            let t = string_from_chars(self.text.as_slice());
            let ghost before = self.segs@;
            self.segs.push((t, self.style));
            assert(segs_view(self.segs@) =~= segs_view(before).push((t@, self.style)));
            self.text = Vec::new();
        }
    }

    fn sgr(&mut self, p: u16)
        ensures
            final(self).view_state() == sgr_step(old(self).view_state(), p),
    {
        if p == 0 {
            self.flush();
            self.style = SegmentStyle { fg: None, bold: false, italic: false, underline: false };
        } else if p == 1 {
            self.flush();
            self.style = SegmentStyle { bold: true, ..self.style };
        } else if p == 3 {
            self.flush();
            self.style = SegmentStyle { italic: true, ..self.style };
        } else if p == 4 {
            self.flush();
            self.style = SegmentStyle { underline: true, ..self.style };
        } else if 30 <= p && p <= 37 {
            self.flush();
            self.style = SegmentStyle { fg: Some((p - 30) as u8), ..self.style };
        } else if p == 39 {
            self.flush();
            self.style = SegmentStyle { fg: None, ..self.style };
        } else if 90 <= p && p <= 97 {
            self.flush();
            self.style = SegmentStyle { fg: Some((p - 90 + 8) as u8), ..self.style };
        }
    }

    fn csi(&mut self, params: &Vec<Vec<u16>>)
        ensures
            final(self).view_state() == params_step(old(self).view_state(), params_view(params@), params@.len() as int),
    {
        let ghost start = self.view_state();
        let mut i: usize = 0;
        while i < params.len()
            invariant
                i <= params.len(),
                self.view_state() == params_step(start, params_view(params@), i as int),
            decreases params.len() - i,
        {
            let subs = &params[i];
            let ghost mid = self.view_state();
            let mut j: usize = 0;
            while j < subs.len()
                invariant
                    j <= subs.len(),
                    self.view_state() == subs_step(mid, subs@, j as int),
                decreases subs.len() - j,
            {
                self.sgr(subs[j]);
                j += 1;
            }
            assert(params_view(params@)[i as int] == subs@);
            i += 1;
        }
    }
}

/// Cuts the text of an event stream into segments, each with the style in
/// force when it was printed.
pub fn segments(events: &Vec<AnsiEvent>) -> (r: Vec<(String, SegmentStyle)>)
    ensures
        segs_view(r@) == segments_spec(events@),
{
    let mut c = Cutter { style: SegmentStyle { fg: None, bold: false, italic: false, underline: false }, text: Vec::new(), segs: Vec::new() };
    assert(c.view_state().segs =~= Seq::<(Seq<char>, SegmentStyle)>::empty());
    assert(c.view_state().text =~= Seq::<char>::empty());
    let mut i: usize = 0;
    while i < events.len()
        invariant
            i <= events.len(),
            c.view_state() == events_state(events@, i as int),
        decreases events.len() - i,
    {
        match &events[i] {
            AnsiEvent::Print(ch) => {
                c.text.push(*ch);
            },
            AnsiEvent::Csi { params, action } => {
                if *action == 109 {
                    c.csi(params);
                }
            },
        }
        i += 1;
    }
    c.flush();
    c.segs
}

// ---------------------------------------------------------------------------
// Reading the escape sequences of a string
// ---------------------------------------------------------------------------

/// What the `anstyle-parse` terminal parser reports for the bytes of `s`,
/// in order: each printed character and each control sequence.
pub uninterp spec fn parsed_events(s: Seq<char>) -> Seq<AnsiEvent>;

/// `anstyle_parse::Params`, the parameters of a control sequence.
#[verifier::external_type_specification]
#[verifier::external_body]
pub struct ExAnsiParams(anstyle_parse::Params);

/// Collects the parser's reports as events.
#[verifier::external_body]
struct EventRecorder {
    events: Vec<AnsiEvent>,
}

impl anstyle_parse::Perform for EventRecorder {
    #[verifier::external_body]
    fn print(&mut self, c: char) {
        self.events.push(AnsiEvent::Print(c));
    }

    #[verifier::external_body]
    fn csi_dispatch(&mut self, params: &anstyle_parse::Params, _intermediates: &[u8], _ignore: bool, action: u8) {
        let params: Vec<Vec<u16>> = params.iter().map(|p| p.to_vec()).collect();
        self.events.push(AnsiEvent::Csi { params, action });
    }
}

/// Runs the `anstyle-parse` parser (`Parser::advance`, byte by byte) over
/// `s` and returns what it reports: printed characters, and control
/// sequences with their parameters (each with its sub-parameters) and final
/// byte. The reports depend on `s` alone.
#[verifier::external_body]
fn ansi_events(s: &str) -> (r: Vec<AnsiEvent>)
    ensures
        r@ == parsed_events(s@),
{
    let mut parser = anstyle_parse::Parser::<anstyle_parse::DefaultCharAccumulator>::new();
    let mut rec = EventRecorder { events: Vec::new() };
    for b in s.as_bytes() {
        parser.advance(&mut rec, *b);
    }
    rec.events
}

/// ANSI-styled text cut into segments: the text printed between style
/// changes, each with the style in force, as the terminal parser reads `s`.
pub fn ansi_segments(s: &str) -> (r: Vec<(String, SegmentStyle)>)
    ensures
        segs_view(r@) == segments_spec(parsed_events(s@)),
{
    let events = ansi_events(s);
    segments(&events)
}

} // verus!
