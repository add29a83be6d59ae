//! A byte-at-a-time escape-sequence parser after the DEC VT-500 state
//! machine. Each byte moves the parser to its next state and yields at most
//! two actions for the terminal to perform. Text between escape sequences is
//! decoded as UTF-8, with U+FFFD standing in for malformed input.
use vstd::prelude::*;

verus! {

/// Parameters and subparameters a control sequence may carry in all.
pub const MAX_PARAMS: usize = 32;

/// Intermediate bytes kept for one sequence.
pub const MAX_INTERMEDIATES: usize = 2;

/// Parameters kept for one operating-system command.
pub const MAX_OSC_PARAMS: usize = 16;

/// The states of the machine.
#[derive(Clone, Copy, Debug, PartialEq, Eq, Structural)]
pub enum ParseState {
    Ground,
    Escape,
    EscapeIntermediate,
    CsiEntry,
    CsiParam,
    CsiIntermediate,
    CsiIgnore,
    DcsEntry,
    DcsParam,
    DcsIntermediate,
    DcsIgnore,
    DcsPassthrough,
    OscString,
    SosPmApcString,
}

/// What the terminal is asked to do for a byte.
pub enum Action {
    Nothing,
    /// Show a character.
    Print(char),
    /// Run a C0 or C1 control function.
    Execute(u8),
    /// A control sequence: the first value of each parameter, the
    /// intermediate bytes, and the final byte.
    Csi(Vec<u16>, Vec<u8>, u8),
    /// An escape sequence: its intermediate bytes and final byte.
    Esc(Vec<u8>, u8),
    /// An operating-system command: its `;`-separated fields.
    Osc(Vec<Vec<u8>>),
}

/// The mathematical value of an [`Action`].
pub enum ActionView {
    Nothing,
    Print(char),
    Execute(u8),
    Csi(Seq<u16>, Seq<u8>, u8),
    Esc(Seq<u8>, u8),
    Osc(Seq<Seq<u8>>),
}

pub open spec fn seqs_view(v: Seq<Vec<u8>>) -> Seq<Seq<u8>> {
    v.map_values(|x: Vec<u8>| x@)
}

impl View for Action {
    type V = ActionView;

    open spec fn view(&self) -> ActionView {
        match self {
            Action::Nothing => ActionView::Nothing,
            Action::Print(c) => ActionView::Print(*c),
            Action::Execute(b) => ActionView::Execute(*b),
            Action::Csi(p, i, f) => ActionView::Csi(p@, i@, *f),
            Action::Esc(i, f) => ActionView::Esc(i@, *f),
            Action::Osc(p) => ActionView::Osc(seqs_view(p@)),
        }
    }
}

/// The character whose scalar value is `cp`, if there is one.
pub open spec fn char_of(cp: u32) -> Option<char> {
    if cp <= 0x10FFFF && !(0xD800 <= cp && cp <= 0xDFFF) {
        Some(choose|c: char| #[trigger] (c as u32) == cp)
    } else {
        None
    }
}

/// Relies on char::from_u32: a character exactly for the scalar values,
/// which exclude the surrogates and everything above U+10FFFF.
#[verifier::external_body]
fn scalar_to_char(cp: u32) -> (r: Option<char>)
    ensures
        r == char_of(cp),
{
    char::from_u32(cp)
}

/// The replacement character U+FFFD.
pub open spec fn replacement() -> char {
    char_of(0xFFFD).unwrap()
}

fn replacement_char() -> (c: char)
    ensures
        c == replacement(),
{
    match scalar_to_char(0xFFFD) {
        Some(c) => c,
        None => ' ',
    }
}

/// The action for a completely decoded scalar value `cp` that needed at
/// least `min` to be encoded in its length.
pub open spec fn decoded_action(cp: u32, min: u32) -> ActionView {
    if cp < min {
        ActionView::Print(replacement())
    } else {
        match char_of(cp) {
            Some(c) => if 0x80 <= cp && cp <= 0x9F {
                ActionView::Execute(cp as u8)
            } else {
                ActionView::Print(c)
            },
            None => ActionView::Print(replacement()),
        }
    }
}

/// A byte that the control-sequence states hand to `execute`.
pub open spec fn is_exec_byte(b: u8) -> bool {
    b <= 0x17 || b == 0x19 || (0x1C <= b && b <= 0x1F)
}

/// The mathematical value of a [`Parser`].
pub struct ParserView {
    pub state: ParseState,
    pub intermediates: Seq<u8>,
    /// The first value of each parameter collected so far.
    pub params: Seq<u16>,
    /// Parameters and subparameters collected so far.
    pub param_len: nat,
    /// The parameter being read already has a subparameter.
    pub in_group: bool,
    /// The value being read.
    pub param: u16,
    pub osc_params: Seq<Seq<u8>>,
    pub osc_cur: Seq<u8>,
    /// Bits of a partly read UTF-8 sequence.
    pub utf8_cp: u32,
    /// Continuation bytes still expected.
    pub utf8_need: u8,
    /// The least scalar value that the sequence's length may encode.
    pub utf8_min: u32,
}

impl ParserView {
    pub open spec fn with_state(self, s: ParseState) -> ParserView {
        ParserView { state: s, ..self }
    }

    /// Forget the parameters and intermediates of any earlier sequence.
    pub open spec fn reset(self) -> ParserView {
        ParserView {
            intermediates: Seq::empty(),
            params: Seq::empty(),
            param_len: 0,
            in_group: false,
            param: 0,
            ..self
        }
    }

    pub open spec fn collect(self, b: u8) -> ParserView {
        if self.intermediates.len() >= MAX_INTERMEDIATES {
            self
        } else {
            ParserView { intermediates: self.intermediates.push(b), ..self }
        }
    }

    pub open spec fn is_full(self) -> bool {
        self.param_len >= MAX_PARAMS
    }

    /// Append a decimal digit to the value being read, saturating at the
    /// largest `u16`.
    pub open spec fn param_digit(self, b: u8) -> ParserView {
        if self.is_full() {
            self
        } else {
            let v = self.param * 10 + (b - 48);
            ParserView { param: if v > 0xFFFF { 0xFFFF } else { v as u16 }, ..self }
        }
    }

    /// Close the value being read; `sub` tells whether a subparameter follows.
    pub open spec fn close_param(self, sub: bool) -> ParserView {
        if self.is_full() {
            self
        } else {
            ParserView {
                params: if self.in_group {
                    self.params
                } else {
                    self.params.push(self.param)
                },
                param_len: self.param_len + 1,
                in_group: sub,
                param: 0,
                ..self
            }
        }
    }

    pub open spec fn osc_start(self) -> ParserView {
        ParserView { osc_params: Seq::empty(), osc_cur: Seq::empty(), ..self }
    }

    pub open spec fn osc_put(self, b: u8) -> ParserView {
        if self.osc_params.len() >= MAX_OSC_PARAMS {
            self
        } else {
            ParserView { osc_cur: self.osc_cur.push(b), ..self }
        }
    }

    pub open spec fn osc_next(self) -> ParserView {
        if self.osc_params.len() >= MAX_OSC_PARAMS {
            self
        } else {
            ParserView {
                osc_params: self.osc_params.push(self.osc_cur),
                osc_cur: Seq::empty(),
                ..self
            }
        }
    }

    /// The fields of the command being read, once it ends.
    pub open spec fn osc_fields(self) -> Seq<Seq<u8>> {
        self.osc_next().osc_params
    }

    pub open spec fn wf(self) -> bool {
        &&& self.intermediates.len() <= MAX_INTERMEDIATES
        &&& self.param_len <= MAX_PARAMS
        &&& self.params.len() <= self.param_len
        &&& self.osc_params.len() <= MAX_OSC_PARAMS
        &&& self.utf8_need <= 3
        &&& (self.utf8_need == 3 ==> self.utf8_cp < 8)
        &&& (self.utf8_need == 2 ==> self.utf8_cp < 512)
        &&& (self.utf8_need == 1 ==> self.utf8_cp < 32768)
    }
}

/// The parser before any byte.
pub open spec fn initial_parser() -> ParserView {
    ParserView {
        state: ParseState::Ground,
        intermediates: Seq::empty(),
        params: Seq::empty(),
        param_len: 0,
        in_group: false,
        param: 0,
        osc_params: Seq::empty(),
        osc_cur: Seq::empty(),
        utf8_cp: 0,
        utf8_need: 0,
        utf8_min: 0,
    }
}

/// Bytes that may occur anywhere: CAN and SUB abort, ESC starts over.
pub open spec fn anywhere(p: ParserView, b: u8) -> (ParserView, ActionView) {
    if b == 0x18 || b == 0x1A {
        (p.with_state(ParseState::Ground), ActionView::Execute(b))
    } else if b == 0x1B {
        (p.reset().with_state(ParseState::Escape), ActionView::Nothing)
    } else {
        (p, ActionView::Nothing)
    }
}

/// A ground-state byte that does not continue a UTF-8 sequence.
pub open spec fn ground_fresh(p: ParserView, b: u8) -> (ParserView, ActionView) {
    if b == 0x1B {
        (p.reset().with_state(ParseState::Escape), ActionView::Nothing)
    } else if b < 0x20 {
        (p, ActionView::Execute(b))
    } else if b < 0x7F {
        (p, ActionView::Print(char_of(b as u32).unwrap()))
    } else if b == 0x7F {
        (p, ActionView::Nothing)
    } else if b <= 0x9F {
        (p, ActionView::Execute(b))
    } else if b <= 0xBF {
        (p, ActionView::Print(replacement()))
    } else if b <= 0xDF {
        (ParserView { utf8_cp: (b - 0xC0) as u32, utf8_need: 1, utf8_min: 0x80, ..p }, ActionView::Nothing)
    } else if b <= 0xEF {
        (ParserView { utf8_cp: (b - 0xE0) as u32, utf8_need: 2, utf8_min: 0x800, ..p }, ActionView::Nothing)
    } else if b <= 0xF7 {
        (ParserView { utf8_cp: (b - 0xF0) as u32, utf8_need: 3, utf8_min: 0x10000, ..p }, ActionView::Nothing)
    } else {
        (p, ActionView::Print(replacement()))
    }
}

pub open spec fn ground(p: ParserView, b: u8) -> (ParserView, ActionView, ActionView) {
    if p.utf8_need > 0 {
        if 0x80 <= b && b <= 0xBF {
            let cp = (p.utf8_cp * 64 + (b - 0x80)) as u32;
            if p.utf8_need == 1 {
                (
                    ParserView { utf8_cp: 0, utf8_need: 0, ..p },
                    decoded_action(cp, p.utf8_min),
                    ActionView::Nothing,
                )
            } else {
                (
                    ParserView { utf8_cp: cp, utf8_need: (p.utf8_need - 1) as u8, ..p },
                    ActionView::Nothing,
                    ActionView::Nothing,
                )
            }
        } else {
            let r = ground_fresh(ParserView { utf8_cp: 0, utf8_need: 0, ..p }, b);
            (r.0, ActionView::Print(replacement()), r.1)
        }
    } else {
        let r = ground_fresh(p, b);
        (r.0, r.1, ActionView::Nothing)
    }
}

pub open spec fn esc_dispatch(p: ParserView, b: u8) -> (ParserView, ActionView) {
    (p.reset().with_state(ParseState::Ground), ActionView::Esc(p.intermediates, b))
}

pub open spec fn csi_dispatch(p: ParserView, b: u8) -> (ParserView, ActionView) {
    let q = p.close_param(false);
    (q.reset().with_state(ParseState::Ground), ActionView::Csi(q.params, q.intermediates, b))
}

pub open spec fn escape(p: ParserView, b: u8) -> (ParserView, ActionView) {
    if is_exec_byte(b) {
        (p, ActionView::Execute(b))
    } else if 0x20 <= b && b <= 0x2F {
        (p.collect(b).with_state(ParseState::EscapeIntermediate), ActionView::Nothing)
    } else if b == 0x50 {
        (p.reset().with_state(ParseState::DcsEntry), ActionView::Nothing)
    } else if b == 0x58 || b == 0x5E || b == 0x5F {
        (p.with_state(ParseState::SosPmApcString), ActionView::Nothing)
    } else if b == 0x5B {
        (p.reset().with_state(ParseState::CsiEntry), ActionView::Nothing)
    } else if b == 0x5D {
        (p.osc_start().with_state(ParseState::OscString), ActionView::Nothing)
    } else if 0x30 <= b && b <= 0x7E {
        esc_dispatch(p, b)
    } else if b == 0x18 || b == 0x1A {
        (p.with_state(ParseState::Ground), ActionView::Execute(b))
    } else {
        (p, ActionView::Nothing)
    }
}

pub open spec fn escape_intermediate(p: ParserView, b: u8) -> (ParserView, ActionView) {
    if is_exec_byte(b) {
        (p, ActionView::Execute(b))
    } else if 0x20 <= b && b <= 0x2F {
        (p.collect(b), ActionView::Nothing)
    } else if 0x30 <= b && b <= 0x7E {
        esc_dispatch(p, b)
    } else if b == 0x7F {
        (p, ActionView::Nothing)
    } else {
        anywhere(p, b)
    }
}

pub open spec fn csi_entry(p: ParserView, b: u8) -> (ParserView, ActionView) {
    if is_exec_byte(b) {
        (p, ActionView::Execute(b))
    } else if 0x20 <= b && b <= 0x2F {
        (p.collect(b).with_state(ParseState::CsiIntermediate), ActionView::Nothing)
    } else if 0x30 <= b && b <= 0x39 {
        (p.param_digit(b).with_state(ParseState::CsiParam), ActionView::Nothing)
    } else if b == 0x3A || b == 0x3B {
        (p.close_param(b == 0x3A).with_state(ParseState::CsiParam), ActionView::Nothing)
    } else if 0x3C <= b && b <= 0x3F {
        (p.collect(b).with_state(ParseState::CsiParam), ActionView::Nothing)
    } else if 0x40 <= b && b <= 0x7E {
        csi_dispatch(p, b)
    } else {
        anywhere(p, b)
    }
}

pub open spec fn csi_param(p: ParserView, b: u8) -> (ParserView, ActionView) {
    if is_exec_byte(b) {
        (p, ActionView::Execute(b))
    } else if 0x20 <= b && b <= 0x2F {
        (p.collect(b).with_state(ParseState::CsiIntermediate), ActionView::Nothing)
    } else if 0x30 <= b && b <= 0x39 {
        (p.param_digit(b), ActionView::Nothing)
    } else if b == 0x3A || b == 0x3B {
        (p.close_param(b == 0x3A), ActionView::Nothing)
    } else if 0x3C <= b && b <= 0x3F {
        (p.with_state(ParseState::CsiIgnore), ActionView::Nothing)
    } else if 0x40 <= b && b <= 0x7E {
        csi_dispatch(p, b)
    } else if b == 0x7F {
        (p, ActionView::Nothing)
    } else {
        anywhere(p, b)
    }
}

pub open spec fn csi_intermediate(p: ParserView, b: u8) -> (ParserView, ActionView) {
    if is_exec_byte(b) {
        (p, ActionView::Execute(b))
    } else if 0x20 <= b && b <= 0x2F {
        (p.collect(b), ActionView::Nothing)
    } else if 0x30 <= b && b <= 0x3F {
        (p.with_state(ParseState::CsiIgnore), ActionView::Nothing)
    } else if 0x40 <= b && b <= 0x7E {
        csi_dispatch(p, b)
    } else {
        anywhere(p, b)
    }
}

pub open spec fn csi_ignore(p: ParserView, b: u8) -> (ParserView, ActionView) {
    if is_exec_byte(b) {
        (p, ActionView::Execute(b))
    } else if 0x20 <= b && b <= 0x3F || b == 0x7F {
        (p, ActionView::Nothing)
    } else if 0x40 <= b && b <= 0x7E {
        (p.with_state(ParseState::Ground), ActionView::Nothing)
    } else {
        anywhere(p, b)
    }
}

/// Device control strings are read and dropped: only the state moves.
pub open spec fn dcs_next_state(s: ParseState, b: u8) -> ParseState {
    if is_exec_byte(b) || b == 0x7F {
        s
    } else if 0x40 <= b && b <= 0x7E {
        ParseState::DcsPassthrough
    } else if 0x20 <= b && b <= 0x2F {
        if s == ParseState::DcsIntermediate {
            s
        } else {
            ParseState::DcsIntermediate
        }
    } else if s == ParseState::DcsIntermediate {
        ParseState::DcsIgnore
    } else if 0x3C <= b && b <= 0x3F && s == ParseState::DcsParam {
        ParseState::DcsIgnore
    } else {
        ParseState::DcsParam
    }
}

pub open spec fn dcs_head(p: ParserView, b: u8) -> (ParserView, ActionView) {
    if b <= 0x7F && !(b == 0x18 || b == 0x1A || b == 0x1B) {
        (p.with_state(dcs_next_state(p.state, b)), ActionView::Nothing)
    } else {
        anywhere(p, b)
    }
}

pub open spec fn dcs_passthrough(p: ParserView, b: u8) -> (ParserView, ActionView) {
    if b == 0x18 || b == 0x1A {
        (p.with_state(ParseState::Ground), ActionView::Execute(b))
    } else if b == 0x1B {
        (p.reset().with_state(ParseState::Escape), ActionView::Nothing)
    } else if b == 0x9C {
        (p.with_state(ParseState::Ground), ActionView::Nothing)
    } else {
        (p, ActionView::Nothing)
    }
}

pub open spec fn osc_string(p: ParserView, b: u8) -> (ParserView, ActionView, ActionView) {
    if b == 0x07 {
        (p.osc_start().with_state(ParseState::Ground), ActionView::Osc(p.osc_fields()), ActionView::Nothing)
    } else if b == 0x18 || b == 0x1A {
        (
            p.osc_start().with_state(ParseState::Ground),
            ActionView::Osc(p.osc_fields()),
            ActionView::Execute(b),
        )
    } else if b == 0x1B {
        (
            p.osc_start().reset().with_state(ParseState::Escape),
            ActionView::Osc(p.osc_fields()),
            ActionView::Nothing,
        )
    } else if b < 0x20 {
        (p, ActionView::Nothing, ActionView::Nothing)
    } else if b == 0x3B {
        (p.osc_next(), ActionView::Nothing, ActionView::Nothing)
    } else {
        (p.osc_put(b), ActionView::Nothing, ActionView::Nothing)
    }
}

pub open spec fn single(r: (ParserView, ActionView)) -> (ParserView, ActionView, ActionView) {
    (r.0, r.1, ActionView::Nothing)
}

/// One byte through the machine: the next parser and up to two actions, to
/// be performed in order.
pub open spec fn parser_step(p: ParserView, b: u8) -> (ParserView, ActionView, ActionView) {
    match p.state {
        ParseState::Ground => ground(p, b),
        ParseState::Escape => single(escape(p, b)),
        ParseState::EscapeIntermediate => single(escape_intermediate(p, b)),
        ParseState::CsiEntry => single(csi_entry(p, b)),
        ParseState::CsiParam => single(csi_param(p, b)),
        ParseState::CsiIntermediate => single(csi_intermediate(p, b)),
        ParseState::CsiIgnore => single(csi_ignore(p, b)),
        ParseState::DcsEntry => single(dcs_head(p, b)),
        ParseState::DcsParam => single(dcs_head(p, b)),
        ParseState::DcsIntermediate => single(dcs_head(p, b)),
        ParseState::DcsIgnore => single(anywhere(p, b)),
        ParseState::DcsPassthrough => single(dcs_passthrough(p, b)),
        ParseState::OscString => osc_string(p, b),
        ParseState::SosPmApcString => single(anywhere(p, b)),
    }
}

/// The state of the escape-sequence machine.
pub struct Parser {
    state: ParseState,
    intermediates: Vec<u8>,
    params: Vec<u16>,
    param_len: usize,
    in_group: bool,
    param: u16,
    osc_params: Vec<Vec<u8>>,
    osc_cur: Vec<u8>,
    utf8_cp: u32,
    utf8_need: u8,
    utf8_min: u32,
}

impl View for Parser {
    type V = ParserView;

    closed spec fn view(&self) -> ParserView {
        ParserView {
            state: self.state,
            intermediates: self.intermediates@,
            params: self.params@,
            param_len: self.param_len as nat,
            in_group: self.in_group,
            param: self.param,
            osc_params: seqs_view(self.osc_params@),
            osc_cur: self.osc_cur@,
            utf8_cp: self.utf8_cp,
            utf8_need: self.utf8_need,
            utf8_min: self.utf8_min,
        }
    }
}


impl Parser {
    pub open spec fn wf(&self) -> bool {
        self@.wf()
    }

    /// A parser in the ground state.
    pub fn new() -> (r: Parser)
        ensures
            r@ == initial_parser(),
            r.wf(),
    {
        let r = Parser {
            state: ParseState::Ground,
            intermediates: Vec::new(),
            params: Vec::new(),
            param_len: 0,
            in_group: false,
            param: 0,
            osc_params: Vec::new(),
            osc_cur: Vec::new(),
            utf8_cp: 0,
            utf8_need: 0,
            utf8_min: 0,
        };
        assert(seqs_view(r.osc_params@) =~= Seq::<Seq<u8>>::empty());
        r
    }

    fn reset(&mut self)
        requires
            old(self).wf(),
        ensures
            final(self)@ == old(self)@.reset(),
            final(self).wf(),
    {
        self.intermediates = Vec::new();
        self.params = Vec::new();
        self.param_len = 0;
        self.in_group = false;
        self.param = 0;
    }

    fn collect(&mut self, b: u8)
        requires
            old(self).wf(),
        ensures
            final(self)@ == old(self)@.collect(b),
            final(self).wf(),
    {
        if self.intermediates.len() < MAX_INTERMEDIATES {
            self.intermediates.push(b);
        }
    }

    fn param_digit(&mut self, b: u8)
        requires
            old(self).wf(),
            0x30 <= b <= 0x39,
        ensures
            final(self)@ == old(self)@.param_digit(b),
            final(self).wf(),
    {
        if self.param_len < MAX_PARAMS {
            let v: u32 = self.param as u32 * 10 + (b - 48) as u32;
            self.param = if v > 0xFFFF {
                0xFFFF
            } else {
                v as u16
            };
        }
    }

    fn close_param(&mut self, sub: bool)
        requires
            old(self).wf(),
        ensures
            final(self)@ == old(self)@.close_param(sub),
            final(self).wf(),
    {
        if self.param_len < MAX_PARAMS {
            if !self.in_group {
                self.params.push(self.param);
            }
            self.param_len = self.param_len + 1;
            self.in_group = sub;
            self.param = 0;
        }
    }

    fn osc_start(&mut self)
        requires
            old(self).wf(),
        ensures
            final(self)@ == old(self)@.osc_start(),
            final(self).wf(),
    {
        self.osc_params = Vec::new();
        self.osc_cur = Vec::new();
        assert(seqs_view(self.osc_params@) =~= Seq::<Seq<u8>>::empty());
    }

    fn osc_put(&mut self, b: u8)
        requires
            old(self).wf(),
        ensures
            final(self)@ == old(self)@.osc_put(b),
            final(self).wf(),
    {
        if self.osc_params.len() < MAX_OSC_PARAMS {
            self.osc_cur.push(b);
        }
    }

    fn osc_next(&mut self)
        requires
            old(self).wf(),
        ensures
            final(self)@ == old(self)@.osc_next(),
            final(self).wf(),
    {
        if self.osc_params.len() < MAX_OSC_PARAMS {
            let mut cur: Vec<u8> = Vec::new();
            std::mem::swap(&mut cur, &mut self.osc_cur);
            let ghost before = self.osc_params@;
            self.osc_params.push(cur);
            assert(seqs_view(self.osc_params@) =~= seqs_view(before).push(cur@));
        }
    }

    /// Hand out the fields of the command being read and start afresh.
    fn osc_finish(&mut self) -> (r: Action)
        requires
            old(self).wf(),
        ensures
            r@ == ActionView::Osc(old(self)@.osc_fields()),
            final(self)@ == old(self)@.osc_start(),
            final(self).wf(),
    {
        self.osc_next();
        let mut fields: Vec<Vec<u8>> = Vec::new();
        std::mem::swap(&mut fields, &mut self.osc_params);
        self.osc_cur = Vec::new();
        assert(seqs_view(self.osc_params@) =~= Seq::<Seq<u8>>::empty());
        Action::Osc(fields)
    }

    fn anywhere(&mut self, b: u8) -> (r: Action)
        requires
            old(self).wf(),
        ensures
            (final(self)@, r@) == anywhere(old(self)@, b),
            final(self).wf(),
    {
        if b == 0x18 || b == 0x1A {
            self.state = ParseState::Ground;
            Action::Execute(b)
        } else if b == 0x1B {
            self.reset();
            self.state = ParseState::Escape;
            Action::Nothing
        } else {
            Action::Nothing
        }
    }

    fn ground_fresh(&mut self, b: u8) -> (r: Action)
        requires
            old(self).wf(),
            old(self).utf8_need == 0,
        ensures
            (final(self)@, r@) == ground_fresh(old(self)@, b),
            final(self).wf(),
    {
        if b == 0x1B {
            self.reset();
            self.state = ParseState::Escape;
            Action::Nothing
        } else if b < 0x20 {
            Action::Execute(b)
        } else if b < 0x7F {
            match scalar_to_char(b as u32) {
                Some(c) => Action::Print(c),
                None => Action::Nothing,
            }
        } else if b == 0x7F {
            Action::Nothing
        } else if b <= 0x9F {
            Action::Execute(b)
        } else if b <= 0xBF {
            Action::Print(replacement_char())
        } else if b <= 0xDF {
            self.utf8_cp = (b - 0xC0) as u32;
            self.utf8_need = 1;
            self.utf8_min = 0x80;
            Action::Nothing
        } else if b <= 0xEF {
            self.utf8_cp = (b - 0xE0) as u32;
            self.utf8_need = 2;
            self.utf8_min = 0x800;
            Action::Nothing
        } else if b <= 0xF7 {
            self.utf8_cp = (b - 0xF0) as u32;
            self.utf8_need = 3;
            self.utf8_min = 0x10000;
            Action::Nothing
        } else {
            Action::Print(replacement_char())
        }
    }
}


impl Parser {
    fn decoded(cp: u32, min: u32) -> (r: Action)
        ensures
            r@ == decoded_action(cp, min),
    {
        if cp < min {
            Action::Print(replacement_char())
        } else {
            match scalar_to_char(cp) {
                Some(c) => if 0x80 <= cp && cp <= 0x9F {
                    Action::Execute(cp as u8)
                } else {
                    Action::Print(c)
                },
                None => Action::Print(replacement_char()),
            }
        }
    }

    fn ground(&mut self, b: u8) -> (r: (Action, Action))
        requires
            old(self).wf(),
        ensures
            (final(self)@, r.0@, r.1@) == ground(old(self)@, b),
            final(self).wf(),
    {
        if self.utf8_need > 0 {
            if 0x80 <= b && b <= 0xBF {
                let cp: u32 = self.utf8_cp * 64 + (b - 0x80) as u32;
                if self.utf8_need == 1 {
                    self.utf8_cp = 0;
                    self.utf8_need = 0;
                    (Parser::decoded(cp, self.utf8_min), Action::Nothing)
                } else {
                    self.utf8_cp = cp;
                    self.utf8_need = self.utf8_need - 1;
                    (Action::Nothing, Action::Nothing)
                }
            } else {
                self.utf8_cp = 0;
                self.utf8_need = 0;
                let a = self.ground_fresh(b);
                (Action::Print(replacement_char()), a)
            }
        } else {
            let a = self.ground_fresh(b);
            (a, Action::Nothing)
        }
    }

    fn esc_dispatch(&mut self, b: u8) -> (r: Action)
        requires
            old(self).wf(),
        ensures
            (final(self)@, r@) == esc_dispatch(old(self)@, b),
            final(self).wf(),
    {
        let mut inter: Vec<u8> = Vec::new();
        std::mem::swap(&mut inter, &mut self.intermediates);
        self.reset();
        self.state = ParseState::Ground;
        Action::Esc(inter, b)
    }

    fn csi_dispatch(&mut self, b: u8) -> (r: Action)
        requires
            old(self).wf(),
        ensures
            (final(self)@, r@) == csi_dispatch(old(self)@, b),
            final(self).wf(),
    {
        self.close_param(false);
        let mut inter: Vec<u8> = Vec::new();
        std::mem::swap(&mut inter, &mut self.intermediates);
        let mut params: Vec<u16> = Vec::new();
        std::mem::swap(&mut params, &mut self.params);
        self.reset();
        self.state = ParseState::Ground;
        Action::Csi(params, inter, b)
    }

    fn escape(&mut self, b: u8) -> (r: Action)
        requires
            old(self).wf(),
        ensures
            (final(self)@, r@) == escape(old(self)@, b),
            final(self).wf(),
    {
        if b <= 0x17 || b == 0x19 || (0x1C <= b && b <= 0x1F) {
            Action::Execute(b)
        } else if 0x20 <= b && b <= 0x2F {
            self.collect(b);
            self.state = ParseState::EscapeIntermediate;
            Action::Nothing
        } else if b == 0x50 {
            self.reset();
            self.state = ParseState::DcsEntry;
            Action::Nothing
        } else if b == 0x58 || b == 0x5E || b == 0x5F {
            self.state = ParseState::SosPmApcString;
            Action::Nothing
        } else if b == 0x5B {
            self.reset();
            self.state = ParseState::CsiEntry;
            Action::Nothing
        } else if b == 0x5D {
            self.osc_start();
            self.state = ParseState::OscString;
            Action::Nothing
        } else if 0x30 <= b && b <= 0x7E {
            self.esc_dispatch(b)
        } else if b == 0x18 || b == 0x1A {
            self.state = ParseState::Ground;
            Action::Execute(b)
        } else {
            Action::Nothing
        }
    }

    fn escape_intermediate(&mut self, b: u8) -> (r: Action)
        requires
            old(self).wf(),
        ensures
            (final(self)@, r@) == escape_intermediate(old(self)@, b),
            final(self).wf(),
    {
        if b <= 0x17 || b == 0x19 || (0x1C <= b && b <= 0x1F) {
            Action::Execute(b)
        } else if 0x20 <= b && b <= 0x2F {
            self.collect(b);
            Action::Nothing
        } else if 0x30 <= b && b <= 0x7E {
            self.esc_dispatch(b)
        } else if b == 0x7F {
            Action::Nothing
        } else {
            self.anywhere(b)
        }
    }

    fn csi_entry(&mut self, b: u8) -> (r: Action)
        requires
            old(self).wf(),
        ensures
            (final(self)@, r@) == csi_entry(old(self)@, b),
            final(self).wf(),
    {
        if b <= 0x17 || b == 0x19 || (0x1C <= b && b <= 0x1F) {
            Action::Execute(b)
        } else if 0x20 <= b && b <= 0x2F {
            self.collect(b);
            self.state = ParseState::CsiIntermediate;
            Action::Nothing
        } else if 0x30 <= b && b <= 0x39 {
            self.param_digit(b);
            self.state = ParseState::CsiParam;
            Action::Nothing
        } else if b == 0x3A || b == 0x3B {
            self.close_param(b == 0x3A);
            self.state = ParseState::CsiParam;
            Action::Nothing
        } else if 0x3C <= b && b <= 0x3F {
            self.collect(b);
            self.state = ParseState::CsiParam;
            Action::Nothing
        } else if 0x40 <= b && b <= 0x7E {
            self.csi_dispatch(b)
        } else {
            self.anywhere(b)
        }
    }

    fn csi_param(&mut self, b: u8) -> (r: Action)
        requires
            old(self).wf(),
        ensures
            (final(self)@, r@) == csi_param(old(self)@, b),
            final(self).wf(),
    {
        if b <= 0x17 || b == 0x19 || (0x1C <= b && b <= 0x1F) {
            Action::Execute(b)
        } else if 0x20 <= b && b <= 0x2F {
            self.collect(b);
            self.state = ParseState::CsiIntermediate;
            Action::Nothing
        } else if 0x30 <= b && b <= 0x39 {
            self.param_digit(b);
            Action::Nothing
        } else if b == 0x3A || b == 0x3B {
            self.close_param(b == 0x3A);
            Action::Nothing
        } else if 0x3C <= b && b <= 0x3F {
            self.state = ParseState::CsiIgnore;
            Action::Nothing
        } else if 0x40 <= b && b <= 0x7E {
            self.csi_dispatch(b)
        } else if b == 0x7F {
            Action::Nothing
        } else {
            self.anywhere(b)
        }
    }

    fn csi_intermediate(&mut self, b: u8) -> (r: Action)
        requires
            old(self).wf(),
        ensures
            (final(self)@, r@) == csi_intermediate(old(self)@, b),
            final(self).wf(),
    {
        if b <= 0x17 || b == 0x19 || (0x1C <= b && b <= 0x1F) {
            Action::Execute(b)
        } else if 0x20 <= b && b <= 0x2F {
            self.collect(b);
            Action::Nothing
        } else if 0x30 <= b && b <= 0x3F {
            self.state = ParseState::CsiIgnore;
            Action::Nothing
        } else if 0x40 <= b && b <= 0x7E {
            self.csi_dispatch(b)
        } else {
            self.anywhere(b)
        }
    }

    fn csi_ignore(&mut self, b: u8) -> (r: Action)
        requires
            old(self).wf(),
        ensures
            (final(self)@, r@) == csi_ignore(old(self)@, b),
            final(self).wf(),
    {
        if b <= 0x17 || b == 0x19 || (0x1C <= b && b <= 0x1F) {
            Action::Execute(b)
        } else if 0x20 <= b && b <= 0x3F || b == 0x7F {
            Action::Nothing
        } else if 0x40 <= b && b <= 0x7E {
            self.state = ParseState::Ground;
            Action::Nothing
        } else {
            self.anywhere(b)
        }
    }

    fn dcs_head(&mut self, b: u8) -> (r: Action)
        requires
            old(self).wf(),
        ensures
            (final(self)@, r@) == dcs_head(old(self)@, b),
            final(self).wf(),
    {
        if b <= 0x7F && !(b == 0x18 || b == 0x1A || b == 0x1B) {
            let s = self.state;
            self.state = if b <= 0x17 || b == 0x19 || (0x1C <= b && b <= 0x1F) || b == 0x7F {
                s
            } else if 0x40 <= b && b <= 0x7E {
                ParseState::DcsPassthrough
            } else if 0x20 <= b && b <= 0x2F {
                ParseState::DcsIntermediate
            } else if s == ParseState::DcsIntermediate {
                ParseState::DcsIgnore
            } else if 0x3C <= b && b <= 0x3F && s == ParseState::DcsParam {
                ParseState::DcsIgnore
            } else {
                ParseState::DcsParam
            };
            Action::Nothing
        } else {
            self.anywhere(b)
        }
    }

    fn dcs_passthrough(&mut self, b: u8) -> (r: Action)
        requires
            old(self).wf(),
        ensures
            (final(self)@, r@) == dcs_passthrough(old(self)@, b),
            final(self).wf(),
    {
        if b == 0x18 || b == 0x1A {
            self.state = ParseState::Ground;
            Action::Execute(b)
        } else if b == 0x1B {
            self.reset();
            self.state = ParseState::Escape;
            Action::Nothing
        } else if b == 0x9C {
            self.state = ParseState::Ground;
            Action::Nothing
        } else {
            Action::Nothing
        }
    }

    fn osc_string(&mut self, b: u8) -> (r: (Action, Action))
        requires
            old(self).wf(),
        ensures
            (final(self)@, r.0@, r.1@) == osc_string(old(self)@, b),
            final(self).wf(),
    {
        if b == 0x07 {
            let a = self.osc_finish();
            self.state = ParseState::Ground;
            (a, Action::Nothing)
        } else if b == 0x18 || b == 0x1A {
            let a = self.osc_finish();
            self.state = ParseState::Ground;
            (a, Action::Execute(b))
        } else if b == 0x1B {
            let a = self.osc_finish();
            self.reset();
            self.state = ParseState::Escape;
            (a, Action::Nothing)
        } else if b < 0x20 {
            (Action::Nothing, Action::Nothing)
        } else if b == 0x3B {
            self.osc_next();
            (Action::Nothing, Action::Nothing)
        } else {
            self.osc_put(b);
            (Action::Nothing, Action::Nothing)
        }
    }

    /// Read one byte: the parser moves to its next state and returns the
    /// actions it calls for, to be performed in order.
    pub fn advance(&mut self, b: u8) -> (r: (Action, Action))
        requires
            old(self).wf(),
        ensures
            (final(self)@, r.0@, r.1@) == parser_step(old(self)@, b),
            final(self).wf(),
    {
        match self.state {
            ParseState::Ground => self.ground(b),
            ParseState::Escape => (self.escape(b), Action::Nothing),
            ParseState::EscapeIntermediate => (self.escape_intermediate(b), Action::Nothing),
            ParseState::CsiEntry => (self.csi_entry(b), Action::Nothing),
            ParseState::CsiParam => (self.csi_param(b), Action::Nothing),
            ParseState::CsiIntermediate => (self.csi_intermediate(b), Action::Nothing),
            ParseState::CsiIgnore => (self.csi_ignore(b), Action::Nothing),
            ParseState::DcsEntry => (self.dcs_head(b), Action::Nothing),
            ParseState::DcsParam => (self.dcs_head(b), Action::Nothing),
            ParseState::DcsIntermediate => (self.dcs_head(b), Action::Nothing),
            ParseState::DcsIgnore => (self.anywhere(b), Action::Nothing),
            ParseState::DcsPassthrough => (self.dcs_passthrough(b), Action::Nothing),
            ParseState::OscString => self.osc_string(b),
            ParseState::SosPmApcString => (self.anywhere(b), Action::Nothing),
        }
    }
}

} // verus!
