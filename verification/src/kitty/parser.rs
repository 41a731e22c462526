//! The filter that takes graphics commands out of the byte stream.

use crate::kitty::command::{
    command_of, kitty_response, parse_control_keys, push_bytes, response_bytes,
};
use crate::kitty::decode::{base64_decoded, decode_image_data, decoded_outcome};
use crate::kitty::{event_model, EventModel, KittyAction, KittyCommand, KittyEvent};
use crate::text;
use vstd::prelude::*;
use vstd::utf8::{decode_utf8, valid_utf8};

verus! {

/// Longest command that is collected.
pub const MAX_APC_PAYLOAD: usize = 0x200_0000;

/// State machine intercepting Kitty APC graphics sequences (`\x1b_G...;payload\x1b\`) from the byte
/// stream.
pub struct KittyParser {
    pub in_apc: bool,
    pub apc_buffer: Vec<u8>,
    pub pending_stream: Vec<u8>,
    pub chunked_command: Option<KittyCommand>,
    pub chunked_payload: Vec<u8>,
    pub next_image_id: u32,
    pub clean_scratch: Vec<u8>,
    pub events_scratch: Vec<KittyEvent>,
}

/// What the parser remembers between two pieces of the stream.
#[verifier::ext_equal]
pub struct ParserModel {
    /// Whether a command is being collected.
    pub in_apc: bool,
    /// The bytes of that command.
    pub apc: Seq<u8>,
    /// Bytes that may start or end a command and wait for what follows.
    pub pending: Seq<u8>,
    /// The first command of a transmission in several pieces.
    pub chunked: Option<KittyCommand>,
    /// The payload of its pieces so far.
    pub payload: Seq<u8>,
    /// Number for the next image without one.
    pub next_id: u32,
}

impl View for KittyParser {
    type V = ParserModel;

    open spec fn view(&self) -> ParserModel {
        ParserModel {
            in_apc: self.in_apc,
            apc: self.apc_buffer@,
            pending: self.pending_stream@,
            chunked: self.chunked_command,
            payload: self.chunked_payload@,
            next_id: self.next_image_id,
        }
    }
}

/// What comes out of a piece of the stream: the parser after it, the bytes that are no graphics
/// commands, and the events.
#[verifier::ext_equal]
pub struct Filtered {
    pub parser: ParserModel,
    pub text: Seq<u8>,
    pub events: Seq<EventModel>,
}

/// One step of the filter: the parser after it, how many bytes it took, those of them that are
/// text, and the event it gave.
#[verifier::ext_equal]
pub struct Step {
    pub parser: ParserModel,
    pub used: nat,
    pub text: Seq<u8>,
    pub event: Option<EventModel>,
}

/// Where the first semicolon stands, or the length where there is none.
pub open spec fn semicolon(s: Seq<u8>) -> nat
    decreases s.len(),
{
    if s.len() == 0 || s[0] == 0x3b {
        0
    } else {
        1 + semicolon(s.drop_first())
    }
}

/// What the events of a step add to a list.
pub open spec fn event_list(e: Option<EventModel>) -> Seq<EventModel> {
    match e {
        Some(e) => seq![e],
        None => Seq::empty(),
    }
}

/// What events hold.
pub open spec fn event_models(events: Seq<KittyEvent>) -> Seq<EventModel> {
    events.map_values(|e: KittyEvent| e@)
}

/// An identifier and the one after it.
pub open spec fn next_identifier(id: u32) -> u32 {
    if id == u32::MAX {
        0
    } else {
        (id + 1) as u32
    }
}

impl ParserModel {
    /// Transmission of a command with its whole payload. An image without a number gets the next.
    pub open spec fn transmitted(self, cmd: KittyCommand, payload: Seq<u8>) -> (
        ParserModel,
        Option<EventModel>,
    ) {
        match cmd.image_id {
            Some(id) => (self, decoded_outcome(cmd, id, base64_decoded(payload))),
            None => (
                ParserModel { next_id: next_identifier(self.next_id), ..self },
                decoded_outcome(cmd, self.next_id, base64_decoded(payload)),
            ),
        }
    }

    /// What a complete command does.
    pub open spec fn executed(self, cmd: KittyCommand, payload: Seq<u8>) -> (
        ParserModel,
        Option<EventModel>,
    ) {
        match cmd.action {
            KittyAction::Query => (
                self,
                Some(
                    EventModel::Response(
                        response_bytes(
                            match cmd.image_id {
                                Some(id) => id,
                                None => 0,
                            },
                            None,
                            "OK"@,
                        ),
                    ),
                ),
            ),
            KittyAction::Delete => (
                self,
                Some(EventModel::Delete { target: cmd.delete_target }),
            ),
            KittyAction::Place => (self, Some(EventModel::Place { command: cmd })),
            _ => if cmd.more_chunks {
                (
                    ParserModel {
                        chunked: match self.chunked {
                            Some(first) => Some(first),
                            None => Some(cmd),
                        },
                        payload: self.payload + payload,
                        ..self
                    },
                    None,
                )
            } else {
                match self.chunked {
                    Some(first) => ParserModel {
                        chunked: None,
                        payload: Seq::empty(),
                        ..self
                    }.transmitted(
                        KittyCommand { more_chunks: false, ..first },
                        self.payload + payload,
                    ),
                    None => self.transmitted(cmd, payload),
                }
            },
        }
    }

    /// The end of a command. One without a semicolon, or whose keys are no text, does nothing.
    pub open spec fn finished(self) -> (ParserModel, Option<EventModel>) {
        let at = semicolon(self.apc) as int;
        let keys = self.apc.take(at);
        if at == self.apc.len() || !valid_utf8(keys) {
            (self, None)
        } else {
            self.executed(command_of(decode_utf8(keys)), self.apc.skip(at + 1))
        }
    }

    /// The parser after the end of a command of `used` bytes.
    pub open spec fn closed(self, used: nat) -> Step {
        let (after, event) = ParserModel { in_apc: false, ..self }.finished();
        Step {
            parser: ParserModel { apc: Seq::empty(), ..after },
            used,
            text: Seq::empty(),
            event,
        }
    }

    /// The parser with one more byte of a command.
    pub open spec fn collected(self, b: u8) -> Step {
        Step {
            parser: ParserModel { apc: self.apc.push(b), ..self },
            used: 1,
            text: Seq::empty(),
            event: None,
        }
    }

    /// The parser that passes one byte on.
    pub open spec fn passed(self, b: u8) -> Step {
        Step { parser: self, used: 1, text: seq![b], event: None }
    }

    /// The parser that waits for what follows.
    pub open spec fn waiting(self, rest: Seq<u8>) -> Step {
        Step {
            parser: ParserModel { pending: rest, ..self },
            used: 0,
            text: Seq::empty(),
            event: None,
        }
    }

    /// The parser that has given up a command that grew too long.
    pub open spec fn abandoned(self) -> Step {
        Step {
            parser: ParserModel {
                in_apc: false,
                apc: Seq::empty(),
                payload: Seq::empty(),
                chunked: None,
                ..self
            },
            used: 1,
            text: Seq::empty(),
            event: None,
        }
    }

    /// One step on what is left of the stream, which is not empty.
    pub open spec fn step(self, rest: Seq<u8>) -> Step {
        if self.in_apc {
            if self.apc.len() > MAX_APC_PAYLOAD {
                self.abandoned()
            } else if rest[0] == 0x07 {
                self.closed(1)
            } else if rest[0] == 0x1b {
                if rest.len() == 1 {
                    self.waiting(rest)
                } else if rest[1] == 0x5c {
                    self.closed(2)
                } else {
                    self.collected(0x1b)
                }
            } else {
                self.collected(rest[0])
            }
        } else if rest[0] == 0x1b {
            if rest.len() == 1 || (rest.len() == 2 && rest[1] == 0x5f) {
                self.waiting(rest)
            } else if rest[1] == 0x5f && rest[2] == 0x47 {
                Step {
                    parser: ParserModel { in_apc: true, apc: Seq::empty(), ..self },
                    used: 3,
                    text: Seq::empty(),
                    event: None,
                }
            } else {
                self.passed(0x1b)
            }
        } else {
            self.passed(rest[0])
        }
    }

    /// The filter run over bytes, while nothing waits.
    pub open spec fn scanned(self, rest: Seq<u8>) -> Filtered
        decreases rest.len(),
    {
        if rest.len() == 0 {
            Filtered { parser: self, text: Seq::empty(), events: Seq::empty() }
        } else {
            let s = self.step(rest);
            if s.used == 0 || s.used > rest.len() {
                Filtered { parser: s.parser, text: s.text, events: event_list(s.event) }
            } else {
                let tail = s.parser.scanned(rest.skip(s.used as int));
                Filtered {
                    parser: tail.parser,
                    text: s.text + tail.text,
                    events: event_list(s.event) + tail.events,
                }
            }
        }
    }

    /// The filter run over the next piece of the stream.
    pub open spec fn filtered(self, incoming: Seq<u8>) -> Filtered {
        ParserModel { pending: Seq::empty(), ..self }.scanned(self.pending + incoming)
    }

    /// Whether the next piece of the stream can be passed on as it is.
    pub open spec fn passes(self, incoming: Seq<u8>) -> bool {
        !self.in_apc && self.pending.len() == 0 && !may_hold_apc(incoming)
    }
}

/// Whether bytes may hold the start of a command.
pub open spec fn may_hold_apc(bytes: Seq<u8>) -> bool {
    exists|i: int|
        0 <= i < bytes.len() && #[trigger] bytes[i] == 0x1b && (i + 1 == bytes.len() || bytes[i + 1]
            == 0x5f)
}

/// Bytes that cannot hold the start of a command pass through the filter unchanged and give no
/// event.
pub proof fn law_fast_path_is_exact(parser: ParserModel, bytes: Seq<u8>)
    requires
        parser.passes(bytes),
    ensures
        parser.filtered(bytes) == (Filtered { parser, text: bytes, events: Seq::empty() }),
    decreases bytes.len(),
{
    assert(parser.pending =~= Seq::empty());
    assert(parser.pending + bytes =~= bytes);
    assert(ParserModel { pending: Seq::empty(), ..parser } =~= parser);
    if bytes.len() > 0 {
        let rest = bytes.skip(1);
        assert forall|i: int| 0 <= i < rest.len() && #[trigger] rest[i] == 0x1b implies !(i + 1
            == rest.len() || rest[i + 1] == 0x5f) by {
            assert(bytes[i + 1] == rest[i]);
        }
        law_fast_path_is_exact(parser, rest);
        assert(parser.pending + rest =~= rest);
        assert(parser.step(bytes) =~= parser.passed(bytes[0]));
        assert(seq![bytes[0]] + rest =~= bytes);
        assert(Seq::<EventModel>::empty() + Seq::empty() =~= Seq::<EventModel>::empty());
    }
}

/// A step that takes bytes does the same whatever follows them.
proof fn lemma_step_extends(parser: ParserModel, rest: Seq<u8>, more: Seq<u8>)
    requires
        rest.len() > 0,
        parser.step(rest).used > 0,
    ensures
        parser.step(rest + more) == parser.step(rest),
        parser.step(rest).used <= rest.len(),
        parser.step(rest).parser.pending == parser.pending,
{
    assert((rest + more)[0] == rest[0]);
    if rest.len() > 1 {
        assert((rest + more)[1] == rest[1]);
    }
    if rest.len() > 2 {
        assert((rest + more)[2] == rest[2]);
    }
}

/// A scan can stop between any two bytes and go on later.
proof fn lemma_scan_splits(parser: ParserModel, rest: Seq<u8>, more: Seq<u8>)
    requires
        parser.pending.len() == 0,
    ensures
        ({
            let first = parser.scanned(rest);
            let second = first.parser.filtered(more);
            parser.scanned(rest + more) == Filtered {
                parser: second.parser,
                text: first.text + second.text,
                events: first.events + second.events,
            }
        }),
    decreases rest.len(),
{
    let first = parser.scanned(rest);
    let second = first.parser.filtered(more);
    if rest.len() == 0 {
        assert(rest + more =~= more);
        assert(ParserModel { pending: Seq::empty(), ..parser } =~= parser);
        assert(parser.pending + more =~= more);
        assert(first.text + second.text =~= second.text);
        assert(first.events + second.events =~= second.events);
    } else {
        let s = parser.step(rest);
        if s.used == 0 {
            assert(s == parser.waiting(rest));
            assert(ParserModel { pending: Seq::empty(), ..s.parser } =~= parser);
            assert(first.text + second.text =~= second.text);
            assert(first.events + second.events =~= second.events);
        } else {
            lemma_step_extends(parser, rest, more);
            lemma_scan_splits(s.parser, rest.skip(s.used as int), more);
            assert((rest + more).skip(s.used as int) =~= rest.skip(s.used as int) + more);
            let tail = s.parser.scanned(rest.skip(s.used as int));
            assert(s.text + (tail.text + second.text) =~= first.text + second.text);
            assert(event_list(s.event) + (tail.events + second.events) =~= first.events
                + second.events);
        }
    }
}

/// How the stream is cut into pieces does not matter: two pieces give the text and the events of
/// the whole, and leave the parser the same.
pub proof fn law_pieces_do_not_matter(parser: ParserModel, a: Seq<u8>, b: Seq<u8>)
    ensures
        ({
            let first = parser.filtered(a);
            let second = first.parser.filtered(b);
            parser.filtered(a + b) == Filtered {
                parser: second.parser,
                text: first.text + second.text,
                events: first.events + second.events,
            }
        }),
{
    lemma_scan_splits(ParserModel { pending: Seq::empty(), ..parser }, parser.pending + a, b);
    assert(parser.pending + (a + b) =~= parser.pending + a + b);
}

/// A transmission in two pieces does what the first command does with the whole payload.
pub proof fn law_chunks_add_up(
    parser: ParserModel,
    first: KittyCommand,
    last: KittyCommand,
    a: Seq<u8>,
    b: Seq<u8>,
)
    requires
        parser.chunked is None,
        parser.payload.len() == 0,
        first.more_chunks,
        !last.more_chunks,
        first.action == KittyAction::TransmitAndDisplay || first.action
            == KittyAction::TransmitAndDisplayWithResponse,
        last.action == KittyAction::TransmitAndDisplay || last.action
            == KittyAction::TransmitAndDisplayWithResponse,
    ensures
        parser.executed(first, a).1 is None,
        parser.executed(first, a).0.executed(last, b) == parser.executed(
            KittyCommand { more_chunks: false, ..first },
            a + b,
        ),
{
    let middle = parser.executed(first, a).0;
    assert(parser.payload =~= Seq::empty());
    assert(middle.payload + b =~= a + b);
    assert(ParserModel { chunked: None, payload: Seq::empty(), ..middle } =~= parser);
}

fn may_contain_kitty_apc(bytes: &[u8]) -> (r: bool)
    ensures
        r == may_hold_apc(bytes@),
{
    let mut i: usize = 0;
    while i < bytes.len()
        invariant
            i <= bytes@.len(),
            forall|j: int|
                0 <= j < i && #[trigger] bytes@[j] == 0x1b ==> !(j + 1 == bytes@.len() || bytes@[j
                    + 1] == 0x5f),
        decreases bytes@.len() - i,
    {
        if bytes[i] == 0x1b && (i + 1 >= bytes.len() || bytes[i + 1] == 0x5f) {
            assert(bytes@[i as int] == 0x1b);
            return true;
        }
        i += 1;
    }
    false
}

fn semicolon_position(bytes: &Vec<u8>) -> (r: usize)
    ensures
        r == semicolon(bytes@),
        r <= bytes@.len(),
{
    let mut i: usize = 0;
    assert(bytes@.skip(0) =~= bytes@);
    while i < bytes.len() && bytes[i] != 0x3b
        invariant
            i <= bytes@.len(),
            semicolon(bytes@) == i + semicolon(bytes@.skip(i as int)),
        decreases bytes@.len() - i,
    {
        assert(bytes@.skip(i as int).drop_first() =~= bytes@.skip(i + 1));
        i += 1;
    }
    i
}

/// A part of a list of bytes.
fn part(bytes: &Vec<u8>, from: usize, to: usize) -> (r: Vec<u8>)
    requires
        from <= to <= bytes@.len(),
    ensures
        r@ == bytes@.subrange(from as int, to as int),
{
    let mut out: Vec<u8> = Vec::new();
    let mut i: usize = from;
    while i < to
        invariant
            from <= i <= to <= bytes@.len(),
            out@ == bytes@.subrange(from as int, i as int),
        decreases to - i,
    {
        out.push(bytes[i]);
        assert(out@ =~= bytes@.subrange(from as int, i + 1));
        i += 1;
    }
    out
}

impl Default for KittyParser {
    fn default() -> (r: Self)
        ensures
            r@ == (ParserModel {
                in_apc: false,
                apc: Seq::empty(),
                pending: Seq::empty(),
                chunked: None,
                payload: Seq::empty(),
                next_id: 0,
            }),
            r.clean_scratch@.len() == 0,
            r.events_scratch@.len() == 0,
    {
        KittyParser {
            in_apc: false,
            apc_buffer: Vec::new(),
            pending_stream: Vec::new(),
            chunked_command: None,
            chunked_payload: Vec::new(),
            next_image_id: 0,
            clean_scratch: Vec::new(),
            events_scratch: Vec::new(),
        }
    }
}

impl KittyParser {
    /// A parser outside any command. Images without a number are numbered from one.
    pub fn new() -> (r: Self)
        ensures
            r@ == (ParserModel {
                in_apc: false,
                apc: Seq::empty(),
                pending: Seq::empty(),
                chunked: None,
                payload: Seq::empty(),
                next_id: 1,
            }),
            r.clean_scratch@.len() == 0,
            r.events_scratch@.len() == 0,
    {
        let mut parser: KittyParser = KittyParser::default();
        parser.next_image_id = 1;
        parser
    }

    /// Returns `true` if the incoming byte slice is guaranteed to contain no Kitty APC sequences
    /// and the parser is not currently in the middle of parsing an APC stream.
    ///
    /// When this returns `true`, callers can pass the raw byte slice directly to the VT parser,
    /// completely bypassing all allocation, filtering, and copying overhead.
    pub fn is_fast_path(&self, incoming: &[u8]) -> (r: bool)
        ensures
            r == self@.passes(incoming@),
    {
        !self.in_apc && self.pending_stream.len() == 0 && !may_contain_kitty_apc(incoming)
    }

    /// Filters an incoming byte stream, stripping Kitty APC sequences and emitting parsed graphics
    /// events.
    ///
    /// Non-graphics bytes are returned in the first vector to be processed by the standard VT
    /// parser. Events are handed out without cloning image buffers, and the parser keeps none.
    pub fn filter_bytes(&mut self, incoming: &[u8]) -> (r: (Vec<u8>, Vec<KittyEvent>))
        ensures
            (Filtered { parser: final(self)@, text: r.0@, events: event_models(r.1@) }) == old(
                self,
            )@.filtered(incoming@),
            old(self).events_scratch@.len() == 0 ==> final(self).events_scratch@.len() == 0,
    {
        if self.is_fast_path(incoming) {
            proof {
                law_fast_path_is_exact(self@, incoming@);
            }
            let mut text: Vec<u8> = Vec::new();
            push_bytes(&mut text, incoming);
            let events: Vec<KittyEvent> = Vec::new();
            assert(text@ =~= incoming@);
            assert(event_models(events@) =~= Seq::<EventModel>::empty());
            return (text, events);
        }
        self.filter_internal(incoming);
        let text: Vec<u8> = self.clean_scratch.clone();
        assert(text@ =~= self.clean_scratch@);
        self.clean_scratch.clear();
        let mut events: Vec<KittyEvent> = Vec::new();
        std::mem::swap(&mut events, &mut self.events_scratch);
        (text, events)
    }

    fn filter_internal(&mut self, incoming: &[u8])
        ensures
            (Filtered {
                parser: final(self)@,
                text: final(self).clean_scratch@,
                events: event_models(final(self).events_scratch@),
            }) == old(self)@.filtered(incoming@),
    {
        let ghost start = self@;
        self.clean_scratch.clear();
        self.events_scratch.clear();
        let mut bytes: Vec<u8> = Vec::new();
        std::mem::swap(&mut bytes, &mut self.pending_stream);
        push_bytes(&mut bytes, incoming);
        let mut i: usize = 0;
        assert(self@ =~= ParserModel { pending: Seq::empty(), ..start });
        assert(bytes@.skip(0) =~= start.pending + incoming@);
        assert(event_models(self.events_scratch@) =~= Seq::<EventModel>::empty());
        assert(start.filtered(incoming@) =~= Filtered {
            parser: self@.scanned(bytes@.skip(0)).parser,
            text: self.clean_scratch@ + self@.scanned(bytes@.skip(0)).text,
            events: event_models(self.events_scratch@) + self@.scanned(bytes@.skip(0)).events,
        });
        while i < bytes.len()
            invariant_except_break
                i <= bytes@.len(),
                self@.pending.len() == 0,
                start.filtered(incoming@) == (Filtered {
                    parser: self@.scanned(bytes@.skip(i as int)).parser,
                    text: self.clean_scratch@ + self@.scanned(bytes@.skip(i as int)).text,
                    events: event_models(self.events_scratch@) + self@.scanned(
                        bytes@.skip(i as int),
                    ).events,
                }),
            ensures
                (Filtered {
                    parser: self@,
                    text: self.clean_scratch@,
                    events: event_models(self.events_scratch@),
                }) == start.filtered(incoming@),
            decreases bytes@.len() - i,
        {
            let ghost rest = bytes@.skip(i as int);
            let ghost before = self@;
            let ghost text = self.clean_scratch@;
            let ghost events = event_models(self.events_scratch@);
            let used: usize = self.take_step(&bytes, i);
            let ghost s = before.step(rest);
            if used == 0 {
                proof {
                    assert(self.clean_scratch@ =~= text + s.text);
                }
                break;
            }
            proof {
                lemma_step_extends(before, rest, Seq::empty());
                assert(rest.skip(used as int) =~= bytes@.skip(i + used));
                let tail = self@.scanned(bytes@.skip(i + used));
                assert(self.clean_scratch@ + tail.text =~= text + (s.text + tail.text));
                assert(event_models(self.events_scratch@) + tail.events =~= events + (event_list(
                    s.event,
                ) + tail.events));
            }
            i += used;
        }
    }

    /// One step of the filter; returns how many bytes it took, zero where it waits for more.
    fn take_step(&mut self, bytes: &Vec<u8>, i: usize) -> (used: usize)
        requires
            i < bytes@.len(),
            old(self)@.pending.len() == 0,
        ensures
            ({
                let s = old(self)@.step(bytes@.skip(i as int));
                &&& final(self)@ == s.parser
                &&& used == s.used
                &&& i + used <= bytes@.len()
                &&& final(self).clean_scratch@ == old(self).clean_scratch@ + s.text
                &&& event_models(final(self).events_scratch@) == event_models(
                    old(self).events_scratch@,
                ) + event_list(s.event)
            }),
    {
        let ghost rest = bytes@.skip(i as int);
        let ghost start = *self;
        let left: usize = bytes.len() - i;
        let byte: u8 = bytes[i];
        assert(rest[0] == byte);
        assert(left >= 2 ==> rest[1] == bytes@[i + 1]);
        assert(left >= 3 ==> rest[2] == bytes@[i + 2]);
        assert(start.events_scratch@ + Seq::empty() =~= start.events_scratch@);
        assert(event_models(start.events_scratch@) + Seq::empty() =~= event_models(
            start.events_scratch@,
        ));
        if self.in_apc {
            if self.apc_buffer.len() > MAX_APC_PAYLOAD {
                self.in_apc = false;
                self.apc_buffer.clear();
                self.chunked_payload.clear();
                self.chunked_command = None;
                assert(self@ =~= start@.abandoned().parser);
                1
            } else if byte == 0x07 {
                self.close_apc();
                1
            } else if byte == 0x1b {
                if left == 1 {
                    self.pending_stream.push(byte);
                    assert(self@ =~= start@.waiting(rest).parser);
                    0
                } else if bytes[i + 1] == 0x5c {
                    self.close_apc();
                    2
                } else {
                    self.apc_buffer.push(byte);
                    assert(self@ =~= start@.collected(byte).parser);
                    1
                }
            } else {
                self.apc_buffer.push(byte);
                assert(self@ =~= start@.collected(byte).parser);
                1
            }
        } else if byte == 0x1b {
            if left == 1 {
                self.pending_stream.push(byte);
                assert(self@ =~= start@.waiting(rest).parser);
                0
            } else if left == 2 && bytes[i + 1] == 0x5f {
                self.pending_stream.push(byte);
                self.pending_stream.push(0x5f);
                assert(self@ =~= start@.waiting(rest).parser);
                0
            } else if bytes[i + 1] == 0x5f && bytes[i + 2] == 0x47 {
                self.in_apc = true;
                self.apc_buffer.clear();
                3
            } else {
                self.clean_scratch.push(byte);
                assert(self.clean_scratch@ =~= start.clean_scratch@ + seq![byte]);
                1
            }
        } else {
            self.clean_scratch.push(byte);
            assert(self.clean_scratch@ =~= start.clean_scratch@ + seq![byte]);
            1
        }
    }

    /// Ends a command and keeps its event.
    fn close_apc(&mut self)
        ensures
            final(self)@ == old(self)@.closed(0).parser,
            final(self).clean_scratch@ == old(self).clean_scratch@,
            event_models(final(self).events_scratch@) == event_models(old(self).events_scratch@)
                + event_list(old(self)@.closed(0).event),
    {
        let ghost start = *self;
        self.in_apc = false;
        assert(self@ =~= ParserModel { in_apc: false, ..start@ });
        if let Some(event) = self.finish_apc() {
            self.events_scratch.push(event);
            assert(event_models(self.events_scratch@) =~= event_models(start.events_scratch@)
                + seq![event@]);
        }
        self.apc_buffer.clear();
    }

    fn finish_apc(&mut self) -> (r: Option<KittyEvent>)
        ensures
            (final(self)@, event_model(r)) == old(self)@.finished(),
            final(self).clean_scratch@ == old(self).clean_scratch@,
            final(self).events_scratch@ == old(self).events_scratch@,
    {
        let ghost start = self@;
        let at: usize = semicolon_position(&self.apc_buffer);
        if at == self.apc_buffer.len() {
            return None;
        }
        let keys: Vec<u8> = part(&self.apc_buffer, 0, at);
        let payload: Vec<u8> = part(&self.apc_buffer, at + 1, self.apc_buffer.len());
        assert(keys@ =~= start.apc.take(at as int));
        assert(payload@ =~= start.apc.skip(at + 1));
        match text::decode_text(keys.as_slice()) {
            Ok(keys_text) => {
                let command: KittyCommand = parse_control_keys(keys_text);
                self.execute(command, payload)
            },
            Err(_) => None,
        }
    }

    /// Does what a complete command asks for.
    fn execute(&mut self, command: KittyCommand, payload: Vec<u8>) -> (r: Option<KittyEvent>)
        ensures
            (final(self)@, event_model(r)) == old(self)@.executed(command, payload@),
            final(self).clean_scratch@ == old(self).clean_scratch@,
            final(self).events_scratch@ == old(self).events_scratch@,
    {
        let ghost start = self@;
        if command.action == KittyAction::Query {
            let id: u32 = match command.image_id {
                Some(id) => id,
                None => 0,
            };
            return Some(KittyEvent::Response(kitty_response(id, None, "OK")));
        }
        if command.action == KittyAction::Delete {
            return Some(KittyEvent::Delete { target: command.delete_target });
        }
        if command.action == KittyAction::Place {
            return Some(KittyEvent::Place { command });
        }
        if command.more_chunks {
            if self.chunked_command.is_none() {
                self.chunked_command = Some(command);
            }
            push_bytes(&mut self.chunked_payload, payload.as_slice());
            assert(self@ =~= start.executed(command, payload@).0);
            return None;
        }
        match self.chunked_command {
            Some(first) => {
                let mut whole: Vec<u8> = Vec::new();
                std::mem::swap(&mut whole, &mut self.chunked_payload);
                push_bytes(&mut whole, payload.as_slice());
                self.chunked_command = None;
                let mut first_command: KittyCommand = first;
                first_command.more_chunks = false;
                assert(self@ =~= ParserModel { chunked: None, payload: Seq::empty(), ..start });
                self.transmit(first_command, whole)
            },
            None => self.transmit(command, payload),
        }
    }

    /// Transmits a command with its whole payload.
    fn transmit(&mut self, command: KittyCommand, payload: Vec<u8>) -> (r: Option<KittyEvent>)
        ensures
            (final(self)@, event_model(r)) == old(self)@.transmitted(command, payload@),
            final(self).clean_scratch@ == old(self).clean_scratch@,
            final(self).events_scratch@ == old(self).events_scratch@,
    {
        let image_id: u32 = match command.image_id {
            Some(id) => id,
            None => {
                let id: u32 = self.next_image_id;
                self.next_image_id = id.wrapping_add(1);
                id
            },
        };
        decode_image_data(image_id, command, payload.as_slice())
    }
}

} // verus!
