//! What the driver operations send: each operation is a plan of messages,
//! a message being a sequence of commands, a sequence of display data, or a
//! wait. Every byte sequence is carried by a `Transmission`.
use vstd::prelude::*;
use vstd::seq_lib::lemma_flatten_concat;
use crate::buffer::{H, W};
use crate::command::{init_opcodes, init_sequence, position_opcodes, reset, set_position};
use crate::interface::{filled, DisplayBuffer};
use crate::transmit::{wire_trace, WireStep};

verus! {

/// The time the panel takes to recover from a reset, in microseconds.
pub const RESET_SETTLE_US: u16 = 100;

/// A message of the driver as a value.
pub enum MessageView {
    Commands(Seq<u8>),
    Data(Seq<u8>),
    DelayUs(u16),
}

/// One step of a driver operation.
pub enum Message {
    /// Send these bytes as commands.
    Commands(Vec<u8>),
    /// Send these bytes as display data.
    Data(Vec<u8>),
    /// Wait this many microseconds.
    DelayUs(u16),
}

impl View for Message {
    type V = MessageView;

    open spec fn view(&self) -> MessageView {
        match self {
            Message::Commands(b) => MessageView::Commands(b@),
            Message::Data(b) => MessageView::Data(b@),
            Message::DelayUs(t) => MessageView::DelayUs(*t),
        }
    }
}

/// The messages of a plan, as values.
pub open spec fn plan_view(plan: Seq<Message>) -> Seq<MessageView> {
    plan.map_values(|m: Message| m@)
}

/// Reset, the settle wait, then the initialization sequence.
pub open spec fn init_messages() -> Seq<MessageView> {
    seq![
        MessageView::Commands(seq![0xE2u8]),
        MessageView::DelayUs(RESET_SETTLE_US),
        MessageView::Commands(init_opcodes()),
    ]
}

/// The cursor set to the origin, then every line of the buffer in order.
pub open spec fn buffer_messages(lines: Seq<Seq<u8>>) -> Seq<MessageView> {
    seq![MessageView::Commands(position_opcodes(0, 0))] + Seq::new(
        lines.len(),
        |i: int| MessageView::Data(lines[i]),
    )
}

/// The bus operations that carry one message.
pub open spec fn message_wire(m: MessageView) -> Seq<WireStep> {
    match m {
        MessageView::Commands(b) => wire_trace(b, 0),
        MessageView::Data(b) => wire_trace(b, 1),
        MessageView::DelayUs(_) => Seq::empty(),
    }
}

/// The bus operations that carry a plan, in order.
pub open spec fn plan_wire(ms: Seq<MessageView>) -> Seq<WireStep> {
    ms.map_values(|m: MessageView| message_wire(m)).flatten()
}

fn to_vec(bytes: &[u8]) -> (r: Vec<u8>)
    ensures
        r@ == bytes@,
{
    let mut v: Vec<u8> = Vec::new();
    let mut i: usize = 0;
    while i < bytes.len()
        invariant
            i <= bytes@.len(),
            v@ == bytes@.take(i as int),
        decreases bytes@.len() - i,
    {
        v.push(bytes[i]);
        i = i + 1;
        assert(v@ =~= bytes@.take(i as int));
    }
    assert(bytes@.take(bytes@.len() as int) =~= bytes@);
    v
}

/// The steps that initialize the panel: reset, wait for the panel to
/// settle, then send the initialization sequence.
pub fn initialize_plan() -> (r: Vec<Message>)
    ensures
        plan_view(r@) == init_messages(),
{
    let init = init_sequence();
    let mut first: Vec<u8> = Vec::new();
    first.push(reset());
    assert(first@ =~= seq![0xE2u8]);
    let rest = to_vec(init.as_slice());
    assert(rest@ == init_opcodes());
    let mut r: Vec<Message> = Vec::new();
    r.push(Message::Commands(first));
    r.push(Message::DelayUs(RESET_SETTLE_US));
    r.push(Message::Commands(rest));
    assert(plan_view(r@) =~= init_messages());
    r
}

/// The steps that send a whole buffer: set the cursor to the origin, then
/// send every line in order as display data.
pub fn buffer_plan<B: DisplayBuffer>(buffer: &B) -> (r: Vec<Message>)
    ensures
        plan_view(r@) == buffer_messages(buffer.lines()),
{
    let position = set_position(0, 0);
    let mut r: Vec<Message> = Vec::new();
    r.push(Message::Commands(to_vec(position.as_slice())));
    let count = buffer.line_count();
    let mut y: usize = 0;
    while y < count
        invariant
            count == buffer.lines().len(),
            y <= count,
            plan_view(r@) == buffer_messages(buffer.lines().take(y as int)),
        decreases count - y,
    {
        let ghost old_r = r@;
        match buffer.get_line(y) {
            Some(line) => {
                let bytes = to_vec(line);
                assert(bytes@ == buffer.lines()[y as int]);
                r.push(Message::Data(bytes));
                assert(plan_view(r@) =~= plan_view(old_r) + seq![
                    MessageView::Data(buffer.lines()[y as int]),
                ]);
            },
            None => {},
        }
        y = y + 1;
        assert(plan_view(r@) =~= buffer_messages(buffer.lines().take(y as int)));
    }
    assert(buffer.lines().take(count as int) =~= buffer.lines());
    r
}

/// Initializing the panel and then sending an all-zero buffer sends the
/// reset, waits, sends the initialization sequence and the position of the
/// origin as commands, then `H` transfers of `W` zero bytes as data, and
/// nothing else.
pub proof fn lemma_start_then_blank_frame()
    ensures
        ({
            let blank = Seq::new(H as nat, |_i: int| filled(W as nat, 0));
            let ms = init_messages() + buffer_messages(blank);
            &&& ms == seq![
                MessageView::Commands(seq![0xE2u8]),
                MessageView::DelayUs(RESET_SETTLE_US),
                MessageView::Commands(init_opcodes()),
                MessageView::Commands(position_opcodes(0, 0)),
            ] + Seq::new(H as nat, |_i: int| MessageView::Data(filled(W as nat, 0)))
            &&& plan_wire(ms) == wire_trace(seq![0xE2u8], 0) + wire_trace(init_opcodes(), 0)
                + wire_trace(position_opcodes(0, 0), 0) + Seq::new(
                H as nat,
                |_i: int| wire_trace(filled(W as nat, 0), 1),
            ).flatten()
        }),
{
    let blank = Seq::new(H as nat, |_i: int| filled(W as nat, 0));
    let head = seq![
        MessageView::Commands(seq![0xE2u8]),
        MessageView::DelayUs(RESET_SETTLE_US),
        MessageView::Commands(init_opcodes()),
        MessageView::Commands(position_opcodes(0, 0)),
    ];
    let frames = Seq::new(H as nat, |_i: int| MessageView::Data(filled(W as nat, 0)));
    let ms = init_messages() + buffer_messages(blank);
    assert(ms =~= head + frames);
    let f = |m: MessageView| message_wire(m);
    assert((head + frames).map_values(f) =~= head.map_values(f) + frames.map_values(f));
    lemma_flatten_concat(head.map_values(f), frames.map_values(f));
    let hw = head.map_values(f);
    assert(hw =~= seq![
        wire_trace(seq![0xE2u8], 0),
        Seq::<WireStep>::empty(),
        wire_trace(init_opcodes(), 0),
        wire_trace(position_opcodes(0, 0), 0),
    ]);
    assert(hw =~= seq![wire_trace(seq![0xE2u8], 0)] + seq![Seq::<WireStep>::empty()] + seq![
        wire_trace(init_opcodes(), 0),
    ] + seq![wire_trace(position_opcodes(0, 0), 0)]);
    lemma_flatten_concat(
        seq![wire_trace(seq![0xE2u8], 0)] + seq![Seq::<WireStep>::empty()] + seq![
            wire_trace(init_opcodes(), 0),
        ],
        seq![wire_trace(position_opcodes(0, 0), 0)],
    );
    lemma_flatten_concat(
        seq![wire_trace(seq![0xE2u8], 0)] + seq![Seq::<WireStep>::empty()],
        seq![wire_trace(init_opcodes(), 0)],
    );
    lemma_flatten_concat(seq![wire_trace(seq![0xE2u8], 0)], seq![Seq::<WireStep>::empty()]);
    seq![wire_trace(seq![0xE2u8], 0)].lemma_flatten_one_element();
    seq![Seq::<WireStep>::empty()].lemma_flatten_one_element();
    seq![wire_trace(init_opcodes(), 0)].lemma_flatten_one_element();
    seq![wire_trace(position_opcodes(0, 0), 0)].lemma_flatten_one_element();
    assert(wire_trace(seq![0xE2u8], 0) + Seq::<WireStep>::empty() =~= wire_trace(seq![0xE2u8], 0));
    assert(frames.map_values(f) =~= Seq::new(
        H as nat,
        |_i: int| wire_trace(filled(W as nat, 0), 1),
    ));
}

} // verus!
