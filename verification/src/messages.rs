//! Transient on-screen messages: created on a failed trade, shown for a
//! fixed number of frames, and dropped once their time runs out.

use vstd::prelude::*;
use crate::MarketError;

verus! {

/// How many rendered frames a fresh message stays on screen.
pub const MESSAGE_LIFETIME_TICKS: i32 = 45;

/// A timed on-screen message. It is decremented once per rendered frame and
/// removed as soon as no ticks remain.
pub struct TransientMessage {
    pub text: String,
    pub color: u32,
    pub ticks_remaining: i32,
}

/// The message one frame later: the same text and colour, one tick fewer.
pub open spec fn spec_aged(m: TransientMessage) -> TransientMessage {
    TransientMessage { text: m.text, color: m.color, ticks_remaining: (m.ticks_remaining - 1) as i32 }
}

/// One frame of the message lifecycle over a whole list: every message
/// loses one tick, and those with no ticks left afterwards are removed.
/// Order is preserved.
pub open spec fn spec_tick(msgs: Seq<TransientMessage>) -> Seq<TransientMessage>
    decreases msgs.len(),
{
    if msgs.len() == 0 {
        Seq::empty()
    } else if msgs.last().ticks_remaining > 1 {
        spec_tick(msgs.drop_last()).push(spec_aged(msgs.last()))
    } else {
        spec_tick(msgs.drop_last())
    }
}

/// A fresh message for a failed trade, in the given colour, with the full
/// lifetime ahead of it.
pub fn new_message(text: String, color: u32) -> (m: TransientMessage)
    ensures
        m.text == text,
        m.color == color,
        m.ticks_remaining == MESSAGE_LIFETIME_TICKS,
{
    TransientMessage { text, color, ticks_remaining: MESSAGE_LIFETIME_TICKS }
}

/// Advances the message list by one rendered frame (see `spec_tick`): a
/// message created with `n` ticks survives exactly `n - 1` further frames.
pub fn tick_messages(msgs: Vec<TransientMessage>) -> (r: Vec<TransientMessage>)
    ensures
        r@ =~= spec_tick(msgs@),
{
    let ghost orig = msgs@;
    let n = msgs.len();
    let mut out: Vec<TransientMessage> = Vec::new();
    let mut i: usize = 0;
    while i < n
        invariant
            n == orig.len(),
            msgs@ == orig,
            i <= n,
            out@ =~= spec_tick(orig.subrange(0, i as int)),
        decreases n - i,
    {
        let m = &msgs[i];
        let ticks = m.ticks_remaining;
        if ticks > 1 {
            let aged = TransientMessage {
                text: m.text.clone(),
                color: m.color,
                ticks_remaining: ticks - 1,
            };
            proof {
                assert(aged == spec_aged(orig[i as int]));
            }
            out.push(aged);
        }
        proof {
            let pre = orig.subrange(0, i as int);
            let cur = orig.subrange(0, i + 1);
            assert(cur.drop_last() =~= pre);
            assert(cur.last() == orig[i as int]);
        }
        i = i + 1;
    }
    proof {
        assert(orig.subrange(0, n as int) =~= orig);
    }
    out
}

/// The user-visible text for each error, as shown in a transient message.
impl MarketError {
    pub fn message(&self) -> (r: String)
        ensures
            *self is InsufficientFunds ==> r@ == "NOT ENOUGH MONEY TO BUY A SHARE"@,
            *self is NoSharesHeld ==> r@ == "DONT HAVE A SHARE TO SELL"@,
            *self is EmptyHistory ==> r@ == "NO PRICE HISTORY"@,
    {
        match self {
            MarketError::InsufficientFunds => "NOT ENOUGH MONEY TO BUY A SHARE".to_owned(),
            MarketError::NoSharesHeld => "DONT HAVE A SHARE TO SELL".to_owned(),
            MarketError::EmptyHistory => "NO PRICE HISTORY".to_owned(),
        }
    }
}

} // verus!
