use vstd::prelude::*;

verus! {

/// The chat that the local user is typing in, and when they last typed there
/// (milliseconds on a monotonic clock).
#[derive(Clone, Copy, Debug, PartialEq, Eq, Structural)]
pub struct TypingInfo {
    pub chat_id: u128,
    pub last_update: u64,
}

/// An event that drives the local typing indicator.
#[derive(Clone, Copy, Debug, PartialEq, Eq, Structural)]
pub enum TypingIndicator {
    /// The user typed in the chat, at the given time: resets the timer.
    Typing(u128, u64),
    /// The user stopped typing (sent the message): the indicator is not
    /// refreshed any more.
    NotTyping,
    /// Periodic tick for the chat, at the given time: resend the indicator.
    Refresh(u128, u64),
}

/// The typing indicator's state machine.
#[derive(Clone, Copy, Debug, PartialEq, Eq, Structural)]
pub struct TypingTracker {
    pub info: Option<TypingInfo>,
    /// How long the remote side shows an indicator, in seconds.
    pub timeout_secs: u64,
}

/// Whether an indicator sent at `last_update` is still fresh at `now`:
/// `now - last_update <= timeout - 500 ms`, where the elapsed time never goes
/// below zero.
pub open spec fn still_typing(last_update: u64, now: u64, timeout_secs: u64) -> bool {
    let elapsed: int = if now >= last_update {
        now - last_update
    } else {
        0
    };
    elapsed <= timeout_secs * 1000 - 500
}

/// One step of the machine: the next state, and the chat to which a typing
/// indicator is sent, if any.
pub open spec fn typing_step(info: Option<TypingInfo>, event: TypingIndicator, timeout_secs: u64) -> (
    Option<TypingInfo>,
    Option<u128>,
) {
    match event {
        TypingIndicator::Typing(chat_id, now) => {
            let send = match info {
                None => true,
                Some(i) => i.chat_id != chat_id,
            };
            (
                Some(TypingInfo { chat_id, last_update: now }),
                if send {
                    Some(chat_id)
                } else {
                    None
                },
            )
        },
        TypingIndicator::NotTyping => (None, None),
        TypingIndicator::Refresh(conv_id, now) => match info {
            None => (None, None),
            Some(i) => if i.chat_id != conv_id {
                (None, None)
            } else if still_typing(i.last_update, now, timeout_secs) {
                (info, Some(conv_id))
            } else {
                (info, None)
            },
        },
    }
}

impl TypingTracker {
    /// Nobody is typing yet. The timeout must be at least one second, since
    /// half a second is taken off it.
    pub fn new(timeout_secs: u64) -> (r: Self)
        requires
            timeout_secs >= 1,
        ensures
            r.info is None,
            r.timeout_secs == timeout_secs,
    {
        TypingTracker { info: None, timeout_secs }
    }

    /// Handles one event; returns the chat to which a typing indicator is to
    /// be sent now, if any.
    pub fn handle(&mut self, event: TypingIndicator) -> (send: Option<u128>)
        requires
            old(self).timeout_secs >= 1,
        ensures
            final(self).timeout_secs == old(self).timeout_secs,
            (final(self).info, send) == typing_step(old(self).info, event, old(self).timeout_secs),
            event matches TypingIndicator::Typing(c, t) ==> final(self).info == Some(
                TypingInfo { chat_id: c, last_update: t },
            ),
            event matches TypingIndicator::Typing(c, _) ==> (send == Some(c) <==> !(old(
                self,
            ).info matches Some(i) && i.chat_id == c)),
            event matches TypingIndicator::Typing(c, _) ==> (send is None || send == Some(c)),
            event is NotTyping ==> final(self).info is None && send is None,
            event matches TypingIndicator::Refresh(c, t) ==> (send == Some(c) <==> (old(
                self,
            ).info matches Some(i) && i.chat_id == c && (t < i.last_update || t - i.last_update
                <= old(self).timeout_secs * 1000 - 500))),
            event matches TypingIndicator::Refresh(c, _) ==> (send is None || send == Some(c)),
    {
        match event {
            TypingIndicator::Typing(chat_id, now) => {
                let should_send = match self.info {
                    None => true,
                    Some(info) => info.chat_id != chat_id,
                };
                self.info = Some(TypingInfo { chat_id, last_update: now });
                if should_send {
                    Some(chat_id)
                } else {
                    None
                }
            },
            TypingIndicator::NotTyping => {
                self.info = None;
                None
            },
            TypingIndicator::Refresh(conv_id, now) => {
                match self.info {
                    None => None,
                    Some(info) => {
                        if info.chat_id != conv_id {
                            self.info = None;
                            None
                        } else {
                            let elapsed: u64 = if now >= info.last_update {
                                now - info.last_update
                            } else {
                                0
                            };
                            let window: u128 = (self.timeout_secs as u128) * 1000 - 500;
                            if (elapsed as u128) <= window {
                                Some(conv_id)
                            } else {
                                None
                            }
                        }
                    },
                }
            },
        }
    }
}

/// The periodic tick sends a refresh for the active chat, and nothing when no
/// chat is active.
pub fn refresh_event(active_chat: Option<u128>, now: u64) -> (r: Option<TypingIndicator>)
    ensures
        match active_chat {
            Some(c) => r == Some(TypingIndicator::Refresh(c, now)),
            None => r is None,
        },
{
    match active_chat {
        Some(c) => Some(TypingIndicator::Refresh(c, now)),
        None => None,
    }
}

/// Typing again in the same chat does not send a second indicator: only the
/// first keystroke in a chat, or a switch of chat, sends one.
pub proof fn lemma_typing_same_chat_sends_once(
    info: Option<TypingInfo>,
    chat: u128,
    t1: u64,
    t2: u64,
    timeout_secs: u64,
)
    ensures
        ({
            let (s1, _) = typing_step(info, TypingIndicator::Typing(chat, t1), timeout_secs);
            typing_step(s1, TypingIndicator::Typing(chat, t2), timeout_secs).1 is None
        }),
{
}

/// Once the user stopped typing no refresh sends an indicator, until they
/// type again.
pub proof fn lemma_not_typing_silences_refresh(
    info: Option<TypingInfo>,
    chat: u128,
    now: u64,
    timeout_secs: u64,
)
    ensures
        ({
            let (s1, _) = typing_step(info, TypingIndicator::NotTyping, timeout_secs);
            typing_step(s1, TypingIndicator::Refresh(chat, now), timeout_secs) == (
                None::<TypingInfo>,
                None::<u128>,
            )
        }),
{
}

/// An indicator is only ever sent to the chat that the event names, and a
/// refresh only to the chat the user is typing in.
pub proof fn lemma_indicator_goes_to_typed_chat(
    info: Option<TypingInfo>,
    event: TypingIndicator,
    timeout_secs: u64,
)
    ensures
        ({
            let (_, send) = typing_step(info, event, timeout_secs);
            match send {
                Some(c) => match event {
                    TypingIndicator::Typing(chat, _) => c == chat,
                    TypingIndicator::Refresh(chat, _) => c == chat && (info matches Some(i)
                        && i.chat_id == chat),
                    TypingIndicator::NotTyping => false,
                },
                None => true,
            }
        }),
{
}

/// Runs the machine over `events` from `info`: the state at the end, and the
/// chats to which indicators were sent, in order.
pub open spec fn typing_run(info: Option<TypingInfo>, events: Seq<TypingIndicator>, timeout_secs: u64) -> (
    Option<TypingInfo>,
    Seq<u128>,
)
    decreases events.len(),
{
    if events.len() == 0 {
        (info, Seq::<u128>::empty())
    } else {
        let before = typing_run(info, events.drop_last(), timeout_secs);
        let (next, sent) = typing_step(before.0, events.last(), timeout_secs);
        (
            next,
            match sent {
                Some(c) => before.1.push(c),
                None => before.1,
            },
        )
    }
}

/// The chat of a keystroke event (other events have none).
pub open spec fn typed_chat(e: TypingIndicator) -> u128 {
    match e {
        TypingIndicator::Typing(c, _) => c,
        _ => 0,
    }
}

/// The chats of a run of keystrokes where the chat changes: the first
/// keystroke's, then each one that differs from the keystroke before it.
pub open spec fn chat_switches(events: Seq<TypingIndicator>) -> Seq<u128>
    decreases events.len(),
{
    if events.len() == 0 {
        Seq::<u128>::empty()
    } else if events.len() == 1 || typed_chat(events.last()) != typed_chat(
        events[events.len() - 2],
    ) {
        chat_switches(events.drop_last()).push(typed_chat(events.last()))
    } else {
        chat_switches(events.drop_last())
    }
}

/// Over any run of keystrokes, starting with nobody typing, an indicator is
/// sent exactly for the first keystroke and for each one in another chat
/// than the keystroke before, to that chat; the user is then typing in the
/// last keystroke's chat.
pub proof fn lemma_keystrokes_send_on_chat_switch(events: Seq<TypingIndicator>, timeout_secs: u64)
    requires
        forall|i: int| 0 <= i < events.len() ==> #[trigger] events[i] is Typing,
    ensures
        typing_run(None, events, timeout_secs).1 == chat_switches(events),
        events.len() > 0 ==> (typing_run(None, events, timeout_secs).0 matches Some(t)
            && t.chat_id == typed_chat(events.last())),
    decreases events.len(),
{
    if events.len() > 0 {
        let d = events.drop_last();
        assert forall|i: int| 0 <= i < d.len() implies #[trigger] d[i] is Typing by {
            assert(d[i] == events[i]);
        }
        lemma_keystrokes_send_on_chat_switch(d, timeout_secs);
        assert(events[events.len() - 1] is Typing);
        if events.len() > 1 {
            assert(d.last() == events[events.len() - 2]);
        }
    }
}

/// A keystroke always restarts the timer: whatever was tracked before, the
/// user is then typing in that chat since that keystroke, and a refresh for
/// that chat within the window (the timeout less half a second) re-sends the
/// indicator, while a later one sends nothing.
pub proof fn lemma_keystroke_restarts_timer(
    info: Option<TypingInfo>,
    chat: u128,
    t: u64,
    t2: u64,
    timeout_secs: u64,
)
    requires
        timeout_secs >= 1,
        t <= t2,
    ensures
        typing_step(info, TypingIndicator::Typing(chat, t), timeout_secs).0 == Some(
            TypingInfo { chat_id: chat, last_update: t },
        ),
        t2 - t <= timeout_secs * 1000 - 500 ==> typing_step(
            typing_step(info, TypingIndicator::Typing(chat, t), timeout_secs).0,
            TypingIndicator::Refresh(chat, t2),
            timeout_secs,
        ).1 == Some(chat),
        t2 - t > timeout_secs * 1000 - 500 ==> typing_step(
            typing_step(info, TypingIndicator::Typing(chat, t), timeout_secs).0,
            TypingIndicator::Refresh(chat, t2),
            timeout_secs,
        ).1 is None,
{
}

} // verus!
