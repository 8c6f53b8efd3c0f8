use crate::channel::{channel, Channel, ChannelView, Step};
use crate::consumer::Consumer;
use crate::senders::{AnchorSendingView, ControlSender, SendingView, UserAnchor, UserSender};
use crate::types::{Config, UserClosed};
use vstd::prelude::*;

verus! {

/// The one handle that keeps the user lane of a mailbox open. Everybody else
/// sends through anchors.
pub struct MailboxOwner<U> {
    sender: UserSender<U>,
}

impl<U> MailboxOwner<U> {
    /// The channel that the mailbox belongs to.
    pub closed spec fn of(&self) -> int {
        self.sender.of()
    }

    /// Close the mailbox to new messages. What was accepted before is still
    /// delivered, and a send that is already waiting for room still gets
    /// through; any other send is handed its message back.
    pub fn close_admission<C>(self, ch: &mut Channel<C, U>)
        requires
            old(ch).wf(),
            self.of() == old(ch)@.id,
            old(ch)@.user.senders > 0,
        ensures
            final(ch).wf(),
            final(ch)@ == old(ch)@.user_sender_gone(),
    {
        self.sender.drop(ch);
    }
}

/// Build a channel whose user lane is open for as long as its owner says.
#[must_use]
pub fn mailbox_channel<C, U>(cfg: Config) -> (made: (
    Channel<C, U>,
    ControlSender<C>,
    MailboxOwner<U>,
    UserAnchor<U>,
    Consumer<C, U>,
))
    requires
        cfg.capacity() <= 0x4000_0000,
    ensures
        made.0.wf(),
        made.4.wf(),
        made.4.attends(made.0@),
        made.4@ == crate::consumer::fresh_consumer(cfg),
        crate::channel::fresh_channel(cfg, made.0@),
        made.1.of() == made.0@.id,
        made.2.of() == made.0@.id,
        made.3.of() == made.0@.id,
{
    let (ch, control, sender, consumer) = channel::<C, U>(cfg);
    let anchor: UserAnchor<U> = sender.anchor();
    (ch, control, MailboxOwner { sender }, anchor, consumer)
}

/// A mailbox whose owner was its only sender keeps what it accepted, and hands
/// every message that starts out later back.
pub proof fn law_closed_mailbox_refuses<C, U>(ch: ChannelView<C, U>, message: U)
    requires
        ch.user.senders == 1,
    ensures
        ({
            let closed = ch.user_sender_gone();
            let late = AnchorSendingView {
                sending: SendingView { item: Some(message), registered: false },
                holds_sender: false,
            };
            &&& closed.user.entries == ch.user.entries
            &&& late.answer(closed) == Step::Ready(
                Err::<(), UserClosed<U>>(UserClosed(message)),
            )
            &&& late.channel_after(closed) == closed
        }),
{
}

} // verus!
