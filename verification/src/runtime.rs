//! The message bus: three bounded, lossy queues — native OS events,
//! external commands, internal control requests — drained by one consumer
//! into ordered batches. Control requests are applied before commands, and
//! commands before OS events, so explicit intent always precedes passive
//! reaction; within a category, arrival order is kept.
//!
//! The queues are crossbeam channels whose two ends both live inside the
//! bus, so nothing else can disturb them, and the contracts written on the
//! trusted wrappers below hold.

use crate::border_manager::BorderMessage;
use crate::monitor::Window;
use crate::monitor_reconciliator::MonitorNotification;
use crate::stackbar_manager::StackbarMessage;
use crate::transparency_manager::TransparencyMessage;
use vstd::prelude::*;

verus! {

/// A native window event, as the OS event listener reports it: the numeric
/// native event code where one exists, and the window concerned.
#[derive(Debug, Clone, Copy, PartialEq, Eq, Structural)]
pub enum WindowManagerEvent {
    Destroy(u32, Window),
    FocusChange(u32, Window),
    Hide(u32, Window),
    Cloak(u32, Window),
    Minimize(u32, Window),
    MoveResizeStart(u32, Window),
    MoveResizeEnd(u32, Window),
    MouseCapture(u32, Window),
    Unmanage(Window),
    Raise(Window),
    TitleUpdate(u32, Window),
    Show(u32, Window),
    Uncloak(u32, Window),
    Manage(Window),
}

impl WindowManagerEvent {
    /// The window the event concerns.
    pub open spec fn spec_window(&self) -> Window {
        match *self {
            WindowManagerEvent::Destroy(_, w) => w,
            WindowManagerEvent::FocusChange(_, w) => w,
            WindowManagerEvent::Hide(_, w) => w,
            WindowManagerEvent::Cloak(_, w) => w,
            WindowManagerEvent::Minimize(_, w) => w,
            WindowManagerEvent::MoveResizeStart(_, w) => w,
            WindowManagerEvent::MoveResizeEnd(_, w) => w,
            WindowManagerEvent::MouseCapture(_, w) => w,
            WindowManagerEvent::Unmanage(w) => w,
            WindowManagerEvent::Raise(w) => w,
            WindowManagerEvent::TitleUpdate(_, w) => w,
            WindowManagerEvent::Show(_, w) => w,
            WindowManagerEvent::Uncloak(_, w) => w,
            WindowManagerEvent::Manage(w) => w,
        }
    }

    pub fn window(&self) -> (w: Window)
        ensures
            w == self.spec_window(),
    {
        match *self {
            WindowManagerEvent::Destroy(_, w) => w,
            WindowManagerEvent::FocusChange(_, w) => w,
            WindowManagerEvent::Hide(_, w) => w,
            WindowManagerEvent::Cloak(_, w) => w,
            WindowManagerEvent::Minimize(_, w) => w,
            WindowManagerEvent::MoveResizeStart(_, w) => w,
            WindowManagerEvent::MoveResizeEnd(_, w) => w,
            WindowManagerEvent::MouseCapture(_, w) => w,
            WindowManagerEvent::Unmanage(w) => w,
            WindowManagerEvent::Raise(w) => w,
            WindowManagerEvent::TitleUpdate(_, w) => w,
            WindowManagerEvent::Show(_, w) => w,
            WindowManagerEvent::Uncloak(_, w) => w,
            WindowManagerEvent::Manage(w) => w,
        }
    }
}

/// An external command, to the extent this core needs to tell them apart:
/// the pause/state/stop commands change how the dispatcher behaves, every
/// other command is carried opaquely by its code.
#[derive(Debug, Clone, Copy, PartialEq, Eq, Structural)]
pub enum SocketMessage {
    TogglePause,
    State,
    GlobalState,
    Stop,
    StopIgnoreRestore,
    Other(u32),
}

/// A show/hide/raise/lower of a managed window together with its border.
#[derive(Debug, Clone, Copy, PartialEq, Eq, Structural)]
pub enum WindowWithBorderAction {
    Show(isize),
    Hide(isize),
    Raise(isize),
    Lower(isize),
}

/// An internal control request from one of the subsystems.
#[derive(Debug)]
pub enum Control {
    Border(BorderMessage),
    Monitor(MonitorNotification),
    Stackbar(StackbarMessage),
    Transparency(TransparencyMessage),
    WindowWithBorder(WindowWithBorderAction),
}

/// One message of the bus. Commands carry a reply token: the driver maps it
/// back to the stream the command arrived on.
#[derive(Debug)]
pub enum Message {
    Event(WindowManagerEvent),
    Command(Vec<SocketMessage>, u64),
    TcpCommand(SocketMessage, u64),
    Control(Control),
}

#[verifier::external_type_specification]
#[verifier::external_body]
#[verifier::reject_recursive_types(T)]
pub struct ExSender<T>(crossbeam_channel::Sender<T>);

#[verifier::external_type_specification]
#[verifier::external_body]
#[verifier::reject_recursive_types(T)]
pub struct ExReceiver<T>(crossbeam_channel::Receiver<T>);

/// The messages sitting in a channel, oldest first.
pub uninterp spec fn chan_contents(rx: &crossbeam_channel::Receiver<Message>) -> Seq<Message>;

/// The capacity the bounded channel was created with.
pub uninterp spec fn chan_capacity(rx: &crossbeam_channel::Receiver<Message>) -> nat;

/// One bounded FIFO queue of the bus; it owns both ends of its channel.
pub struct MessageQueue {
    tx: crossbeam_channel::Sender<Message>,
    rx: crossbeam_channel::Receiver<Message>,
}

/// Relies on crossbeam_channel::bounded: a fresh bounded channel is empty
/// and holds at most `capacity` messages.
#[verifier::external_body]
fn queue_new(capacity: usize) -> (q: MessageQueue)
    requires
        1 <= capacity <= 1024,
    ensures
        chan_contents(&q.rx) == Seq::<Message>::empty(),
        chan_capacity(&q.rx) == capacity as nat,
{
    let (tx, rx) = crossbeam_channel::bounded(capacity);
    MessageQueue { tx, rx }
}

impl MessageQueue {
    /// The queue's pending messages, oldest first.
    pub closed spec fn view_contents(&self) -> Seq<Message> {
        chan_contents(&self.rx)
    }

    /// The queue's fixed capacity.
    pub closed spec fn view_capacity(&self) -> nat {
        chan_capacity(&self.rx)
    }

    /// Relies on crossbeam_channel::Sender::try_send: never blocks, enqueues
    /// at the back when there is room, and fails exactly when the queue is
    /// full. Both ends are held here, so the channel is never disconnected
    /// and no other thread interleaves.
    #[verifier::external_body]
    fn try_send(&mut self, m: Message) -> (ok: bool)
        ensures
            final(self).view_capacity() == old(self).view_capacity(),
            old(self).view_contents().len() < old(self).view_capacity() ==> ok && final(self).view_contents() == old(self).view_contents().push(m),
            old(self).view_contents().len() >= old(self).view_capacity() ==> !ok && final(self).view_contents() == old(self).view_contents(),
    {
        self.tx.try_send(m).is_ok()
    }

    /// Relies on crossbeam_channel::Receiver::try_recv: never blocks,
    /// dequeues the oldest message (the channel is FIFO), and returns
    /// nothing exactly when the queue is empty. Both ends are held here, so
    /// the channel is never disconnected and no other thread interleaves.
    #[verifier::external_body]
    fn try_recv(&mut self) -> (r: Option<Message>)
        ensures
            final(self).view_capacity() == old(self).view_capacity(),
            old(self).view_contents().len() > 0 ==> r == Some(old(self).view_contents()[0])
                && final(self).view_contents() == old(self).view_contents().drop_first(),
            old(self).view_contents().len() == 0 ==> r is None && final(self).view_contents()
                == old(self).view_contents(),
    {
        self.rx.try_recv().ok()
    }
}

/// The capacity of each of the bus's queues; a full queue drops the newest
/// message.
pub const QUEUE_CAPACITY: usize = 50;

/// The three queue contents (events, commands, control) after one lossy
/// submission of `m`: routed by category, enqueued at the back when there
/// is room, dropped when the queue is full or the bus is stopped.
pub open spec fn spec_submit_views(
    stopped: bool,
    events: Seq<Message>,
    commands: Seq<Message>,
    control: Seq<Message>,
    events_cap: nat,
    commands_cap: nat,
    control_cap: nat,
    m: Message,
) -> (Seq<Message>, Seq<Message>, Seq<Message>) {
    if stopped {
        (events, commands, control)
    } else {
        match m {
            Message::Event(_) => if events.len() < events_cap {
                (events.push(m), commands, control)
            } else {
                (events, commands, control)
            },
            Message::Command(_, _) | Message::TcpCommand(_, _) => if commands.len()
                < commands_cap {
                (events, commands.push(m), control)
            } else {
                (events, commands, control)
            },
            Message::Control(_) => if control.len() < control_cap {
                (events, commands, control.push(m))
            } else {
                (events, commands, control)
            },
        }
    }
}

/// The three queue contents after submitting every message of `msgs` in
/// order, each with the lossy policy of `spec_submit_views`.
pub open spec fn spec_submit_all(
    stopped: bool,
    events: Seq<Message>,
    commands: Seq<Message>,
    control: Seq<Message>,
    events_cap: nat,
    commands_cap: nat,
    control_cap: nat,
    msgs: Seq<Message>,
) -> (Seq<Message>, Seq<Message>, Seq<Message>)
    decreases msgs.len(),
{
    if msgs.len() == 0 {
        (events, commands, control)
    } else {
        let stepped = spec_submit_views(
            stopped,
            events,
            commands,
            control,
            events_cap,
            commands_cap,
            control_cap,
            msgs[0],
        );
        spec_submit_all(
            stopped,
            stepped.0,
            stepped.1,
            stepped.2,
            events_cap,
            commands_cap,
            control_cap,
            msgs.drop_first(),
        )
    }
}

/// The single-consumer message bus. Once stopped, it is permanently closed:
/// every later submission is a no-op.
pub struct Runtime {
    /// Set at teardown; all subsequent submissions become no-ops.
    pub stopped: bool,
    events: MessageQueue,
    commands: MessageQueue,
    control: MessageQueue,
}

impl Runtime {
    /// Whether the bus has been permanently closed.
    pub closed spec fn spec_stopped(&self) -> bool {
        self.stopped
    }

    pub closed spec fn events_view(&self) -> Seq<Message> {
        self.events.view_contents()
    }

    pub closed spec fn commands_view(&self) -> Seq<Message> {
        self.commands.view_contents()
    }

    pub closed spec fn control_view(&self) -> Seq<Message> {
        self.control.view_contents()
    }

    pub closed spec fn events_capacity(&self) -> nat {
        self.events.view_capacity()
    }

    pub closed spec fn commands_capacity(&self) -> nat {
        self.commands.view_capacity()
    }

    pub closed spec fn control_capacity(&self) -> nat {
        self.control.view_capacity()
    }

    /// All capacities equal the bus's fixed bound.
    pub open spec fn capacities_fixed(&self) -> bool {
        self.events_capacity() == QUEUE_CAPACITY && self.commands_capacity() == QUEUE_CAPACITY
            && self.control_capacity() == QUEUE_CAPACITY
    }

    /// A fresh bus with empty queues.
    pub fn new() -> (rt: Runtime)
        ensures
            !rt.spec_stopped(),
            rt.events_view() == Seq::<Message>::empty(),
            rt.commands_view() == Seq::<Message>::empty(),
            rt.control_view() == Seq::<Message>::empty(),
            rt.capacities_fixed(),
    {
        Runtime {
            stopped: false,
            events: queue_new(QUEUE_CAPACITY),
            commands: queue_new(QUEUE_CAPACITY),
            control: queue_new(QUEUE_CAPACITY),
        }
    }

    /// Enqueues one message onto the queue of its category, without ever
    /// blocking; when that queue is saturated, or the bus is stopped, the
    /// message is dropped.
    pub fn submit(&mut self, message: Message) -> (accepted: bool)
        ensures
            final(self).spec_stopped() == old(self).spec_stopped(),
            final(self).events_capacity() == old(self).events_capacity(),
            final(self).commands_capacity() == old(self).commands_capacity(),
            final(self).control_capacity() == old(self).control_capacity(),
            old(self).spec_stopped() ==> !accepted && final(self).events_view() == old(self).events_view() && final(self).commands_view() == old(self).commands_view() && final(self).control_view() == old(self).control_view(),
            !old(self).spec_stopped() && message is Event ==> final(self).commands_view() == old(self).commands_view() && final(self).control_view() == old(self).control_view() && (if old(self).events_view().len() < old(self).events_capacity() {
                accepted && final(self).events_view() == old(self).events_view().push(message)
            } else {
                !accepted && final(self).events_view() == old(self).events_view()
            }),
            !old(self).spec_stopped() && (message is Command || message is TcpCommand) ==> final(self).events_view() == old(self).events_view() && final(self).control_view() == old(self).control_view() && (if old(self).commands_view().len() < old(self).commands_capacity() {
                accepted && final(self).commands_view() == old(self).commands_view().push(message)
            } else {
                !accepted && final(self).commands_view() == old(self).commands_view()
            }),
            !old(self).spec_stopped() && message is Control ==> final(self).events_view() == old(self).events_view() && final(self).commands_view() == old(self).commands_view() && (if old(self).control_view().len() < old(self).control_capacity() {
                accepted && final(self).control_view() == old(self).control_view().push(message)
            } else {
                !accepted && final(self).control_view() == old(self).control_view()
            }),
            (final(self).events_view(), final(self).commands_view(), final(self).control_view())
                == spec_submit_views(
                old(self).spec_stopped(),
                old(self).events_view(),
                old(self).commands_view(),
                old(self).control_view(),
                old(self).events_capacity(),
                old(self).commands_capacity(),
                old(self).control_capacity(),
                message,
            ),
    {
        if self.stopped {
            return false;
        }
        match message {
            Message::Event(_) => self.events.try_send(message),
            Message::Command(_, _) => self.commands.try_send(message),
            Message::TcpCommand(_, _) => self.commands.try_send(message),
            Message::Control(_) => self.control.try_send(message),
        }
    }

    /// Enqueues several messages in order: equivalent to one `submit` per
    /// message, with the same routing by category and the same per-message
    /// drop policy when the bus is stopped or a queue is full.
    pub fn batch_messages(&mut self, messages: Vec<Message>)
        ensures
            final(self).spec_stopped() == old(self).spec_stopped(),
            final(self).events_capacity() == old(self).events_capacity(),
            final(self).commands_capacity() == old(self).commands_capacity(),
            final(self).control_capacity() == old(self).control_capacity(),
            (final(self).events_view(), final(self).commands_view(), final(self).control_view())
                == spec_submit_all(
                old(self).spec_stopped(),
                old(self).events_view(),
                old(self).commands_view(),
                old(self).control_view(),
                old(self).events_capacity(),
                old(self).commands_capacity(),
                old(self).control_capacity(),
                messages@,
            ),
            old(self).spec_stopped() ==> final(self).events_view() == old(self).events_view() && final(self).commands_view() == old(self).commands_view() && final(self).control_view() == old(self).control_view(),
    {
        let mut messages = messages;
        let ghost stopped0 = self.spec_stopped();
        let ghost ce = self.events_capacity();
        let ghost cc = self.commands_capacity();
        let ghost ck = self.control_capacity();
        let ghost total = spec_submit_all(
            stopped0,
            self.events_view(),
            self.commands_view(),
            self.control_view(),
            ce,
            cc,
            ck,
            messages@,
        );
        loop
            invariant
                self.spec_stopped() == old(self).spec_stopped(),
                self.spec_stopped() == stopped0,
                self.events_capacity() == ce,
                self.commands_capacity() == cc,
                self.control_capacity() == ck,
                self.events_capacity() == old(self).events_capacity(),
                self.commands_capacity() == old(self).commands_capacity(),
                self.control_capacity() == old(self).control_capacity(),
                spec_submit_all(
                    stopped0,
                    self.events_view(),
                    self.commands_view(),
                    self.control_view(),
                    ce,
                    cc,
                    ck,
                    messages@,
                ) == total,
                old(self).spec_stopped() ==> self.events_view() == old(self).events_view()
                    && self.commands_view() == old(self).commands_view() && self.control_view()
                    == old(self).control_view(),
            ensures
                (self.events_view(), self.commands_view(), self.control_view()) == total,
                self.spec_stopped() == old(self).spec_stopped(),
                self.events_capacity() == old(self).events_capacity(),
                self.commands_capacity() == old(self).commands_capacity(),
                self.control_capacity() == old(self).control_capacity(),
                old(self).spec_stopped() ==> self.events_view() == old(self).events_view()
                    && self.commands_view() == old(self).commands_view() && self.control_view()
                    == old(self).control_view(),
            decreases messages@.len(),
        {
            if messages.len() == 0 {
                proof {
                    assert(spec_submit_all(
                        stopped0,
                        self.events_view(),
                        self.commands_view(),
                        self.control_view(),
                        ce,
                        cc,
                        ck,
                        messages@,
                    ) == (self.events_view(), self.commands_view(), self.control_view()));
                }
                break ;
            }
            let ghost msgs_pre = messages@;
            let ghost ev_pre = self.events_view();
            let ghost cm_pre = self.commands_view();
            let ghost ct_pre = self.control_view();
            let m = messages.remove(0);
            let _ = self.submit(m);
            proof {
                assert(msgs_pre.drop_first() =~= messages@);
                let stepped = spec_submit_views(
                    stopped0,
                    ev_pre,
                    cm_pre,
                    ct_pre,
                    ce,
                    cc,
                    ck,
                    msgs_pre[0],
                );
                assert((self.events_view(), self.commands_view(), self.control_view())
                    == stepped);
            }
        }
    }

    /// Drains every pending message into one ordered batch: control
    /// requests first, then external commands, then OS events; within each
    /// category, arrival order is preserved. All queues are empty after.
    pub fn drain_batch(&mut self) -> (batch: Vec<Message>)
        ensures
            final(self).spec_stopped() == old(self).spec_stopped(),
            final(self).events_capacity() == old(self).events_capacity(),
            final(self).commands_capacity() == old(self).commands_capacity(),
            final(self).control_capacity() == old(self).control_capacity(),
            batch@ == old(self).control_view() + old(self).commands_view() + old(self).events_view(),
            final(self).control_view() == Seq::<Message>::empty(),
            final(self).commands_view() == Seq::<Message>::empty(),
            final(self).events_view() == Seq::<Message>::empty(),
    {
        let mut batch: Vec<Message> = Vec::new();
        loop
            invariant
                batch@ + self.control_view() == old(self).control_view(),
                self.commands_view() == old(self).commands_view(),
                self.events_view() == old(self).events_view(),
                self.spec_stopped() == old(self).spec_stopped(),
                self.events_capacity() == old(self).events_capacity(),
                self.commands_capacity() == old(self).commands_capacity(),
                self.control_capacity() == old(self).control_capacity(),
            ensures
                self.control_view() == Seq::<Message>::empty(),
            decreases self.control_view().len(),
        {
            let r = self.control.try_recv();
            match r {
                Some(m) => {
                    batch.push(m);
                    proof {
                        assert(batch@ + self.control_view() =~= old(self).control_view());
                    }
                },
                None => {
                    proof {
                        assert(self.control_view() =~= Seq::<Message>::empty());
                    }
                    break ;
                },
            }
        }
        loop
            invariant
                batch@ + self.commands_view() == old(self).control_view() + old(self).commands_view(),
                self.control_view() == Seq::<Message>::empty(),
                self.events_view() == old(self).events_view(),
                self.spec_stopped() == old(self).spec_stopped(),
                self.events_capacity() == old(self).events_capacity(),
                self.commands_capacity() == old(self).commands_capacity(),
                self.control_capacity() == old(self).control_capacity(),
            ensures
                self.commands_view() == Seq::<Message>::empty(),
            decreases self.commands_view().len(),
        {
            let r = self.commands.try_recv();
            match r {
                Some(m) => {
                    batch.push(m);
                    proof {
                        assert(batch@ + self.commands_view() =~= old(self).control_view() + old(self).commands_view());
                    }
                },
                None => {
                    proof {
                        assert(self.commands_view() =~= Seq::<Message>::empty());
                    }
                    break ;
                },
            }
        }
        loop
            invariant
                batch@ + self.events_view() == old(self).control_view() + old(self).commands_view() + old(self).events_view(),
                self.control_view() == Seq::<Message>::empty(),
                self.commands_view() == Seq::<Message>::empty(),
                self.spec_stopped() == old(self).spec_stopped(),
                self.events_capacity() == old(self).events_capacity(),
                self.commands_capacity() == old(self).commands_capacity(),
                self.control_capacity() == old(self).control_capacity(),
            ensures
                self.events_view() == Seq::<Message>::empty(),
            decreases self.events_view().len(),
        {
            let r = self.events.try_recv();
            match r {
                Some(m) => {
                    batch.push(m);
                    proof {
                        assert(batch@ + self.events_view() =~= old(self).control_view() + old(self).commands_view() + old(self).events_view());
                    }
                },
                None => {
                    proof {
                        assert(self.events_view() =~= Seq::<Message>::empty());
                    }
                    break ;
                },
            }
        }
        proof {
            assert(batch@ =~= batch@ + self.events_view());
        }
        batch
    }

    /// Marks the bus permanently closed: all later submissions are no-ops.
    pub fn shutdown(&mut self)
        ensures
            final(self).spec_stopped(),
            final(self).events_view() == old(self).events_view(),
            final(self).commands_view() == old(self).commands_view(),
            final(self).control_view() == old(self).control_view(),
            final(self).events_capacity() == old(self).events_capacity(),
            final(self).commands_capacity() == old(self).commands_capacity(),
            final(self).control_capacity() == old(self).control_capacity(),
    {
        self.stopped = true;
    }
}

/// What `send_message` promises of the control queue when asked to carry
/// the control request `c`: dropped if the bus is stopped or the queue is
/// saturated, enqueued at the back otherwise, with the other queues
/// untouched.
pub open spec fn control_submitted(
    rt_old: Runtime,
    rt_new: Runtime,
    accepted: bool,
    c: Control,
) -> bool {
    &&& rt_new.spec_stopped() == rt_old.spec_stopped()
    &&& rt_new.events_view() == rt_old.events_view()
    &&& rt_new.commands_view() == rt_old.commands_view()
    &&& rt_new.events_capacity() == rt_old.events_capacity()
    &&& rt_new.commands_capacity() == rt_old.commands_capacity()
    &&& rt_new.control_capacity() == rt_old.control_capacity()
    &&& rt_old.spec_stopped() ==> !accepted && rt_new.control_view() == rt_old.control_view()
    &&& !rt_old.spec_stopped() ==> (if rt_old.control_view().len() < rt_old.control_capacity() {
        accepted && rt_new.control_view() == rt_old.control_view().push(Message::Control(c))
    } else {
        !accepted && rt_new.control_view() == rt_old.control_view()
    })
}

/// Enqueues one message onto the queue matching its category; never blocks,
/// and drops the message when the bus is stopped or the queue is full. A
/// stopped bus enqueues nothing, whatever the category.
pub fn send_message(rt: &mut Runtime, message: Message) -> (accepted: bool)
    ensures
        final(rt).spec_stopped() == old(rt).spec_stopped(),
        final(rt).events_capacity() == old(rt).events_capacity(),
        final(rt).commands_capacity() == old(rt).commands_capacity(),
        final(rt).control_capacity() == old(rt).control_capacity(),
        old(rt).spec_stopped() ==> !accepted && final(rt).events_view() == old(rt).events_view()
            && final(rt).commands_view() == old(rt).commands_view() && final(rt).control_view()
            == old(rt).control_view(),
        !old(rt).spec_stopped() && message is Event ==> final(rt).commands_view() == old(rt).commands_view() && final(rt).control_view() == old(rt).control_view() && (if old(rt).events_view().len() < old(rt).events_capacity() {
            accepted && final(rt).events_view() == old(rt).events_view().push(message)
        } else {
            !accepted && final(rt).events_view() == old(rt).events_view()
        }),
        !old(rt).spec_stopped() && (message is Command || message is TcpCommand) ==> final(rt).events_view() == old(rt).events_view() && final(rt).control_view() == old(rt).control_view() && (if old(rt).commands_view().len() < old(rt).commands_capacity() {
            accepted && final(rt).commands_view() == old(rt).commands_view().push(message)
        } else {
            !accepted && final(rt).commands_view() == old(rt).commands_view()
        }),
        !old(rt).spec_stopped() && message is Control ==> final(rt).events_view() == old(rt).events_view() && final(rt).commands_view() == old(rt).commands_view() && (if old(rt).control_view().len() < old(rt).control_capacity() {
            accepted && final(rt).control_view() == old(rt).control_view().push(message)
        } else {
            !accepted && final(rt).control_view() == old(rt).control_view()
        }),
        (final(rt).events_view(), final(rt).commands_view(), final(rt).control_view())
            == spec_submit_views(
            old(rt).spec_stopped(),
            old(rt).events_view(),
            old(rt).commands_view(),
            old(rt).control_view(),
            old(rt).events_capacity(),
            old(rt).commands_capacity(),
            old(rt).control_capacity(),
            message,
        ),
        message matches Message::Control(c) ==> control_submitted(*old(rt), *final(rt), accepted, c),
{
    rt.submit(message)
}

} // verus!
