//! The submission pool: the shared work queue, the per-mail result slots
//! and the worker machine that runs one session over the queue.
//!
//! Concurrency lives outside the library. A worker is a state machine like
//! the session it wraps: the embedding program performs each
//! [`WorkerAction`] — the session's I/O, a pop from the queue taken under
//! its lock, a write into the result vector — and reports a
//! [`WorkerEvent`]. The queue functions here are what the program calls
//! while holding the locks, so the index discipline is verified even
//! though the locking itself is not.

use vstd::prelude::*;

use crate::message::Mail;
use crate::session::{
    begin_rel, done_ok, err_like, step_rel, Action, NetEvent, OpKind, Session,
};
use crate::{Config, Credentials, Error, Event, Server};

verus! {

/// Pop one mail and note its original index: the queue's length after the
/// pop. Each mail leaves the queue exactly once, carrying the index of the
/// result slot it owns.
pub fn pool_pop(mails: &mut Vec<Mail>) -> (r: Option<(Mail, usize)>)
    ensures
        old(mails)@.len() == 0 ==> r is None && final(mails)@ == old(mails)@,
        old(mails)@.len() > 0 ==> final(mails)@ == old(mails)@.drop_last() && (r matches Some(p)
            && p.0 == old(mails)@.last() && p.1 == old(mails)@.len() - 1),
{
    match mails.pop() {
        Some(m) => {
            let idx = mails.len();
            Some((m, idx))
        },
        None => None,
    }
}

/// The per-mail result slots, initialised to success.
pub fn init_results(n: usize) -> (r: Vec<Result<(), Error>>)
    ensures
        r@.len() == n,
        forall|i: int| 0 <= i < n ==> (#[trigger] r@[i]) is Ok,
{
    let mut results: Vec<Result<(), Error>> = Vec::new();
    let mut i: usize = 0;
    #[verifier::loop_isolation(false)]
    while i < n
        invariant
            i <= n,
            results@.len() == i,
            forall|k: int| 0 <= k < i ==> (#[trigger] results@[k]) is Ok,
        decreases n - i,
    {
        results.push(Ok(()));
        i = i + 1;
    }
    results
}

/// Record a failure into the slot whose index the worker observed under
/// the queue lock.
pub fn record_result(results: &mut Vec<Result<(), Error>>, idx: usize, e: Error)
    requires
        idx < old(results)@.len(),
    ensures
        final(results)@ == old(results)@.update(idx as int, Err(e)),
{
    results.set(idx, Err(e));
}

/// The number of worker sessions a batch gets: the configured channel
/// count, but never more than there are mails.
pub fn pool_worker_count(max_channels: u32, mail_count: usize) -> (r: u32)
    requires
        mail_count <= u32::MAX,
    ensures
        r == if mail_count < max_channels {
            mail_count as u32
        } else {
            max_channels
        },
{
    if (mail_count as u32) < max_channels {
        mail_count as u32
    } else {
        max_channels
    }
}

/// The pool's overall outcome: the filled result vector, unless every
/// worker failed to connect.
pub fn pool_overall(connected_any: bool, results: Vec<Result<(), Error>>) -> (r: Result<
    Vec<Result<(), Error>>,
    Error,
>)
    ensures
        connected_any ==> (r matches Ok(v) && v == results),
        !connected_any ==> (r matches Err(e) && e is ServerUnreachable),
{
    if connected_any {
        Ok(results)
    } else {
        Err(Error::ServerUnreachable)
    }
}

/// The sequence of (mail, index) pairs that draining a queue through
/// `pool_pop` yields.
pub open spec fn spec_pops(q: Seq<Mail>) -> Seq<(Mail, int)>
    decreases q.len(),
{
    if q.len() == 0 {
        Seq::empty()
    } else {
        seq![(q.last(), q.len() - 1)] + spec_pops(q.drop_last())
    }
}

/// The guarantee of the work queue: draining a batch yields every
/// mail exactly once, each paired with its original index — no
/// duplicates, no drops, and each result slot belongs to the mail that
/// was at that index.
pub proof fn lemma_pool_pops_cover(q: Seq<Mail>)
    ensures
        spec_pops(q).len() == q.len(),
        forall|k: int|
            0 <= k < q.len() ==> #[trigger] spec_pops(q)[k] == (q[q.len() - 1 - k], q.len() - 1
                - k),
    decreases q.len(),
{
    if q.len() > 0 {
        lemma_pool_pops_cover(q.drop_last());
        assert forall|k: int|
            0 <= k < q.len() implies #[trigger] spec_pops(q)[k] == (
            q[q.len() - 1 - k],
            q.len() - 1 - k,
        ) by {
            if k > 0 {
                assert(spec_pops(q)[k] == spec_pops(q.drop_last())[k - 1]);
                assert(q.drop_last()[q.len() - 1 - k] == q[q.len() - 1 - k]);
            }
        }
    }
}

/// Where the worker stands in its connect / pop / send / record / close
/// cycle.
#[derive(Clone, Copy, PartialEq, Eq, Structural, Debug)]
pub enum WorkerSt {
    Connecting,
    AwaitPop,
    Sending { idx: usize },
    Recording { idx: usize },
    Closing,
    Finished { connected: bool },
}

/// One worker: its own session and its position in the cycle.
pub struct Worker {
    pub session: Session,
    pub st: WorkerSt,
}

/// What the embedding program must do next for this worker.
pub enum WorkerAction {
    /// Perform the session's I/O action and report `Io`.
    Io(Action),
    /// Pop one mail under the queue lock; report `Popped`.
    Pop,
    /// Record the failure into result slot `idx` under the result lock;
    /// report `Recorded`.
    Record { idx: usize, error: Error },
    /// The worker is finished; the flag says whether it ever connected.
    Exit(bool),
}

/// What the embedding program observed for this worker.
pub enum WorkerEvent {
    Io(NetEvent),
    Popped(Option<(Mail, usize)>),
    Recorded,
}

/// How a finished session operation drives the worker on: what it emits,
/// what it does next.
pub open spec fn connect_done_rel(a: Action, post: Worker, act: WorkerAction, emit: Option<
    Event,
>) -> bool {
    if done_ok(a) {
        &&& post.st is AwaitPop
        &&& act is Pop
        &&& emit == Some(Event::Connected)
    } else {
        &&& (a matches Action::Done(res) && res matches Err(e) && (
            (post.st matches WorkerSt::Finished { connected } && connected == false)
            && act == WorkerAction::Exit(false)
            && (emit matches Some(ev) && ev matches Event::FailedToConnect(e2) && err_like(e2, e))
        ))
    }
}

pub open spec fn send_done_rel(a: Action, idx: int, post: Worker, act: WorkerAction, emit: Option<
    Event,
>) -> bool {
    if done_ok(a) {
        &&& post.st is AwaitPop
        &&& act is Pop
        &&& (emit matches Some(ev) && ev matches Event::MailSent { subject, to }
            && subject@ == post.session.mail->Some_0.subject@ && to@
            == post.session.mail->Some_0.to@)
    } else {
        &&& (a matches Action::Done(res) && res matches Err(e) && (
            (post.st matches WorkerSt::Recording { idx: i } && i == idx)
            && (act matches WorkerAction::Record { idx: i2, error } && i2 == idx && err_like(
                error,
                e,
            ))
            && (emit matches Some(ev) && ev matches Event::FailedToSendMail { subject, to, error }
                && subject@ == post.session.mail->Some_0.subject@ && to@
                == post.session.mail->Some_0.to@ && err_like(error, e))
        ))
    }
}

pub open spec fn close_done_rel(a: Action, post: Worker, act: WorkerAction, emit: Option<
    Event,
>) -> bool {
    if done_ok(a) {
        &&& (post.st matches WorkerSt::Finished { connected } && connected == true)
        &&& act == WorkerAction::Exit(true)
        &&& emit == Some(Event::Disconnencted)
    } else {
        &&& (a matches Action::Done(res) && res matches Err(e) && (emit matches Some(ev) && ev
            matches Event::FailToDisconnect(e2) && err_like(e2, e)))
        &&& (post.st matches WorkerSt::Finished { connected } && connected == true)
        &&& act == WorkerAction::Exit(true)
    }
}

/// A session action that is still in flight keeps the worker where it is.
pub open spec fn io_cont_rel(a: Action, st: WorkerSt, post: Worker, act: WorkerAction, emit: Option<
    Event,
>) -> bool {
    &&& !(a matches Action::Done(res))
    &&& post.st == st
    &&& act == WorkerAction::Io(a)
    &&& emit is None
}

/// The worker's full transition relation.
pub open spec fn worker_rel(
    pre: Worker,
    ev: WorkerEvent,
    post: Worker,
    act: WorkerAction,
    emit: Option<Event>,
) -> bool {
    match (pre.st, ev) {
        (WorkerSt::Connecting, WorkerEvent::Io(nev)) => exists|a: Action|
            (#[trigger] step_rel(pre.session, nev, post.session, a)) && (connect_done_rel(
                a,
                post,
                act,
                emit,
            ) || io_cont_rel(a, WorkerSt::Connecting, post, act, emit)),
        (WorkerSt::AwaitPop, WorkerEvent::Popped(Some(p))) => exists|a: Action|
            (#[trigger] begin_rel(
                Session {
                    kind: OpKind::SendMail,
                    retries_left: pre.session.config.retries,
                    mail: Some(p.0),
                    ..pre.session
                },
                post.session,
                a,
            )) && (send_done_rel(a, p.1 as int, post, act, emit) || io_cont_rel(
                a,
                WorkerSt::Sending { idx: p.1 },
                post,
                act,
                emit,
            )),
        (WorkerSt::AwaitPop, WorkerEvent::Popped(None)) => exists|a: Action|
            (#[trigger] begin_rel(
                Session {
                    kind: OpKind::Close,
                    retries_left: pre.session.config.retries,
                    ..pre.session
                },
                post.session,
                a,
            )) && (close_done_rel(a, post, act, emit) || io_cont_rel(
                a,
                WorkerSt::Closing,
                post,
                act,
                emit,
            )),
        (WorkerSt::Sending { idx }, WorkerEvent::Io(nev)) => exists|a: Action|
            (#[trigger] step_rel(pre.session, nev, post.session, a)) && (send_done_rel(
                a,
                idx as int,
                post,
                act,
                emit,
            ) || io_cont_rel(a, WorkerSt::Sending { idx }, post, act, emit)),
        (WorkerSt::Recording { idx }, WorkerEvent::Recorded) => {
            &&& post == (Worker { st: WorkerSt::AwaitPop, ..pre })
            &&& act is Pop
            &&& emit is None
        },
        (WorkerSt::Closing, WorkerEvent::Io(nev)) => exists|a: Action|
            (#[trigger] step_rel(pre.session, nev, post.session, a)) && (close_done_rel(
                a,
                post,
                act,
                emit,
            ) || io_cont_rel(a, WorkerSt::Closing, post, act, emit)),
        (WorkerSt::Finished { connected }, _) => {
            &&& post == pre
            &&& act == WorkerAction::Exit(connected)
            &&& emit is None
        },
        _ => {
            &&& post == pre
            &&& act == WorkerAction::Exit(false)
            &&& emit is None
        },
    }
}

impl Worker {
    pub open spec fn wf(self) -> bool {
        &&& self.session.wf()
        &&& (self.st matches WorkerSt::Sending { idx } ==> self.session.mail is Some)
    }

    /// A worker over a fresh session; the returned action starts its
    /// connect.
    pub fn new(server: Server, config: Config, credentials: Credentials) -> (r: (
        Worker,
        WorkerAction,
    ))
        requires
            crate::protocol::creds_fit(credentials.username@, credentials.password@),
        ensures
            r.0.wf(),
            r.0.st is Connecting,
            r.1 matches WorkerAction::Io(a) && a is Dial,
    {
        let mut session = Session::new(server, config);
        let a = session.start_connect(credentials);
        (Worker { session, st: WorkerSt::Connecting }, WorkerAction::Io(a))
    }

    /// Drive the worker with what the last action observed.
    pub fn step(&mut self, ev: WorkerEvent) -> (r: (WorkerAction, Option<Event>))
        requires
            old(self).wf(),
        ensures
            final(self).wf(),
            worker_rel(*old(self), ev, *final(self), r.0, r.1),
    {
        match (self.st, ev) {
            (WorkerSt::Connecting, WorkerEvent::Io(nev)) => {
                let ghost gnev = nev;
                let a = self.session.step(nev);
                let ghost ga = a;
                let r = match a {
                    Action::Done(Ok(_)) => {
                        self.st = WorkerSt::AwaitPop;
                        (WorkerAction::Pop, Some(Event::Connected))
                    },
                    Action::Done(Err(e)) => {
                        self.st = WorkerSt::Finished { connected: false };
                        (WorkerAction::Exit(false), Some(Event::FailedToConnect(e)))
                    },
                    _ => (WorkerAction::Io(a), None),
                };
                proof {
                    assert(step_rel(old(self).session, gnev, self.session, ga) && (
                    connect_done_rel(ga, *self, r.0, r.1) || io_cont_rel(
                        ga,
                        WorkerSt::Connecting,
                        *self,
                        r.0,
                        r.1,
                    )));
                }
                r
            },
            (WorkerSt::AwaitPop, WorkerEvent::Popped(Some(p))) => {
                let ghost gp = p;
                let (mail, idx) = p;
                let a = self.session.start_send_mail(mail);
                let ghost ga = a;
                let r = self.send_continue(a, idx);
                proof {
                    assert(begin_rel(
                        Session {
                            kind: OpKind::SendMail,
                            retries_left: old(self).session.config.retries,
                            mail: Some(gp.0),
                            ..old(self).session
                        },
                        self.session,
                        ga,
                    ) && (send_done_rel(ga, gp.1 as int, *self, r.0, r.1) || io_cont_rel(
                        ga,
                        WorkerSt::Sending { idx: gp.1 },
                        *self,
                        r.0,
                        r.1,
                    )));
                }
                r
            },
            (WorkerSt::AwaitPop, WorkerEvent::Popped(None)) => {
                let a = self.session.start_close();
                let ghost ga = a;
                let r = self.close_continue(a);
                proof {
                    assert(begin_rel(
                        Session {
                            kind: OpKind::Close,
                            retries_left: old(self).session.config.retries,
                            ..old(self).session
                        },
                        self.session,
                        ga,
                    ) && (close_done_rel(ga, *self, r.0, r.1) || io_cont_rel(
                        ga,
                        WorkerSt::Closing,
                        *self,
                        r.0,
                        r.1,
                    )));
                }
                r
            },
            (WorkerSt::Sending { idx }, WorkerEvent::Io(nev)) => {
                let ghost gnev = nev;
                let a = self.session.step(nev);
                let ghost ga = a;
                let r = self.send_continue(a, idx);
                proof {
                    assert(step_rel(old(self).session, gnev, self.session, ga) && (send_done_rel(
                        ga,
                        idx as int,
                        *self,
                        r.0,
                        r.1,
                    ) || io_cont_rel(ga, WorkerSt::Sending { idx }, *self, r.0, r.1)));
                }
                r
            },
            (WorkerSt::Recording { idx: _ }, WorkerEvent::Recorded) => {
                self.st = WorkerSt::AwaitPop;
                (WorkerAction::Pop, None)
            },
            (WorkerSt::Closing, WorkerEvent::Io(nev)) => {
                let ghost gnev = nev;
                let a = self.session.step(nev);
                let ghost ga = a;
                let r = self.close_continue(a);
                proof {
                    assert(step_rel(old(self).session, gnev, self.session, ga) && (
                    close_done_rel(ga, *self, r.0, r.1) || io_cont_rel(
                        ga,
                        WorkerSt::Closing,
                        *self,
                        r.0,
                        r.1,
                    )));
                }
                r
            },
            (WorkerSt::Finished { connected }, _) => (WorkerAction::Exit(connected), None),
            _ => (WorkerAction::Exit(false), None),
        }
    }

    /// Route the outcome of a send-side session action.
    fn send_continue(&mut self, a: Action, idx: usize) -> (r: (WorkerAction, Option<Event>))
        requires
            old(self).wf(),
            old(self).session.mail is Some,
        ensures
            final(self).wf(),
            final(self).session == old(self).session,
            send_done_rel(a, idx as int, *final(self), r.0, r.1) || io_cont_rel(
                a,
                WorkerSt::Sending { idx },
                *final(self),
                r.0,
                r.1,
            ),
    {
        match a {
            Action::Done(Ok(_)) => {
                let (subject, to) = mail_subject_to(&self.session);
                self.st = WorkerSt::AwaitPop;
                (WorkerAction::Pop, Some(Event::MailSent { subject, to }))
            },
            Action::Done(Err(e)) => {
                let (subject, to) = mail_subject_to(&self.session);
                let recorded = dup_error(&e);
                self.st = WorkerSt::Recording { idx };
                (
                    WorkerAction::Record { idx, error: recorded },
                    Some(Event::FailedToSendMail { subject, to, error: e }),
                )
            },
            _ => {
                self.st = WorkerSt::Sending { idx };
                (WorkerAction::Io(a), None)
            },
        }
    }

    /// Route the outcome of a close-side session action.
    fn close_continue(&mut self, a: Action) -> (r: (WorkerAction, Option<Event>))
        requires
            old(self).wf(),
        ensures
            final(self).wf(),
            final(self).session == old(self).session,
            close_done_rel(a, *final(self), r.0, r.1) || io_cont_rel(
                a,
                WorkerSt::Closing,
                *final(self),
                r.0,
                r.1,
            ),
    {
        match a {
            Action::Done(Ok(_)) => {
                self.st = WorkerSt::Finished { connected: true };
                (WorkerAction::Exit(true), Some(Event::Disconnencted))
            },
            Action::Done(Err(e)) => {
                self.st = WorkerSt::Finished { connected: true };
                (WorkerAction::Exit(true), Some(Event::FailToDisconnect(e)))
            },
            _ => {
                self.st = WorkerSt::Closing;
                (WorkerAction::Io(a), None)
            },
        }
    }

}

/// The subject and recipient of the mail a session carries, for event
/// reporting.
fn mail_subject_to(session: &Session) -> (r: (String, String))
    ensures
        session.mail is Some ==> r.0@ == session.mail->Some_0.subject@ && r.1@
            == session.mail->Some_0.to@,
{
    match &session.mail {
        Some(m) => (m.subject.clone(), m.to.clone()),
        None => (String::new(), String::new()),
    }
}


/// Where the serial run stands: connecting, between two mails, sending
/// one, closing, or finished.
#[derive(Clone, Copy, PartialEq, Eq, Structural, Debug)]
pub enum SerialSt {
    Connecting,
    Advance,
    Sending,
    Closing,
    Finished,
}

/// What the embedding program must do next for the serial run.
pub enum SerialAction {
    /// Perform the session's I/O action and report `Io`.
    Io(Action),
    /// The run is between operations; report `Proceed`.
    Next,
    /// The run is finished; collect the outcome.
    Exit,
}

/// What the embedding program observed for the serial run.
pub enum SerialEvent {
    Io(NetEvent),
    Proceed,
}

/// The serial submission run: one session carries the whole batch, in
/// the batch's order. The machine owns the remaining mails and the
/// result slots, so the order of transmission (index 0 upward), the slot
/// each outcome lands in, and the emitted events are all pinned by
/// `serial_rel`.
pub struct SerialPost {
    pub session: Session,
    pub st: SerialSt,
    /// The mails not yet begun, still in batch order.
    pub pending: Vec<Mail>,
    /// How many mails have finished (also the slot of the mail in
    /// flight).
    pub sent: usize,
    pub results: Vec<Result<(), Error>>,
    /// The connect failure that ended the run early, if any.
    pub failed: Option<Error>,
}

/// The run's bookkeeping is untouched by a step.
pub open spec fn serial_frame(pre: SerialPost, post: SerialPost) -> bool {
    &&& post.pending == pre.pending
    &&& post.sent == pre.sent
    &&& post.results == pre.results
    &&& post.failed == pre.failed
}

/// How the connect phase routes a session action.
pub open spec fn serial_conn_out(
    a: Action,
    pre: SerialPost,
    post: SerialPost,
    act: SerialAction,
    emit: Option<Event>,
) -> bool {
    if !(a is Done) {
        &&& post.st is Connecting
        &&& serial_frame(pre, post)
        &&& act == SerialAction::Io(a)
        &&& emit is None
    } else if done_ok(a) {
        &&& post.st is Advance
        &&& serial_frame(pre, post)
        &&& act is Next
        &&& emit == Some(Event::Connected)
    } else {
        &&& (a matches Action::Done(res) && res matches Err(e) && (
            (post.failed matches Some(e2) && err_like(e2, e))
            && (emit matches Some(ev) && ev matches Event::FailedToConnect(e3) && err_like(e3, e))
        ))
        &&& post.st is Finished
        &&& post.pending == pre.pending
        &&& post.sent == pre.sent
        &&& post.results == pre.results
        &&& act is Exit
    }
}

/// How the send phase routes a session action: a finished mail advances
/// `sent` by one, a failure is recorded at exactly the slot `sent`, and
/// the matching event carries the mail's subject and recipient. `pnd` is
/// what remains pending after this mail was taken.
pub open spec fn serial_send_out(
    a: Action,
    pnd: Seq<Mail>,
    pre: SerialPost,
    post: SerialPost,
    act: SerialAction,
    emit: Option<Event>,
) -> bool {
    if !(a is Done) {
        &&& post.st is Sending
        &&& post.pending@ == pnd
        &&& post.sent == pre.sent
        &&& post.results == pre.results
        &&& post.failed == pre.failed
        &&& act == SerialAction::Io(a)
        &&& emit is None
    } else if done_ok(a) {
        &&& post.st is Advance
        &&& post.pending@ == pnd
        &&& post.sent == pre.sent + 1
        &&& post.results == pre.results
        &&& post.failed == pre.failed
        &&& act is Next
        &&& (emit matches Some(ev) && ev matches Event::MailSent { subject, to } && subject@
            == post.session.mail->Some_0.subject@ && to@ == post.session.mail->Some_0.to@)
    } else {
        &&& (a matches Action::Done(res) && res matches Err(e) && (
            (exists|e2: Error|
                err_like(e2, e) && post.results@ == pre.results@.update(
                    pre.sent as int,
                    Err(e2),
                ))
            && (emit matches Some(ev) && ev matches Event::FailedToSendMail { subject, to, error }
                && subject@ == post.session.mail->Some_0.subject@
                && to@ == post.session.mail->Some_0.to@ && err_like(error, e))
        ))
        &&& post.st is Advance
        &&& post.pending@ == pnd
        &&& post.sent == pre.sent + 1
        &&& post.failed == pre.failed
        &&& act is Next
    }
}

/// How the closing phase routes a session action.
pub open spec fn serial_close_out(
    a: Action,
    pre: SerialPost,
    post: SerialPost,
    act: SerialAction,
    emit: Option<Event>,
) -> bool {
    if !(a is Done) {
        &&& post.st is Closing
        &&& serial_frame(pre, post)
        &&& act == SerialAction::Io(a)
        &&& emit is None
    } else if done_ok(a) {
        &&& post.st is Finished
        &&& serial_frame(pre, post)
        &&& act is Exit
        &&& emit == Some(Event::Disconnencted)
    } else {
        &&& (a matches Action::Done(res) && res matches Err(e) && (emit matches Some(ev) && ev
            matches Event::FailToDisconnect(e2) && err_like(e2, e)))
        &&& post.st is Finished
        &&& serial_frame(pre, post)
        &&& act is Exit
    }
}

/// The serial run's full transition relation.
pub open spec fn serial_rel(
    pre: SerialPost,
    ev: SerialEvent,
    post: SerialPost,
    act: SerialAction,
    emit: Option<Event>,
) -> bool {
    match (pre.st, ev) {
        (SerialSt::Connecting, SerialEvent::Io(nev)) => exists|a: Action|
            (#[trigger] step_rel(pre.session, nev, post.session, a)) && serial_conn_out(
                a,
                pre,
                post,
                act,
                emit,
            ),
        (SerialSt::Advance, SerialEvent::Proceed) => {
            if pre.pending@.len() == 0 {
                exists|a: Action|
                    (#[trigger] begin_rel(
                        Session {
                            kind: OpKind::Close,
                            retries_left: pre.session.config.retries,
                            ..pre.session
                        },
                        post.session,
                        a,
                    )) && serial_close_out(a, pre, post, act, emit)
            } else {
                exists|a: Action|
                    (#[trigger] begin_rel(
                        Session {
                            kind: OpKind::SendMail,
                            retries_left: pre.session.config.retries,
                            mail: Some(pre.pending@[0]),
                            ..pre.session
                        },
                        post.session,
                        a,
                    )) && serial_send_out(a, pre.pending@.skip(1), pre, post, act, emit)
            }
        },
        (SerialSt::Sending, SerialEvent::Io(nev)) => exists|a: Action|
            (#[trigger] step_rel(pre.session, nev, post.session, a)) && serial_send_out(
                a,
                pre.pending@,
                pre,
                post,
                act,
                emit,
            ),
        (SerialSt::Closing, SerialEvent::Io(nev)) => exists|a: Action|
            (#[trigger] step_rel(pre.session, nev, post.session, a)) && serial_close_out(
                a,
                pre,
                post,
                act,
                emit,
            ),
        (SerialSt::Finished, _) => post == pre && act is Exit && emit is None,
        _ => post == pre && act is Exit && emit is None,
    }
}

impl SerialPost {
    /// Well-formedness: the slot accounting matches the phase, and the
    /// session is usable.
    pub open spec fn wf(self) -> bool {
        &&& self.session.wf()
        &&& match self.st {
            SerialSt::Connecting => self.sent == 0 && self.pending@.len()
                == self.results@.len(),
            SerialSt::Advance => self.sent + self.pending@.len() == self.results@.len(),
            SerialSt::Sending => self.session.mail is Some && self.sent < self.results@.len()
                && self.sent + 1 + self.pending@.len() == self.results@.len(),
            SerialSt::Closing => true,
            SerialSt::Finished => true,
        }
    }

    /// A serial run over a fresh session: the whole batch pending, every
    /// result slot initialised to success; the returned action starts the
    /// connect.
    pub fn new(server: Server, config: Config, credentials: Credentials, mails: Vec<Mail>) -> (r: (
        SerialPost,
        Action,
    ))
        requires
            crate::protocol::creds_fit(credentials.username@, credentials.password@),
        ensures
            r.0.wf(),
            r.0.st is Connecting,
            r.1 is Dial,
            r.0.pending == mails,
            r.0.sent == 0,
            r.0.failed is None,
            r.0.results@.len() == mails@.len(),
            forall|i: int| 0 <= i < mails@.len() ==> (#[trigger] r.0.results@[i]) is Ok,
    {
        let results = init_results(mails.len());
        let mut session = Session::new(server, config);
        let a = session.start_connect(credentials);
        (
            SerialPost {
                session,
                st: SerialSt::Connecting,
                pending: mails,
                sent: 0,
                results,
                failed: None,
            },
            a,
        )
    }

    /// Drive the run with what the last action observed.
    pub fn step(&mut self, ev: SerialEvent) -> (r: (SerialAction, Option<Event>))
        requires
            old(self).wf(),
        ensures
            final(self).wf(),
            serial_rel(*old(self), ev, *final(self), r.0, r.1),
            final(self).results@.len() == old(self).results@.len(),
    {
        match (self.st, ev) {
            (SerialSt::Connecting, SerialEvent::Io(nev)) => {
                let ghost gnev = nev;
                let a = self.session.step(nev);
                let ghost ga = a;
                let r = self.conn_continue(a);
                proof {
                    assert(step_rel(old(self).session, gnev, self.session, ga)
                        && serial_conn_out(ga, *old(self), *self, r.0, r.1));
                }
                r
            },
            (SerialSt::Advance, SerialEvent::Proceed) => {
                if self.pending.len() == 0 {
                    let a = self.session.start_close();
                    let ghost ga = a;
                    let r = self.close_continue(a);
                    proof {
                        assert(begin_rel(
                            Session {
                                kind: OpKind::Close,
                                retries_left: old(self).session.config.retries,
                                ..old(self).session
                            },
                            self.session,
                            ga,
                        ) && serial_close_out(ga, *old(self), *self, r.0, r.1));
                    }
                    r
                } else {
                    let m = self.pending.remove(0);
                    let a = self.session.start_send_mail(m);
                    let ghost ga = a;
                    let r = self.serial_send_continue(a);
                    proof {
                        assert(old(self).pending@.remove(0) =~= old(self).pending@.skip(1));
                        assert(begin_rel(
                            Session {
                                kind: OpKind::SendMail,
                                retries_left: old(self).session.config.retries,
                                mail: Some(old(self).pending@[0]),
                                ..old(self).session
                            },
                            self.session,
                            ga,
                        ) && serial_send_out(
                            ga,
                            old(self).pending@.skip(1),
                            *old(self),
                            *self,
                            r.0,
                            r.1,
                        ));
                    }
                    r
                }
            },
            (SerialSt::Sending, SerialEvent::Io(nev)) => {
                let ghost gnev = nev;
                let a = self.session.step(nev);
                let ghost ga = a;
                let r = self.serial_send_continue(a);
                proof {
                    assert(step_rel(old(self).session, gnev, self.session, ga)
                        && serial_send_out(ga, old(self).pending@, *old(self), *self, r.0, r.1));
                }
                r
            },
            (SerialSt::Closing, SerialEvent::Io(nev)) => {
                let ghost gnev = nev;
                let a = self.session.step(nev);
                let ghost ga = a;
                let r = self.close_continue(a);
                proof {
                    assert(step_rel(old(self).session, gnev, self.session, ga)
                        && serial_close_out(ga, *old(self), *self, r.0, r.1));
                }
                r
            },
            (SerialSt::Finished, _) => (SerialAction::Exit, None),
            _ => (SerialAction::Exit, None),
        }
    }

    /// Route the outcome of a connect-side session action.
    fn conn_continue(&mut self, a: Action) -> (r: (SerialAction, Option<Event>))
        requires
            old(self).session.wf(),
            old(self).st is Connecting,
            old(self).sent == 0,
            old(self).pending@.len() == old(self).results@.len(),
        ensures
            final(self).wf(),
            final(self).session == old(self).session,
            serial_conn_out(a, *old(self), *final(self), r.0, r.1),
            final(self).results@.len() == old(self).results@.len(),
    {
        match a {
            Action::Done(Ok(_)) => {
                self.st = SerialSt::Advance;
                (SerialAction::Next, Some(Event::Connected))
            },
            Action::Done(Err(e)) => {
                self.failed = Some(dup_error(&e));
                self.st = SerialSt::Finished;
                (SerialAction::Exit, Some(Event::FailedToConnect(e)))
            },
            _ => (SerialAction::Io(a), None),
        }
    }

    /// Route the outcome of a send-side session action: record and
    /// advance, or keep performing its I/O.
    fn serial_send_continue(&mut self, a: Action) -> (r: (SerialAction, Option<Event>))
        requires
            old(self).session.wf(),
            old(self).session.mail is Some,
            old(self).sent < old(self).results@.len(),
            old(self).sent + 1 + old(self).pending@.len() == old(self).results@.len(),
        ensures
            final(self).wf(),
            final(self).session == old(self).session,
            final(self).pending == old(self).pending,
            serial_send_out(a, old(self).pending@, *old(self), *final(self), r.0, r.1),
            final(self).results@.len() == old(self).results@.len(),
    {
        // the slot index stays below the vector's length, so it fits
        let slot_bound = self.results.len();
        proof {
            assert(self.sent < slot_bound);
        }
        match a {
            Action::Done(Ok(_)) => {
                let (subject, to) = mail_subject_to(&self.session);
                self.st = SerialSt::Advance;
                self.sent = self.sent + 1;
                (SerialAction::Next, Some(Event::MailSent { subject, to }))
            },
            Action::Done(Err(e)) => {
                let (subject, to) = mail_subject_to(&self.session);
                let kept = dup_error(&e);
                record_result(&mut self.results, self.sent, kept);
                self.st = SerialSt::Advance;
                self.sent = self.sent + 1;
                (
                    SerialAction::Next,
                    Some(Event::FailedToSendMail { subject, to, error: e }),
                )
            },
            _ => {
                self.st = SerialSt::Sending;
                (SerialAction::Io(a), None)
            },
        }
    }

    /// Route the outcome of a close-side session action.
    fn close_continue(&mut self, a: Action) -> (r: (SerialAction, Option<Event>))
        requires
            old(self).session.wf(),
        ensures
            final(self).wf(),
            final(self).session == old(self).session,
            serial_close_out(a, *old(self), *final(self), r.0, r.1),
            final(self).results@.len() == old(self).results@.len(),
    {
        match a {
            Action::Done(Ok(_)) => {
                self.st = SerialSt::Finished;
                (SerialAction::Exit, Some(Event::Disconnencted))
            },
            Action::Done(Err(e)) => {
                self.st = SerialSt::Finished;
                (SerialAction::Exit, Some(Event::FailToDisconnect(e)))
            },
            _ => {
                self.st = SerialSt::Closing;
                (SerialAction::Io(a), None)
            },
        }
    }

    /// The run's result: the connect failure if the session never came
    /// up, otherwise the per-mail outcomes in batch order.
    pub fn outcome(self) -> (r: Result<Vec<Result<(), Error>>, Error>)
        requires
            self.st is Finished,
        ensures
            self.failed matches Some(e) ==> r == Err::<Vec<Result<(), Error>>, Error>(e),
            self.failed is None ==> r == Ok::<Vec<Result<(), Error>>, Error>(self.results),
    {
        match self.failed {
            Some(e) => Err(e),
            None => Ok(self.results),
        }
    }
}

/// An equal error value of the library's own, strings copied by contents.
fn dup_error(e: &Error) -> (r: Error)
    ensures
        err_like(r, *e),
{
    match e {
        Error::Protocol => Error::Protocol,
        Error::ServerUnreachable => Error::ServerUnreachable,
        Error::ServerUnavailable => Error::ServerUnavailable,
        Error::InvalidServer => Error::InvalidServer,
        Error::Network => Error::Network,
        Error::InvalidCred => Error::InvalidCred,
        Error::Policy => Error::Policy,
        Error::MIMENotSupported => Error::MIMENotSupported,
        Error::DNS => Error::DNS,
        Error::MailBoxName(s) => Error::MailBoxName(s.clone()),
        Error::Forward(s) => Error::Forward(s.clone()),
        Error::File(s) => Error::File(s.clone()),
    }
}

} // verus!
