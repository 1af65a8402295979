use smtp::message::Mail;
use smtp::parser::stream_recv_reply;
use smtp::pool::{
    init_results, pool_overall, pool_pop, pool_worker_count, record_result, SerialAction,
    SerialEvent, SerialPost, Worker, WorkerAction, WorkerEvent,
};
use smtp::session::{Action, NetEvent, OpState, ReplyState};
use smtp::{Config, Credentials, Error, Event, Server};

fn pool_mail(n: usize) -> Mail {
    Mail {
        subject: format!("mail-{}", n),
        from: "a@x.io".to_string(),
        from_name: None,
        to: "b@y.io".to_string(),
        to_name: None,
        text: format!("body {}", n),
        attachments: vec![],
    }
}

fn pool_server() -> Server {
    Server::new("smtp.example.com".to_string(), 587)
}

fn pool_creds() -> Credentials {
    Credentials::new("user".to_string(), "pass".to_string())
}

fn pool_reply(script: &str) -> WorkerEvent {
    WorkerEvent::Io(NetEvent::Reply(
        stream_recv_reply(script.as_bytes().to_vec()).unwrap(),
    ))
}

/// The mock server's answer to a read, for a dialogue where every command
/// succeeds: greeting 220, EHLO without capabilities, 354 at the data
/// prompt, 221 at quit, 250 elsewhere.
fn mock_reply_for(w: &Worker) -> &'static str {
    match w.session.op {
        OpState::AwaitReply(ReplyState::Greeting) => "220 hi\r\n",
        OpState::AwaitReply(ReplyState::Ehlo) => "250 hi\r\n",
        OpState::AwaitReply(ReplyState::Data) => "354 go\r\n",
        OpState::AwaitReply(ReplyState::Quit) => "221 bye\r\n",
        _ => "250 ok\r\n",
    }
}

/// Perform one worker action against the mock transport and the shared
/// queue and results; `None` when the worker has exited.
fn worker_tick(
    w: &mut Worker,
    act: WorkerAction,
    queue: &mut Vec<Mail>,
    results: &mut Vec<Result<(), Error>>,
    events: &mut Vec<Event>,
    processed: &mut Vec<usize>,
    connected: &mut bool,
) -> Option<WorkerAction> {
    let (next, emit) = match act {
        WorkerAction::Exit(c) => {
            *connected = c;
            return None;
        }
        WorkerAction::Pop => {
            let popped = pool_pop(queue);
            if let Some((_, idx)) = &popped {
                processed.push(*idx);
            }
            w.step(WorkerEvent::Popped(popped))
        }
        WorkerAction::Record { idx, error } => {
            record_result(results, idx, error);
            w.step(WorkerEvent::Recorded)
        }
        WorkerAction::Io(Action::Dial) => w.step(WorkerEvent::Io(NetEvent::DialOk)),
        WorkerAction::Io(Action::Send(bytes)) => {
            assert!(!bytes.is_empty());
            w.step(WorkerEvent::Io(NetEvent::WriteOk))
        }
        WorkerAction::Io(Action::Recv) => {
            let script = mock_reply_for(w);
            w.step(pool_reply(script))
        }
        WorkerAction::Io(Action::UpgradeTls) => w.step(WorkerEvent::Io(NetEvent::TlsOk)),
        WorkerAction::Io(Action::BuildMime) => {
            w.step(WorkerEvent::Io(NetEvent::MimeOk(b"mime".to_vec())))
        }
        WorkerAction::Io(Action::Done(_)) => panic!("Done must not reach the I/O loop"),
    };
    if let Some(e) = emit {
        events.push(e);
    }
    Some(next)
}

#[test]
fn pop_returns_index_of_slot() {
    let mut queue = vec![pool_mail(0), pool_mail(1), pool_mail(2)];
    let (m, idx) = pool_pop(&mut queue).unwrap();
    assert_eq!(idx, 2);
    assert_eq!(m.subject, "mail-2");
    let (m, idx) = pool_pop(&mut queue).unwrap();
    assert_eq!(idx, 1);
    assert_eq!(m.subject, "mail-1");
    let (m, idx) = pool_pop(&mut queue).unwrap();
    assert_eq!(idx, 0);
    assert_eq!(m.subject, "mail-0");
    assert!(pool_pop(&mut queue).is_none());
}

#[test]
fn results_start_ok_and_record_failures() {
    let mut results = init_results(3);
    assert_eq!(results.len(), 3);
    assert!(results.iter().all(|r| r.is_ok()));
    record_result(&mut results, 1, Error::Policy);
    assert!(results[0].is_ok());
    assert!(matches!(results[1], Err(Error::Policy)));
    assert!(results[2].is_ok());
}

#[test]
fn worker_count_is_min() {
    assert_eq!(pool_worker_count(8, 3), 3);
    assert_eq!(pool_worker_count(2, 5), 2);
    assert_eq!(pool_worker_count(4, 4), 4);
    assert_eq!(pool_worker_count(4, 0), 0);
}

#[test]
fn overall_result_requires_a_connection() {
    let results = init_results(2);
    assert!(pool_overall(true, results).is_ok());
    let results = init_results(2);
    assert!(matches!(
        pool_overall(false, results),
        Err(Error::ServerUnreachable)
    ));
}

/// Scenario: 4 mails over 2 workers sharing one queue, against a mock
/// transport that succeeds for every mail: the result vector has length
/// 4, all Ok, and the union of the mails processed across the workers is
/// exactly the batch — no duplicates, no drops.
#[test]
fn parallel_submission_four_mails_two_workers() {
    let mut queue: Vec<Mail> = (0..4).map(pool_mail).collect();
    let mut results = init_results(queue.len());
    let mut events: Vec<Event> = Vec::new();
    assert_eq!(pool_worker_count(2, queue.len()), 2);

    let (mut wa, act_a) = Worker::new(pool_server(), Config::new(), pool_creds());
    let (mut wb, act_b) = Worker::new(pool_server(), Config::new(), pool_creds());
    let mut act_a = Some(act_a);
    let mut act_b = Some(act_b);
    let mut pa: Vec<usize> = Vec::new();
    let mut pb: Vec<usize> = Vec::new();
    let mut ca = false;
    let mut cb = false;
    // interleave the two workers one action at a time over the one queue
    while act_a.is_some() || act_b.is_some() {
        if let Some(a) = act_a.take() {
            act_a = worker_tick(&mut wa, a, &mut queue, &mut results, &mut events, &mut pa, &mut ca);
        }
        if let Some(b) = act_b.take() {
            act_b = worker_tick(&mut wb, b, &mut queue, &mut results, &mut events, &mut pb, &mut cb);
        }
    }

    assert!(ca && cb);
    assert!(queue.is_empty());
    assert_eq!(results.len(), 4);
    assert!(results.iter().all(|r| r.is_ok()));
    // the union of what the workers processed is exactly the batch
    let mut all: Vec<usize> = pa.iter().chain(pb.iter()).copied().collect();
    all.sort();
    assert_eq!(all, vec![0, 1, 2, 3]);
    assert!(!pa.is_empty() && !pb.is_empty());
    let sent_events = events
        .iter()
        .filter(|e| matches!(e, Event::MailSent { .. }))
        .count();
    assert_eq!(sent_events, 4);
    let connected_events = events.iter().filter(|e| matches!(e, Event::Connected)).count();
    assert_eq!(connected_events, 2);
    let disconnected_events = events
        .iter()
        .filter(|e| matches!(e, Event::Disconnencted))
        .count();
    assert_eq!(disconnected_events, 2);
}

/// One worker drains the whole queue serially; results keep the original
/// indices.
#[test]
fn serial_worker_drains_queue_in_index_order() {
    let mut queue: Vec<Mail> = (0..3).map(pool_mail).collect();
    let mut results = init_results(queue.len());
    let mut events: Vec<Event> = Vec::new();
    let (mut w, act) = Worker::new(pool_server(), Config::new(), pool_creds());
    let mut act = Some(act);
    let mut processed: Vec<usize> = Vec::new();
    let mut connected = false;
    while let Some(a) = act.take() {
        act = worker_tick(
            &mut w,
            a,
            &mut queue,
            &mut results,
            &mut events,
            &mut processed,
            &mut connected,
        );
    }
    assert!(connected);
    // the queue is drained from the back: indices descend
    assert_eq!(processed, vec![2, 1, 0]);
    assert!(results.iter().all(|r| r.is_ok()));
}

/// A worker whose connect is refused reports the failure and exits
/// without touching the queue.
#[test]
fn worker_connect_failure_exits() {
    let (mut w, act) = Worker::new(pool_server(), Config::new(), pool_creds());
    assert!(matches!(act, WorkerAction::Io(Action::Dial)));
    let (act, emit) = w.step(WorkerEvent::Io(NetEvent::DialRefused));
    assert!(matches!(act, WorkerAction::Exit(false)));
    assert!(matches!(
        emit,
        Some(Event::FailedToConnect(Error::ServerUnreachable))
    ));
}

/// A failing mail is recorded into its own slot while the worker carries
/// on with the rest of the queue.
#[test]
fn worker_records_failure_and_continues() {
    let mut queue = vec![pool_mail(0), pool_mail(1)];
    let mut results = init_results(2);
    let mut events: Vec<Event> = Vec::new();
    let (mut w, mut act) = Worker::new(pool_server(), Config::new(), pool_creds());
    let mut first_mail_fails = true;
    loop {
        let (next, emit) = match act {
            WorkerAction::Exit(connected) => {
                assert!(connected);
                break;
            }
            WorkerAction::Pop => {
                let popped = pool_pop(&mut queue);
                w.step(WorkerEvent::Popped(popped))
            }
            WorkerAction::Record { idx, error } => {
                record_result(&mut results, idx, error);
                w.step(WorkerEvent::Recorded)
            }
            WorkerAction::Io(Action::Dial) => w.step(WorkerEvent::Io(NetEvent::DialOk)),
            WorkerAction::Io(Action::Send(_)) => w.step(WorkerEvent::Io(NetEvent::WriteOk)),
            WorkerAction::Io(Action::Recv) => {
                let script = match w.session.op {
                    OpState::AwaitReply(ReplyState::MailFrom) => {
                        if first_mail_fails {
                            first_mail_fails = false;
                            "550 no\r\n"
                        } else {
                            "250 ok\r\n"
                        }
                    }
                    _ => mock_reply_for(&w),
                };
                w.step(pool_reply(script))
            }
            WorkerAction::Io(_) => panic!("unexpected action"),
        };
        if let Some(e) = emit {
            events.push(e);
        }
        act = next;
    }
    // the first popped mail (index 1) failed with Policy, the other got
    // through
    assert!(matches!(results[1], Err(Error::Policy)));
    assert!(results[0].is_ok());
    assert!(events
        .iter()
        .any(|e| matches!(e, Event::FailedToSendMail { .. })));
    assert!(events.iter().any(|e| matches!(e, Event::MailSent { .. })));
}

/// Drive the serial run against a mock transport; `fail_mail_from_once`
/// makes one MAIL FROM fail with 550.
fn run_serial(
    mails: Vec<Mail>,
    mut fail_mail_from_at: Option<usize>,
    events: &mut Vec<Event>,
) -> Result<Vec<Result<(), Error>>, Error> {
    let (mut run, first) = SerialPost::new(pool_server(), Config::new(), pool_creds(), mails);
    let mut action = SerialAction::Io(first);
    let mut sends: usize = 0;
    loop {
        let (next, emit) = match action {
            SerialAction::Exit => break,
            SerialAction::Next => run.step(SerialEvent::Proceed),
            SerialAction::Io(Action::Dial) => run.step(SerialEvent::Io(NetEvent::DialOk)),
            SerialAction::Io(Action::Send(_)) => run.step(SerialEvent::Io(NetEvent::WriteOk)),
            SerialAction::Io(Action::Recv) => {
                let script = match run.session.op {
                    OpState::AwaitReply(ReplyState::Greeting) => "220 hi\r\n",
                    OpState::AwaitReply(ReplyState::Ehlo) => "250 hi\r\n",
                    OpState::AwaitReply(ReplyState::MailFrom) => {
                        let at_failing = fail_mail_from_at == Some(sends);
                        sends += 1;
                        if at_failing {
                            fail_mail_from_at = None;
                            "550 no\r\n"
                        } else {
                            "250 ok\r\n"
                        }
                    }
                    OpState::AwaitReply(ReplyState::Data) => "354 go\r\n",
                    OpState::AwaitReply(ReplyState::Quit) => "221 bye\r\n",
                    _ => "250 ok\r\n",
                };
                run.step(SerialEvent::Io(NetEvent::Reply(
                    stream_recv_reply(script.as_bytes().to_vec()).unwrap(),
                )))
            }
            SerialAction::Io(_) => panic!("unexpected action"),
        };
        if let Some(e) = emit {
            events.push(e);
        }
        action = next;
    }
    run.outcome()
}

/// The serial run sends the batch in its own order, index 0 upward, over
/// one session; every slot stays Ok on a transport that accepts all.
#[test]
fn serial_run_sends_batch_in_order() {
    let mut events: Vec<Event> = Vec::new();
    let mails: Vec<Mail> = (0..3).map(pool_mail).collect();
    let results = run_serial(mails, None, &mut events).unwrap();
    assert_eq!(results.len(), 3);
    assert!(results.iter().all(|r| r.is_ok()));
    let sent: Vec<String> = events
        .iter()
        .filter_map(|e| match e {
            Event::MailSent { subject, .. } => Some(subject.clone()),
            _ => None,
        })
        .collect();
    assert_eq!(sent, vec!["mail-0", "mail-1", "mail-2"]);
    assert!(events.iter().any(|e| matches!(e, Event::Connected)));
    assert!(events.iter().any(|e| matches!(e, Event::Disconnencted)));
}

/// A failing mail lands in exactly its own slot; the run carries on with
/// the rest of the batch.
#[test]
fn serial_run_records_failure_in_slot() {
    let mut events: Vec<Event> = Vec::new();
    let mails: Vec<Mail> = (0..3).map(pool_mail).collect();
    // the second MAIL FROM of the run (slot 1) is refused
    let results = run_serial(mails, Some(1), &mut events).unwrap();
    assert!(results[0].is_ok());
    assert!(matches!(results[1], Err(Error::Policy)));
    assert!(results[2].is_ok());
    assert!(events
        .iter()
        .any(|e| matches!(e, Event::FailedToSendMail { .. })));
}

/// A refused connect ends the serial run with the error; nothing is
/// submitted.
#[test]
fn serial_run_connect_failure() {
    let (mut run, first) = SerialPost::new(
        pool_server(),
        Config::new(),
        pool_creds(),
        vec![pool_mail(0)],
    );
    assert!(matches!(first, Action::Dial));
    let (act, emit) = run.step(SerialEvent::Io(NetEvent::DialRefused));
    assert!(matches!(act, SerialAction::Exit));
    assert!(matches!(
        emit,
        Some(Event::FailedToConnect(Error::ServerUnreachable))
    ));
    assert!(matches!(
        run.outcome(),
        Err(Error::ServerUnreachable)
    ));
}
