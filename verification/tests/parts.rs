use broker::engine::Broker;
use broker::outcome::{
    completion_status, delivery_outcome, CompleteError, Reply, SubmitError,
};
use broker::ident::RequestId;
use broker::message::{route, Job, Response, Route, Status, REQUEST_ID_HEADER};
use broker::queue::WorkerQueue;
use broker::rendezvous::{slot, Abandoned, Consumer};
use broker::table::ResponseTable;
use broker::text::{bytes_eq, text_eq};
use broker::worker::upper_case;
use broker::{inspect_drop, InspectDrop};
use futures::Future;

fn id_of(text: &str) -> RequestId {
    RequestId::from_bytes(text.as_bytes().to_vec())
}

#[test]
fn slot_hands_one_value_over() {
    let (producer, consumer) = slot::<u32>();
    assert_eq!(producer.send(7), Ok(()));
    assert_eq!(consumer.into_receiver().wait(), Ok(7));
}

#[test]
fn slot_gives_the_value_back_when_the_consumer_is_gone() {
    let (producer, consumer) = slot::<Vec<u8>>();
    drop(consumer);
    assert_eq!(producer.send(b"lost".to_vec()), Err(b"lost".to_vec()));
}

#[test]
fn slot_tells_the_consumer_when_the_producer_is_gone() {
    let (producer, consumer) = slot::<u32>();
    let mut receiver = consumer.into_receiver();
    assert_eq!(receiver.try_recv(), Ok(None));
    drop(producer);
    assert_eq!(Consumer::outcome(receiver.wait()), Err(Abandoned));
}

#[test]
fn slot_outcome_keeps_what_was_received() {
    let (producer, consumer) = slot::<u32>();
    assert_eq!(producer.send(9), Ok(()));
    assert_eq!(Consumer::outcome(consumer.into_receiver().wait()), Ok(9));
}

#[test]
fn queue_is_first_in_first_out() {
    let mut queue: WorkerQueue<u32> = WorkerQueue::new();
    assert_eq!(queue.len(), 0);
    assert!(queue.dequeue().is_none());
    let (first, on_first) = slot();
    let (second, on_second) = slot();
    let (third, on_third) = slot();
    queue.enqueue(first);
    queue.enqueue(second);
    assert_eq!(queue.len(), 2);
    assert_eq!(queue.dequeue().expect("two wait").send(1), Ok(()));
    queue.enqueue(third);
    assert_eq!(queue.len(), 2);
    assert_eq!(queue.dequeue().expect("two wait").send(2), Ok(()));
    assert_eq!(queue.dequeue().expect("one waits").send(3), Ok(()));
    assert!(queue.dequeue().is_none());
    assert_eq!(queue.len(), 0);
    assert_eq!(on_first.into_receiver().wait(), Ok(1));
    assert_eq!(on_second.into_receiver().wait(), Ok(2));
    assert_eq!(on_third.into_receiver().wait(), Ok(3));
}

#[test]
fn table_holds_an_id_at_most_once() {
    let mut table: ResponseTable<u32> = ResponseTable::new();
    assert!(!table.contains(&id_of("a")));
    let (pa, ca) = slot();
    let (pb, cb) = slot();
    let (pc, cc) = slot();
    assert!(table.insert(id_of("a"), pa).is_ok());
    assert!(table.insert(id_of("b"), pb).is_ok());
    assert!(table.contains(&id_of("a")));
    assert!(table.contains(&id_of("b")));
    assert!(!table.contains(&id_of("c")));
    let refused = table.insert(id_of("a"), pc).err().expect("the id is taken");
    assert_eq!(refused.send(3), Ok(()));
    assert_eq!(cc.into_receiver().wait(), Ok(3));
    assert_eq!(table.remove(&id_of("a")).expect("a is pending").send(1), Ok(()));
    assert!(table.remove(&id_of("a")).is_none());
    assert!(!table.contains(&id_of("a")));
    assert!(table.contains(&id_of("b")));
    assert_eq!(table.remove(&id_of("b")).expect("b is pending").send(2), Ok(()));
    assert!(table.remove(&id_of("b")).is_none());
    assert_eq!(ca.into_receiver().wait(), Ok(1));
    assert_eq!(cb.into_receiver().wait(), Ok(2));
}

#[test]
fn table_removal_keeps_the_other_entries() {
    let mut table: ResponseTable<usize> = ResponseTable::new();
    let names = ["a", "b", "c", "d", "e"];
    let mut consumers = Vec::new();
    for name in names.iter() {
        let (producer, consumer) = slot();
        assert!(table.insert(id_of(name), producer).is_ok());
        consumers.push(consumer);
    }
    for (i, name) in [(1, "b"), (4, "e"), (0, "a"), (3, "d"), (2, "c")].iter() {
        assert_eq!(table.remove(&id_of(name)).expect("pending").send(*i), Ok(()));
        assert!(!table.contains(&id_of(name)));
    }
    for (i, consumer) in consumers.into_iter().enumerate() {
        assert_eq!(consumer.into_receiver().wait(), Ok(i));
    }
}

#[test]
fn ids_compare_by_their_bytes() {
    let id = id_of("67e55044-10b1-426f-9247-bb680e5fe0c8");
    assert_eq!(id.as_bytes(), b"67e55044-10b1-426f-9247-bb680e5fe0c8");
    assert!(id.same(&id.clone()));
    assert!(id.same(&id_of("67e55044-10b1-426f-9247-bb680e5fe0c8")));
    assert!(!id.same(&id_of("67E55044-10B1-426F-9247-BB680E5FE0C8")));
    assert!(!id.same(&id_of("67e55044-10b1-426f-9247-bb680e5fe0c")));
    assert!(!id.same(&id_of("")));
    assert!(id_of("").same(&id_of("")));
    let raw = RequestId::from_bytes(vec![0xff, 0x00, 0x80]);
    assert_eq!(raw.as_bytes(), &[0xff, 0x00, 0x80]);
    assert_eq!(raw.clone(), raw);
}

#[test]
fn fresh_ids_are_uuid_text() {
    let one = RequestId::fresh();
    let two = RequestId::fresh();
    assert!(!one.same(&two));
    assert_eq!(one.as_bytes().len(), 36);
    assert_eq!(one.as_bytes()[8], b'-');
    assert_eq!(one.as_bytes()[13], b'-');
    assert_eq!(one.as_bytes()[14], b'4');
    assert_eq!(one.as_bytes()[18], b'-');
    assert!(b"89ab".contains(&one.as_bytes()[19]));
    assert_eq!(one.as_bytes()[23], b'-');
    let text = String::from_utf8(one.as_bytes().to_vec()).expect("a UUID is ASCII text");
    assert_eq!(text.to_lowercase(), text);
}

#[test]
fn bytes_and_text_compare_exactly() {
    assert!(bytes_eq(b"", b""));
    assert!(bytes_eq(b"abc", b"abc"));
    assert!(!bytes_eq(b"abc", b"abd"));
    assert!(!bytes_eq(b"abc", b"ab"));
    assert!(!bytes_eq(b"", b"a"));
    assert!(text_eq("", ""));
    assert!(text_eq("/next", "/next"));
    assert!(!text_eq("/next", "/Next"));
    assert!(!text_eq("/next", "/next "));
    assert!(text_eq("gr\u{fc}n", "gr\u{fc}n"));
    assert!(!text_eq("gr\u{fc}n", "grun"));
}

#[test]
fn routing_table() {
    assert_eq!(route("GET", "/next"), Route::Next);
    assert_eq!(route("POST", "/"), Route::Submit);
    assert_eq!(route("POST", "/response"), Route::Complete);
    assert_eq!(route("GET", "/"), Route::Unknown);
    assert_eq!(route("GET", "/response"), Route::Unknown);
    assert_eq!(route("POST", "/next"), Route::Unknown);
    assert_eq!(route("PUT", "/"), Route::Unknown);
    assert_eq!(route("post", "/"), Route::Unknown);
    assert_eq!(route("", ""), Route::Unknown);
    assert_eq!(route("POST", ""), Route::Unknown);
    assert_eq!(route("POST", "/response/"), Route::Unknown);
    assert_eq!(REQUEST_ID_HEADER, "X-Request-Id");
}

#[test]
fn status_codes_and_texts() {
    let table = [
        (Status::Success, 200, "200"),
        (Status::Accepted, 202, "202"),
        (Status::BadRequest, 400, "400"),
        (Status::NotFound, 404, "404"),
        (Status::MethodNotAllowed, 405, "405"),
        (Status::NotAcceptable, 406, "406"),
        (Status::InternalServerError, 500, "500"),
    ];
    for (status, code, text) in table.iter() {
        assert_eq!(status.code(), *code);
        assert_eq!(status.text(), *text);
    }
}

#[test]
fn outcomes_and_their_status() {
    assert_eq!(completion_status(Ok(())), Status::Accepted);
    assert_eq!(completion_status(Err(CompleteError::NotFound)), Status::NotFound);
    assert_eq!(
        completion_status(Err(CompleteError::InternalError)),
        Status::InternalServerError
    );
    assert_eq!(SubmitError::NoWorkerAvailable { discarded: 2 }.status(), Status::NotAcceptable);
    assert_eq!(SubmitError::IdInUse.status(), Status::InternalServerError);
    assert_eq!(delivery_outcome::<u8>(Ok(())), Ok(()));
    assert_eq!(delivery_outcome(Err(5u8)), Err(CompleteError::InternalError));
}

#[test]
fn responses_are_built_as_stated() {
    let empty: Response<Vec<u8>> = Response::empty(Status::NotAcceptable);
    assert_eq!(empty.status, Status::NotAcceptable);
    assert_eq!(empty.request_id, None);
    assert_eq!(empty.body, None);
    let job = Job::new(id_of("abc"), b"ping".to_vec());
    assert_eq!(job, Job { id: id_of("abc"), payload: b"ping".to_vec() });
    let to_worker = Response::for_job(job);
    assert_eq!(to_worker.status, Status::Success);
    assert_eq!(to_worker.request_id, Some(id_of("abc")));
    assert_eq!(to_worker.body, Some(b"ping".to_vec()));
    let to_client = Response::for_result(b"PONG".to_vec());
    assert_eq!(to_client.status, Status::Success);
    assert_eq!(to_client.request_id, None);
    assert_eq!(to_client.body, Some(b"PONG".to_vec()));
}

#[test]
fn answers_are_watched_under_their_labels() {
    let mut broker: Broker<Vec<u8>> = Broker::new();
    assert_eq!(broker.empty(Status::NotAcceptable).label(), "406");
    assert_eq!(broker.empty(Status::Accepted).label(), "202");
    let worker = broker.dispatch("GET", "/next", None, Vec::new());
    assert_eq!(worker.label(), "Next()");
    let client = broker.dispatch("POST", "/", None, b"ping".to_vec());
    assert_eq!(client.label(), "Invoke sent");
    assert!(matches!(client, Reply::OnResult(_)));
    assert_eq!(broker.dispatch("POST", "/", None, b"ping".to_vec()).label(), "406");
    assert_eq!(broker.dispatch("PATCH", "/", None, b"ping".to_vec()).label(), "405");
    assert_eq!(broker.dispatch("POST", "/response", None, b"x".to_vec()).label(), "400");
}

#[test]
fn inspect_drop_names_what_it_wraps() {
    let mut watched: InspectDrop<u32> = inspect_drop(5, "Next()".to_string());
    assert_eq!(watched.notice(), "Dropping Next()");
    *watched.inner_mut() += 1;
    assert_eq!(*watched.inner_mut(), 6);
    assert_eq!(watched.notice(), "Dropping Next()");
    assert_eq!(inspect_drop((), String::new()).notice(), "Dropping ");
    assert_eq!(inspect_drop((), "406".to_string()).notice(), "Dropping 406");
}

#[test]
fn worker_answers_in_upper_case() {
    assert_eq!(upper_case(b"ping"), b"PING".to_vec());
    assert_eq!(upper_case(b""), Vec::<u8>::new());
    assert_eq!(upper_case(b"Hello, World! 123"), b"HELLO, WORLD! 123".to_vec());
    assert_eq!(upper_case(b"az`{AZ@["), b"AZ`{AZ@[".to_vec());
    assert_eq!(upper_case(&[0xe4, 0x00, 0xff, 0x61]), vec![0xe4, 0x00, 0xff, 0x41]);
    let all: Vec<u8> = (0..=255).collect();
    let expected: Vec<u8> = all.iter().map(|byte| byte.to_ascii_uppercase()).collect();
    assert_eq!(upper_case(&all), expected);
}
