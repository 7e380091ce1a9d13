use wasm_build_runtime::jobserver::{
    fd_pair_verdict, fd_status, flag_update, handoff_mode, is_fifo_mode, parse_handoff, BlockingMode,
    Client, CreationArg,
    FdStatus, FdVerdict, HandoffError, JobserverError, DEFAULT_RELEASE_BYTE, FILL_BYTE,
};
use wasm_build_runtime::token_queue::TokenQueue;

#[test]
fn fresh_pool_grants_exactly_limit() {
    for limit in [0usize, 1, 3, 130] {
        let mut c = Client::new(limit, 3);
        let mut held = Vec::new();
        for _ in 0..limit {
            let t = c.try_acquire().unwrap().expect("a token while the pool is not empty");
            held.push(t);
        }
        assert!(c.try_acquire().unwrap().is_none());
        for t in &held {
            c.release(Some(t));
        }
        for _ in 0..limit {
            assert!(c.try_acquire().unwrap().is_some());
        }
        assert!(c.try_acquire().unwrap().is_none());
    }
}

#[test]
fn held_tokens_never_exceed_limit() {
    let limit = 3usize;
    let mut c = Client::new(limit, 5);
    let mut held = Vec::new();
    let pattern = [true, true, false, true, true, true, false, false, true, false, false, true];
    for acquire in pattern {
        if acquire {
            if let Ok(Some(t)) = c.try_acquire() {
                held.push(t);
            }
        } else if let Some(t) = held.pop() {
            c.release(Some(&t));
        }
        assert!(held.len() <= limit);
        assert_eq!(held.len() + c.available(), limit);
    }
}

#[test]
fn two_of_three_acquire_until_release() {
    let mut c = Client::new(2, 4);
    let first = c.poll_acquire();
    let second = c.poll_acquire();
    assert!(first.is_some());
    assert!(second.is_some());
    assert!(c.poll_acquire().is_none());
    c.release(None);
    let third = c.poll_acquire().expect("the released token");
    assert_eq!(third.byte, DEFAULT_RELEASE_BYTE);
}

#[test]
fn new_pool_is_filled_with_fill_bytes() {
    let c = Client::new(200, 7);
    assert_eq!(c.available(), 200);
    assert!(c.store_contents().iter().all(|b| *b == FILL_BYTE));
    assert_eq!(FILL_BYTE, b'|');
    assert!(c.can_try_acquire());
}

#[test]
fn try_acquire_on_shared_pool_is_unsupported() {
    let store = TokenQueue::from_bytes(vec![b'x']);
    let mut c = Client::from_parts(store, CreationArg::Fds { read: 3, write: 4 }, BlockingMode::Shared);
    assert!(!c.can_try_acquire());
    assert!(matches!(c.try_acquire(), Err(JobserverError::Unsupported)));
    assert_eq!(c.available(), 1);
    assert!(c.poll_acquire().is_some());
}

#[test]
fn release_keeps_token_byte() {
    let mut c = Client::new(1, 3);
    let t = c.try_acquire().unwrap().unwrap();
    assert_eq!(t.byte, b'|');
    c.release(None);
    c.release(Some(&t));
    assert_eq!(c.store_contents(), &[b'+', b'|'][..]);
}

#[test]
fn string_arg_of_descriptors() {
    assert_eq!(Client::new(1, 7).string_arg(), "7,7");
    let c = Client::from_parts(TokenQueue::new(), CreationArg::Fds { read: 12, write: -3 }, BlockingMode::Blocking);
    assert_eq!(c.string_arg(), "12,-3");
    let c = Client::from_parts(TokenQueue::new(), CreationArg::Fds { read: 0, write: 2147483647 }, BlockingMode::Blocking);
    assert_eq!(c.string_arg(), "0,2147483647");
}

#[test]
fn string_arg_of_fifo() {
    let c = Client::from_parts(TokenQueue::new(), CreationArg::Fifo("/tmp/jobs".to_string()), BlockingMode::Blocking);
    assert_eq!(c.string_arg(), "fifo:/tmp/jobs");
}

fn fds(s: &str) -> Option<(i32, i32)> {
    match parse_handoff(s) {
        Ok(CreationArg::Fds { read, write }) => Some((read, write)),
        _ => None,
    }
}

#[test]
fn parse_handoff_forms() {
    match parse_handoff("fifo:/tmp/jobs") {
        Ok(CreationArg::Fifo(p)) => assert_eq!(p, "/tmp/jobs"),
        _ => panic!("expected a fifo"),
    }
    match parse_handoff("fifo:") {
        Ok(CreationArg::Fifo(p)) => assert_eq!(p, ""),
        _ => panic!("expected a fifo"),
    }
    assert_eq!(fds("3,4"), Some((3, 4)));
    assert_eq!(fds("+3,04"), Some((3, 4)));
    assert_eq!(fds("0,2147483647"), Some((0, 2147483647)));
}

#[test]
fn parse_handoff_errors() {
    assert!(matches!(parse_handoff("fifo"), Err(HandoffError::MissingFifoPath)));
    assert!(matches!(parse_handoff("abc"), Err(HandoffError::UnknownForm)));
    assert!(matches!(parse_handoff(""), Err(HandoffError::UnknownForm)));
    assert!(matches!(parse_handoff("a,4"), Err(HandoffError::BadReadFd)));
    assert!(matches!(parse_handoff(",4"), Err(HandoffError::BadReadFd)));
    assert!(matches!(parse_handoff("3,b"), Err(HandoffError::BadWriteFd)));
    assert!(matches!(parse_handoff("3,4,5"), Err(HandoffError::BadWriteFd)));
    assert!(matches!(parse_handoff("2147483648,1"), Err(HandoffError::BadReadFd)));
    assert!(matches!(parse_handoff("-1,4"), Err(HandoffError::NegativeFd(-1))));
    assert!(matches!(parse_handoff("3,-4"), Err(HandoffError::NegativeFd(-4))));
    assert!(matches!(parse_handoff("-2147483648,-1"), Err(HandoffError::NegativeFd(-2147483648))));
}

#[test]
fn token_queue_reads_from_front() {
    let mut q = TokenQueue::new();
    q.write_all(&[1, 2, 3]);
    assert_eq!(q.write(&[4, 5]), 2);
    assert_eq!(q.available(), 5);
    assert_eq!(q.read(2), vec![1, 2]);
    assert_eq!(q.read(10), vec![3, 4, 5]);
    assert_eq!(q.read(1), Vec::<u8>::new());
    assert_eq!(q.available(), 0);
}

#[test]
fn fd_checks() {
    assert_eq!(fd_pair_verdict(FdStatus::CannotOpen, FdStatus::NotAPipe), FdVerdict::WriteFails);
    assert_eq!(fd_pair_verdict(FdStatus::NotAPipe, FdStatus::NotAPipe), FdVerdict::ReadFails);
    assert_eq!(fd_pair_verdict(FdStatus::CannotOpen, FdStatus::CannotOpen), FdVerdict::ReadFails);
    assert_eq!(fd_pair_verdict(FdStatus::Usable, FdStatus::CannotOpen), FdVerdict::WriteFails);
    assert_eq!(fd_pair_verdict(FdStatus::Usable, FdStatus::Usable), FdVerdict::Usable);
    assert!(is_fifo_mode(0o010644, 0o010000));
    assert!(!is_fifo_mode(0o100644, 0o010000));
    assert_eq!(flag_update(0, 1, true), Some(1));
    assert_eq!(flag_update(1, 1, true), None);
    assert_eq!(flag_update(3, 1, false), Some(2));
    assert_eq!(flag_update(2, 1, false), None);
}

#[test]
fn descriptor_status_decisions() {
    assert_eq!(fd_status(false, None, 0o010000, true), FdStatus::Usable);
    assert_eq!(fd_status(false, None, 0o010000, false), FdStatus::CannotOpen);
    assert_eq!(fd_status(true, None, 0o010000, true), FdStatus::NotAPipe);
    assert_eq!(fd_status(true, None, 0o010000, false), FdStatus::CannotOpen);
    assert_eq!(fd_status(true, Some(0o010600), 0o010000, true), FdStatus::Usable);
    assert_eq!(fd_status(true, Some(0o100600), 0o010000, true), FdStatus::NotAPipe);
}

#[test]
fn handoff_forms_have_their_modes() {
    assert_eq!(handoff_mode(&CreationArg::Fifo("/tmp/p".to_string())), BlockingMode::Blocking);
    assert_eq!(handoff_mode(&CreationArg::Fds { read: 3, write: 4 }), BlockingMode::Shared);
}

#[test]
fn tokens_reload_from_the_store() {
    let mut c = Client::new(2, 3);
    c.replace_tokens(vec![b'a']);
    assert_eq!(c.available(), 1);
    assert_eq!(c.string_arg(), "3,3");
    assert_eq!(c.poll_acquire().unwrap().byte, b'a');
}
