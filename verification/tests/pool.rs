use pm3::log_buffer::ClientId;
use pm3::pool::{Pool, StopOutcome};

#[test]
fn added_processes_get_consecutive_ids() {
    let mut pool: Pool<&str> = Pool::new();
    assert_eq!(0, pool.len());
    assert_eq!(0, pool.add("first"));
    assert_eq!(1, pool.add("second"));
    assert_eq!(2, pool.len());
}

#[test]
fn log_of_unknown_process_is_none() {
    let mut pool: Pool<u32> = Pool::new();
    assert_eq!(None, pool.log(0, ClientId(0)));
    pool.add(10);
    assert_eq!(None, pool.log(1, ClientId(0)));
    assert!(!pool.write(1, String::from("lost")));
}

#[test]
fn written_lines_reach_registered_clients() {
    let mut pool: Pool<u32> = Pool::new();
    let pid = pool.add(42);
    assert_eq!(Some(Vec::<String>::new()), pool.log(pid, ClientId(0)));
    assert!(pool.write(pid, String::from("64 bytes from 127.0.0.1")));
    assert!(pool.write(pid, String::from("64 bytes again")));
    assert_eq!(
        Some(vec![
            String::from("64 bytes from 127.0.0.1"),
            String::from("64 bytes again")
        ]),
        pool.log(pid, ClientId(0))
    );
    assert_eq!(Some(Vec::<String>::new()), pool.log(pid, ClientId(1)));
    assert_eq!(Some(Vec::<String>::new()), pool.log(pid, ClientId(0)));
}

#[test]
fn stop_hands_back_the_handle_once() {
    let mut pool: Pool<u32> = Pool::new();
    pool.add(5);
    pool.add(6);
    assert_eq!(StopOutcome::Stopped(5), pool.stop(0));
    assert_eq!(1, pool.len());
    assert_eq!(StopOutcome::AlreadyStopped, pool.stop(0));
    assert_eq!(None, pool.log(0, ClientId(0)));
    assert!(!pool.write(0, String::from("after stop")));
    assert_eq!(StopOutcome::Unknown, pool.stop(9));
    assert_eq!(Some(Vec::<String>::new()), pool.log(1, ClientId(0)));
    assert_eq!(2, pool.add(7));
    assert_eq!(2, pool.len());
}
