use hotreload::command::{Command, reload_sequence};
use hotreload::dispatch::{Dispatcher, polled_commands};

#[test]
fn reload_sequence_is_r_newline() {
    assert_eq!(reload_sequence(), vec![b'r', b'\n']);
}

#[test]
fn first_reload_is_subject_to_debounce() {
    // last_reload starts at the construction time, so a request inside the
    // first window is suppressed.
    let mut d = Dispatcher::new(0, 1000);
    assert_eq!(d.dispatch(Command::Reload, 500), None);
    assert_eq!(d.last_reload, 0);
}

#[test]
fn reload_exactly_at_window_end_is_dispatched() {
    let mut d = Dispatcher::new(0, 1000);
    assert_eq!(d.dispatch(Command::Reload, 1000), Some(vec![b'r', b'\n']));
    assert_eq!(d.last_reload, 1000);
}

#[test]
fn two_reloads_in_one_window_write_once() {
    let mut d = Dispatcher::new(0, 1000);
    let mut writes: Vec<Vec<u8>> = Vec::new();
    for now in [1000u64, 1600] {
        if let Some(w) = d.dispatch(Command::Reload, now) {
            writes.push(w);
        }
    }
    assert_eq!(writes, vec![vec![b'r', b'\n']]);
}

#[test]
fn coalescing_three_bursts_write_once() {
    // Three source modifications 200 ms apart under a 1000 ms window: only
    // the first is dispatched.
    let mut d = Dispatcher::new(0, 1000);
    let mut writes: Vec<Vec<u8>> = Vec::new();
    for now in [1000u64, 1200, 1400] {
        if let Some(w) = d.dispatch(Command::Reload, now) {
            writes.push(w);
        }
    }
    assert_eq!(writes, vec![vec![b'r', b'\n']]);
}

#[test]
fn reload_then_key_writes_in_order() {
    let mut d = Dispatcher::new(0, 1000);
    let first = d.dispatch(Command::Reload, 1000);
    let second = d.dispatch(Command::KeyInput(b'x'), 1001);
    assert_eq!(first, Some(vec![b'r', b'\n']));
    assert_eq!(second, Some(vec![b'x']));
}

#[test]
fn key_input_is_never_debounced() {
    // A key byte goes through even right after a dispatched reload, and
    // leaves last_reload alone.
    let mut d = Dispatcher::new(0, 1000);
    assert_eq!(d.dispatch(Command::Reload, 1000), Some(vec![b'r', b'\n']));
    assert_eq!(d.dispatch(Command::KeyInput(b'R'), 1000), Some(vec![b'R']));
    assert_eq!(d.dispatch(Command::KeyInput(b'h'), 1050), Some(vec![b'h']));
    assert_eq!(d.last_reload, 1000);
}

#[test]
fn suppressed_reload_keeps_last_reload() {
    // last_reload moves only on a dispatch, so a suppressed request does not
    // stretch the window.
    let mut d = Dispatcher::new(0, 1000);
    assert_eq!(d.dispatch(Command::Reload, 1000), Some(vec![b'r', b'\n']));
    assert_eq!(d.dispatch(Command::Reload, 1900), None);
    assert_eq!(d.last_reload, 1000);
    assert_eq!(d.dispatch(Command::Reload, 2000), Some(vec![b'r', b'\n']));
}

#[test]
fn dispatched_reloads_are_a_window_apart() {
    // Requests every 300 ms under a 1000 ms window: the dispatched ones are
    // spaced by at least the window.
    let mut d = Dispatcher::new(0, 1000);
    let mut dispatched: Vec<u64> = Vec::new();
    let mut now: u64 = 1000;
    for _ in 0..10 {
        if d.dispatch(Command::Reload, now).is_some() {
            dispatched.push(now);
        }
        now += 300;
    }
    assert_eq!(dispatched, vec![1000, 2200, 3400]);
    for pair in dispatched.windows(2) {
        assert!(pair[1] - pair[0] >= 1000);
    }
}

#[test]
fn zero_debounce_dispatches_every_request() {
    let mut d = Dispatcher::new(5, 0);
    assert_eq!(d.dispatch(Command::Reload, 5), Some(vec![b'r', b'\n']));
    assert_eq!(d.dispatch(Command::Reload, 5), Some(vec![b'r', b'\n']));
}

#[test]
fn polled_commands_put_the_watcher_first() {
    assert_eq!(
        polled_commands(Some(Command::Reload), Some(b'q')),
        vec![Command::Reload, Command::KeyInput(b'q')]
    );
    assert_eq!(polled_commands(None, Some(b'q')), vec![Command::KeyInput(b'q')]);
    assert_eq!(polled_commands(Some(Command::Reload), None), vec![Command::Reload]);
    assert_eq!(polled_commands(None, None), vec![]);
}

#[test]
fn key_bytes_pass_through_in_order() {
    // A mixed run: the non-reload writes are exactly the key bytes in order.
    let mut d = Dispatcher::new(0, 1000);
    let run = [
        (100u64, Command::KeyInput(b'a')),
        (1000, Command::Reload),
        (1100, Command::KeyInput(b'b')),
        (1200, Command::Reload),
        (1300, Command::KeyInput(b'c')),
    ];
    let mut writes: Vec<Vec<u8>> = Vec::new();
    for (now, cmd) in run {
        if let Some(w) = d.dispatch(cmd, now) {
            writes.push(w);
        }
    }
    let keys: Vec<u8> = writes.iter().filter(|w| w.len() == 1).map(|w| w[0]).collect();
    assert_eq!(keys, vec![b'a', b'b', b'c']);
    for w in &writes {
        assert!(w == &vec![b'r', b'\n'] || w.len() == 1);
    }
}
