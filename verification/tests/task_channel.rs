use cubecl::channel::{SPIN_BUDGET_CLIENT, SPIN_BUDGET_SERVER, YIELD_BUDGET_SERVER};
use cubecl::{
    Backoff, Channel, ClientAction, ClientCall, Server, ServerAction, Task, TaskBuffer,
    TaskPlacement, CHANNEL_MAX_TASK, GLOBAL_TASK_MAX_SIZE,
};
use std::sync::atomic::{AtomicUsize, Ordering};
use std::sync::Arc;

#[test]
fn test_task_init_arena_aligned_closure() {
    // The array without elements aligns the struct to 64 bytes.
    #[derive(Clone, Copy)]
    struct A64 {
        data: [u8; 128],
        _align: [std::arch::x86_64::__m512i; 0],
    }
    assert_eq!(std::mem::align_of::<A64>(), 64);

    let mut task = Task::new();

    let data = A64 { data: [0xCD; 128], _align: [] };
    task.init(move || {
        let d = data;
        d.data.iter().map(|&b| b as usize).sum::<usize>()
    });
    assert_eq!(task.placement(), TaskPlacement::Arena);
    let func = task.run().unwrap();
    assert_eq!(func(), 128 * 0xCD);
}

#[test]
fn test_task_init_extremely_over_aligned_closure_uses_box() {
    assert_eq!(TaskPlacement::for_layout(256, 256), TaskPlacement::Boxed);

    let mut task = Task::new();

    let data = [0xAAu8; 256];
    task.init(move || {
        let d = data;
        d.iter().map(|&b| b as usize).sum::<usize>()
    });
    assert_eq!(task.placement(), TaskPlacement::Arena);
    let func = task.run().unwrap();
    assert_eq!(func(), 256 * 0xAA);
}

#[test]
fn test_task_drop_discards_closure_captures_without_running() {
    struct DropSpy<const N: usize> {
        counter: Arc<AtomicUsize>,
        _padding: [u8; N],
    }

    impl<const N: usize> Drop for DropSpy<N> {
        fn drop(&mut self) {
            self.counter.fetch_add(1, Ordering::SeqCst);
        }
    }

    fn assert_discarded<F: FnOnce() + Send + 'static>(
        task_fn: F,
        drop_count: &Arc<AtomicUsize>,
        run_count: &Arc<AtomicUsize>,
    ) {
        let mut task = Task::new();
        task.init(task_fn);
        drop(task);

        assert_eq!(drop_count.load(Ordering::SeqCst), 1);
        assert_eq!(run_count.load(Ordering::SeqCst), 0);
    }

    fn run_case<const N: usize>() {
        let drop_count = Arc::new(AtomicUsize::new(0));
        let run_count = Arc::new(AtomicUsize::new(0));
        let spy = DropSpy {
            counter: Arc::clone(&drop_count),
            _padding: [0; N],
        };
        let run_count_task = Arc::clone(&run_count);

        assert_discarded(
            move || {
                let _ = &spy;
                run_count_task.fetch_add(1, Ordering::SeqCst);
            },
            &drop_count,
            &run_count,
        );
    }

    run_case::<0>();
    run_case::<128>();
    run_case::<8192>();
}

#[test]
fn placement_follows_size_and_alignment() {
    assert_eq!(TaskPlacement::for_layout(0, 1), TaskPlacement::Inline);
    assert_eq!(TaskPlacement::for_layout(40, 64), TaskPlacement::Inline);
    assert_eq!(TaskPlacement::for_layout(41, 64), TaskPlacement::Arena);
    assert_eq!(TaskPlacement::for_layout(40, 128), TaskPlacement::Boxed);
    assert_eq!(TaskPlacement::for_layout(GLOBAL_TASK_MAX_SIZE, 64), TaskPlacement::Arena);
    assert_eq!(TaskPlacement::for_layout(GLOBAL_TASK_MAX_SIZE + 1, 1), TaskPlacement::Boxed);
}

#[test]
fn a_task_runs_once() {
    let mut task: Task<u32> = Task::new();
    assert!(task.run().is_none());
    task.init(5);
    assert_eq!(task.placement(), TaskPlacement::Inline);
    assert_eq!(task.run(), Some(5));
    assert_eq!(task.run(), None);
    task.init(6);
    task.init_noop();
    assert_eq!(task.run(), None);
    task.init(7);
    task.discard();
    assert_eq!(task.run(), None);
}

#[test]
fn a_buffer_hands_out_each_task_once() {
    let mut buffer: TaskBuffer<u32> = TaskBuffer::new(2);
    buffer.set(1, Some(4));
    assert_eq!(buffer.run(0), None);
    assert_eq!(buffer.run(1), Some(4));
    assert_eq!(buffer.run(1), None);
    buffer.set(0, Some(5));
    buffer.set(0, None);
    assert_eq!(buffer.run(0), None);
}

/// Steps a call until it is over or waits.
fn finish(call: &mut ClientCall<u32>, channel: &mut Channel<u32>) -> ClientAction {
    loop {
        match call.step(channel) {
            ClientAction::Continue => {}
            action => return action,
        }
    }
}

/// Steps the server until it waits or stops; the tasks that it ran are appended.
fn serve(server: &mut Server, channel: &mut Channel<u32>, ran: &mut Vec<u32>) -> bool {
    loop {
        match server.step(channel) {
            ServerAction::Continue => {}
            ServerAction::Run(task) => ran.push(task),
            ServerAction::Wait(_) => return false,
            ServerAction::Stop => return true,
        }
    }
}

#[test]
fn tasks_run_in_order_once_the_buffer_is_full() {
    let mut channel = Channel::new();
    let mut server = Server::new();
    let mut ran = Vec::new();
    for value in 0..CHANNEL_MAX_TASK as u32 {
        assert!(!serve(&mut server, &mut channel, &mut ran));
        assert!(ran.is_empty());
        let mut call = ClientCall::enqueue(value);
        assert_eq!(finish(&mut call, &mut channel), ClientAction::Done(true));
    }
    assert!(!serve(&mut server, &mut channel, &mut ran));
    assert_eq!(ran, (0..32).collect::<Vec<u32>>());
}

#[test]
fn a_full_queue_makes_the_client_back_off() {
    let mut channel = Channel::new();
    for value in 0..CHANNEL_MAX_TASK as u32 {
        let mut call = ClientCall::enqueue(value);
        assert_eq!(finish(&mut call, &mut channel), ClientAction::Done(true));
    }
    let mut late = ClientCall::enqueue(99);
    assert_eq!(
        finish(&mut late, &mut channel),
        ClientAction::Wait(Backoff::Spin)
    );
    for _ in 1..SPIN_BUDGET_CLIENT {
        assert_eq!(late.step(&mut channel), ClientAction::Wait(Backoff::Spin));
    }
    assert_eq!(late.step(&mut channel), ClientAction::Wait(Backoff::Yield));
    for _ in 1..4096 {
        assert_eq!(late.step(&mut channel), ClientAction::Wait(Backoff::Yield));
    }
    assert_eq!(late.step(&mut channel), ClientAction::Wait(Backoff::Sleep));

    let mut server = Server::new();
    let mut ran = Vec::new();
    serve(&mut server, &mut channel, &mut ran);
    assert_eq!(ran.len(), 32);
    assert_eq!(finish(&mut late, &mut channel), ClientAction::Done(true));
    let mut flush = ClientCall::flush();
    assert_eq!(finish(&mut flush, &mut channel), ClientAction::Done(true));
    serve(&mut server, &mut channel, &mut ran);
    assert_eq!(ran.last(), Some(&99));
    assert_eq!(ran.len(), 33);
}

#[test]
fn an_idle_server_spins_then_yields_then_sleeps() {
    let mut channel: Channel<u32> = Channel::new();
    let mut server = Server::new();
    let mut waits = Vec::new();
    while waits.len() < (SPIN_BUDGET_SERVER + YIELD_BUDGET_SERVER + 3) as usize {
        match server.step(&mut channel) {
            ServerAction::Continue => {}
            ServerAction::Wait(backoff) => waits.push(backoff),
            _ => panic!("nothing to run"),
        }
    }
    let count = |wanted| waits.iter().filter(|backoff| **backoff == wanted).count();
    assert_eq!(count(Backoff::Spin), 8192);
    assert_eq!(count(Backoff::Yield), 64);
    assert_eq!(count(Backoff::Sleep), 3);
    assert_eq!(waits[8191], Backoff::Spin);
    assert_eq!(waits[8192], Backoff::Yield);
    assert_eq!(waits[8256], Backoff::Sleep);
}

#[test]
fn flushing_an_empty_or_full_buffer_adds_nothing() {
    let mut channel: Channel<u32> = Channel::new();
    let mut server = Server::new();
    let mut ran = Vec::new();
    for _ in 0..3 {
        let mut flush = ClientCall::flush();
        assert_eq!(finish(&mut flush, &mut channel), ClientAction::Done(true));
        serve(&mut server, &mut channel, &mut ran);
    }
    let mut call = ClientCall::enqueue(1);
    assert_eq!(finish(&mut call, &mut channel), ClientAction::Done(true));
    let mut flush = ClientCall::flush();
    assert_eq!(finish(&mut flush, &mut channel), ClientAction::Done(true));
    serve(&mut server, &mut channel, &mut ran);
    assert_eq!(ran, vec![1]);
}

#[test]
fn a_call_that_was_let_in_is_drained_before_the_server_stops() {
    let mut channel = Channel::new();
    let mut server = Server::new();
    let mut ran = Vec::new();
    let mut call = ClientCall::enqueue(3);
    while !call.is_admitted() {
        assert_eq!(call.step(&mut channel), ClientAction::Continue);
    }
    channel.stop_accepting();
    channel.request_close();
    assert!(!channel.is_accepting());
    // The server waits for the call.
    assert!(!serve(&mut server, &mut channel, &mut ran));
    let mut late = ClientCall::enqueue(4);
    assert_eq!(finish(&mut late, &mut channel), ClientAction::Done(false));
    assert_eq!(finish(&mut call, &mut channel), ClientAction::Done(true));
    assert!(serve(&mut server, &mut channel, &mut ran));
    assert_eq!(ran, vec![3]);
    assert!(serve(&mut server, &mut channel, &mut ran));
}

#[test]
fn a_call_that_sees_the_stop_after_it_began_is_turned_away() {
    let mut channel = Channel::new();
    let mut call = ClientCall::enqueue(3);
    assert_eq!(call.step(&mut channel), ClientAction::Continue);
    channel.stop_accepting();
    channel.request_close();
    assert_eq!(finish(&mut call, &mut channel), ClientAction::Done(false));
    assert_eq!(call.step(&mut channel), ClientAction::Done(false));
    let mut server = Server::new();
    let mut ran = Vec::new();
    assert!(serve(&mut server, &mut channel, &mut ran));
    assert!(ran.is_empty());
}

#[test]
fn a_channel_that_is_closed_stops_after_few_steps() {
    for queued in [0, 1, 31, 32] {
        let mut channel = Channel::new();
        let mut server = Server::new();
        for task in 0..queued {
            finish(&mut ClientCall::enqueue(task), &mut channel);
        }
        channel.stop_accepting();
        channel.request_close();
        let mut ran = Vec::new();
        let mut steps = 0;
        loop {
            match server.step(&mut channel) {
                ServerAction::Run(task) => ran.push(task),
                ServerAction::Stop => break,
                _ => {}
            }
            steps += 1;
        }
        assert!(steps <= 4 * CHANNEL_MAX_TASK);
        assert_eq!(ran, (0..queued).collect::<Vec<u32>>());
    }
}

#[test]
fn a_flushed_task_runs_after_few_steps() {
    let mut channel = Channel::new();
    let mut server = Server::new();
    finish(&mut ClientCall::enqueue(5), &mut channel);
    finish(&mut ClientCall::flush(), &mut channel);
    let ran = (0..4 * CHANNEL_MAX_TASK)
        .filter(|_| matches!(server.step(&mut channel), ServerAction::Run(5)))
        .count();
    assert_eq!(ran, 1);
}
