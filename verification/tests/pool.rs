use affinitypool::builder::DEFAULT_THREADS;
use affinitypool::local::DropAction;
use affinitypool::park::{PopAction, PopLoop};
use affinitypool::pool::Dispatch;
use affinitypool::producer::Producer;
use affinitypool::sentry::{Respawn, Sentry};
use affinitypool::{Builder, Error, GlobalPool, Threadpool, MAX_THREADS};

#[test]
fn pools_are_confined_to_the_threads_that_are_allowed() {
    for (workers, threads) in [(0, 1), (1, 1), (5, 5), (512, 512), (513, 512), (usize::MAX, 512)] {
        let pool = Threadpool::new(workers);
        assert_eq!(pool.num_threads(), threads);
        assert_eq!(pool.thread_count(), threads);
        assert_eq!(pool.queue().num_workers(), threads);
        let pool = Builder::new().worker_threads(workers).build();
        assert_eq!(pool.num_threads(), threads);
        assert_eq!(pool.thread_count(), threads);
    }
    assert_eq!(MAX_THREADS, 512);
}

#[test]
fn builder_defaults_to_two_threads() {
    assert_eq!(DEFAULT_THREADS, 2);
    assert_eq!(Builder::new().build().num_threads(), 2);
    assert_eq!(Builder::default().thread_per_core(false).build().num_threads(), 2);
}

#[test]
fn thread_per_core_counts_the_cpus() {
    let expected = num_cpus::get().clamp(1, 512);
    assert_eq!(Builder::new().thread_per_core(true).build().num_threads(), expected);
    assert_eq!(Threadpool::default().num_threads(), expected);
    assert_eq!(Builder::new().thread_per_core(true).build_for(0).num_threads(), 1);
    assert_eq!(Builder::new().thread_per_core(true).build_for(7).num_threads(), 7);
    assert_eq!(Builder::new().thread_per_core(true).build_for(9999).num_threads(), 512);
    assert_eq!(Builder::new().thread_per_core(true).worker_threads(3).build_for(9).num_threads(), 3);
}

#[test]
fn threads_to_start_carry_the_configuration() {
    let builder = Builder::new().worker_threads(3).thread_name("test-worker").thread_stack_size(1 << 20);
    let mut pool = builder.clone().build();
    let specs = pool.take_pending();
    assert_eq!(specs.len(), 3);
    for (index, spec) in specs.iter().enumerate() {
        assert_eq!(spec.index, index);
        assert_eq!(spec.name.as_deref(), Some("test-worker"));
        assert_eq!(spec.stack_size, Some(1 << 20));
    }
    assert!(pool.take_pending().is_empty());
    assert_eq!(builder.thread_name.as_deref(), Some("test-worker"));
}

#[test]
fn replacing_a_dead_worker_keeps_the_thread_count() {
    let mut pool = Builder::new().worker_threads(3).thread_name("test-worker").build();
    assert_eq!(pool.take_pending().len(), 3);
    let initial_count = pool.thread_count();
    let respawn = Sentry::new(None, 1).on_drop(true).unwrap();
    pool.respawn(respawn.index);
    assert_eq!(pool.thread_count(), initial_count);
    assert_eq!(pool.num_threads(), 3);
    let specs = pool.take_pending();
    assert_eq!(specs.len(), 1);
    assert_eq!(specs[0].index, 1);
    assert_eq!(specs[0].name.as_deref(), Some("test-worker"));
    assert!(Sentry::new(None, 1).cancel().on_drop(true).is_none());
}

#[test]
fn platform_without_threads_counts_none() {
    let mut pool = Threadpool::new(4);
    pool.give_up_threads();
    assert_eq!(pool.thread_count(), 0);
    assert_eq!(pool.num_threads(), 4);
    assert!(pool.take_pending().is_empty());
    assert_eq!(pool.queue().num_workers(), 4);
}

#[test]
fn shards_reach_the_queue() {
    let shards = |builder: Builder| builder.worker_threads(6).build().queue().num_shards();
    assert_eq!(shards(Builder::new()), 8);
    assert_eq!(shards(Builder::new().shards(3)), 4);
    assert_eq!(shards(Builder::new().shards(0)), 1);
    assert_eq!(shards(Builder::new().shards(600)), 8);
}

#[test]
fn pool_ends() {
    let mut pool = Threadpool::new(2);
    pool.close();
    assert!(pool.queue().is_shutdown());
    assert_eq!(pool.thread_count(), 2);
    pool.finish();
    assert_eq!(pool.thread_count(), 0);
    assert_eq!(pool.num_threads(), 2);
}

#[test]
fn first_global_pool_stays() {
    let mut global: GlobalPool<Threadpool> = GlobalPool::new();
    assert!(global.get().is_none());
    assert_eq!(Threadpool::new(2).build_global(&mut global), Ok(()));
    assert_eq!(Threadpool::new(3).build_global(&mut global), Err(Error::GlobalThreadpoolExists));
    assert_eq!(global.get().unwrap().num_threads(), 2);
    assert_eq!(
        Error::GlobalThreadpoolExists.message(),
        "A global threadpool has already been initialised"
    );
}

#[test]
fn sentry_replaces_a_worker_that_died() {
    let sentry = Sentry::new(Some(4), 2);
    assert_eq!(sentry.on_drop(true), Some(Respawn { coreid: Some(4), index: 2 }));
    assert_eq!(sentry.on_drop(false), None);
    assert_eq!(sentry.cancel().on_drop(true), None);
}

#[test]
fn spawn_queues_at_once_and_spawn_local_does_not() {
    let mut pool = Threadpool::new(1);
    pool.register_worker(0);
    let mut producer = Producer::new();
    let mut future = pool.spawn_local(5u64, ());
    assert_eq!(pool.spawn(6, &mut producer, 1, || 0), None);
    let mut pop = PopLoop::new(0);
    assert_eq!(pool.step(&mut pop), PopAction::Run(6));
    assert_eq!(pool.step(&mut pop), PopAction::Spin);
    assert!(matches!(future.on_drop(), DropAction::Discard { runnable: 5, task: () }));
}

#[test]
fn jobs_go_to_the_global_pool_if_there_is_one() {
    let mut global: GlobalPool<&str> = GlobalPool::new();
    assert!(matches!(global.dispatch(7), Dispatch::Inline(7)));
    assert_eq!(global.set("pool"), Ok(()));
    assert!(matches!(global.dispatch(7), Dispatch::Pool(&"pool", 7)));
}
