use crossbeam::channel::unbounded;

use protocol::addr::IpAddr;
use protocol::application::message::{
    ApplicationMessage, ApplicationMessageReturnCode, ApplicationMessageType,
};
use protocol::application::pooling::buffer_pool::BufferPool;
use protocol::application::pooling::client_registry::{ClientRegistryError, FixedClientRegistry};
use protocol::application::pooling::tcp::{
    outgoing_frame, poll_delay, read_step, register_client, ProcessingState, ReadAction,
    ReadOutcome, ReceiveBuffer, TcpPoolConfig, TcpPoolError,
};
use protocol::application::serializable::Serializable;
use protocol::utils::{after_empty_attempt, RetryStep};

fn sample(payload: Vec<u8>) -> ApplicationMessage {
    ApplicationMessage::new(
        1,
        2,
        Some(3),
        ApplicationMessageType::Request,
        ApplicationMessageReturnCode::Success,
        payload,
    )
}

#[test]
fn whole_message_is_framed_at_once() {
    let msg = sample(vec![1, 2, 3]);
    let bytes = Serializable::to_bytes(&msg);
    let mut buffer = ReceiveBuffer::new();
    match buffer.try_process_data::<ApplicationMessage>(&bytes) {
        ProcessingState::MessageProcessed(m) => assert_eq!(m, msg),
        _ => panic!("expected a message"),
    }
    assert_eq!(buffer.len(), 0);
}

#[test]
fn split_message_waits_for_the_rest() {
    let msg = sample(vec![9; 10]);
    let bytes = Serializable::to_bytes(&msg);
    let mut buffer = ReceiveBuffer::new();
    assert!(matches!(
        buffer.try_process_data::<ApplicationMessage>(&bytes[..7]),
        ProcessingState::IncompleteMessage
    ));
    assert_eq!(buffer.len(), 7);
    assert!(matches!(
        buffer.try_process_data::<ApplicationMessage>(&bytes[7..20]),
        ProcessingState::IncompleteMessage
    ));
    match buffer.try_process_data::<ApplicationMessage>(&bytes[20..]) {
        ProcessingState::MessageProcessed(m) => assert_eq!(m, msg),
        _ => panic!("expected a message"),
    }
    assert_eq!(buffer.len(), 0);
}

#[test]
fn overflowing_data_resets_the_buffer() {
    let mut buffer = ReceiveBuffer::new();
    assert!(matches!(
        buffer.try_process_data::<ApplicationMessage>(&[0xFFu8; 200]),
        ProcessingState::IncompleteMessage
    ));
    assert!(matches!(
        buffer.try_process_data::<ApplicationMessage>(&[0xFFu8; 57]),
        ProcessingState::BufferReset
    ));
    assert_eq!(buffer.len(), 0);
    buffer.try_process_data::<ApplicationMessage>(&[0u8; 3]);
    buffer.clear();
    assert_eq!(buffer.len(), 0);
}

#[test]
fn outgoing_frame_refuses_large_messages() {
    let small = sample(vec![0; 496]);
    let bytes = outgoing_frame(&small).unwrap();
    assert_eq!(bytes.len(), 512);
    assert_eq!(bytes, small.to_bytes().unwrap());
    let large = sample(vec![0; 497]);
    assert_eq!(outgoing_frame(&large), Err(TcpPoolError::MessageTooLarge));
}

#[test]
fn idle_connections_are_polled_less_often() {
    assert_eq!(poll_delay(true, 200), 5);
    assert_eq!(poll_delay(false, 9), 5);
    assert_eq!(poll_delay(false, 10), 10);
}

#[test]
fn client_limit_is_capped() {
    let c = TcpPoolConfig::new(IpAddr::v4(0, 0, 0, 0), 5678, 100);
    assert_eq!(c.max_clients, 8);
    assert_eq!(c.port, 5678);
    assert_eq!(TcpPoolConfig::new(IpAddr::v4(0, 0, 0, 0), 1, 3).max_clients, 3);
}

#[test]
fn client_registry_adds_finds_and_removes() {
    let mut registry = FixedClientRegistry::new();
    let (tx, rx) = unbounded::<ApplicationMessage>();
    let a = IpAddr::v4(10, 0, 0, 1);
    assert_eq!(registry.add_client(a, tx), Ok(()));
    assert!(registry.is_connected(a));
    assert_eq!(registry.len(), 1);
    registry.get_sender(a).unwrap().send(sample(vec![])).unwrap();
    assert_eq!(rx.recv().unwrap(), sample(vec![]));
    registry.remove_client(a);
    assert!(!registry.is_connected(a));
    assert!(registry.get_sender(a).is_none());
    assert_eq!(registry.len(), 0);
}

#[test]
fn client_registry_runs_out_of_slots() {
    let mut registry = FixedClientRegistry::new();
    let (tx, _rx) = unbounded::<ApplicationMessage>();
    for i in 0..8u8 {
        assert_eq!(registry.add_client(IpAddr::v4(10, 0, 0, i), tx.clone()), Ok(()));
    }
    assert_eq!(
        registry.add_client(IpAddr::v4(10, 0, 1, 1), tx.clone()),
        Err(ClientRegistryError::NoAvailableSlots)
    );
    assert_eq!(registry.add_client(IpAddr::v4(10, 0, 0, 3), tx), Ok(()));
    assert_eq!(registry.len(), 8);
}

#[test]
fn register_client_respects_the_limit() {
    let mut registry = FixedClientRegistry::new();
    let (tx, _rx) = unbounded::<ApplicationMessage>();
    assert_eq!(register_client(&mut registry, 2, IpAddr::v4(1, 0, 0, 1), tx.clone()), Ok(()));
    assert_eq!(register_client(&mut registry, 2, IpAddr::v4(1, 0, 0, 2), tx.clone()), Ok(()));
    assert_eq!(
        register_client(&mut registry, 2, IpAddr::v4(1, 0, 0, 3), tx),
        Err(TcpPoolError::MaxClientsReached)
    );
    assert_eq!(registry.len(), 2);
}

#[test]
fn buffer_pool_keeps_small_buffers_up_to_its_limit() {
    let mut pool = BufferPool::new(1);
    let mut b = pool.get_buffer();
    assert!(b.is_empty());
    b.extend_from_slice(&[1, 2, 3]);
    pool.return_buffer(b);
    let again = pool.get_buffer();
    assert!(again.is_empty());
    pool.keep_buffer(vec![1], 16);
    pool.keep_buffer(vec![2], 16);
    assert!(pool.get_buffer().is_empty());
    assert!(pool.get_buffer().is_empty());
    let mut zero = BufferPool::new(4);
    zero.keep_buffer(Vec::new(), 4096);
    assert_eq!(zero.get_buffer().capacity() >= 512, true);
}

#[test]
fn retry_gives_up_after_the_last_attempt() {
    assert_eq!(after_empty_attempt(1, 4), RetryStep::SleepAndRetry);
    assert_eq!(after_empty_attempt(3, 4), RetryStep::SleepAndRetry);
    assert_eq!(after_empty_attempt(4, 4), RetryStep::GiveUp);
    assert_eq!(after_empty_attempt(1, 1), RetryStep::GiveUp);
}

#[test]
fn read_outcomes_decide_the_connection_step() {
    let closed = read_step(ReadOutcome::Closed, 4);
    assert_eq!(closed.action, ReadAction::Disconnect);
    assert_eq!(closed.consecutive_empty_reads, 4);
    let data = read_step(ReadOutcome::Received(12), 9);
    assert_eq!(data.action, ReadAction::Process);
    assert!(data.had_activity);
    assert_eq!(data.consecutive_empty_reads, 0);
    let empty = read_step(ReadOutcome::WouldBlock, 9);
    assert_eq!(empty.action, ReadAction::Continue);
    assert!(!empty.had_activity);
    assert_eq!(empty.consecutive_empty_reads, 10);
    assert_eq!(read_step(ReadOutcome::WouldBlock, 255).consecutive_empty_reads, 255);
    assert_eq!(read_step(ReadOutcome::Failed, 3).action, ReadAction::Stop);
}
