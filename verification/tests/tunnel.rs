use std::sync::{Arc, Mutex};

use tunnel::cache::Connection;
use tunnel::error::TunnelError;
use tunnel::identity::PublicKey;
use tunnel::protocol::{DataHandler, DispatchAction, StreamEvent, TunnelProtocol};
use tunnel::tunnel::{Attached, SendStep, Tunnel, CLOSE_CODE, CLOSE_REASON};

fn key(b: u8) -> PublicKey {
    PublicKey::from_bytes([b; 32])
}

fn live() -> Tunnel {
    Tunnel::new(Some(key(1)), Some(key(2))).unwrap()
}

struct Inbox {
    seen: Arc<Mutex<Vec<(PublicKey, Vec<u8>)>>>,
}

impl DataHandler for Inbox {
    fn process_incoming_data(&self, sender: PublicKey, data: Vec<u8>) {
        self.seen.lock().unwrap().push((sender, data));
    }
}

#[test]
fn close_uses_the_user_request_reason() {
    assert_eq!(CLOSE_CODE, 0);
    assert_eq!(CLOSE_REASON, "user_request");
}

#[test]
fn new_needs_both_endpoints() {
    assert_eq!(Tunnel::new(None, Some(key(2))).unwrap_err(), TunnelError::Creation);
    assert_eq!(Tunnel::new(Some(key(1)), None).unwrap_err(), TunnelError::Creation);
    assert_eq!(Tunnel::new(None, None).unwrap_err(), TunnelError::Creation);
    let tunnel = live();
    assert!(!tunnel.is_destroyed());
    assert_eq!(tunnel.sender_address(), key(1));
    assert_eq!(tunnel.receiver_address(), key(2));
    assert_eq!(tunnel.connection(key(5)), None);
}

#[test]
fn first_send_connects_and_later_sends_reuse() {
    let mut tunnel = live();
    assert_eq!(tunnel.send(key(5)), Ok(SendStep::Connect { address: key(5) }));
    assert_eq!(
        tunnel.connected(key(5), Some(Connection { id: 50 })),
        Ok(Attached { connection: Connection { id: 50 }, surplus: None })
    );
    assert_eq!(tunnel.send(key(5)), Ok(SendStep::Write { connection: Connection { id: 50 } }));
    assert_eq!(tunnel.send(key(5)), Ok(SendStep::Write { connection: Connection { id: 50 } }));
    assert_eq!(tunnel.send(key(6)), Ok(SendStep::Connect { address: key(6) }));
}

#[test]
fn second_connection_for_an_address_comes_back_as_surplus() {
    let mut tunnel = live();
    let _ = tunnel.connected(key(5), Some(Connection { id: 50 }));
    assert_eq!(
        tunnel.connected(key(5), Some(Connection { id: 51 })),
        Ok(Attached { connection: Connection { id: 50 }, surplus: Some(Connection { id: 51 }) })
    );
    assert_eq!(tunnel.connection(key(5)), Some(Connection { id: 50 }));
}

#[test]
fn unreachable_address_is_not_cached() {
    let mut tunnel = live();
    assert_eq!(tunnel.send(key(5)), Ok(SendStep::Connect { address: key(5) }));
    assert_eq!(tunnel.connected(key(5), None), Err(TunnelError::Connect));
    assert_eq!(tunnel.connection(key(5)), None);
    assert_eq!(tunnel.send(key(5)), Ok(SendStep::Connect { address: key(5) }));
}

#[test]
fn stop_code_becomes_send_error() {
    assert_eq!(Tunnel::sent(None), Ok(()));
    assert_eq!(Tunnel::sent(Some(7)), Err(TunnelError::Send { code: 7 }));
    assert_eq!(Tunnel::sent(Some(0)), Err(TunnelError::Send { code: 0 }));
    assert_eq!(Tunnel::sent(Some(u64::MAX)), Err(TunnelError::Send { code: u64::MAX }));
}

#[test]
fn close_removes_the_entry_and_next_send_connects() {
    let mut tunnel = live();
    let _ = tunnel.connected(key(5), Some(Connection { id: 50 }));
    let _ = tunnel.connected(key(6), Some(Connection { id: 60 }));
    assert_eq!(tunnel.close(key(5)), Ok(Some(Connection { id: 50 })));
    assert_eq!(tunnel.close(key(5)), Ok(None));
    assert_eq!(tunnel.send(key(5)), Ok(SendStep::Connect { address: key(5) }));
    assert_eq!(tunnel.send(key(6)), Ok(SendStep::Write { connection: Connection { id: 60 } }));
    let _ = tunnel.connected(key(5), Some(Connection { id: 52 }));
    assert_eq!(tunnel.send(key(5)), Ok(SendStep::Write { connection: Connection { id: 52 } }));
}

#[test]
fn close_all_empties_the_cache_and_tunnel_stays_usable() {
    let mut tunnel = live();
    let _ = tunnel.connected(key(5), Some(Connection { id: 50 }));
    let _ = tunnel.connected(key(6), Some(Connection { id: 60 }));
    let mut closed = tunnel.close_all().unwrap();
    closed.sort_by_key(|c| c.id);
    assert_eq!(closed, vec![Connection { id: 50 }, Connection { id: 60 }]);
    assert_eq!(tunnel.connection(key(5)), None);
    assert_eq!(tunnel.connection(key(6)), None);
    assert_eq!(tunnel.close_all(), Ok(Vec::new()));
    assert!(!tunnel.is_destroyed());
    assert_eq!(tunnel.send(key(5)), Ok(SendStep::Connect { address: key(5) }));
    assert_eq!(
        tunnel.connected(key(5), Some(Connection { id: 53 })),
        Ok(Attached { connection: Connection { id: 53 }, surplus: None })
    );
}

#[test]
fn destroyed_tunnel_rejects_everything_but_the_addresses() {
    let mut tunnel = live();
    let _ = tunnel.connected(key(5), Some(Connection { id: 50 }));
    assert_eq!(tunnel.destroy(), Ok(vec![Connection { id: 50 }]));
    assert!(tunnel.is_destroyed());
    assert_eq!(tunnel.send(key(5)), Err(TunnelError::Destroyed));
    assert_eq!(tunnel.connected(key(5), Some(Connection { id: 51 })), Err(TunnelError::Destroyed));
    assert_eq!(tunnel.connected(key(5), None), Err(TunnelError::Destroyed));
    assert_eq!(tunnel.close(key(5)), Err(TunnelError::Destroyed));
    assert_eq!(tunnel.close_all(), Err(TunnelError::Destroyed));
    assert_eq!(tunnel.destroy(), Err(TunnelError::Destroyed));
    assert_eq!(tunnel.connection(key(5)), None);
    assert_eq!(tunnel.sender_address(), key(1));
    assert_eq!(tunnel.receiver_address(), key(2));
}

#[test]
fn hello_travels_from_sender_to_receiver() {
    let seen = Arc::new(Mutex::new(Vec::new()));
    let receiver = Tunnel::new(Some(key(10)), Some(key(11))).unwrap();
    let inbound = TunnelProtocol::new().with_handler(Inbox { seen: Arc::clone(&seen) });
    let mut sender = Tunnel::new(Some(key(20)), Some(key(21))).unwrap();

    // the sender resolves a connection to the receiver's address
    let target = receiver.receiver_address();
    assert_eq!(sender.send(target), Ok(SendStep::Connect { address: target }));
    let attached = sender.connected(target, Some(Connection { id: 1 })).unwrap();
    assert_eq!(attached.connection, Connection { id: 1 });

    // the stream arrives whole on the receiving side
    let action =
        inbound.accept_stream(sender.sender_address(), StreamEvent::Message(b"hello".to_vec()));
    assert_eq!(action, DispatchAction::Deliver);
    assert_eq!(Tunnel::sent(None), Ok(()));
    assert!(seen.lock().unwrap().contains(&(sender.sender_address(), b"hello".to_vec())));
    assert_eq!(seen.lock().unwrap().len(), 1);

    assert!(sender.destroy().is_ok());
    assert_eq!(sender.send(target), Err(TunnelError::Destroyed));
}
