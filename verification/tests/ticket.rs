use synapse::cluster::Field;
use synapse::ticket::{SynapseTicket, Task, TicketTracker, TICKET_BYTES};

fn task(tag: u8) -> Task {
    Task {
        plan: vec![tag],
        schema: vec![Field::new("a", "Int32", false)],
        ordered: false,
        num_rows: None,
        byte_size: None,
    }
}

#[test]
fn a_ticket_is_taken_once() {
    let mut t = TicketTracker::new(3600);
    let ticket = t.put_plan(task(1), 99, 1000);
    assert_eq!(t.len(), 1);
    let taken = t.take(&ticket, 1001).unwrap();
    assert_eq!(taken.plan, vec![1]);
    assert_eq!(t.len(), 0);
    assert!(t.take(&ticket, 1001).is_none());
    assert!(t.take(&ticket, 1002).is_none());
}

#[test]
fn tickets_name_their_own_task() {
    let mut t = TicketTracker::new(3600);
    let a = t.put_plan(task(1), 5, 0);
    let b = t.put_plan(task(2), 5, 0);
    let c = t.put_plan(task(3), 6, 0);
    assert_ne!(a, b);
    assert_eq!((a.serial, b.serial, c.serial), (0, 1, 2));
    assert_eq!(t.take(&b, 1).unwrap().plan, vec![2]);
    assert_eq!(t.take(&a, 1).unwrap().plan, vec![1]);
    assert_eq!(t.take(&c, 1).unwrap().plan, vec![3]);
    assert!(t.take(&a, 1).is_none());
    let d = t.put_plan(task(4), 5, 0);
    assert_eq!(d.serial, 3);
    assert!(t.take(&a, 1).is_none());
    assert_eq!(t.take(&d, 1).unwrap().plan, vec![4]);
}

#[test]
fn a_forged_nonce_takes_nothing() {
    let mut t = TicketTracker::new(3600);
    let ticket = t.put_plan(task(1), 42, 0);
    let forged = SynapseTicket { serial: ticket.serial, nonce: 43 };
    assert!(t.take(&forged, 1).is_none());
    assert_eq!(t.len(), 1);
    assert_eq!(t.take(&ticket, 1).unwrap().plan, vec![1]);
    let unknown = SynapseTicket { serial: 17, nonce: 42 };
    assert!(t.take(&unknown, 1).is_none());
}

#[test]
fn a_ticket_lives_for_the_time_to_live() {
    let mut t = TicketTracker::new(7200);
    let a = t.put_plan(task(1), 1, 1000);
    let b = t.put_plan(task(2), 1, 1000);
    assert_eq!(t.take(&a, 1000 + 7200).unwrap().plan, vec![1]);
    assert!(t.take(&b, 1000 + 7201).is_none());
    assert_eq!(t.len(), 0);
    assert!(t.take(&b, 1000).is_none());
}

#[test]
fn the_time_to_live_is_an_hour_at_least() {
    let mut t = TicketTracker::new(1);
    let a = t.put_plan(task(1), 1, 0);
    assert_eq!(t.take(&a, 3600).unwrap().plan, vec![1]);
    let b = t.put_plan(task(2), 1, 0);
    assert!(t.take(&b, 3601).is_none());
    let late = t.put_plan(task(3), 1, u64::MAX - 5);
    assert_eq!(t.take(&late, u64::MAX).unwrap().plan, vec![3]);
}

#[test]
fn evict_drops_what_is_over() {
    let mut t = TicketTracker::new(3600);
    let a = t.put_plan(task(1), 1, 0);
    let b = t.put_plan(task(2), 1, 100);
    let c = t.put_plan(task(3), 1, 200);
    assert_eq!(t.evict(3600), 0);
    assert_eq!(t.len(), 3);
    assert_eq!(t.evict(3701), 2);
    assert_eq!(t.len(), 1);
    assert!(t.take(&a, 3701).is_none());
    assert!(t.take(&b, 3701).is_none());
    assert_eq!(t.take(&c, 3701).unwrap().plan, vec![3]);
    assert_eq!(t.evict(u64::MAX), 0);
    assert!(t.has_room());
}

#[test]
fn ticket_bytes_round_trip() {
    let ticket = SynapseTicket { serial: 0x0102030405060708, nonce: 0x1112131415161718 };
    let bytes = ticket.to_bytes();
    assert_eq!(bytes.len(), TICKET_BYTES);
    assert_eq!(
        bytes,
        vec![8, 7, 6, 5, 4, 3, 2, 1, 0x18, 0x17, 0x16, 0x15, 0x14, 0x13, 0x12, 0x11]
    );
    assert_eq!(SynapseTicket::from_bytes(&bytes), Some(ticket));
    assert_eq!(SynapseTicket::from_bytes(&bytes[..15]), None);
    assert_eq!(SynapseTicket::from_bytes(&[]), None);
    let mut longer = bytes.clone();
    longer.push(0);
    assert_eq!(SynapseTicket::from_bytes(&longer), None);
    let zero = SynapseTicket::from_bytes(&[0u8; 16]).unwrap();
    assert_eq!(zero, SynapseTicket { serial: 0, nonce: 0 });
}
