use forward_proxy::channel::{Channel, Status};
use forward_proxy::event::{Address, AddressV4, Event};

fn misfit() -> Status {
    Status::Error("Event does not answer the action".to_string())
}

#[test]
fn new_channel_is_empty() {
    let channel = Channel::new(4096);
    assert_eq!(channel.capacity(), 4096);
    assert_eq!(channel.pending(), 0);
    assert!(channel.held().is_empty());
}

#[test]
fn read_of_bytes_makes_them_pending() {
    let mut channel = Channel::new(8);
    let status = channel.read_done(Event::Data(vec![1, 2, 3]));
    assert_eq!(status, Status::Continue);
    assert_eq!(channel.pending(), 3);
    assert_eq!(channel.held(), &[1, 2, 3]);
    assert_eq!(channel.capacity(), 8);
}

#[test]
fn read_of_nothing_means_peer_closed() {
    let mut channel = Channel::new(8);
    assert_eq!(channel.read_done(Event::Data(Vec::new())), Status::PeerClosed);
    assert_eq!(channel.pending(), 0);
}

#[test]
fn read_that_would_block_changes_nothing() {
    let mut channel = Channel::new(8);
    let status = channel.read_done(Event::WouldBlock("not ready".to_string()));
    assert_eq!(status, Status::Continue);
    assert_eq!(channel.pending(), 0);
}

#[test]
fn read_failure_is_an_error_with_its_detail() {
    let mut channel = Channel::new(8);
    let status = channel.read_done(Event::Failed("connection reset".to_string()));
    assert_eq!(status, Status::Error("connection reset".to_string()));
    assert_eq!(channel.pending(), 0);
}

#[test]
fn read_fills_the_buffer_to_the_brim() {
    let mut channel = Channel::new(4);
    assert_eq!(channel.read_done(Event::Data(vec![9, 8, 7, 6])), Status::Continue);
    assert_eq!(channel.pending(), 4);
}

#[test]
fn read_of_more_than_the_buffer_holds_is_refused() {
    let mut channel = Channel::new(4);
    assert_eq!(channel.read_done(Event::Data(vec![9, 8, 7, 6, 5])), misfit());
    assert_eq!(channel.pending(), 0);
}

#[test]
fn no_read_while_bytes_are_pending() {
    let mut channel = Channel::new(8);
    assert_eq!(channel.read_done(Event::Data(vec![1, 2])), Status::Continue);
    assert_eq!(channel.read_done(Event::Data(vec![3])), misfit());
    assert_eq!(channel.held(), &[1, 2]);
}

#[test]
fn full_write_empties_the_channel() {
    let mut channel = Channel::new(8);
    channel.read_done(Event::Data(vec![1, 2, 3]));
    assert_eq!(channel.write_done(Event::Wrote(3)), Status::Continue);
    assert_eq!(channel.pending(), 0);
    assert_eq!(channel.read_done(Event::Data(vec![4])), Status::Continue);
    assert_eq!(channel.held(), &[4]);
}

#[test]
fn write_that_would_block_keeps_the_bytes() {
    let mut channel = Channel::new(8);
    channel.read_done(Event::Data(vec![1, 2, 3]));
    for _ in 0..5 {
        let status = channel.write_done(Event::WouldBlock("not ready".to_string()));
        assert_eq!(status, Status::Continue);
        assert_eq!(channel.held(), &[1, 2, 3]);
    }
    assert_eq!(channel.write_done(Event::Wrote(3)), Status::Continue);
    assert_eq!(channel.pending(), 0);
}

#[test]
fn write_of_nothing_means_peer_closed() {
    let mut channel = Channel::new(8);
    channel.read_done(Event::Data(vec![1, 2, 3]));
    assert_eq!(channel.write_done(Event::Wrote(0)), Status::PeerClosed);
}

#[test]
fn short_write_is_an_error() {
    let mut channel = Channel::new(8);
    channel.read_done(Event::Data(vec![1, 2, 3]));
    assert_eq!(
        channel.write_done(Event::Wrote(2)),
        Status::Error("Unable to write all bytes to stream".to_string())
    );
}

#[test]
fn write_of_more_than_was_offered_is_an_error() {
    let mut channel = Channel::new(8);
    channel.read_done(Event::Data(vec![1, 2, 3]));
    assert_eq!(
        channel.write_done(Event::Wrote(4)),
        Status::Error("Unable to write all bytes to stream".to_string())
    );
}

#[test]
fn write_failure_is_an_error_with_its_detail() {
    let mut channel = Channel::new(8);
    channel.read_done(Event::Data(vec![1]));
    assert_eq!(
        channel.write_done(Event::Failed("broken pipe".to_string())),
        Status::Error("broken pipe".to_string())
    );
}

#[test]
fn no_write_while_nothing_is_pending() {
    let mut channel = Channel::new(8);
    assert_eq!(channel.write_done(Event::Wrote(1)), misfit());
    assert_eq!(channel.write_done(Event::WouldBlock("x".to_string())), misfit());
}

#[test]
fn events_of_another_kind_are_refused() {
    let mut channel = Channel::new(8);
    assert_eq!(channel.read_done(Event::Wrote(1)), misfit());
    assert_eq!(channel.read_done(Event::Done), misfit());
    let found = vec![Address::V4(AddressV4 { ip: 1, port: 2 })];
    assert_eq!(channel.read_done(Event::Resolved(found)), misfit());
    channel.read_done(Event::Data(vec![1]));
    assert_eq!(channel.write_done(Event::Data(vec![1])), misfit());
    assert_eq!(channel.write_done(Event::Done), misfit());
    assert_eq!(channel.held(), &[1]);
}
