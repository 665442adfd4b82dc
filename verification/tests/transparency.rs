use forward_proxy::connection::{Action, Connection};
use forward_proxy::event::{Address, AddressV4, Ending, Event, Side};

/// A socket made of two queues. Once it is non-blocking, it is ready only
/// now and then.
struct Pipe {
    incoming: Vec<u8>,
    taken: usize,
    outgoing: Vec<u8>,
    seed: u64,
    blocking: bool,
}

impl Pipe {
    fn new(incoming: Vec<u8>, seed: u64) -> Pipe {
        Pipe { incoming, taken: 0, outgoing: Vec::new(), seed, blocking: true }
    }

    fn draw(&mut self, below: u64) -> u64 {
        self.seed = self.seed.wrapping_mul(6364136223846793005).wrapping_add(1442695040888963407);
        (self.seed >> 33) % below
    }

    fn read(&mut self, room: usize) -> Event {
        if !self.blocking && self.draw(3) == 0 {
            return Event::WouldBlock("not ready".to_string());
        }
        let left = self.incoming.len() - self.taken;
        let count = (1 + self.draw(700) as usize).min(left).min(room);
        let bytes = self.incoming[self.taken..self.taken + count].to_vec();
        self.taken += count;
        Event::Data(bytes)
    }

    fn write(&mut self, bytes: &[u8]) -> Event {
        if !self.blocking && self.draw(2) == 0 {
            return Event::WouldBlock("not ready".to_string());
        }
        self.outgoing.extend_from_slice(bytes);
        Event::Wrote(bytes.len())
    }
}

fn pattern(length: usize, salt: u8) -> Vec<u8> {
    (0..length).map(|i| (i as u8).wrapping_mul(31).wrapping_add(salt)).collect()
}

/// Runs a connection against two scripted sockets until it closes.
fn run(request: &[u8], from_client: Vec<u8>, from_server: Vec<u8>, seed: u64) -> (Pipe, Pipe, Ending) {
    let mut client = Pipe::new(from_client, seed);
    let mut server = Pipe::new(from_server, seed ^ 0x9e37_79b9);
    let (mut connection, mut action) = Connection::open();
    let mut opened = false;
    for _ in 0..1_000_000 {
        let event = match action {
            Action::Read { from, room } => {
                if !opened {
                    opened = true;
                    Event::Data(request.to_vec())
                } else {
                    match from {
                        Side::Client => client.read(room),
                        Side::Server => server.read(room),
                    }
                }
            }
            Action::Resolve { .. } => {
                Event::Resolved(vec![Address::V4(AddressV4 { ip: 0x7f00_0001, port: 80 })])
            }
            Action::Connect(_) => Event::Done,
            Action::Unblock(side) => {
                match side {
                    Side::Client => client.blocking = false,
                    Side::Server => server.blocking = false,
                }
                Event::Done
            }
            Action::Write { to, bytes } => match to {
                Side::Client => client.write(&bytes),
                Side::Server => server.write(&bytes),
            },
            Action::Close(ending) => return (client, server, ending),
        };
        action = connection.advance(event);
    }
    panic!("the connection did not close");
}

#[test]
fn tunnel_passes_every_byte_in_order() {
    let request = b"CONNECT example.com:443 HTTP/1.1\r\n\r\n";
    for seed in 1..20u64 {
        let up = pattern(20_000 + seed as usize, 7);
        let down = pattern(50_000, 11);
        let (client, server, ending) = run(request, up.clone(), down.clone(), seed);
        assert_eq!(ending, Ending::ClientClosed);
        assert_eq!(server.outgoing, up);
        let reply = b"HTTP/1.1 200 OK\r\n\r\n";
        assert_eq!(&client.outgoing[..reply.len()], reply);
        let relayed = &client.outgoing[reply.len()..];
        assert!(relayed.len() <= down.len());
        assert_eq!(relayed, &down[..relayed.len()]);
    }
}

#[test]
fn tunnel_passes_every_byte_back() {
    let request = b"CONNECT example.com:443 HTTP/1.1\r\n\r\n";
    for seed in 1..20u64 {
        let up = pattern(90_000, 3);
        let down = pattern(10_000 + 3 * seed as usize, 5);
        let (client, server, ending) = run(request, up.clone(), down.clone(), seed);
        assert_eq!(ending, Ending::ServerClosed);
        let reply = b"HTTP/1.1 200 OK\r\n\r\n";
        assert_eq!(&client.outgoing[..reply.len()], reply);
        assert_eq!(&client.outgoing[reply.len()..], &down[..]);
        assert!(server.outgoing.len() <= up.len());
        assert_eq!(&server.outgoing[..], &up[..server.outgoing.len()]);
    }
}

#[test]
fn plain_exchange_starts_with_the_request() {
    let request = b"GET http://example.com/ HTTP/1.1\r\nHost: example.com\r\n\r\n";
    let body = pattern(5_000, 1);
    let answer = pattern(30_000, 2);
    let (client, server, ending) = run(request, body.clone(), answer.clone(), 42);
    assert_eq!(ending, Ending::ClientClosed);
    assert_eq!(&server.outgoing[..request.len()], request);
    assert_eq!(&server.outgoing[request.len()..], &body[..]);
    assert!(client.outgoing.len() <= answer.len());
    assert_eq!(&client.outgoing[..], &answer[..client.outgoing.len()]);
}

#[test]
fn an_idle_tunnel_passes_nothing() {
    let request = b"CONNECT example.com:443 HTTP/1.1\r\n\r\n";
    let (client, server, ending) = run(request, Vec::new(), pattern(100, 9), 5);
    assert_eq!(ending, Ending::ClientClosed);
    assert!(server.outgoing.is_empty());
    assert!(client.outgoing.len() >= 19);
}

#[test]
fn connections_do_not_mix_their_bytes() {
    let request = b"CONNECT example.com:443 HTTP/1.1\r\n\r\n";
    let mut connections = Vec::new();
    let mut actions = Vec::new();
    let total = 5;
    for _ in 0..total {
        let (mut connection, _) = Connection::open();
        connection.advance(Event::Data(request.to_vec()));
        connection.advance(Event::Done);
        connection.advance(Event::Wrote(19));
        connection.advance(Event::Done);
        actions.push(connection.advance(Event::Done));
        connections.push(connection);
    }
    let mut delivered: Vec<Vec<u8>> = vec![Vec::new(); total];
    let mut sent: Vec<Vec<u8>> = vec![Vec::new(); total];
    let mut seed = 17u64;
    for round in 0..4_000usize {
        seed = seed.wrapping_mul(6364136223846793005).wrapping_add(1442695040888963407);
        let index = ((seed >> 33) % total as u64) as usize;
        let event = match &actions[index] {
            Action::Read { from: Side::Client, .. } => {
                let bytes = vec![index as u8; 1 + round % 50];
                sent[index].extend_from_slice(&bytes);
                Event::Data(bytes)
            }
            Action::Read { .. } => Event::WouldBlock("not ready".to_string()),
            Action::Write { to: Side::Server, bytes } => {
                if round % 3 == 0 {
                    Event::WouldBlock("not ready".to_string())
                } else {
                    delivered[index].extend_from_slice(bytes);
                    Event::Wrote(bytes.len())
                }
            }
            other => panic!("unexpected action {:?}", other),
        };
        actions[index] = connections[index].advance(event);
    }
    for index in 0..total {
        assert!(!delivered[index].is_empty());
        assert!(delivered[index].iter().all(|byte| *byte == index as u8));
        assert_eq!(delivered[index][..], sent[index][..delivered[index].len()]);
        let held = connections[index].pending(Side::Client);
        assert_eq!(delivered[index].len() + held, sent[index].len());
    }
}
