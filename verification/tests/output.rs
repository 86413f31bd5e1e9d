use dtch::clients::Clients;
use dtch::line_buffer::LineBuffer;
use dtch::output::copy_pty_to_clients;

fn replay(max_lines: usize, chunks: &[&str]) -> String {
    let mut buffer = LineBuffer::new(max_lines);
    for chunk in chunks {
        buffer.push(chunk.as_bytes());
    }
    String::from_utf8(buffer.bytes()).unwrap()
}

#[test]
fn buffer_without_lines_keeps_nothing() {
    assert_eq!(replay(0, &["one\ntwo\n", "three"]), "");
}

#[test]
fn buffer_keeps_the_last_lines_and_the_partial_one() {
    assert_eq!(replay(2, &["one\ntwo\nthree\nfour"]), "two\nthree\nfour");
    assert_eq!(replay(2, &["one\n\n\n"]), "\n\n");
    assert_eq!(replay(1, &["partial"]), "partial");
    assert_eq!(replay(3, &[]), "");
}

#[test]
fn buffer_keeps_all_where_there_is_room() {
    assert_eq!(replay(4, &["one\r\ntwo\nthree\nfour"]), "one\r\ntwo\nthree\nfour");
}

#[test]
fn buffer_does_not_see_chunks() {
    let text = "one\ntwo\nthree\nfo";
    let whole = replay(2, &[text]);
    for cut in 0..text.len() {
        assert_eq!(replay(2, &[&text[..cut], &text[cut..]]), whole);
    }
    assert_eq!(whole, "two\nthree\nfo");
}

#[test]
fn partial_line_can_be_committed() {
    let mut buffer = LineBuffer::new(1);
    buffer.push(b"one\ntwo");
    buffer.push_current_line();
    assert_eq!(buffer.bytes(), b"two".to_vec());
    buffer.push(b"three");
    assert_eq!(buffer.bytes(), b"twothree".to_vec());
    let mut none = LineBuffer::new(0);
    none.push_current_line();
    assert_eq!(none.bytes(), b"".to_vec());
}

fn round(clients: &mut Clients<u32>, reachable: &[u32]) -> Vec<u32> {
    let mut turns = Vec::new();
    clients.begin_round();
    while let Some(client) = clients.current() {
        let client = *client;
        turns.push(client);
        clients.settle(reachable.contains(&client));
    }
    turns
}

#[test]
fn each_client_has_one_turn_in_a_round() {
    let mut clients = Clients::new();
    assert_eq!(round(&mut clients, &[]), Vec::<u32>::new());
    for client in [7, 3, 5] {
        clients.join(client);
    }
    assert_eq!(round(&mut clients, &[3, 5, 7]), [7, 3, 5]);
    clients.settle(false);
    assert_eq!(round(&mut clients, &[3, 5, 7]), [7, 3, 5]);
}

#[test]
fn unreachable_clients_are_dropped() {
    let mut clients = Clients::new();
    for client in [1, 2, 3, 4] {
        clients.join(client);
    }
    assert_eq!(round(&mut clients, &[2, 4]), [1, 2, 3, 4]);
    clients.join(9);
    assert_eq!(round(&mut clients, &[]), [2, 4, 9]);
    assert_eq!(round(&mut clients, &[]), Vec::<u32>::new());
}

#[test]
fn reachable_client_gets_every_chunk() {
    let mut history = LineBuffer::new(2);
    let mut clients = Clients::new();
    let mut got: Vec<(u32, Vec<u8>)> = Vec::new();
    clients.join(1);
    clients.join(2);
    for (turn, chunk) in ["one\ntw", "o\nthree\n", "four"].iter().enumerate() {
        copy_pty_to_clients(&mut history, &mut clients, chunk.as_bytes());
        while let Some(client) = clients.current() {
            let client = *client;
            let reachable = client != 1 || turn == 0;
            if reachable {
                got.push((client, chunk.as_bytes().to_vec()));
            }
            clients.settle(reachable);
        }
        if turn == 0 {
            clients.join(3);
        }
    }
    let of = |id: u32| -> Vec<u8> {
        got.iter()
            .filter(|(client, _)| *client == id)
            .flat_map(|(_, bytes)| bytes.clone())
            .collect()
    };
    assert_eq!(of(1), b"one\ntw".to_vec());
    assert_eq!(of(2), b"one\ntwo\nthree\nfour".to_vec());
    assert_eq!(of(3), b"o\nthree\nfour".to_vec());
    assert_eq!(history.bytes(), b"two\nthree\nfour".to_vec());
    assert_eq!(round(&mut clients, &[2, 3]), [2, 3]);
}
