use pm3::log_buffer::{ClientId, LogBuffer};

#[test]
fn should_create_with_no_clients() {
    let buffer = LogBuffer::new();

    assert_eq!(0, buffer.len_clients());
}

#[test]
fn client_should_read_no_lines_if_empty() {
    // 1. Create buffer with empty Vec
    let mut buffer = LogBuffer::new();

    // 2. Create client
    let client_id = ClientId(0);
    let lines = buffer.consume_unread(&client_id);

    // 3. Assert empty Vec
    assert_eq!(Vec::<String>::new(), lines);
}

#[test]
fn client_should_read_no_lines() {
    // 1. Create buffer with two lines
    let mut buffer = LogBuffer::new();
    buffer.write(String::from("line1"));
    buffer.write(String::from("line2"));

    // 2. Create client
    let client_id = ClientId(0);
    let lines = buffer.consume_unread(&client_id);

    // 3. Assert empty Vec
    assert_eq!(Vec::<String>::new(), lines);
}

#[test]
fn client_should_read_multiple_lines() {
    // 1. Create buffer with empty vec
    let mut buffer = LogBuffer::new();

    // 2. Create client (read no lines)
    let client_id = ClientId(0);
    buffer.consume_unread(&client_id);

    // 3. Insert new lines into buffer
    let new_lines = vec![
        String::from("line1"),
        String::from("line2"),
        String::from("line3"),
    ];
    buffer.write(String::from("line1"));
    buffer.write(String::from("line2"));
    buffer.write(String::from("line3"));

    // 4. Assert client lines
    let client_lines = buffer.consume_unread(&client_id);

    assert_eq!(new_lines, client_lines);

    let new_lines = vec![String::from("line4"), String::from("line5")];

    buffer.write(String::from("line4"));
    buffer.write(String::from("line5"));

    let client_lines = buffer.consume_unread(&client_id);

    assert_eq!(new_lines, client_lines);
}

#[test]
fn no_line_is_read_twice() {
    let mut buffer = LogBuffer::new();
    let id = ClientId(7);
    buffer.consume_unread(&id);
    buffer.write(String::from("a"));
    assert_eq!(vec![String::from("a")], buffer.consume_unread(&id));
    assert_eq!(Vec::<String>::new(), buffer.consume_unread(&id));
}

#[test]
fn clients_read_independently() {
    let mut buffer = LogBuffer::new();
    let a = ClientId(1);
    let b = ClientId(u128::MAX);
    buffer.consume_unread(&a);
    buffer.write(String::from("x"));
    buffer.consume_unread(&b);
    buffer.write(String::from("y"));
    assert_eq!(vec![String::from("x"), String::from("y")], buffer.consume_unread(&a));
    assert_eq!(vec![String::from("y")], buffer.consume_unread(&b));
    buffer.write(String::from("z"));
    assert_eq!(vec![String::from("z")], buffer.consume_unread(&b));
    assert_eq!(vec![String::from("z")], buffer.consume_unread(&a));
}

#[test]
fn client_count_grows_only_with_new_ids() {
    let mut buffer = LogBuffer::new();
    buffer.write(String::from("line"));
    assert_eq!(0, buffer.len_clients());
    buffer.consume_unread(&ClientId(3));
    assert_eq!(1, buffer.len_clients());
    buffer.consume_unread(&ClientId(3));
    assert_eq!(1, buffer.len_clients());
    buffer.consume_unread(&ClientId(4));
    assert_eq!(2, buffer.len_clients());
    buffer.write(String::from("more"));
    assert_eq!(2, buffer.len_clients());
}
