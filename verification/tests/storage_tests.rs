use cli_chat::chat_message::ChatMessage;
use cli_chat::conn_map::{get_map, insert, remove, ConnMap};
use cli_chat::errors::{ConnError, LengthError, LogError};
use cli_chat::storage::{
    add_new_connection, get_conn_file_name, init_conn_map, read_messages, write_message,
    CONN_DIR_NAME, CONN_FILE_PREFIX, CONN_LIST_FN, MAGIC_BYTE, NUM_MAGIC_BYTES, ROOT_DIR_NAME,
    TOKEN_FN, UNAME_FN,
};

const HARRY_UNAME: &str = "Harry";
const EDDIE_UNAME: &str = "Eddie";
const KERRY_UNAME: &str = "Kerry";

const MSG1: &str = "im not grumba grandpa guy dude no and no";
const MSG2: &str = "yes I am so that guy gramps oh and yes";
const MSG3: &str = "I'm feeling quite cheerful today!";
const MSG4: &str = "Well, I'm feeling a bit grumpy.";

fn pair(key: &str, value: &str) -> (String, String) {
    (key.to_string(), value.to_string())
}

fn log_of(messages: &[ChatMessage]) -> Vec<u8> {
    let mut log = Vec::new();
    for m in messages {
        log.extend_from_slice(&write_message(m).unwrap());
    }
    log
}

#[test]
fn storage_names() {
    assert_eq!(ROOT_DIR_NAME, ".cli_chat");
    assert_eq!(TOKEN_FN, "token");
    assert_eq!(UNAME_FN, "username");
    assert_eq!(CONN_LIST_FN, "connections-list");
    assert_eq!(CONN_DIR_NAME, "connections");
    assert_eq!(CONN_FILE_PREFIX, "conn");
    assert_eq!(NUM_MAGIC_BYTES, 4);
    assert_eq!(MAGIC_BYTE, 0x2d);
}

#[test]
fn log_file_name_is_derived_from_the_username() {
    assert_eq!(get_conn_file_name("eddie"), "conn_eddie");
    assert_eq!(get_conn_file_name(""), "conn_");
}

#[test]
fn record_is_delimiter_then_message() {
    let m = ChatMessage::new("harry", "eddie", "hi").unwrap();
    let record = write_message(&m).unwrap();
    assert_eq!(record.len(), 110);
    assert_eq!(&record[..4], &[0x2d, 0x2d, 0x2d, 0x2d]);
    assert_eq!(&record[4..], &m.serialize()[..]);
}

#[test]
fn record_of_an_empty_payload_is_refused() {
    let m = ChatMessage::new("harry", "eddie", "").unwrap();
    assert_eq!(write_message(&m), Err(LengthError { expected: 1, actual: 0 }));
}

#[test]
fn record_of_a_miscounted_payload_is_refused() {
    let mut m = ChatMessage::new("harry", "eddie", "hi").unwrap();
    m.msg_length = 5;
    assert_eq!(write_message(&m), Err(LengthError { expected: 5, actual: 2 }));
    m.msg_length = 0;
    assert_eq!(write_message(&m), Err(LengthError { expected: 0, actual: 2 }));
}

#[test]
fn empty_log_has_no_messages() {
    assert_eq!(read_messages(&[]), Ok(Vec::new()));
}

#[test]
fn log_round_trip() {
    let messages = vec![
        ChatMessage::new("harry", "eddie", MSG1).unwrap(),
        ChatMessage::new("eddie", "harry", MSG2).unwrap(),
        ChatMessage::new("harry", "eddie", MSG3).unwrap(),
        ChatMessage::new("eddie", "harry", MSG4).unwrap(),
        ChatMessage::new("harry", "eddie", "x").unwrap(),
    ];
    let mut log = Vec::new();
    for (i, m) in messages.iter().enumerate() {
        log.extend_from_slice(&write_message(m).unwrap());
        assert_eq!(read_messages(&log).unwrap(), messages[..=i].to_vec());
    }
    assert_eq!(read_messages(&log), Ok(messages));
}

#[test]
fn scenario_one_message_to_eddie() {
    let sent = ChatMessage::new("harry", "eddie", "hi").unwrap();
    let encoded = sent.serialize();
    let decoded = ChatMessage::deserialize(&encoded).unwrap();
    let log = write_message(&decoded).unwrap();
    let entries = read_messages(&log).unwrap();
    assert_eq!(entries.len(), 1);
    assert_eq!(entries[0], sent);
}

#[test]
fn log_ending_after_a_delimiter_keeps_the_messages_before() {
    let messages = vec![
        ChatMessage::new("harry", "eddie", MSG1).unwrap(),
        ChatMessage::new("eddie", "harry", MSG2).unwrap(),
    ];
    let mut log = log_of(&messages);
    log.extend_from_slice(&[MAGIC_BYTE; 4]);
    assert_eq!(read_messages(&log), Ok(messages));
    assert_eq!(read_messages(&[MAGIC_BYTE; 4]), Ok(Vec::new()));
}

#[test]
fn log_cut_anywhere_in_the_last_record_keeps_the_messages_before() {
    let first = ChatMessage::new("harry", "eddie", MSG1).unwrap();
    let last = ChatMessage::new("eddie", "harry", MSG2).unwrap();
    let head = write_message(&first).unwrap();
    let tail = write_message(&last).unwrap();
    for cut in 0..tail.len() {
        let mut log = head.clone();
        log.extend_from_slice(&tail[..cut]);
        assert_eq!(read_messages(&log), Ok(vec![first.clone()]));
    }
    let mut whole = head.clone();
    whole.extend_from_slice(&tail);
    assert_eq!(read_messages(&whole), Ok(vec![first, last]));
}

#[test]
fn log_with_a_wrong_delimiter_is_refused() {
    let first = ChatMessage::new("harry", "eddie", "hello").unwrap();
    let mut log = write_message(&first).unwrap();
    assert_eq!(log.len(), 113);
    log.extend_from_slice(&[0x2d, 0x2d, 0x2e, 0x2d]);
    assert_eq!(read_messages(&log), Err(LogError::BadDelimiter { offset: 113 }));
    assert_eq!(read_messages(b"rack"), Err(LogError::BadDelimiter { offset: 0 }));
}

#[test]
fn log_with_an_empty_payload_is_refused() {
    let first = ChatMessage::new("harry", "eddie", "hello").unwrap();
    let mut log = write_message(&first).unwrap();
    log.extend_from_slice(&[MAGIC_BYTE; 4]);
    log.extend_from_slice(&[0, 0, 0, 0]);
    log.extend_from_slice(&[0u8; 100]);
    assert_eq!(read_messages(&log), Err(LogError::EmptyPayload { offset: 113 }));
}

#[test]
fn test_read_message() {
    let mut index = ConnMap::new();
    add_new_connection(&mut index, EDDIE_UNAME.to_string()).unwrap();
    add_new_connection(&mut index, KERRY_UNAME.to_string()).unwrap();

    let chat_message1 = ChatMessage::new(HARRY_UNAME, EDDIE_UNAME, MSG1).unwrap();
    let chat_message2 = ChatMessage::new(EDDIE_UNAME, HARRY_UNAME, MSG2).unwrap();
    let chat_message3 = ChatMessage::new(HARRY_UNAME, KERRY_UNAME, MSG3).unwrap();
    let chat_message4 = ChatMessage::new(KERRY_UNAME, HARRY_UNAME, MSG4).unwrap();

    let mut eddie_log = Vec::new();
    eddie_log.extend_from_slice(&write_message(&chat_message1).unwrap());
    eddie_log.extend_from_slice(&write_message(&chat_message2).unwrap());
    let mut kerry_log = Vec::new();
    kerry_log.extend_from_slice(&write_message(&chat_message3).unwrap());
    kerry_log.extend_from_slice(&write_message(&chat_message4).unwrap());

    assert_eq!(read_messages(&eddie_log), Ok(vec![chat_message1, chat_message2]));
    assert_eq!(read_messages(&kerry_log), Ok(vec![chat_message3, chat_message4]));
}

#[test]
fn test_singelton_map() {
    let mut map = ConnMap::new();
    insert(&mut map, "key1".to_string(), "val1".to_string());
    insert(&mut map, "key2".to_string(), "val2".to_string());
    assert_eq!(get_map(&map), vec![pair("key1", "val1"), pair("key2", "val2")]);
    remove(&mut map, "key1");
    assert_eq!(get_map(&map), vec![pair("key2", "val2")]);
}

#[test]
fn insert_replaces_the_entry_of_a_known_key() {
    let mut map = ConnMap::new();
    insert(&mut map, "a".to_string(), "1".to_string());
    insert(&mut map, "b".to_string(), "2".to_string());
    insert(&mut map, "a".to_string(), "3".to_string());
    assert_eq!(get_map(&map), vec![pair("a", "3"), pair("b", "2")]);
    assert_eq!(map.lookup("a"), Some("3".to_string()));
    assert_eq!(map.lookup("c"), None);
    assert_eq!(map.position("b"), Some(1));
    assert_eq!(map.position("c"), None);
}

#[test]
fn remove_of_an_unknown_key_changes_nothing() {
    let mut map = ConnMap::new();
    insert(&mut map, "a".to_string(), "1".to_string());
    remove(&mut map, "b");
    assert_eq!(get_map(&map), vec![pair("a", "1")]);
    remove(&mut map, "a");
    assert!(get_map(&map).is_empty());
}

#[test]
fn added_peer_is_indexed_and_not_added_twice() {
    let mut index = ConnMap::new();
    let added = add_new_connection(&mut index, "kerry".to_string()).unwrap();
    let mut record = [0u8; 50];
    record[..5].copy_from_slice(b"kerry");
    assert_eq!(added.record, record);
    assert_eq!(added.file_name, "conn_kerry");
    assert_eq!(index.lookup("kerry"), Some("conn_kerry".to_string()));
    assert_eq!(
        add_new_connection(&mut index, "kerry".to_string()),
        Err(ConnError::AlreadyConnected)
    );
    assert_eq!(get_map(&index), vec![pair("kerry", "conn_kerry")]);

    // the persisted list gives the same index back
    let reloaded = init_conn_map(&added.record);
    assert_eq!(reloaded, index);
}

#[test]
fn peer_with_a_wide_name_is_not_added() {
    let mut index = ConnMap::new();
    let wide = "k".repeat(51);
    assert_eq!(
        add_new_connection(&mut index, wide),
        Err(ConnError::TooLong(LengthError { expected: 50, actual: 51 }))
    );
    assert!(get_map(&index).is_empty());
}

#[test]
fn peer_with_a_zero_byte_in_its_name_is_not_added() {
    let mut index = ConnMap::new();
    assert_eq!(
        add_new_connection(&mut index, "ker\0ry".to_string()),
        Err(ConnError::ZeroByte { at: 3 })
    );
    assert_eq!(
        add_new_connection(&mut index, "\0".to_string()),
        Err(ConnError::ZeroByte { at: 0 })
    );
    assert!(get_map(&index).is_empty());
    // a name that is too wide is refused for its width first
    let mut wide = "k".repeat(51);
    wide.push('\0');
    assert_eq!(
        add_new_connection(&mut index, wide),
        Err(ConnError::TooLong(LengthError { expected: 50, actual: 52 }))
    );
    // a name that is refused for a zero byte is refused so even when known
    add_new_connection(&mut index, "kerry".to_string()).unwrap();
    assert_eq!(
        add_new_connection(&mut index, "kerry\0".to_string()),
        Err(ConnError::ZeroByte { at: 5 })
    );
    assert_eq!(get_map(&index), vec![pair("kerry", "conn_kerry")]);
}

#[test]
fn added_record_reads_back_as_the_name() {
    let mut index = ConnMap::new();
    let name = "kérry".to_string();
    let added = add_new_connection(&mut index, name.clone()).unwrap();
    assert_eq!(cli_chat::shared::uname_to_string(added.record), name);
    let empty = add_new_connection(&mut index, String::new()).unwrap();
    assert_eq!(empty.record, [0u8; 50]);
    assert_eq!(cli_chat::shared::uname_to_string(empty.record), "");
}

#[test]
fn test_add_conn() {
    let mut index = ConnMap::new();
    let mut list = Vec::new();
    for uname in [KERRY_UNAME, EDDIE_UNAME, HARRY_UNAME] {
        let added = add_new_connection(&mut index, uname.to_string()).unwrap();
        list.extend_from_slice(&added.record);
    }
    assert_eq!(list.len(), 150);
    assert_eq!(
        get_map(&index),
        vec![pair("Kerry", "conn_Kerry"), pair("Eddie", "conn_Eddie"), pair("Harry", "conn_Harry")]
    );
    assert_eq!(init_conn_map(&list), index);
}

#[test]
fn test_get_conn_map() {
    let mut list = Vec::new();
    for uname in ["harry", "kerry", "eddie"] {
        let mut record = [0u8; 50];
        record[..uname.len()].copy_from_slice(uname.as_bytes());
        list.extend_from_slice(&record);
    }
    // a record that is cut short is left out
    list.extend_from_slice(b"partial");
    let conn_map = init_conn_map(&list);
    for uname in ["harry", "kerry", "eddie"] {
        assert_eq!(conn_map.lookup(uname), Some(format!("conn_{}", uname)));
    }
    assert_eq!(conn_map.lookup("partial"), None);
    assert_eq!(get_map(&conn_map).len(), 3);
    assert!(get_map(&init_conn_map(&[])).is_empty());
}

#[test]
fn peer_list_with_a_repeated_name_gives_one_entry() {
    let mut record = [0u8; 50];
    record[..5].copy_from_slice(b"harry");
    let mut list = record.to_vec();
    list.extend_from_slice(&record);
    assert_eq!(get_map(&init_conn_map(&list)), vec![pair("harry", "conn_harry")]);
}
