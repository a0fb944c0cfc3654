use voynich::chat::{Chat, ChatList, ChatMessage, CHAT_CAPACITY};
use voynich::config::{Config, SystemConfig, TorAuthConfig, TorConfig};
use voynich::identity::ServiceId;
use voynich::logger::{Level, LogMessage, Logger, StandardLogger};
use voynich::onion_service::OnionType;
use voynich::ui::split_each;

fn generated_id() -> ServiceId {
    let tor_id = tor_client_lib::key::TorServiceId::generate();
    ServiceId::parse(&tor_id.as_str().to_uppercase()).unwrap()
}

#[test]
fn identity_parse_accepts_generated_and_rejects_garbage() {
    let tor_id = tor_client_lib::key::TorServiceId::generate();
    let id = ServiceId::parse(&tor_id.as_str().to_uppercase()).expect("a generated identity parses");
    assert_eq!(id.as_str(), tor_id.as_str().to_uppercase());
    assert_eq!(id.as_str().len(), 56);
    assert!(ServiceId::parse("not-an-onion-service").is_none());
    assert!(ServiceId::parse("").is_none());
    assert!(id.verifying_key().expect("key recoverable").len() == 32);
}

#[test]
fn chat_keeps_only_the_most_recent_messages() {
    let id = generated_id();
    let other = generated_id();
    let mut chat = Chat::new(&id);
    assert_eq!(chat.id(), id.as_str());
    for k in 0..(CHAT_CAPACITY + 5) {
        chat.add_message(ChatMessage::new(&other, &id, format!("m{}", k)));
    }
    let messages = chat.messages();
    assert_eq!(messages.len(), CHAT_CAPACITY);
    // The five oldest messages fell out.
    assert_eq!(messages[0].message, "m5");
    assert_eq!(messages[CHAT_CAPACITY - 1].message, format!("m{}", CHAT_CAPACITY + 4));
}

#[test]
fn chat_list_tracks_the_front_chat() {
    let a = generated_id();
    let b = generated_id();
    let c = generated_id();
    let mut list = ChatList::new();
    assert!(list.current().is_none());
    assert!(list.next_chat().is_none());
    assert!(list.prev_chat().is_none());

    list.add(&a);
    list.add(&b);
    list.add(&c);
    assert_eq!(list.names().len(), 3);
    assert_eq!(list.current_index(), Some(2));
    assert_eq!(list.current().unwrap().as_str(), c.as_str());

    // next wraps to the start; prev wraps back.
    assert_eq!(list.next_chat().unwrap().as_str(), a.as_str());
    assert_eq!(list.prev_chat().unwrap().as_str(), c.as_str());

    // Removing the last entry while the front is on it slides the front.
    list.remove(&c);
    assert_eq!(list.names().len(), 2);
    assert_eq!(list.current_index(), Some(1));
    list.remove(&b);
    assert_eq!(list.current_index(), Some(0));
    assert_eq!(list.current().unwrap().as_str(), a.as_str());
    list.remove(&a);
    assert!(list.current().is_none());
    assert!(list.names().is_empty());
}

#[test]
fn chat_list_remove_of_absent_id_changes_nothing() {
    let a = generated_id();
    let b = generated_id();
    let mut list = ChatList::new();
    list.add(&a);
    list.remove(&b);
    assert_eq!(list.names().len(), 1);
    assert_eq!(list.current_index(), Some(0));
}

#[test]
fn logger_filters_by_level_and_bounds_its_ring() {
    let mut logger = StandardLogger::new(3);
    logger.log(LogMessage::new(Level::Debug, "dropped"));
    assert_eq!(logger.messages().len(), 0);
    logger.log(LogMessage::new(Level::Info, "one"));
    logger.log(LogMessage::new(Level::Warning, "two"));
    logger.log(LogMessage::new(Level::Error, "three"));
    logger.log(LogMessage::new(Level::Error, "four"));
    let kept = logger.messages();
    assert_eq!(kept.len(), 3);
    assert_eq!(kept[0].message, "two");
    assert_eq!(kept[2].message, "four");

    logger.set_log_level(Level::Debug);
    logger.log(LogMessage::new(Level::Debug, "now kept"));
    assert_eq!(logger.messages().last().unwrap().message, "now kept");
}

#[test]
fn split_each_fills_rows_by_display_width() {
    let rows = split_each("The quick brown fox".to_string(), 5);
    let rows: Vec<String> = rows;
    assert_eq!(rows.concat().len(), "The quick brown fox".len());
    for row in &rows {
        assert!(row.chars().count() <= 5);
    }
    assert_eq!(rows[0], "The q");

    let exact = split_each("abcdef".to_string(), 3);
    assert_eq!(exact, vec!["abc".to_string(), "def".to_string()]);

    let empty = split_each(String::new(), 4);
    assert!(empty.is_empty());
}

#[test]
fn config_update_prefers_loaded_values() {
    let base = Config::default();
    assert_eq!(base.tor.proxy_address, "127.0.0.1:9050");
    assert_eq!(base.tor.control_address, "127.0.0.1:9051");
    assert!(!base.system.debug);
    assert!(base.system.connection_test);

    let loaded = Config {
        system: SystemConfig { debug: true, connection_test: false },
        tor: TorConfig {
            proxy_address: "10.0.0.1:9050".to_string(),
            control_address: "10.0.0.1:9051".to_string(),
            authentication: Some(TorAuthConfig::SafeCookie),
            cookie: Some(vec![1, 2, 3]),
            hashed_password: None,
        },
    };
    let merged = base.update(loaded);
    assert!(merged.system.debug);
    assert!(!merged.system.connection_test);
    assert_eq!(merged.tor.proxy_address, "10.0.0.1:9050");
    assert_eq!(merged.tor.authentication, Some(TorAuthConfig::SafeCookie));
    assert_eq!(merged.tor.cookie, Some(vec![1, 2, 3]));
    // A value absent from the loaded configuration keeps the default.
    assert_eq!(merged.tor.hashed_password, None);
}

#[test]
fn onion_type_constructors() {
    assert!(matches!(OnionType::new_transient(), OnionType::Transient));
    match OnionType::new_persistent("svc") {
        OnionType::Persistent { name, create } => {
            assert_eq!(name, "svc");
            assert!(create);
        }
        other => panic!("unexpected onion type: {:?}", other),
    }
    match OnionType::existing_persistent("svc") {
        OnionType::Persistent { name, create } => {
            assert_eq!(name, "svc");
            assert!(!create);
        }
        other => panic!("unexpected onion type: {:?}", other),
    }
}
