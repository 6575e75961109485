//! Reading and writing the state of a stream.
use conduit::address::Address;
use conduit::stream::state::{
    assert_not_cancelled, load, save, save_withdrawn, set_cancelled, set_paused,
};
use conduit::stream::storage::{Error, StreamInfo, StreamStore, FLAG_CANCELLED, FLAG_PAUSED};

const SENDER: Address = Address { is_contract: false, high: 0, low: 1 };
const RECIPIENT: Address = Address { is_contract: false, high: 0, low: 2 };
const TOKEN: Address = Address { is_contract: true, high: 0, low: 3 };

fn info() -> StreamInfo {
    StreamInfo {
        sender: SENDER,
        recipient: RECIPIENT,
        token: TOKEN,
        rate_per_second: 100,
        start_time: 1_000_000,
        end_time: 1_003_600,
        withdrawn: 50,
        paused_at: 1_000_010,
        flags: 4,
    }
}

fn empty() -> StreamStore {
    StreamStore {
        config: None,
        sender: None,
        recipient: None,
        token: None,
        rate_per_second: None,
        start_time: None,
        end_time: None,
        withdrawn: None,
        paused_at: None,
        flags: None,
    }
}

fn by_fields() -> StreamStore {
    StreamStore {
        sender: Some(SENDER),
        recipient: Some(RECIPIENT),
        token: Some(TOKEN),
        rate_per_second: Some(100),
        start_time: Some(1_000_000),
        end_time: Some(1_003_600),
        ..empty()
    }
}

#[test]
fn what_was_saved_is_loaded() {
    let mut store = empty();
    save(&mut store, &info());
    assert_eq!(load(&store), info());
    let mut store = by_fields();
    save(&mut store, &info());
    assert_eq!(load(&store), info());
}

#[test]
fn older_streams_are_read_field_by_field() {
    let loaded = load(&by_fields());
    assert_eq!(loaded, StreamInfo { withdrawn: 0, paused_at: 0, flags: 0, ..info() });
    let store = StreamStore {
        withdrawn: Some(50),
        paused_at: Some(1_000_010),
        flags: Some(4),
        ..by_fields()
    };
    assert_eq!(load(&store), info());
}

#[test]
fn setters_move_an_older_stream_into_one_entry() {
    let mut store = by_fields();
    save_withdrawn(&mut store, 9);
    let expected = StreamInfo { withdrawn: 9, paused_at: 0, flags: 0, ..info() };
    assert_eq!(store.config, Some(expected));
    assert_eq!(store, StreamStore { config: Some(expected), ..by_fields() });
}

#[test]
fn save_withdrawn_leaves_the_other_fields() {
    let mut store = empty();
    save(&mut store, &info());
    save_withdrawn(&mut store, 75);
    assert_eq!(load(&store), StreamInfo { withdrawn: 75, ..info() });
}

#[test]
fn pausing_and_resuming_touch_one_flag() {
    let mut store = empty();
    save(&mut store, &info());
    assert!(!load(&store).is_paused());
    set_paused(&mut store, true);
    assert_eq!(load(&store), StreamInfo { flags: 4 | FLAG_PAUSED, ..info() });
    assert!(load(&store).is_paused());
    set_paused(&mut store, true);
    assert!(load(&store).is_paused());
    set_paused(&mut store, false);
    assert_eq!(load(&store), info());
}

#[test]
fn cancellation_is_final() {
    let mut store = empty();
    save(&mut store, &info());
    assert_eq!(assert_not_cancelled(&load(&store)), Ok(()));
    set_cancelled(&mut store);
    assert_eq!(load(&store), StreamInfo { flags: 4 | FLAG_CANCELLED, ..info() });
    set_paused(&mut store, true);
    set_paused(&mut store, false);
    save_withdrawn(&mut store, 1);
    set_cancelled(&mut store);
    assert!(load(&store).is_cancelled());
    assert_eq!(assert_not_cancelled(&load(&store)), Err(Error::StreamCancelled));
    assert_eq!(load(&store), StreamInfo { withdrawn: 1, flags: 4 | FLAG_CANCELLED, ..info() });
}
