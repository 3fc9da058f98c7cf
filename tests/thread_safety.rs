use std::cell::Cell;
use std::rc::Rc;
use std::sync::atomic::AtomicI32;
use std::sync::Mutex;

use exercises::thread_safety::{
    requires_send, requires_sync, NotSyncNotSend, OnlySend, OnlySync, SyncAndSend,
};

#[test]
fn markers_accept_their_types() {
    let m = Mutex::new(1);
    let only_sync = OnlySync(m.lock().unwrap());
    requires_sync(&only_sync);
    let only_send = OnlySend(Cell::new(2));
    requires_send(&only_send);
    let both = SyncAndSend(AtomicI32::new(3));
    requires_sync(&both);
    requires_send(&both);
    let neither = NotSyncNotSend(Rc::new(4));
    assert_eq!(*neither.0, 4);
}
