use rvm::virtio::{IoAction, Virtio};

#[test]
fn forwards_characters_before_stop() {
    let mut io = Virtio::new();
    assert!(!io.is_stopping());
    assert_eq!(io.next_action(false, Some('a')), IoAction::Emit('a'));
    assert_eq!(io.next_action(false, None), IoAction::Wait);
    assert!(!io.is_stopping());
}

#[test]
fn drains_queued_characters_after_stop() {
    let mut io = Virtio::new();
    let mut queued = vec!['H', 'i'].into_iter();
    let mut sink = String::new();
    let mut stop = true;
    loop {
        match io.next_action(stop, queued.next()) {
            IoAction::Emit(c) => sink.push(c),
            IoAction::Wait => panic!("a stopping consumer never waits"),
            IoAction::Exit => break,
        }
        stop = false;
    }
    assert_eq!(sink, "Hi");
    assert!(io.is_stopping());
}

#[test]
fn exits_at_once_when_stopped_and_empty() {
    let mut io = Virtio::new();
    assert_eq!(io.next_action(true, None), IoAction::Exit);
}
