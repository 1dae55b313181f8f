use hyprhook::hook::{create_hook_channel, enqueue_hooks, hook_commands, HOOK_QUEUE_CAPACITY};

fn argv(words: &[&str]) -> Vec<String> {
    words.iter().map(|word| (*word).to_owned()).collect()
}

#[test]
fn empty_command_lines_are_skipped() {
    let commands = vec![argv(&["a", "1"]), vec![], argv(&["b"])];
    let queued = hook_commands(&commands);
    assert_eq!(queued.len(), 2);
    let (program, args) = queued[0].program_and_args().unwrap();
    assert_eq!(program, "a");
    assert_eq!(args, &["1".to_owned()]);
    let (program, args) = queued[1].program_and_args().unwrap();
    assert_eq!(program, "b");
    assert!(args.is_empty());
}

#[test]
fn queue_receives_commands_in_order() {
    let (sender, mut receiver) = create_hook_channel();
    let outcome = enqueue_hooks(&sender, &[argv(&["first"]), vec![], argv(&["second", "x", "y"])]);
    assert_eq!(outcome.skipped, 1);
    assert_eq!(outcome.queued.len(), 2);
    assert!(outcome.refused.is_empty());
    let first = receiver.try_recv().unwrap();
    assert_eq!(first.program_and_args().unwrap().0, "first");
    let second = receiver.try_recv().unwrap();
    let (program, args) = second.program_and_args().unwrap();
    assert_eq!(program, "second");
    assert_eq!(args, &["x".to_owned(), "y".to_owned()]);
    assert!(receiver.try_recv().is_err());
}

#[test]
fn full_queue_drops_commands() {
    let (sender, mut receiver) = create_hook_channel();
    let commands: Vec<Vec<String>> =
        (0..HOOK_QUEUE_CAPACITY + 5).map(|index| vec![format!("cmd-{index}")]).collect();
    let outcome = enqueue_hooks(&sender, &commands);
    assert_eq!(outcome.skipped, 0);
    assert_eq!(outcome.queued.len(), HOOK_QUEUE_CAPACITY);
    assert_eq!(outcome.refused.len(), 5);
    for (offset, command) in outcome.refused.iter().enumerate() {
        let expected = format!("cmd-{}", HOOK_QUEUE_CAPACITY + offset);
        assert_eq!(command.program_and_args().unwrap().0, &expected);
    }
    let mut received = 0;
    while let Ok(command) = receiver.try_recv() {
        assert_eq!(command.program_and_args().unwrap().0, &format!("cmd-{received}"));
        received += 1;
    }
    assert_eq!(received, HOOK_QUEUE_CAPACITY);
}

#[test]
fn closed_queue_drops_commands_quietly() {
    let (sender, receiver) = create_hook_channel();
    drop(receiver);
    let outcome = enqueue_hooks(&sender, &[argv(&["lost"]), vec![]]);
    assert_eq!(outcome.skipped, 1);
    assert!(outcome.queued.is_empty());
    assert_eq!(outcome.refused.len(), 1);
    assert_eq!(outcome.refused[0].program_and_args().unwrap().0, "lost");
}

#[test]
fn hook_queue_has_the_configured_bound() {
    let (sender, receiver) = create_hook_channel();
    assert_eq!(sender.max_capacity(), HOOK_QUEUE_CAPACITY);
    assert_eq!(receiver.max_capacity(), 64);
}
