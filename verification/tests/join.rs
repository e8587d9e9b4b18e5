use node_styles::join::{ForkJoin, JoinStep};

fn steps_until_return(children: usize) -> Vec<JoinStep> {
    let mut join = ForkJoin::new(children);
    let mut steps = Vec::new();
    loop {
        let step = join.next_step();
        steps.push(step);
        if step == JoinStep::Return {
            return steps;
        }
    }
}

#[test]
fn childless_call_matches_and_returns() {
    assert_eq!(steps_until_return(0), vec![JoinStep::MatchOwnStyle, JoinStep::Return]);
}

#[test]
fn call_with_two_children_spawns_matches_then_waits() {
    assert_eq!(
        steps_until_return(2),
        vec![
            JoinStep::Spawn(0),
            JoinStep::Spawn(1),
            JoinStep::MatchOwnStyle,
            JoinStep::AwaitAck,
            JoinStep::AwaitAck,
            JoinStep::Return,
        ]
    );
}

#[test]
fn call_waits_once_for_every_task() {
    for children in 0..20usize {
        let steps = steps_until_return(children);
        let spawned = steps.iter().filter(|step| matches!(step, JoinStep::Spawn(_))).count();
        let awaited = steps.iter().filter(|step| **step == JoinStep::AwaitAck).count();
        let matched = steps.iter().filter(|step| **step == JoinStep::MatchOwnStyle).count();
        assert_eq!(spawned, children);
        assert_eq!(awaited, children);
        assert_eq!(matched, 1);
        assert_eq!(steps.len(), 2 * children + 2);
        assert_eq!(steps[children], JoinStep::MatchOwnStyle);
        for (position, step) in steps.iter().take(children).enumerate() {
            assert_eq!(*step, JoinStep::Spawn(position));
        }
    }
}

#[test]
fn finished_call_keeps_returning() {
    let mut join = ForkJoin::new(1);
    assert_eq!(join.next_step(), JoinStep::Spawn(0));
    assert_eq!(join.next_step(), JoinStep::MatchOwnStyle);
    assert_eq!(join.next_step(), JoinStep::AwaitAck);
    assert_eq!(join.next_step(), JoinStep::Return);
    assert_eq!(join.next_step(), JoinStep::Return);
    assert_eq!(join.next_step(), JoinStep::Return);
}
