use mon_gen::command::{CommandEscape, CommandRetreat, CommandType};
use mon_gen::replay::BattleReplay;

#[test]
fn replay_reads_back_commands() {
    let mut replay = BattleReplay::with_seed(42);
    assert_eq!(replay.seed(), 42);
    assert_eq!(replay.command_count(), 0);
    replay.command_add(CommandType::Escape(CommandEscape { party: 1 }));
    replay.command_add(CommandType::Turn);
    assert_eq!(replay.command_count(), 2);
    assert_eq!(*replay.command(0), CommandType::Escape(CommandEscape { party: 1 }));
    assert_eq!(*replay.command(1), CommandType::Turn);
    assert_eq!(replay.sub_command_count(0), 0);
    replay.sub_command_add(0, Some(CommandRetreat { target: 3 }));
    replay.sub_command_add(0, None);
    assert_eq!(replay.sub_command_count(0), 2);
    assert_eq!(*replay.sub_command(0, 0), Some(CommandRetreat { target: 3 }));
    assert_eq!(*replay.sub_command(0, 1), None);
    assert_eq!(replay.sub_command_count(1), 0);
    assert_eq!(*replay.command(1), CommandType::Turn);
}

#[test]
fn replay_from_system_seed() {
    let replay = BattleReplay::new().expect("the system random source");
    assert_eq!(replay.command_count(), 0);
}
