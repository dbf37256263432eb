use holyland::debug_console::{
    advanced_clock, apply_debug_command, bandit_spawn_x, give_into_pack, parse_command, parse_hm, parse_seed, time_of_day_clock,
    DebugCommand, DebugSideEffect, DebugTarget,
};
use holyland::needs::Needs;
use holyland::items::Pack;
use holyland::items::ItemKind;
use holyland::needs::NeedKind;
use holyland::world::BanditTier;

#[test]
fn help_keyword_recognized() {
    assert!(matches!(parse_command("help"), DebugCommand::Help));
    assert!(matches!(parse_command("?"), DebugCommand::Help));
    assert!(matches!(parse_command("h"), DebugCommand::Help));
}

#[test]
fn empty_input_is_silent_unknown() {
    match parse_command("") {
        DebugCommand::Unknown(s) => assert!(s.is_empty()),
        _ => panic!("expected Unknown('')"),
    }
}

#[test]
fn time_hh_mm_parses() {
    match parse_command("time 19:45") {
        DebugCommand::SetTime(19, 45) => {}
        other => panic!("expected SetTime(19, 45), got {:?}", other),
    }
    assert!(matches!(parse_command("time 19:99"), DebugCommand::Unknown(_)));
    assert!(matches!(parse_command("time 24:00"), DebugCommand::Unknown(_)));
    assert!(matches!(parse_command("time 1945"), DebugCommand::Unknown(_)));
}

#[test]
fn advance_secs_parses() {
    assert!(matches!(parse_command("advance 3600"), DebugCommand::AdvanceSecs(3600)));
    assert!(matches!(parse_command("advance not_a_number"), DebugCommand::Unknown(_)));
}

#[test]
fn need_command_accepts_aliases_and_clamps() {
    match parse_command("need thirst 50") {
        DebugCommand::SetNeed(NeedKind::Thirst, 50) => {}
        other => panic!("got {:?}", other),
    }
    match parse_command("need w 200") {
        DebugCommand::SetNeed(NeedKind::Warmth, 100) => {}
        other => panic!("got {:?}", other),
    }
    assert!(matches!(parse_command("need nope 50"), DebugCommand::Unknown(_)));
}

#[test]
fn give_parses_kind_and_count() {
    match parse_command("give firewood 2") {
        DebugCommand::Give(kind, n) => {
            assert_eq!(kind, ItemKind::Firewood);
            assert_eq!(n, 2);
        }
        other => panic!("got {:?}", other),
    }
    match parse_command("give flint_and_steel 1") {
        DebugCommand::Give(kind, n) => {
            assert_eq!(kind, ItemKind::FlintAndSteel);
            assert_eq!(n, 1);
        }
        other => panic!("got {:?}", other),
    }
    assert!(matches!(parse_command("give nope 3"), DebugCommand::Unknown(_)));
    assert!(matches!(parse_command("give twig many"), DebugCommand::Unknown(_)));
    match parse_command("give twig 0") {
        DebugCommand::Give(_, n) => assert_eq!(n, 1),
        other => panic!("got {:?}", other),
    }
}

#[test]
fn tp_command_parses_negatives() {
    assert!(matches!(parse_command("tp -5 30"), DebugCommand::Teleport(-5, 30)));
    assert!(matches!(parse_command("tp foo bar"), DebugCommand::Unknown(_)));
}

#[test]
fn newworld_parses_with_and_without_seed() {
    assert!(matches!(parse_command("newworld"), DebugCommand::NewWorld(None)));
    match parse_command("newworld 42") {
        DebugCommand::NewWorld(Some(s)) => assert_eq!(s, 42),
        other => panic!("got {:?}", other),
    }
    match parse_command("newworld 0xDEADBEEF") {
        DebugCommand::NewWorld(Some(s)) => assert_eq!(s, 0xDEADBEEF),
        other => panic!("got {:?}", other),
    }
    assert!(matches!(parse_command("newworld notanumber"), DebugCommand::Unknown(_)));
}

#[test]
fn whitespace_tolerant() {
    assert!(matches!(parse_command("  time  19:45  "), DebugCommand::SetTime(19, 45)));
}

#[test]
fn god_and_spawn_commands() {
    assert!(matches!(parse_command("god"), DebugCommand::Godmode));
    assert!(matches!(parse_command("godmode"), DebugCommand::Godmode));
    assert!(matches!(parse_command("spawn k"), DebugCommand::SpawnBandit(BanditTier::Knight)));
    assert!(matches!(parse_command("spawn sergeant"), DebugCommand::SpawnBandit(BanditTier::Sergeant)));
    assert!(matches!(parse_command("spawn dragon"), DebugCommand::Unknown(_)));
}

#[test]
fn unknown_keeps_the_raw_line() {
    match parse_command("  dance  wildly ") {
        DebugCommand::Unknown(s) => assert_eq!(s, "  dance  wildly "),
        other => panic!("got {:?}", other),
    }
    match parse_command("help me") {
        DebugCommand::Unknown(s) => assert_eq!(s, "help me"),
        other => panic!("got {:?}", other),
    }
}

#[test]
fn number_edges_follow_std_parsing() {
    assert!(matches!(parse_command("advance +7"), DebugCommand::AdvanceSecs(7)));
    assert!(matches!(parse_command("advance 4294967295"), DebugCommand::AdvanceSecs(4294967295)));
    assert!(matches!(parse_command("advance 4294967296"), DebugCommand::Unknown(_)));
    assert!(matches!(parse_command("advance -1"), DebugCommand::Unknown(_)));
    assert!(matches!(parse_command("tp -2147483648 2147483647"), DebugCommand::Teleport(i32::MIN, i32::MAX)));
    assert!(matches!(parse_command("tp -2147483649 0"), DebugCommand::Unknown(_)));
    assert!(matches!(parse_command("need h 256"), DebugCommand::Unknown(_)));
    assert!(matches!(parse_command("give twig 65536"), DebugCommand::Unknown(_)));
}

#[test]
fn hm_and_seed_helpers() {
    assert_eq!(parse_hm("00:00"), Some((0, 0)));
    assert_eq!(parse_hm("23:59"), Some((23, 59)));
    assert_eq!(parse_hm("12:30:00"), None);
    assert_eq!(parse_hm(":30"), None);
    assert_eq!(parse_seed("0X1f"), Some(31));
    assert_eq!(parse_seed("0x"), None);
    assert_eq!(parse_seed("18446744073709551615"), Some(u64::MAX));
    assert_eq!(parse_seed("18446744073709551616"), None);
    assert_eq!(parse_seed("0xFFFFFFFFFFFFFFFF"), Some(u64::MAX));
    assert_eq!(parse_seed("0x10000000000000000"), None);
}

#[test]
fn time_sets_the_clock_within_the_current_day() {
    let day = 86_400;
    assert_eq!(time_of_day_clock(3 * day + 50_000, day, 6, 30), 3 * day + 6 * 3600 + 30 * 60);
    assert_eq!(time_of_day_clock(10, day, 23, 59), 23 * 3600 + 59 * 60);
}

#[test]
fn advance_saturates_at_the_largest_clock() {
    assert_eq!(advanced_clock(100, 50), 150);
    assert_eq!(advanced_clock(u64::MAX - 10, 50), u64::MAX);
}

#[test]
fn give_fungible_goes_in_as_one_stack() {
    let mut pack = Pack { capacity_g: 1_000_000, contents: Vec::new() };
    assert_eq!(give_into_pack(&mut pack, ItemKind::Twig, 5), 5);
    assert_eq!(pack.contents.len(), 1);
    assert_eq!(pack.contents[0].count, 5);
}

#[test]
fn give_uniques_one_by_one_until_full() {
    let mut pack = Pack { capacity_g: 1_000_000, contents: Vec::new() };
    assert_eq!(give_into_pack(&mut pack, ItemKind::Waterskin, 3), 3);
    assert_eq!(pack.contents.len(), 3);
    let mut full = Pack { capacity_g: 0, contents: Vec::new() };
    assert_eq!(give_into_pack(&mut full, ItemKind::Waterskin, 3), 0);
    assert!(full.contents.is_empty());
    assert_eq!(give_into_pack(&mut full, ItemKind::Twig, 3), 0);
}

fn target() -> DebugTarget {
    DebugTarget {
        clock_seconds: 86_400 + 100,
        day_len: 86_400,
        needs: Needs { thirst: 50, hunger: 50, sleep: 50, warmth: 50 },
        player: (0, 0),
        pack: Pack { capacity_g: 1_000_000, contents: Vec::new() },
        godmode: false,
    }
}

#[test]
fn applied_commands_change_what_they_name() {
    let mut t = target();
    assert!(apply_debug_command(&mut t, parse_command("time 06:00")).is_none());
    assert_eq!(t.clock_seconds, 86_400 + 6 * 3600);
    apply_debug_command(&mut t, parse_command("advance 60"));
    assert_eq!(t.clock_seconds, 86_400 + 6 * 3600 + 60);
    apply_debug_command(&mut t, DebugCommand::SetNeed(NeedKind::Thirst, 0));
    assert_eq!(t.needs.thirst, 0);
    assert_eq!(t.needs.hunger, 50);
    apply_debug_command(&mut t, DebugCommand::Teleport(5, -3));
    assert_eq!(t.player, (5, -3));
    apply_debug_command(&mut t, DebugCommand::Give(ItemKind::Twig, 4));
    assert_eq!(t.pack.contents.len(), 1);
    apply_debug_command(&mut t, DebugCommand::Godmode);
    assert!(t.godmode);
    apply_debug_command(&mut t, DebugCommand::Godmode);
    assert!(!t.godmode);
    assert!(matches!(
        apply_debug_command(&mut t, DebugCommand::NewWorld(Some(7))),
        Some(DebugSideEffect::NewWorld(Some(7)))
    ));
    assert!(matches!(apply_debug_command(&mut t, DebugCommand::Help), Some(DebugSideEffect::ShowHelp)));
    assert!(matches!(
        apply_debug_command(&mut t, parse_command("spawn k")),
        Some(DebugSideEffect::SpawnBandit(BanditTier::Knight))
    ));
    match apply_debug_command(&mut t, parse_command("dance")) {
        Some(DebugSideEffect::Unknown(line)) => assert_eq!(line, "dance"),
        _ => panic!("expected the unknown line back"),
    }
    assert!(apply_debug_command(&mut t, parse_command("")).is_none());
    assert_eq!(t.player, (5, -3));
}

#[test]
fn spawned_bandit_takes_the_first_walkable_column() {
    assert_eq!(bandit_spawn_x(10, &vec![false, false, true, true]), 15);
    assert_eq!(bandit_spawn_x(10, &vec![true]), 13);
    assert_eq!(bandit_spawn_x(10, &vec![false; 12]), 13);
    assert_eq!(bandit_spawn_x(-4, &vec![]), -1);
    let mut late = vec![false; 13];
    late[12] = true;
    assert_eq!(bandit_spawn_x(0, &late), 3);
    late[11] = true;
    assert_eq!(bandit_spawn_x(0, &late), 14);
}
