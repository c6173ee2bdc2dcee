use insulator::haptics::{HapticPattern, Haptics};

#[test]
fn haptics_start_disabled_and_perform_nothing() {
    let haptics = Haptics::new();
    assert!(!haptics.haptics_enabled());
    assert_eq!(haptics.trigger(HapticPattern::Generic), None);
}

#[test]
fn enabling_reads_back_and_performs_the_pattern() {
    let mut haptics = Haptics::new();
    haptics.set_haptics_enabled(true);
    assert!(haptics.haptics_enabled());
    assert_eq!(haptics.trigger(HapticPattern::LevelChange), Some(HapticPattern::LevelChange));
    haptics.set_haptics_enabled(false);
    assert!(!haptics.haptics_enabled());
    assert_eq!(haptics.trigger(HapticPattern::Alignment), None);
}
