use std::time::Duration;

use open_web_server::power_profile::{
    effective_poll_interval, effective_settings, PowerProfileFlag, PowerProfileFlags, PowerProfileRegistry, Ratio,
};

fn as_f64(r: Ratio) -> f64 {
    r.num as f64 / r.den as f64
}

fn poll_interval(reg: &PowerProfileRegistry, base: Duration) -> Duration {
    let nanos = effective_poll_interval(reg, base.as_nanos() as u64);
    Duration::from_nanos(nanos as u64)
}

#[test]
fn pref_values_match_android_power_profile_kt() {
    assert_eq!(PowerProfileFlag::MemorySaver.pref_value(), "memory_saver");
    assert_eq!(PowerProfileFlag::PowerSave.pref_value(), "power_save");
    assert_eq!(PowerProfileFlag::AlwaysOn.pref_value(), "always_on");
}

#[test]
fn from_pref_value_round_trips() {
    for f in [PowerProfileFlag::MemorySaver, PowerProfileFlag::PowerSave, PowerProfileFlag::AlwaysOn] {
        assert_eq!(PowerProfileFlag::from_pref_value(f.pref_value()), Some(f));
    }
    assert_eq!(PowerProfileFlag::from_pref_value("bogus"), None);
}

#[test]
fn default_is_normal_with_no_flags() {
    let reg = PowerProfileRegistry::new();
    let flags = reg.get();
    assert!(flags.is_normal());
    assert_eq!(flags.active_pref_values(), Vec::<&str>::new());
    assert_eq!(flags.active_labels(), vec!["通常"]);
    assert_eq!(PowerProfileFlags::default(), flags);
}

#[test]
fn empty_array_explicitly_selects_normal() {
    let flags = PowerProfileFlags::from_pref_values(&[]).unwrap();
    assert!(flags.is_normal());
}

#[test]
fn normal_string_is_treated_as_no_flags_for_back_compat() {
    let flags = PowerProfileFlags::from_pref_values(&["normal"]).unwrap();
    assert!(flags.is_normal());
}

#[test]
fn unknown_value_is_rejected() {
    let err = PowerProfileFlags::from_pref_values(&["bogus"]).unwrap_err();
    assert_eq!(err, "bogus");
}

#[test]
fn set_then_get_reflects_new_value_immediately_without_restart() {
    let mut reg = PowerProfileRegistry::new();
    reg.set(PowerProfileFlags::from_pref_values(&["power_save"]).unwrap());
    assert!(reg.get().power_save);
    reg.set(PowerProfileFlags::from_pref_values(&["always_on"]).unwrap());
    assert!(reg.get().always_on);
    assert!(!reg.get().power_save);
}

#[test]
fn individual_power_save_triples_poll_interval() {
    let flags = PowerProfileFlags::from_pref_values(&["power_save"]).unwrap();
    let s = effective_settings(flags);
    assert_eq!(as_f64(s.poll_interval_multiplier), 3.0);
    assert_eq!(as_f64(s.memory_cache_limit_factor), 1.0);
}

#[test]
fn individual_always_on_shortens_poll_interval() {
    let flags = PowerProfileFlags::from_pref_values(&["always_on"]).unwrap();
    let s = effective_settings(flags);
    assert_eq!(as_f64(s.poll_interval_multiplier), 0.2);
    assert_eq!(as_f64(s.memory_cache_limit_factor), 1.0);
}

#[test]
fn individual_memory_saver_only_affects_memory_axis() {
    let flags = PowerProfileFlags::from_pref_values(&["memory_saver"]).unwrap();
    let s = effective_settings(flags);
    assert_eq!(as_f64(s.poll_interval_multiplier), 1.0);
    assert_eq!(as_f64(s.memory_cache_limit_factor), 0.25);
}

#[test]
fn normal_has_no_effect_on_either_axis() {
    let s = effective_settings(PowerProfileFlags::default());
    assert_eq!(as_f64(s.poll_interval_multiplier), 1.0);
    assert_eq!(as_f64(s.memory_cache_limit_factor), 1.0);
}

#[test]
fn memory_saver_plus_power_save_composes_both_effects_simultaneously() {
    let flags = PowerProfileFlags::from_pref_values(&["memory_saver", "power_save"]).unwrap();
    let s = effective_settings(flags);
    assert_eq!(as_f64(s.poll_interval_multiplier), 3.0);
    assert_eq!(as_f64(s.memory_cache_limit_factor), 0.25);
}

#[test]
fn power_save_plus_always_on_always_on_wins_the_poll_interval_axis() {
    let flags = PowerProfileFlags::from_pref_values(&["power_save", "always_on"]).unwrap();
    let s = effective_settings(flags);
    assert_eq!(as_f64(s.poll_interval_multiplier), 0.2);
}

#[test]
fn always_on_does_not_override_independent_memory_saver_axis() {
    let flags = PowerProfileFlags::from_pref_values(&["power_save", "always_on", "memory_saver"]).unwrap();
    let s = effective_settings(flags);
    assert_eq!(as_f64(s.poll_interval_multiplier), 0.2);
    assert_eq!(as_f64(s.memory_cache_limit_factor), 0.25);
}

#[test]
fn all_three_flags_active_simultaneously() {
    let flags = PowerProfileFlags::from_pref_values(&["memory_saver", "power_save", "always_on"]).unwrap();
    assert!(flags.memory_saver && flags.power_save && flags.always_on);
    let labels = flags.active_labels();
    assert_eq!(labels, vec!["省メモリ", "省電力", "常時電源接続"]);
    assert_eq!(flags.active_pref_values(), vec!["memory_saver", "power_save", "always_on"]);
}

#[test]
fn poll_interval_reflects_current_combination_live() {
    let mut reg = PowerProfileRegistry::new();
    let base = Duration::from_secs(300);

    assert_eq!(poll_interval(&reg, base), base);

    reg.set(PowerProfileFlags::from_pref_values(&["power_save"]).unwrap());
    assert_eq!(poll_interval(&reg, base), Duration::from_secs(900));

    reg.set(PowerProfileFlags::from_pref_values(&["always_on"]).unwrap());
    assert_eq!(poll_interval(&reg, base), Duration::from_secs(60));

    reg.set(PowerProfileFlags::from_pref_values(&["power_save", "memory_saver"]).unwrap());
    assert_eq!(poll_interval(&reg, base), Duration::from_secs(900));
}

#[test]
fn poll_interval_rounds_down_to_the_nanosecond() {
    let mut reg = PowerProfileRegistry::new();
    reg.set(PowerProfileFlags::from_pref_values(&["always_on"]).unwrap());
    assert_eq!(effective_poll_interval(&reg, 7), 1);
    assert_eq!(effective_poll_interval(&reg, u64::MAX), (u64::MAX / 5) as u128);
}
