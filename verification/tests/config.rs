use yuuki_core::{default_profile, LoaderType, Settings};

#[test]
fn default_profile_has_the_baseline_values() {
    let p = default_profile();
    assert_eq!(p.id, "default");
    assert_eq!(p.name, "Default Profile");
    assert_eq!(p.loader, LoaderType::Vanilla);
    assert_eq!(p.java.path, "/usr/lib/jvm/temurin/bin/java");
    assert_eq!(p.java.minimum_version, "17");
    assert_eq!(p.settings.ram_mb, 4096);
    assert_eq!(p.settings.java_flags, vec!["-XX:+UseG1GC".to_string()]);
}

#[test]
fn default_settings_are_empty() {
    let s = Settings::default();
    assert_eq!(s.ram_mb, 0);
    assert!(s.java_flags.is_empty());
}
