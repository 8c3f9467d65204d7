use vstd::prelude::*;
use vstd::string::*;

verus! {

/// Represents the loader family for a profile.
#[derive(Debug, Clone, Copy, PartialEq, Eq, Structural)]
pub enum LoaderType {
    Vanilla,
    Forge,
    Fabric,
    Quilt,
    NeoForge,
}

/// Java runtime configuration attached to each profile.
#[derive(Debug, Clone)]
pub struct JavaConfig {
    pub path: String,
    pub minimum_version: String,
}

/// Settings that users can tune per-profile.
#[derive(Debug, Clone)]
pub struct Settings {
    pub ram_mb: u32,
    pub java_flags: Vec<String>,
}

/// Profile metadata persisted to disk.
#[derive(Debug, Clone)]
pub struct ProfileConfig {
    pub id: String,
    pub name: String,
    pub loader: LoaderType,
    pub java: JavaConfig,
    pub settings: Settings,
}

impl Default for Settings {
    /// An empty settings block: no memory reservation and no extra flags.
    fn default() -> (s: Settings)
        ensures
            s.ram_mb == 0,
            s.java_flags@.len() == 0,
    {
        Settings { ram_mb: 0, java_flags: Vec::new() }
    }
}

/// Returns a baseline profile useful for onboarding.
pub fn default_profile() -> (p: ProfileConfig)
    ensures
        p.id@ == "default"@,
        p.name@ == "Default Profile"@,
        p.loader == LoaderType::Vanilla,
        p.java.path@ == "/usr/lib/jvm/temurin/bin/java"@,
        p.java.minimum_version@ == "17"@,
        p.settings.ram_mb == 4096,
        p.settings.java_flags@.len() == 1,
        p.settings.java_flags@[0]@ == "-XX:+UseG1GC"@,
{
    let mut java_flags: Vec<String> = Vec::new();
    java_flags.push(String::from_str("-XX:+UseG1GC"));
    ProfileConfig {
        id: String::from_str("default"),
        name: String::from_str("Default Profile"),
        loader: LoaderType::Vanilla,
        java: JavaConfig {
            path: String::from_str("/usr/lib/jvm/temurin/bin/java"),
            minimum_version: String::from_str("17"),
        },
        settings: Settings { ram_mb: 4096, java_flags },
    }
}

} // verus!
