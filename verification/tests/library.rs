use dv_cli::cli::Cli;
use dv_cli::dotconfig::{sync_apps, AppConfig, ConfigOpt};
use dv_cli::once::{once_step, OnceAction, OnceEvent, OncePhase};
use dv_cli::os::{as_str, compat, compatible, from_name, LinuxKind, OsKind};
use dv_cli::packages::Packages;
use dv_cli::path::{copy_sources, default_config_dir, join_path, CheckedPath};
use dv_cli::registry::{ConfigError, Registry, UserConfig};
use dv_cli::value::{current_user, object_field, ssh_user, FieldError, ScriptObject, ScriptValue, UserPath};

fn text(s: &str) -> ScriptValue {
    ScriptValue::Str(s.to_string())
}

fn cli(directory: &str) -> Cli {
    Cli {
        directory: directory.to_string(),
        config: None,
        dbpath: None,
        dry_run: false,
        direct_run: false,
        entry: "main".to_string(),
        rargs: Vec::new(),
    }
}

#[test]
fn join_puts_one_separator_between_parts() {
    assert_eq!(join_path("/home/u", "x"), "/home/u/x");
    assert_eq!(join_path("/home/u/", "x"), "/home/u/x");
    assert_eq!(join_path("", "x"), "x");
}

#[test]
fn join_with_absolute_component_replaces_base() {
    assert_eq!(join_path("/home/u", "/etc/dv"), "/etc/dv");
}

#[test]
fn join_with_empty_component_adds_separator() {
    assert_eq!(join_path("/home/u", ""), "/home/u/");
    assert_eq!(join_path("/home/u/", ""), "/home/u/");
}

#[test]
fn default_config_dir_is_under_home() {
    assert_eq!(default_config_dir("/home/alice"), "/home/alice/.config/dv/");
    assert_eq!(default_config_dir("/root/"), "/root/.config/dv/");
}

#[test]
fn copy_sources_of_a_file_is_the_file() {
    let got = copy_sources(&CheckedPath::File("/etc/hosts".to_string()));
    assert_eq!(got, vec!["/etc/hosts".to_string()]);
}

#[test]
fn copy_sources_of_a_directory_joins_each_entry() {
    let info = CheckedPath::Dir {
        path: "/srv/conf".to_string(),
        files: vec!["a.toml".to_string(), "sub/b.toml".to_string()],
    };
    assert_eq!(copy_sources(&info), vec!["/srv/conf/a.toml".to_string(), "/srv/conf/sub/b.toml".to_string()]);
    let empty = CheckedPath::Dir { path: "/srv".to_string(), files: Vec::new() };
    assert!(copy_sources(&empty).is_empty());
}

#[test]
fn cli_defaults_come_from_the_directory() {
    let c = cli("/home/u/.config/dv/");
    assert_eq!(c.db_path(), "/home/u/.config/dv/.cache");
    assert_eq!(c.config_path(), "/home/u/.config/dv/config.rn");
    assert_eq!(c.build_script_path(), "/home/u/.config/dv/__build.rn");
}

#[test]
fn cli_explicit_paths_win() {
    let mut c = cli("/d");
    c.dbpath = Some("/tmp/db".to_string());
    c.config = Some("/tmp/other.rn".to_string());
    assert_eq!(c.db_path(), "/tmp/db");
    assert_eq!(c.config_path(), "/tmp/other.rn");
    assert_eq!(c.build_script_path(), "/d/__build.rn");
}

#[test]
fn build_script_runs_only_when_present_and_not_direct() {
    let mut c = cli("/d");
    assert!(c.runs_build_script(true));
    assert!(!c.runs_build_script(false));
    c.direct_run = true;
    assert!(!c.runs_build_script(true));
    assert!(!c.runs_build_script(false));
}

#[test]
fn script_sources_end_with_the_config() {
    let c = cli("/d");
    assert_eq!(c.script_sources(Vec::new()), vec!["/d/config.rn".to_string()]);
    let listed = vec!["/d/a.rn".to_string(), "/d/b.rn".to_string()];
    assert_eq!(
        c.script_sources(listed),
        vec!["/d/a.rn".to_string(), "/d/b.rn".to_string(), "/d/config.rn".to_string()]
    );
}

#[test]
fn object_insert_then_get() {
    let mut o = ScriptObject::new();
    assert_eq!(o.len(), 0);
    o.insert("user".to_string(), text("alice"));
    o.insert("path".to_string(), text("~/x"));
    assert!(matches!(o.get("user"), Some(ScriptValue::Str(s)) if s == "alice"));
    assert!(matches!(o.get("path"), Some(ScriptValue::Str(s)) if s == "~/x"));
    assert!(o.get("other").is_none());
    o.insert("user".to_string(), ScriptValue::Bool(true));
    assert_eq!(o.len(), 2);
    assert!(matches!(o.get("user"), Some(ScriptValue::Bool(true))));
    let (name, _) = o.field_at(0);
    assert_eq!(name, "user");
}

#[test]
fn object_field_reads_all_named_fields() {
    let mut o = ScriptObject::new();
    o.insert("user".to_string(), text("alice"));
    o.insert("path".to_string(), text("/etc"));
    let got = object_field(&o, &["path", "user"]).ok().unwrap();
    assert_eq!(got, vec!["/etc".to_string(), "alice".to_string()]);
    assert!(object_field(&o, &[]).ok().unwrap().is_empty());
}

#[test]
fn object_field_reports_missing_field() {
    let mut o = ScriptObject::new();
    o.insert("user".to_string(), text("alice"));
    match object_field(&o, &["user", "path"]) {
        Err(FieldError::Missing(name)) => assert_eq!(name, "path"),
        _ => panic!("expected a missing field"),
    }
}

#[test]
fn object_field_reports_non_string_field_first() {
    let mut o = ScriptObject::new();
    o.insert("user".to_string(), ScriptValue::Bool(false));
    match object_field(&o, &["user", "path"]) {
        Err(FieldError::NotString(name)) => assert_eq!(name, "user"),
        _ => panic!("expected a non-string field"),
    }
}

#[test]
fn user_path_from_object() {
    let mut o = ScriptObject::new();
    o.insert("path".to_string(), text("~/.bashrc"));
    o.insert("user".to_string(), text("this"));
    let up = UserPath::from_object(&o).ok().unwrap();
    assert_eq!(up.user, "this");
    assert_eq!(up.path, "~/.bashrc");
    let mut p = ScriptObject::new();
    p.insert("path".to_string(), text("x"));
    assert!(matches!(UserPath::from_object(&p), Err(FieldError::Missing(n)) if n == "user"));
    let mut q = ScriptObject::new();
    q.insert("user".to_string(), text("x"));
    q.insert("path".to_string(), ScriptValue::Other);
    assert!(matches!(UserPath::from_object(&q), Err(FieldError::NotString(n)) if n == "path"));
}

#[test]
fn current_user_description() {
    let o = current_user();
    assert_eq!(o.len(), 3);
    assert_eq!(o.field_at(0).0, "hid");
    assert_eq!(o.field_at(1).0, "mount");
    assert_eq!(o.field_at(2).0, "os");
    assert!(matches!(o.get("hid"), Some(ScriptValue::Str(s)) if s == "local"));
    assert!(matches!(o.get("mount"), Some(ScriptValue::Str(s)) if s == "~/.local/share/dv"));
    assert!(matches!(o.get("os"), Some(ScriptValue::Str(s)) if s == "linux"));
}

#[test]
fn ssh_user_description() {
    let o = ssh_user("example.org");
    assert_eq!(o.len(), 3);
    assert_eq!(o.field_at(0).0, "host");
    assert!(matches!(o.get("host"), Some(ScriptValue::Str(s)) if s == "example.org"));
    assert!(matches!(o.get("mount"), Some(ScriptValue::Str(s)) if s == "~/.local/share/dv"));
    assert!(matches!(o.get("os"), Some(ScriptValue::Str(s)) if s == "linux"));
    assert!(o.get("hid").is_none());
}

#[test]
fn sync_apps_reads_names_and_entries() {
    let values = vec![
        text("nvim"),
        ScriptValue::Config(ConfigOpt::new("fish".to_string(), Some("link".to_string()))),
    ];
    let apps = sync_apps(values).ok().unwrap();
    assert_eq!(apps.len(), 2);
    assert!(matches!(&apps[0], AppConfig::Named(n) if n == "nvim"));
    assert!(matches!(&apps[1], AppConfig::Configured(c) if c.name == "fish" && c.copy_action.as_deref() == Some("link")));
}

#[test]
fn sync_apps_fails_on_first_foreign_value() {
    let values = vec![text("nvim"), ScriptValue::Bool(true), ScriptValue::Other];
    match sync_apps(values) {
        Err(e) => assert_eq!(e.index, 1),
        Ok(_) => panic!("expected an error"),
    }
    assert!(sync_apps(Vec::new()).ok().unwrap().is_empty());
}

#[test]
fn user_config_from_object() {
    let mut o = ScriptObject::new();
    o.insert("hid".to_string(), text("box"));
    o.insert("is_system".to_string(), ScriptValue::Bool(true));
    o.insert("os".to_string(), text("linux"));
    let c = UserConfig::from_object(&o).ok().unwrap();
    assert_eq!(c.is_system, Some(true));
    assert_eq!(c.vars, vec![("hid".to_string(), "box".to_string()), ("os".to_string(), "linux".to_string())]);
    assert_eq!(c.hid(), Some("box".to_string()));
}

#[test]
fn user_config_without_flag_or_host() {
    let mut o = ScriptObject::new();
    o.insert("host".to_string(), text("example.org"));
    let c = UserConfig::from_object(&o).ok().unwrap();
    assert_eq!(c.is_system, None);
    assert_eq!(c.hid(), None);
}

#[test]
fn user_config_errors() {
    let mut o = ScriptObject::new();
    o.insert("is_system".to_string(), text("yes"));
    assert!(matches!(UserConfig::from_object(&o), Err(ConfigError::NotBool(n)) if n == "is_system"));
    let mut p = ScriptObject::new();
    p.insert("hid".to_string(), text("x"));
    p.insert("mount".to_string(), ScriptValue::Bool(false));
    assert!(matches!(UserConfig::from_object(&p), Err(ConfigError::NotString(n)) if n == "mount"));
}

#[test]
fn registry_adds_users_and_devices() {
    let mut r: Registry<u32, &str> = Registry::new();
    assert!(!r.has_user("root"));
    assert!(r.add_device("box".to_string(), "x86_64"));
    assert!(!r.add_device("box".to_string(), "arm"));
    assert!(r.add_user("root".to_string(), 0, true, Some("box".to_string())).is_ok());
    assert!(r.add_user("alice".to_string(), 1000, false, Some("box".to_string())).is_ok());
    assert!(r.add_user("remote".to_string(), 7, false, None).is_ok());
    assert_eq!(r.user("alice"), Some(&1000));
    assert_eq!(r.user("bob"), None);
    let d = r.device("box").unwrap();
    assert_eq!(d.info, "x86_64");
    assert_eq!(d.system.as_deref(), Some("root"));
    assert_eq!(d.users, vec!["alice".to_string()]);
    assert!(r.has_device("box"));
    assert!(!r.has_device("root"));
    assert!(r.device("elsewhere").is_none());
}

#[test]
fn registry_refuses_a_second_user_with_the_same_id() {
    let mut r: Registry<u32, ()> = Registry::new();
    assert!(r.add_user("alice".to_string(), 1, false, None).is_ok());
    let err = r.add_user("alice".to_string(), 2, false, None).err().unwrap();
    assert_eq!(err.uid, "alice");
    assert_eq!(r.user("alice"), Some(&1));
}

#[test]
fn packages_new_is_empty() {
    let p = Packages::new();
    assert_eq!(p.to_string(), "empty");
    assert!(p.as_package().pm.is_empty());
}

#[test]
fn packages_index_set_replaces() {
    let mut p = Packages::new();
    p.index_set("apt", "git");
    p.index_set("pacman", "git");
    p.index_set("apt", "git vim");
    assert_eq!(p.to_string(), "apt:git vim pacman:git ");
    assert_eq!(
        p.as_package().pm,
        vec![("apt".to_string(), "git vim".to_string()), ("pacman".to_string(), "git".to_string())]
    );
}

#[test]
fn packages_add_assign_appends_after_a_space() {
    let mut p = Packages::new();
    p.index_set("apt", "git");
    let mut q = Packages::new();
    q.index_set("apt", "vim");
    q.index_set("brew", "fish");
    p.add_assign(&q);
    assert_eq!(p.to_string(), "apt:git vim brew: fish ");
}

#[test]
fn os_compat_follows_os2_rules() {
    let ubuntu = OsKind::Linux(LinuxKind::Ubuntu);
    assert!(compat(ubuntu, "ubuntu"));
    assert!(!compat(ubuntu, "arch"));
    assert!(compat(ubuntu, "linux"));
    assert!(compat(ubuntu, "unix"));
    assert!(compat(ubuntu, "unknown"));
    assert!(compat(ubuntu, "plan9"));
    assert!(!compat(OsKind::Windows, "unix"));
    assert!(compat(OsKind::MacOs, "unix"));
    assert!(!compat(OsKind::Unix, "linux"));
    assert!(compat(OsKind::Windows, "windows"));
    assert!(!compatible(OsKind::Unknown, OsKind::MacOs));
}

#[test]
fn os_names_round_trip() {
    let all = [
        OsKind::Unknown,
        OsKind::Linux(LinuxKind::Unknown),
        OsKind::Linux(LinuxKind::Alpine),
        OsKind::Linux(LinuxKind::Arch),
        OsKind::Linux(LinuxKind::Debian),
        OsKind::Linux(LinuxKind::Fedora),
        OsKind::Linux(LinuxKind::Manjaro),
        OsKind::Linux(LinuxKind::Ubuntu),
        OsKind::Windows,
        OsKind::MacOs,
        OsKind::Unix,
    ];
    for k in all {
        assert!(from_name(&as_str(k)) == k);
        assert!(compat(k, &as_str(k)));
    }
    assert_eq!(as_str(OsKind::Linux(LinuxKind::Unknown)), "linux");
    assert!(from_name("manjaro") == OsKind::Linux(LinuxKind::Manjaro));
    assert!(from_name("unknown") == OsKind::Unknown);
}

#[test]
fn once_runs_the_function_when_pending() {
    let (p, a) = once_step(OncePhase::Start, OnceEvent::Begin).unwrap();
    assert!(a == OnceAction::Test);
    let (p, a) = once_step(p, OnceEvent::Tested { pending: true }).unwrap();
    assert!(a == OnceAction::Run);
    let (p, a) = once_step(p, OnceEvent::Ran { result: true }).unwrap();
    assert!(a == OnceAction::Mark);
    let (p, a) = once_step(p, OnceEvent::Marked).unwrap();
    assert!(a == OnceAction::Return { result: true });
    assert!(once_step(p, OnceEvent::Begin).is_none());
}

#[test]
fn once_skips_the_function_when_done() {
    let (p, _) = once_step(OncePhase::Start, OnceEvent::Begin).unwrap();
    let (p, a) = once_step(p, OnceEvent::Tested { pending: false }).unwrap();
    assert!(a == OnceAction::Return { result: false });
    assert!(p == OncePhase::Finished { result: false });
    assert!(once_step(OncePhase::Running, OnceEvent::Marked).is_none());
}

#[test]
fn user_config_hid_is_the_first_setting() {
    let c = UserConfig {
        is_system: None,
        vars: vec![
            ("os".to_string(), "linux".to_string()),
            ("hid".to_string(), "first".to_string()),
            ("hid".to_string(), "second".to_string()),
        ],
    };
    assert_eq!(c.hid(), Some("first".to_string()));
}

#[test]
fn defaults_are_empty() {
    let p = Packages::default();
    assert_eq!(p.to_string(), "empty");
    let c = ConfigOpt::default();
    assert_eq!(c.name, "");
    assert!(c.copy_action.is_none());
    let d = dv_cli::registry::Device::new(3u8);
    assert_eq!(d.info, 3);
    assert!(d.system.is_none());
    assert!(d.users.is_empty());
}

#[test]
fn packages_add_assign_with_empty_table_changes_nothing() {
    let mut p = Packages::new();
    p.index_set("dnf", "gcc");
    p.add_assign(&Packages::new());
    assert_eq!(p.to_string(), "dnf:gcc ");
}

#[test]
fn prepare_user_checks_the_id_before_the_description() {
    let mut r: Registry<(), ()> = Registry::new();
    assert!(r.add_user("root".to_string(), (), true, None).is_ok());
    let mut bad = ScriptObject::new();
    bad.insert("is_system".to_string(), text("no"));
    assert!(matches!(r.prepare_user("root", &bad), Err(dv_cli::registry::AddUserError::Exists(e)) if e.uid == "root"));
    assert!(matches!(
        r.prepare_user("alice", &bad),
        Err(dv_cli::registry::AddUserError::Config(ConfigError::NotBool(n))) if n == "is_system"
    ));
    let mut good = ScriptObject::new();
    good.insert("hid".to_string(), text("box"));
    let cfg = r.prepare_user("alice", &good).ok().unwrap();
    assert_eq!(cfg.hid(), Some("box".to_string()));
}

#[test]
fn needs_device_only_for_unknown_hosts() {
    let mut r: Registry<(), u8> = Registry::new();
    assert!(!r.needs_device(&None));
    assert!(r.needs_device(&Some("box".to_string())));
    r.add_device("box".to_string(), 1);
    assert!(!r.needs_device(&Some("box".to_string())));
}

#[test]
fn each_user_fills_one_device_slot() {
    let mut r: Registry<(), u8> = Registry::new();
    r.add_device("box".to_string(), 0);
    r.add_device("vm".to_string(), 1);
    assert!(r.add_user("root".to_string(), (), true, Some("box".to_string())).is_ok());
    assert!(r.add_user("admin".to_string(), (), true, Some("box".to_string())).is_ok());
    assert!(r.add_user("alice".to_string(), (), false, Some("vm".to_string())).is_ok());
    assert!(r.add_user("alice".to_string(), (), false, Some("box".to_string())).is_err());
    let b = r.device("box").unwrap();
    assert_eq!(b.system.as_deref(), Some("admin"));
    assert!(b.users.is_empty());
    let v = r.device("vm").unwrap();
    assert!(v.system.is_none());
    assert_eq!(v.users, vec!["alice".to_string()]);
}
