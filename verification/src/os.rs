//! Operating systems as scripts name and compare them.

use vstd::prelude::*;
use vstd::string::*;

use os2::{LinuxOs, Os};

verus! {

/// A Linux distribution; `Unknown` stands for Linux in general.
#[derive(PartialEq, Eq, Structural, Clone, Copy)]
pub enum LinuxKind {
    Unknown,
    Alpine,
    Arch,
    Debian,
    Fedora,
    Manjaro,
    Ubuntu,
}

/// An operating system.
#[derive(PartialEq, Eq, Structural, Clone, Copy)]
pub enum OsKind {
    Unknown,
    Linux(LinuxKind),
    Windows,
    MacOs,
    Unix,
}

/// The name of a Linux distribution.
pub open spec fn linux_name(l: LinuxKind) -> Seq<char> {
    match l {
        LinuxKind::Unknown => "linux"@,
        LinuxKind::Alpine => "alpine"@,
        LinuxKind::Arch => "arch"@,
        LinuxKind::Debian => "debian"@,
        LinuxKind::Fedora => "fedora"@,
        LinuxKind::Manjaro => "manjaro"@,
        LinuxKind::Ubuntu => "ubuntu"@,
    }
}

/// The name of an operating system.
pub open spec fn os_name(k: OsKind) -> Seq<char> {
    match k {
        OsKind::Unknown => "unknown"@,
        OsKind::Linux(l) => linux_name(l),
        OsKind::Windows => "windows"@,
        OsKind::MacOs => "macos"@,
        OsKind::Unix => "unix"@,
    }
}

/// The operating system a name stands for: a Linux distribution's name, or
/// `windows`, `macos`, `unix`; any other name stands for an unknown system.
pub open spec fn parse_os_spec(s: Seq<char>) -> OsKind {
    if s == "linux"@ {
        OsKind::Linux(LinuxKind::Unknown)
    } else if s == "alpine"@ {
        OsKind::Linux(LinuxKind::Alpine)
    } else if s == "arch"@ {
        OsKind::Linux(LinuxKind::Arch)
    } else if s == "debian"@ {
        OsKind::Linux(LinuxKind::Debian)
    } else if s == "fedora"@ {
        OsKind::Linux(LinuxKind::Fedora)
    } else if s == "manjaro"@ {
        OsKind::Linux(LinuxKind::Manjaro)
    } else if s == "ubuntu"@ {
        OsKind::Linux(LinuxKind::Ubuntu)
    } else if s == "windows"@ {
        OsKind::Windows
    } else if s == "macos"@ {
        OsKind::MacOs
    } else if s == "unix"@ {
        OsKind::Unix
    } else {
        OsKind::Unknown
    }
}

/// Whether a system `this` can serve what is asked for as `other`: anything
/// serves an unknown system; any Linux serves Linux in general; a particular
/// distribution only serves itself; Windows and macOS only serve themselves;
/// Linux, Unix and macOS serve Unix.
pub open spec fn compatible_spec(this: OsKind, other: OsKind) -> bool {
    match other {
        OsKind::Unknown => true,
        OsKind::Linux(LinuxKind::Unknown) => this is Linux,
        OsKind::Linux(l) => match this {
            OsKind::Linux(t) => t == l,
            _ => false,
        },
        OsKind::Windows => this == OsKind::Windows,
        OsKind::MacOs => this == OsKind::MacOs,
        OsKind::Unix => this is Linux || this is Unix || this is MacOs,
    }
}

/// The system named `s`, as `os2::Os::from` reads it.
#[verifier::external_body]
fn parse_os(s: &str) -> (k: OsKind)
    ensures
        k == parse_os_spec(s@),
{
    match Os::from(s) {
        Os::Unknown => OsKind::Unknown,
        Os::Windows => OsKind::Windows,
        Os::MacOs => OsKind::MacOs,
        Os::Unix => OsKind::Unix,
        Os::Linux(LinuxOs::Unknown) => OsKind::Linux(LinuxKind::Unknown),
        Os::Linux(LinuxOs::Alpine) => OsKind::Linux(LinuxKind::Alpine),
        Os::Linux(LinuxOs::Arch) => OsKind::Linux(LinuxKind::Arch),
        Os::Linux(LinuxOs::Debian) => OsKind::Linux(LinuxKind::Debian),
        Os::Linux(LinuxOs::Fedora) => OsKind::Linux(LinuxKind::Fedora),
        Os::Linux(LinuxOs::Manjaro) => OsKind::Linux(LinuxKind::Manjaro),
        Os::Linux(LinuxOs::Ubuntu) => OsKind::Linux(LinuxKind::Ubuntu),
    }
}

/// Whether `this` can serve `other` (see `compatible_spec`).
pub fn compatible(this: OsKind, other: OsKind) -> (r: bool)
    ensures
        r == compatible_spec(this, other),
{
    match other {
        OsKind::Unknown => true,
        OsKind::Linux(LinuxKind::Unknown) => matches!(this, OsKind::Linux(_)),
        OsKind::Linux(l) => match this {
            OsKind::Linux(t) => t == l,
            _ => false,
        },
        OsKind::Windows => this == OsKind::Windows,
        OsKind::MacOs => this == OsKind::MacOs,
        OsKind::Unix => matches!(this, OsKind::Linux(_) | OsKind::Unix | OsKind::MacOs),
    }
}

/// Whether the system `this` can serve the system named `os`.
pub fn compat(this: OsKind, os: &str) -> (r: bool)
    ensures
        r == compatible_spec(this, parse_os_spec(os@)),
{
    let other = parse_os(os);
    compatible(this, other)
}

/// The name of the system `this`.
pub fn as_str(this: OsKind) -> (r: String)
    ensures
        r@ == os_name(this),
{
    let name: &str = match this {
        OsKind::Unknown => "unknown",
        OsKind::Linux(LinuxKind::Unknown) => "linux",
        OsKind::Linux(LinuxKind::Alpine) => "alpine",
        OsKind::Linux(LinuxKind::Arch) => "arch",
        OsKind::Linux(LinuxKind::Debian) => "debian",
        OsKind::Linux(LinuxKind::Fedora) => "fedora",
        OsKind::Linux(LinuxKind::Manjaro) => "manjaro",
        OsKind::Linux(LinuxKind::Ubuntu) => "ubuntu",
        OsKind::Windows => "windows",
        OsKind::MacOs => "macos",
        OsKind::Unix => "unix",
    };
    name.to_owned()
}

/// The system a name stands for (see `parse_os_spec`).
pub fn from_name(os: &str) -> (r: OsKind)
    ensures
        r == parse_os_spec(os@),
{
    parse_os(os)
}

/// Every system serves an unknown one: `compat(this, "unknown")` holds for
/// every `this`.
pub proof fn lemma_unknown_always_compatible(this: OsKind)
    ensures
        compatible_spec(this, parse_os_spec("unknown"@)),
{
    lemma_names_told_apart();
    assert(parse_os_spec("unknown"@) == OsKind::Unknown);
}

/// A name read back gives the system it names: reading `as_str(k)` gives `k`.
pub proof fn lemma_name_round_trip(k: OsKind)
    ensures
        parse_os_spec(os_name(k)) == k,
{
    lemma_names_told_apart();
}

/// Every system serves what its own name stands for.
pub proof fn lemma_compatible_with_own_name(k: OsKind)
    ensures
        compatible_spec(k, parse_os_spec(os_name(k))),
{
    lemma_name_round_trip(k);
}

/// A particular distribution is served only by that same distribution: plain
/// Linux, another distribution or a non-Linux system does not serve it.
pub proof fn lemma_distribution_served_only_by_itself(this: OsKind, l: LinuxKind)
    requires
        l != LinuxKind::Unknown,
    ensures
        compatible_spec(this, OsKind::Linux(l)) <==> this == OsKind::Linux(l),
        !compatible_spec(OsKind::Linux(LinuxKind::Unknown), OsKind::Linux(l)),
{
}

/// Linux in general is served by every Linux and nothing else; Unix by every
/// Linux, by Unix and by macOS; Windows and macOS only by themselves.
pub proof fn lemma_family_compatibility(this: OsKind)
    ensures
        compatible_spec(this, OsKind::Linux(LinuxKind::Unknown)) <==> this is Linux,
        compatible_spec(this, OsKind::Unix) <==> (this is Linux || this is Unix || this is MacOs),
        compatible_spec(this, OsKind::Windows) <==> this == OsKind::Windows,
        compatible_spec(this, OsKind::MacOs) <==> this == OsKind::MacOs,
        compatible_spec(this, OsKind::Unknown),
{
}

/// Every system serves itself.
pub proof fn lemma_compatible_reflexive(k: OsKind)
    ensures
        compatible_spec(k, k),
{
}

/// The name of every system is the name os2 gives it: one of os2's known
/// names, and the one that reads back as that system.
pub proof fn lemma_name_is_os2_name(k: OsKind)
    ensures
        os_name(k) == "unknown"@ || os_name(k) == "linux"@ || os_name(k) == "alpine"@ || os_name(k)
            == "arch"@ || os_name(k) == "debian"@ || os_name(k) == "fedora"@ || os_name(k)
            == "manjaro"@ || os_name(k) == "ubuntu"@ || os_name(k) == "windows"@ || os_name(k)
            == "macos"@ || os_name(k) == "unix"@,
        parse_os_spec(os_name(k)) == k,
        k == OsKind::Unknown <==> os_name(k) == "unknown"@,
        k == OsKind::Linux(LinuxKind::Unknown) <==> os_name(k) == "linux"@,
{
    lemma_names_told_apart();
}

/// The known names differ in length or in their first letter.
proof fn lemma_names_told_apart()
    ensures
        "unknown"@.len() == 7 && "unknown"@[0] == 'u',
        "linux"@.len() == 5 && "linux"@[0] == 'l',
        "alpine"@.len() == 6 && "alpine"@[0] == 'a',
        "arch"@.len() == 4 && "arch"@[0] == 'a',
        "debian"@.len() == 6 && "debian"@[0] == 'd',
        "fedora"@.len() == 6 && "fedora"@[0] == 'f',
        "manjaro"@.len() == 7 && "manjaro"@[0] == 'm',
        "ubuntu"@.len() == 6 && "ubuntu"@[0] == 'u',
        "windows"@.len() == 7 && "windows"@[0] == 'w',
        "macos"@.len() == 5 && "macos"@[0] == 'm',
        "unix"@.len() == 4 && "unix"@[0] == 'u',
{
    reveal_strlit("unknown");
    reveal_strlit("linux");
    reveal_strlit("alpine");
    reveal_strlit("arch");
    reveal_strlit("debian");
    reveal_strlit("fedora");
    reveal_strlit("manjaro");
    reveal_strlit("ubuntu");
    reveal_strlit("windows");
    reveal_strlit("macos");
    reveal_strlit("unix");
}

} // verus!
