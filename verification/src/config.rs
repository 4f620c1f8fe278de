//! The machine's VM inventory. It lives with the machine, not with a repo: any
//! repo on this host can use any configured VM.

use crate::exit::{usage, Failure};
use crate::json;
use crate::ordmap::OrdMap;
use crate::text;
use vstd::prelude::*;

verus! {

/// The configured VMs, by alias.
#[derive(Debug)]
pub struct Config {
    pub vm: OrdMap<VmConfig>,
}

/// One configured VM.
#[derive(Debug)]
pub struct VmConfig {
    /// The exact name that Parallels knows the VM by.
    pub parallels_name: String,
    pub os: GuestOs,
    /// The guest user to log in as.
    pub user: String,
    /// The guest directory that holds per-repo checkouts.
    pub work_root: String,
    /// The address to use in place of the one Parallels reports.
    pub host: Option<String>,
    /// Where the agent stands in the guest, in place of the usual path.
    pub agent_path: Option<String>,
}

/// The operating system of a guest, or of the host.
#[derive(Debug, Clone, Copy, PartialEq, Eq, Structural)]
pub enum GuestOs {
    Windows,
    Linux,
    Macos,
}

impl GuestOs {
    /// The name of an operating system.
    pub open spec fn name(self) -> Seq<char> {
        match self {
            GuestOs::Windows => "windows"@,
            GuestOs::Linux => "linux"@,
            GuestOs::Macos => "macos"@,
        }
    }

    /// The operating system that a target is literally named for.
    pub open spec fn named(s: Seq<char>) -> Option<GuestOs> {
        if s == "windows"@ {
            Some(GuestOs::Windows)
        } else if s == "linux"@ {
            Some(GuestOs::Linux)
        } else if s == "macos"@ {
            Some(GuestOs::Macos)
        } else {
            None
        }
    }

    /// The operating system that a target is literally named for, if any.
    pub fn parse(s: &str) -> (r: Option<GuestOs>)
        ensures
            r == GuestOs::named(s@),
    {
        if text::same(s, "windows") {
            Some(GuestOs::Windows)
        } else if text::same(s, "linux") {
            Some(GuestOs::Linux)
        } else if text::same(s, "macos") {
            Some(GuestOs::Macos)
        } else {
            None
        }
    }

    /// The name of the operating system, as [`GuestOs::parse`] reads it.
    pub fn as_str(self) -> (r: &'static str)
        ensures
            r@ == self.name(),
    {
        match self {
            GuestOs::Windows => "windows",
            GuestOs::Linux => "linux",
            GuestOs::Macos => "macos",
        }
    }

    /// The operating system that this process runs on, given the name the
    /// standard library has for it. Whatever is neither Windows nor macOS counts
    /// as Linux.
    pub fn current(target_os: &str) -> (r: GuestOs)
        ensures
            r == (if target_os@ == "windows"@ {
                GuestOs::Windows
            } else if target_os@ == "macos"@ {
                GuestOs::Macos
            } else {
                GuestOs::Linux
            }),
    {
        if text::same(target_os, "windows") {
            GuestOs::Windows
        } else if text::same(target_os, "macos") {
            GuestOs::Macos
        } else {
            GuestOs::Linux
        }
    }
}

/// Reading a name back gives the operating system it was written for.
pub proof fn parse_reads_back_the_name(os: GuestOs)
    ensures
        GuestOs::named(os.name()) == Some(os),
{
    reveal_strlit("windows");
    reveal_strlit("linux");
    reveal_strlit("macos");
    assert("windows"@.len() == 7);
    assert("linux"@.len() == 5 && "linux"@[0] == 'l');
    assert("macos"@.len() == 5 && "macos"@[0] == 'm');
}

/// Whatever is read as an operating system is its name, and nothing else is.
pub proof fn only_names_are_parsed(s: Seq<char>, os: GuestOs)
    ensures
        GuestOs::named(s) == Some(os) <==> s == os.name(),
{
    parse_reads_back_the_name(os);
}

/// The path `rel` below `base`, with a slash between them where one is needed.
pub open spec fn path_below(base: Seq<char>, rel: Seq<char>) -> Seq<char> {
    if base.len() == 0 || base.last() == '/' {
        base + rel
    } else {
        base + "/"@ + rel
    }
}

/// The path `rel` below `base`.
pub fn below(base: &str, rel: &str) -> (r: String)
    ensures
        r@ == path_below(base@, rel@),
{
    let v: Vec<char> = text::chars_of(base);
    let mut out = base.to_owned();
    if v.len() > 0 && v[v.len() - 1] != '/' {
        out.append("/");
    }
    out.append(rel);
    assert(out@ =~= path_below(base@, rel@));
    out
}

/// The aliases of the entries with this operating system, in order.
pub open spec fn aliases_with_os(items: Seq<(Seq<char>, VmConfig)>, os: GuestOs) -> Seq<Seq<char>>
    decreases items.len(),
{
    if items.len() == 0 {
        Seq::empty()
    } else {
        let earlier = aliases_with_os(items.drop_last(), os);
        if items.last().1.os == os {
            earlier.push(items.last().0)
        } else {
            earlier
        }
    }
}

/// What an unknown alias is answered with: what is configured, and, for a target
/// named after an operating system, which VM to rename.
pub open spec fn unknown_alias(
    items: Seq<(Seq<char>, VmConfig)>,
    alias: Seq<char>,
    path: Seq<char>,
) -> Seq<char> {
    "unknown VM alias '"@ + alias + "' (configured: "@ + text::joined(
        crate::ordmap::keys_of(items),
        ", "@,
    ) + ")"@ + (match GuestOs::named(alias) {
        None => Seq::<char>::empty(),
        Some(os) => "\n  '"@ + alias
            + "' is an OS name, but VMs are addressed by alias only. For a task line that runs natively on a "@
            + alias + " host and in the VM elsewhere, the VM's alias must itself be '"@ + alias
            + "' — "@ + (if aliases_with_os(items, os).len() == 0 {
            "no VM is configured with os = \""@ + alias + "\"."@
        } else {
            "rename [vm."@ + text::joined(aliases_with_os(items, os), "] / [vm."@) + "] to [vm."@
                + alias + "] in "@ + path + "."@
        }),
    })
}

// ── Reading a configuration ──────────────────────────────────────────────────

/// The fields that a VM is configured with.
pub open spec fn vm_keys() -> Seq<Seq<char>> {
    seq![
        "parallels_name"@,
        "os"@,
        "user"@,
        "work_root"@,
        "host"@,
        "agent_path"@,
    ]
}

fn is_vm_key(key: &str) -> (r: bool)
    ensures
        r == vm_keys().contains(key@),
{
    let found = text::same(key, "parallels_name") || text::same(key, "os") || text::same(
        key,
        "user",
    ) || text::same(key, "work_root") || text::same(key, "host") || text::same(key, "agent_path");
    proof {
        let keys = vm_keys();
        if found {
            if key@ == "parallels_name"@ {
                assert(keys[0] == key@);
            } else if key@ == "os"@ {
                assert(keys[1] == key@);
            } else if key@ == "user"@ {
                assert(keys[2] == key@);
            } else if key@ == "work_root"@ {
                assert(keys[3] == key@);
            } else if key@ == "host"@ {
                assert(keys[4] == key@);
            } else {
                assert(keys[5] == key@);
            }
        }
    }
    found
}

/// The first entry that is not one of these fields.
pub open spec fn first_stranger(
    fields: Seq<(Seq<char>, Seq<char>)>,
    known: Seq<Seq<char>>,
) -> Option<Seq<char>>
    decreases fields.len(),
{
    if fields.len() == 0 {
        None
    } else if !known.contains(fields[0].0) {
        Some(fields[0].0)
    } else {
        first_stranger(fields.skip(1), known)
    }
}

/// What is said of a field that is not expected.
pub open spec fn unknown_field(key: Seq<char>, expected: Seq<char>) -> Seq<char> {
    "unknown field `"@ + key + "`, expected "@ + expected
}

pub(crate) fn stranger(key: &str, expected: &str) -> (r: String)
    ensures
        r@ == unknown_field(key@, expected@),
{
    let mut out = "unknown field `".to_owned();
    out.append(key);
    out.append("`, expected ");
    out.append(expected);
    out
}

/// The operating system in the fields of a VM, or what is wrong with it.
pub open spec fn os_field(fields: Seq<(Seq<char>, Seq<char>)>) -> Result<GuestOs, Seq<char>> {
    match json::text_field(fields, "os"@) {
        Err(e) => Err(e),
        Ok(name) => match GuestOs::named(name) {
            Some(os) => Ok(os),
            None => Err(
                "unknown variant `"@ + name + "`, expected one of `windows`, `linux`, `macos`"@,
            ),
        },
    }
}

/// The fields that a text gives of a VM's configuration, or what is wrong with it.
pub open spec fn vm_in(text: Seq<char>) -> Result<Seq<(Seq<char>, Seq<char>)>, Seq<char>> {
    json::record_in(text, "VmConfig"@, vm_keys(), 6, true)
}

/// What is wrong with the text of a VM's configuration, if anything.
pub open spec fn vm_trouble(text: Seq<char>) -> Option<Seq<char>> {
    match vm_in(text) {
        Err(e) => Some(e),
        Ok(fields) => if first_stranger(fields, vm_keys()) is Some {
            Some(
                unknown_field(
                    first_stranger(fields, vm_keys())->0,
                    "one of `parallels_name`, `os`, `user`, `work_root`, `host`, `agent_path`"@,
                ),
            )
        } else if json::text_field(fields, "parallels_name"@) is Err {
            Some(json::text_field(fields, "parallels_name"@)->Err_0)
        } else if os_field(fields) is Err {
            Some(os_field(fields)->Err_0)
        } else if json::text_field(fields, "user"@) is Err {
            Some(json::text_field(fields, "user"@)->Err_0)
        } else if json::text_field(fields, "work_root"@) is Err {
            Some(json::text_field(fields, "work_root"@)->Err_0)
        } else if json::given_text(fields, "host"@) is Err {
            Some(json::given_text(fields, "host"@)->Err_0)
        } else if json::given_text(fields, "agent_path"@) is Err {
            Some(json::given_text(fields, "agent_path"@)->Err_0)
        } else {
            None
        },
    }
}

/// Whether a text is the configuration of a VM.
pub open spec fn vm_reads_as(text: Seq<char>, vm: VmConfig) -> bool {
    vm_in(text) matches Ok(fields) && {
        &&& json::ok(json::text_field(fields, "parallels_name"@), vm.parallels_name@)
        &&& json::ok(os_field(fields), vm.os)
        &&& json::ok(json::text_field(fields, "user"@), vm.user@)
        &&& json::ok(json::text_field(fields, "work_root"@), vm.work_root@)
        &&& json::ok(json::given_text(fields, "host"@), text::opt_string(vm.host))
        &&& json::ok(json::given_text(fields, "agent_path"@), text::opt_string(vm.agent_path))
    }
}

fn read_vm(text: &str) -> (r: Result<VmConfig, String>)
    ensures
        match r {
            Ok(vm) => vm_trouble(text@) is None && vm_reads_as(text@, vm),
            Err(e) => vm_trouble(text@) == Some(e@),
        },
{
    let keys: [&str; 6] = ["parallels_name", "os", "user", "work_root", "host", "agent_path"];
    assert(text::str_views(keys@) =~= vm_keys());
    let fields: Vec<(String, String)> = match json::read_record(text, "VmConfig", &keys, 6, true) {
        Ok(fields) => fields,
        Err(e) => {
            return Err(e);
        },
    };
    let ghost all = json::pairs(fields@);
    let mut i: usize = 0;
    assert(all.skip(0) =~= all);
    while i < fields.len()
        invariant
            i <= fields@.len(),
            all == json::pairs(fields@),
            json::ok(vm_in(text@), all),
            first_stranger(all, vm_keys()) == first_stranger(all.skip(i as int), vm_keys()),
        decreases fields@.len() - i,
    {
        assert(all.skip(i as int)[0] == (fields@[i as int].0@, fields@[i as int].1@));
        if !is_vm_key(fields[i].0.as_str()) {
            return Err(
                stranger(
                    fields[i].0.as_str(),
                    "one of `parallels_name`, `os`, `user`, `work_root`, `host`, `agent_path`",
                ),
            );
        }
        assert(all.skip(i as int).skip(1) =~= all.skip(i + 1));
        i = i + 1;
    }
    let parallels_name: String = match json::need_text(&fields, "parallels_name") {
        Ok(s) => s,
        Err(e) => {
            return Err(e);
        },
    };
    let os: GuestOs = match json::need_text(&fields, "os") {
        Ok(name) => match GuestOs::parse(name.as_str()) {
            Some(os) => os,
            None => {
                let mut msg = "unknown variant `".to_owned();
                msg.append(name.as_str());
                msg.append("`, expected one of `windows`, `linux`, `macos`");
                return Err(msg);
            },
        },
        Err(e) => {
            return Err(e);
        },
    };
    let user: String = match json::need_text(&fields, "user") {
        Ok(s) => s,
        Err(e) => {
            return Err(e);
        },
    };
    let work_root: String = match json::need_text(&fields, "work_root") {
        Ok(s) => s,
        Err(e) => {
            return Err(e);
        },
    };
    let host: Option<String> = match json::text_if_given(&fields, "host") {
        Ok(s) => s,
        Err(e) => {
            return Err(e);
        },
    };
    match json::text_if_given(&fields, "agent_path") {
        Ok(agent_path) => Ok(VmConfig { parallels_name, os, user, work_root, host, agent_path }),
        Err(e) => Err(e),
    }
}

/// What is wrong with the first of some VMs that is not configured well.
pub open spec fn first_vm_trouble(entries: Seq<(Seq<char>, Seq<char>)>) -> Option<Seq<char>>
    decreases entries.len(),
{
    if entries.len() == 0 {
        None
    } else if vm_trouble(entries[0].1) is Some {
        vm_trouble(entries[0].1)
    } else {
        first_vm_trouble(entries.skip(1))
    }
}

/// The VMs in the fields of a configuration, or what is wrong with them: nothing
/// else may stand there.
pub open spec fn vms_in(fields: Seq<(Seq<char>, Seq<char>)>) -> Result<
    Seq<(Seq<char>, Seq<char>)>,
    Seq<char>,
> {
    if first_stranger(fields, seq!["vm"@]) is Some {
        Err(unknown_field(first_stranger(fields, seq!["vm"@])->0, "`vm`"@))
    } else {
        match json::field(fields, "vm"@) {
            None => Err(json::missing("vm"@)),
            Some(value) => match json::fields_in(value) {
                Err(e) => Err(e),
                Ok(entries) => match first_vm_trouble(entries) {
                    Some(e) => Err(e),
                    None => Ok(entries),
                },
            },
        }
    }
}

/// The VMs in the text of a configuration, or what is wrong with it.
pub open spec fn config_in(text: Seq<char>) -> Result<Seq<(Seq<char>, Seq<char>)>, Seq<char>> {
    match json::toml_in(text) {
        Err(e) => Err(e),
        Ok(table) => match json::fields_in(table) {
            Err(e) => Err(e),
            Ok(fields) => vms_in(fields),
        },
    }
}

/// Whether some VMs are those of a configuration: the same aliases in their order,
/// and each configured as its text says.
pub open spec fn configured(
    entries: Seq<(Seq<char>, Seq<char>)>,
    items: Seq<(Seq<char>, VmConfig)>,
) -> bool {
    items.len() == entries.len() && forall|i: int|
        0 <= i < items.len() ==> {
            &&& (#[trigger] items[i]).0 == entries[i].0
            &&& vm_reads_as(entries[i].1, items[i].1)
        }
}

/// What is said of a configuration that cannot be read.
pub open spec fn unreadable(path: Seq<char>, why: Seq<char>) -> Seq<char> {
    "cannot read config at "@ + path + " ("@ + why
        + ") — create it, or point $VM_CONFIG at one"@
}

fn read_vms(text: &str) -> (r: Result<Config, String>)
    ensures
        match r {
            Ok(cfg) => json::fields_in(text@) matches Ok(entries) && first_vm_trouble(entries)
                is None && configured(entries, cfg.vm.items()),
            Err(e) => match json::fields_in(text@) {
                Err(why) => e@ == why,
                Ok(entries) => first_vm_trouble(entries) == Some(e@),
            },
        },
{
    let entries: Vec<(String, String)> = match json::read_fields(text) {
        Ok(entries) => entries,
        Err(e) => {
            return Err(e);
        },
    };
    let ghost all = json::pairs(entries@);
    let ghost f = |e: (String, VmConfig)| (e.0@, e.1);
    let mut out: Vec<(String, VmConfig)> = Vec::new();
    let mut i: usize = 0;
    assert(all.skip(0) =~= all);
    while i < entries.len()
        invariant
            i <= entries@.len(),
            all == json::pairs(entries@),
            json::ok(json::fields_in(text@), all),
            out@.len() == i,
            first_vm_trouble(all) == first_vm_trouble(all.skip(i as int)),
            forall|j: int|
                0 <= j < i ==> {
                    &&& (#[trigger] out@[j]).0@ == all[j].0
                    &&& vm_reads_as(all[j].1, out@[j].1)
                },
        decreases entries@.len() - i,
    {
        assert(all.skip(i as int)[0] == (entries@[i as int].0@, entries@[i as int].1@));
        match read_vm(entries[i].1.as_str()) {
            Ok(vm) => {
                let ghost before = out@;
                out.push((entries[i].0.as_str().to_owned(), vm));
                assert forall|j: int| 0 <= j < i + 1 implies {
                    &&& (#[trigger] out@[j]).0@ == all[j].0
                    &&& vm_reads_as(all[j].1, out@[j].1)
                } by {
                    if j < i {
                        assert(out@[j] == before[j]);
                    }
                }
            },
            Err(e) => {
                return Err(e);
            },
        }
        assert(all.skip(i as int).skip(1) =~= all.skip(i + 1));
        i = i + 1;
    }
    proof {
        let items = out@.map_values(f);
        assert forall|a: int, b: int| 0 <= a < b < items.len() implies text::less(
            #[trigger] items[a].0,
            #[trigger] items[b].0,
        ) by {
            assert(out@[a].0@ == all[a].0);
            assert(out@[b].0@ == all[b].0);
            assert(text::less(all[a].0, all[b].0));
        }
        assert forall|j: int| 0 <= j < items.len() implies {
            &&& (#[trigger] items[j]).0 == all[j].0
            &&& vm_reads_as(all[j].1, items[j].1)
        } by {
            assert(out@[j].0@ == all[j].0);
        }
    }
    Ok(Config { vm: OrdMap::from_sorted(out) })
}

impl Config {
    /// The configuration that a text is, or what is wrong with it. A field that is
    /// not expected is refused, and so is a VM that lacks one.
    pub fn parse(text: &str) -> (r: Result<Config, String>)
        ensures
            match r {
                Ok(cfg) => config_in(text@) matches Ok(entries) && configured(
                    entries,
                    cfg.vm.items(),
                ),
                Err(e) => json::bad(config_in(text@), e@),
            },
    {
        let table: String = match json::read_toml(text) {
            Ok(t) => t,
            Err(e) => {
                return Err(e);
            },
        };
        let fields: Vec<(String, String)> = match json::read_fields(table.as_str()) {
            Ok(fields) => fields,
            Err(e) => {
                return Err(e);
            },
        };
        let ghost all = json::pairs(fields@);
        let ghost known = seq!["vm"@];
        let mut i: usize = 0;
        assert(all.skip(0) =~= all);
        assert(known[0] == "vm"@);
        while i < fields.len()
            invariant
                i <= fields@.len(),
                all == json::pairs(fields@),
                known == seq!["vm"@],
                known[0] == "vm"@,
                json::ok(json::toml_in(text@), table@),
                json::ok(json::fields_in(table@), all),
                first_stranger(all, known) == first_stranger(all.skip(i as int), known),
            decreases fields@.len() - i,
        {
            assert(all.skip(i as int)[0] == (fields@[i as int].0@, fields@[i as int].1@));
            if !text::same(fields[i].0.as_str(), "vm") {
                assert(!known.contains(fields@[i as int].0@));
                return Err(stranger(fields[i].0.as_str(), "`vm`"));
            }
            assert(known.contains("vm"@));
            assert(all.skip(i as int).skip(1) =~= all.skip(i + 1));
            i = i + 1;
        }
        assert(first_stranger(all.skip(i as int), known) is None);
        match json::find(&fields, "vm") {
            None => Err(json::missing_field("vm")),
            Some(value) => read_vms(value),
        }
    }

    /// Where the configuration is: at `$VM_CONFIG`, or below the home directory.
    pub fn path(vm_config: Option<&str>, home: Option<&str>) -> (r: String)
        ensures
            r@ == (match vm_config {
                Some(p) => p@,
                None => path_below(
                    match home {
                        Some(h) => h@,
                        None => Seq::empty(),
                    },
                    ".config/vm/config.toml"@,
                ),
            }),
    {
        match vm_config {
            Some(p) => p.to_owned(),
            None => match home {
                Some(h) => below(h, ".config/vm/config.toml"),
                None => {
                    let r = below("", ".config/vm/config.toml");
                    proof {
                        reveal_strlit("");
                        assert(""@ =~= Seq::<char>::empty());
                    }
                    r
                },
            },
        }
    }

    /// What reading the configuration comes to: its text, or the usage error of
    /// a machine whose configuration cannot be read.
    pub fn read(path: &str, text: Result<String, String>) -> (r: Result<String, Failure>)
        ensures
            match text {
                Ok(t) => r matches Ok(u) && u@ == t@,
                Err(e) => r matches Err(f) && f is Usage && f.says() == unreadable(path@, e@),
            },
    {
        match text {
            Ok(t) => Ok(t),
            Err(e) => {
                let mut msg = "cannot read config at ".to_owned();
                msg.append(path);
                msg.append(" (");
                msg.append(e.as_str());
                msg.append(") — create it, or point $VM_CONFIG at one");
                Err(usage(msg))
            },
        }
    }

    /// The configuration at a path, given its text, or why there is none: one that
    /// cannot be read or is not valid is a usage error.
    pub fn load(path: &str, text: Result<String, String>) -> (r: Result<Config, Failure>)
        ensures
            match r {
                Ok(cfg) => text matches Ok(t) && (config_in(t@) matches Ok(entries) && configured(
                    entries,
                    cfg.vm.items(),
                )),
                Err(f) => f is Usage && (match text {
                    Err(e) => f.says() == unreadable(path@, e@),
                    Ok(t) => config_in(t@) matches Err(why) && f.says() == "invalid config at "@
                        + path@ + " — "@ + why,
                }),
            },
    {
        let text: String = match Config::read(path, text) {
            Ok(t) => t,
            Err(f) => {
                return Err(f);
            },
        };
        match Config::parse(text.as_str()) {
            Ok(cfg) => Ok(cfg),
            Err(e) => {
                let mut msg = "invalid config at ".to_owned();
                msg.append(path);
                msg.append(" — ");
                msg.append(e.as_str());
                Err(usage(msg))
            },
        }
    }

    /// The configuration at a path, where a parse into typed records took its text.
    /// Where it did not, its complaint stands: it shows where in the text it is.
    pub fn load_placed(path: &str, text: Result<String, String>, typed: Result<(), String>) -> (r:
        Result<Config, Failure>)
        ensures
            match r {
                Ok(cfg) => typed is Ok && (text matches Ok(t) && (config_in(t@) matches Ok(entries)
                    && configured(entries, cfg.vm.items()))),
                Err(f) => f is Usage && (match (text, typed) {
                    (Err(e), _) => f.says() == unreadable(path@, e@),
                    (Ok(_), Err(why)) => f.says() == "invalid config at "@ + path@ + " — "@ + why@,
                    (Ok(t), Ok(_)) => config_in(t@) matches Err(why) && f.says()
                        == "invalid config at "@ + path@ + " — "@ + why,
                }),
            },
    {
        match (text, typed) {
            (Ok(_), Err(why)) => {
                let mut msg = "invalid config at ".to_owned();
                msg.append(path);
                msg.append(" — ");
                msg.append(why.as_str());
                Err(usage(msg))
            },
            (text, _) => Config::load(path, text),
        }
    }

    /// The aliases, in order.
    pub fn aliases(&self) -> (r: Vec<String>)
        ensures
            text::views(r@) == self.vm.keys(),
    {
        let mut out: Vec<String> = Vec::new();
        let ghost keys = self.vm.keys();
        let n: usize = self.vm.len();
        let mut i: usize = 0;
        assert(text::views(out@) =~= keys.take(0));
        while i < n
            invariant
                i <= n,
                n == self.vm.items().len(),
                keys == self.vm.keys(),
                text::views(out@) == keys.take(i as int),
            decreases n - i,
        {
            let k = self.vm.key(i).to_owned();
            let ghost before = out@;
            out.push(k);
            assert(text::views(out@) =~= text::views(before).push(k@));
            assert(keys.take(i + 1) =~= keys.take(i as int).push(keys[i as int]));
            i = i + 1;
        }
        assert(keys.take(i as int) =~= keys);
        out
    }

    fn with_os(&self, os: GuestOs) -> (r: Vec<String>)
        ensures
            text::views(r@) == aliases_with_os(self.vm.items(), os),
    {
        let mut out: Vec<String> = Vec::new();
        let ghost items = self.vm.items();
        let n: usize = self.vm.len();
        let mut i: usize = 0;
        assert(items.take(0) =~= Seq::<(Seq<char>, VmConfig)>::empty());
        assert(text::views(out@) =~= Seq::<Seq<char>>::empty());
        while i < n
            invariant
                i <= n,
                n == items.len(),
                items == self.vm.items(),
                text::views(out@) == aliases_with_os(items.take(i as int), os),
            decreases n - i,
        {
            let ghost before = out@;
            assert(items.take(i + 1).drop_last() =~= items.take(i as int));
            if self.vm.value(i).os == os {
                let k = self.vm.key(i).to_owned();
                out.push(k);
                assert(text::views(out@) =~= text::views(before).push(k@));
            }
            i = i + 1;
        }
        assert(items.take(i as int) =~= items);
        out
    }

    /// The VM with this alias. An alias is the only way to address a VM; an
    /// unknown one is a usage error that lists what is configured. `path` is
    /// where the configuration was read from.
    pub fn get(&self, alias: &str, path: &str) -> (r: Result<&VmConfig, Failure>)
        ensures
            match r {
                Ok(vm) => self.vm@.contains_key(alias@) && *vm == self.vm@[alias@],
                Err(e) => !self.vm@.contains_key(alias@) && e is Usage && e.says()
                    == unknown_alias(self.vm.items(), alias@, path@),
            },
    {
        if let Some(vm) = self.vm.get(alias) {
            return Ok(vm);
        }
        let mut msg = "unknown VM alias '".to_owned();
        msg.append(alias);
        msg.append("' (configured: ");
        msg.append(text::join(&self.aliases(), ", ").as_str());
        msg.append(")");
        if let Some(os) = GuestOs::parse(alias) {
            let ghost head = msg@;
            let same_os: Vec<String> = self.with_os(os);
            assert(text::views(same_os@).len() == same_os@.len());
            let mut more = "\n  '".to_owned();
            more.append(alias);
            more.append(
                "' is an OS name, but VMs are addressed by alias only. For a task line that runs natively on a ",
            );
            more.append(alias);
            more.append(" host and in the VM elsewhere, the VM's alias must itself be '");
            more.append(alias);
            more.append("' — ");
            let mut fix = String::new();
            if same_os.len() == 0 {
                fix.append("no VM is configured with os = \"");
                fix.append(alias);
                fix.append("\".");
                assert(fix@ =~= "no VM is configured with os = \""@ + alias@ + "\"."@);
            } else {
                fix.append("rename [vm.");
                fix.append(text::join(&same_os, "] / [vm.").as_str());
                fix.append("] to [vm.");
                fix.append(alias);
                fix.append("] in ");
                fix.append(path);
                fix.append(".");
                assert(fix@ =~= "rename [vm."@ + text::joined(
                    aliases_with_os(self.vm.items(), os),
                    "] / [vm."@,
                ) + "] to [vm."@ + alias@ + "] in "@ + path@ + "."@);
            }
            more.append(fix.as_str());
            msg.append(more.as_str());
        }
        assert(msg@ =~= unknown_alias(self.vm.items(), alias@, path@));
        Err(usage(msg))
    }
}

/// A path below a directory is the directory's, a slash and the rest, however the
/// directory is written; below nothing it is the rest.
pub proof fn a_path_below_has_one_slash(base: Seq<char>, dir: Seq<char>, rel: Seq<char>)
    requires
        base.len() > 0,
        base.last() != '/',
        dir.len() > 0,
        dir.last() != '/',
    ensures
        path_below(base, rel) == base + seq!['/'] + rel,
        path_below(base + seq!['/'], rel) == base + seq!['/'] + rel,
        path_below(Seq::empty(), rel) == rel,
        path_below(path_below(base, dir), rel) == path_below(base, path_below(dir, rel)),
{
    reveal_strlit("/");
    assert("/"@ =~= seq!['/']);
    assert((base + seq!['/']).last() == '/');
    let inner = path_below(base, dir);
    assert(inner.last() == dir.last());
    assert(path_below(inner, rel) =~= path_below(base, path_below(dir, rel)));
}

/// The aliases of a system are those of the VMs that have it, in their order.
pub proof fn aliases_are_picked_by_their_system(
    items: Seq<(Seq<char>, VmConfig)>,
    alias: Seq<char>,
    vm: VmConfig,
    os: GuestOs,
)
    ensures
        aliases_with_os(Seq::empty(), os).len() == 0,
        vm.os == os ==> aliases_with_os(items.push((alias, vm)), os) == aliases_with_os(
            items,
            os,
        ).push(alias),
        vm.os != os ==> aliases_with_os(items.push((alias, vm)), os) == aliases_with_os(items, os),
{
    assert(items.push((alias, vm)).drop_last() =~= items);
}

/// An alias that is not configured is named in what is said of it, with those that are.
/// Where it is the name of a system, more is said than where it is not.
pub proof fn an_unknown_alias_is_named(
    items: Seq<(Seq<char>, VmConfig)>,
    alias: Seq<char>,
    path: Seq<char>,
)
    ensures
        ({
            let said = "unknown VM alias '"@ + alias + "' (configured: "@ + text::joined(
                crate::ordmap::keys_of(items),
                seq![',', ' '],
            ) + seq![')'];
            &&& alias != "windows"@ && alias != "linux"@ && alias != "macos"@ ==> unknown_alias(
                items,
                alias,
                path,
            ) == said
            &&& alias == "windows"@ || alias == "linux"@ || alias == "macos"@
                ==> text::starts_with(unknown_alias(items, alias, path), said) && unknown_alias(
                items,
                alias,
                path,
            ).len() > said.len()
        }),
{
    reveal_strlit(", ");
    reveal_strlit(")");
    assert(", "@ =~= seq![',', ' ']);
    assert(")"@ =~= seq![')']);
    let said = "unknown VM alias '"@ + alias + "' (configured: "@ + text::joined(
        crate::ordmap::keys_of(items),
        seq![',', ' '],
    ) + seq![')'];
    let whole = unknown_alias(items, alias, path);
    if GuestOs::named(alias) is None {
        assert(said + Seq::<char>::empty() =~= said);
    } else {
        reveal_strlit("\n  '");
        assert(whole.take(said.len() as int) =~= said);
        assert(whole.len() > said.len());
    }
}

/// A field that is none of the known ones is found, the first where there are several.
pub proof fn the_first_stranger_is_named(
    front: Seq<(Seq<char>, Seq<char>)>,
    key: Seq<char>,
    value: Seq<char>,
    rest: Seq<(Seq<char>, Seq<char>)>,
    known: Seq<Seq<char>>,
)
    requires
        forall|i: int| 0 <= i < front.len() ==> known.contains((#[trigger] front[i]).0),
    ensures
        first_stranger(front, known) is None,
        !known.contains(key) ==> first_stranger(front + seq![(key, value)] + rest, known) == Some(
            key,
        ),
    decreases front.len(),
{
    let all = front + seq![(key, value)] + rest;
    if front.len() == 0 {
        assert(all[0] == (key, value));
    } else {
        let tail = front.skip(1);
        assert(all[0] == front[0]);
        assert(all.skip(1) =~= tail + seq![(key, value)] + rest);
        assert forall|i: int| 0 <= i < tail.len() implies known.contains((#[trigger] tail[i]).0) by {
            assert(tail[i] == front[i + 1]);
        }
        the_first_stranger_is_named(tail, key, value, rest, known);
    }
}

/// A VM is configured by the fields that bear the names of its own. Four of them it must
/// have, and each is a string, the system one of three; the other two may be left out.
pub proof fn a_vm_is_configured_by_its_fields(
    text: Seq<char>,
    fields: Seq<(Seq<char>, Seq<char>)>,
    i: int,
    j: int,
    k: int,
    l: int,
    vm: VmConfig,
)
    requires
        json::ok(json::members_in(text), fields),
        json::distinct(fields),
        fields.len() == 4,
        0 <= i < 4,
        0 <= j < 4,
        0 <= k < 4,
        0 <= l < 4,
        i != j,
        i != k,
        i != l,
        j != k,
        j != l,
        k != l,
        fields[i].0 == "parallels_name"@,
        fields[j].0 == "os"@,
        fields[k].0 == "user"@,
        fields[l].0 == "work_root"@,
    ensures
        vm_reads_as(text, vm) <==> {
            &&& json::ok(json::string_in(fields[i].1), vm.parallels_name@)
            &&& json::ok(json::string_in(fields[j].1), vm.os.name())
            &&& json::ok(json::string_in(fields[k].1), vm.user@)
            &&& json::ok(json::string_in(fields[l].1), vm.work_root@)
            &&& vm.host is None
            &&& vm.agent_path is None
        },
        vm_trouble(text) is None <==> {
            &&& json::string_in(fields[i].1) is Ok
            &&& json::string_in(fields[k].1) is Ok
            &&& json::string_in(fields[l].1) is Ok
            &&& json::ok(json::string_in(fields[j].1), "windows"@) || json::ok(
                json::string_in(fields[j].1),
                "linux"@,
            ) || json::ok(json::string_in(fields[j].1), "macos"@)
        },
{
    reveal_strlit("parallels_name");
    reveal_strlit("os");
    reveal_strlit("user");
    reveal_strlit("work_root");
    reveal_strlit("host");
    reveal_strlit("agent_path");
    json::field_at(fields, i);
    json::field_at(fields, j);
    json::field_at(fields, k);
    json::field_at(fields, l);
    json::distinct_never_repeat(fields, vm_keys());
    let keys = vm_keys();
    assert(keys[0] == "parallels_name"@ && keys[1] == "os"@ && keys[2] == "user"@ && keys[3]
        == "work_root"@);
    assert("host"@[0] == 'h' && "agent_path"@[0] == 'a');
    assert("parallels_name"@[0] == 'p' && "os"@[0] == 'o' && "user"@[0] == 'u' && "work_root"@[0]
        == 'w');
    assert forall|m: int| 0 <= m < 4 implies keys.contains((#[trigger] fields[m]).0)
        && fields[m].0 != "host"@ && fields[m].0 != "agent_path"@ by {
        assert(m == i || m == j || m == k || m == l);
    }
    let none = Seq::<(Seq<char>, Seq<char>)>::empty();
    the_first_stranger_is_named(fields, "os"@, "os"@, none, keys);
    json::no_field(fields, "host"@);
    json::no_field(fields, "agent_path"@);
    if let Ok(name) = json::string_in(fields[j].1) {
        only_names_are_parsed(name, vm.os);
        only_names_are_parsed(name, GuestOs::Windows);
        only_names_are_parsed(name, GuestOs::Linux);
        only_names_are_parsed(name, GuestOs::Macos);
    }
}

/// Every table of VMs becomes one alias each, in their order and with that VM.
pub proof fn every_alias_has_its_own_vm(
    entries: Seq<(Seq<char>, Seq<char>)>,
    items: Seq<(Seq<char>, VmConfig)>,
    i: int,
)
    requires
        configured(entries, items),
    ensures
        items.len() == entries.len(),
        0 <= i < entries.len() ==> items[i].0 == entries[i].0 && vm_reads_as(
            entries[i].1,
            items[i].1,
        ),
{
}

/// A configuration holds the VMs and nothing else, and is in order exactly where each of
/// them is: the first that is not is what is said of it.
pub proof fn a_configuration_is_its_vms(
    value: Seq<char>,
    entries: Seq<(Seq<char>, Seq<char>)>,
    key: Seq<char>,
    i: int,
)
    requires
        json::ok(json::fields_in(value), entries),
    ensures
        (forall|j: int| 0 <= j < entries.len() ==> vm_trouble((#[trigger] entries[j]).1) is None)
            ==> json::ok(vms_in(seq![("vm"@, value)]), entries),
        0 <= i < entries.len() && vm_trouble(entries[i].1) is Some && (forall|j: int|
            0 <= j < i ==> vm_trouble((#[trigger] entries[j]).1) is None) ==> json::bad(
            vms_in(seq![("vm"@, value)]),
            vm_trouble(entries[i].1)->0,
        ),
        key != "vm"@ ==> vms_in(seq![("vm"@, value), (key, value)]) is Err,
        vms_in(Seq::empty()) is Err,
{
    let one = seq![("vm"@, value)];
    let known = seq!["vm"@];
    let none = Seq::<(Seq<char>, Seq<char>)>::empty();
    assert(known[0] == "vm"@);
    assert(one[0].0 == "vm"@);
    the_first_stranger_is_named(one, key, value, none, known);
    assert(one + seq![(key, value)] + none =~= seq![("vm"@, value), (key, value)]);
    assert(json::field(one, "vm"@) == Some(value));
    if key != "vm"@ {
        assert(!known.contains(key));
    }
    if forall|j: int| 0 <= j < entries.len() ==> vm_trouble((#[trigger] entries[j]).1) is None {
        no_vm_is_in_trouble(entries);
    }
    if 0 <= i < entries.len() && vm_trouble(entries[i].1) is Some && (forall|j: int|
        0 <= j < i ==> vm_trouble((#[trigger] entries[j]).1) is None) {
        the_first_vm_in_trouble(entries, i);
    }
}

proof fn no_vm_is_in_trouble(entries: Seq<(Seq<char>, Seq<char>)>)
    requires
        forall|j: int| 0 <= j < entries.len() ==> vm_trouble((#[trigger] entries[j]).1) is None,
    ensures
        first_vm_trouble(entries) is None,
    decreases entries.len(),
{
    if entries.len() > 0 {
        let tail = entries.skip(1);
        assert(vm_trouble(entries[0].1) is None);
        assert forall|j: int| 0 <= j < tail.len() implies vm_trouble(
            (#[trigger] tail[j]).1,
        ) is None by {
            assert(tail[j] == entries[j + 1]);
        }
        no_vm_is_in_trouble(tail);
    }
}

proof fn the_first_vm_in_trouble(entries: Seq<(Seq<char>, Seq<char>)>, i: int)
    requires
        0 <= i < entries.len(),
        vm_trouble(entries[i].1) is Some,
        forall|j: int| 0 <= j < i ==> vm_trouble((#[trigger] entries[j]).1) is None,
    ensures
        first_vm_trouble(entries) == vm_trouble(entries[i].1),
    decreases i,
{
    if i > 0 {
        let tail = entries.skip(1);
        assert(vm_trouble(entries[0].1) is None);
        assert(tail[i - 1] == entries[i]);
        assert forall|j: int| 0 <= j < i - 1 implies vm_trouble((#[trigger] tail[j]).1) is None by {
            assert(tail[j] == entries[j + 1]);
        }
        the_first_vm_in_trouble(tail, i - 1);
    }
}

/// A configuration is the table of its file: what is wrong with the file is what is said,
/// and else what is wrong with the table.
pub proof fn a_configuration_is_its_table(
    text: Seq<char>,
    table: Seq<char>,
    fields: Seq<(Seq<char>, Seq<char>)>,
    why: Seq<char>,
)
    ensures
        json::bad(json::toml_in(text), why) ==> json::bad(config_in(text), why),
        json::ok(json::toml_in(text), table) && json::ok(json::fields_in(table), fields)
            ==> config_in(text) == vms_in(fields),
        text::contains(unreadable(text, why), text),
        text::contains(unreadable(text, why), why),
{
    let (p, q, t) = (
        "cannot read config at "@,
        " ("@,
        ") — create it, or point $VM_CONFIG at one"@,
    );
    assert(unreadable(text, why) =~= p + text + (q + why + t));
    text::what_is_contained_is_there(p, text, q + why + t);
    text::what_is_contained_is_there(p + text + q, why, t);
}

/// The systems go by these names.
pub proof fn systems_have_their_names(os: GuestOs)
    ensures
        os == GuestOs::Windows ==> os.name() == "windows"@,
        os == GuestOs::Linux ==> os.name() == "linux"@,
        os == GuestOs::Macos ==> os.name() == "macos"@,
{
}

} // verus!
