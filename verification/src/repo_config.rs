//! The configuration that a repo can carry: `.vm.toml` at its root.

use crate::config;
use crate::exit::{usage, Failure};
use crate::json;
use crate::text;
use vstd::prelude::*;

verus! {

/// What a repo configures.
#[derive(Debug)]
pub struct RepoConfig {
    /// The command that sets a fresh guest checkout up.
    pub on_first_sync: Option<String>,
    /// What is put in front of every guest command.
    pub wrap: Vec<String>,
}

/// What was found where a repo's configuration would be.
#[derive(Debug)]
pub enum Found {
    /// No file.
    Nothing,
    /// A file that could not be read, and why.
    Unreadable(String),
    /// A file with this text.
    Text(String),
}

impl Default for RepoConfig {
    /// Nothing is configured.
    fn default() -> (r: RepoConfig)
        ensures
            r.on_first_sync is None,
            r.wrap@.len() == 0,
    {
        RepoConfig { on_first_sync: None, wrap: Vec::new() }
    }
}

/// The fields of a repo's configuration.
pub open spec fn known_keys() -> Seq<Seq<char>> {
    seq!["on_first_sync"@, "wrap"@]
}

/// The prefix in the fields of a repo's configuration, or what is wrong with it.
/// Without the field there is none.
pub open spec fn wrap_field(fields: Seq<(Seq<char>, Seq<char>)>) -> Result<
    Seq<Seq<char>>,
    Seq<char>,
> {
    match json::field(fields, "wrap"@) {
        None => Ok(Seq::empty()),
        Some(value) => json::strings_in(value),
    }
}

/// What the fields of a repo's configuration come to, or what is wrong with them.
pub open spec fn fields_say(fields: Seq<(Seq<char>, Seq<char>)>) -> Result<
    (Option<Seq<char>>, Seq<Seq<char>>),
    Seq<char>,
> {
    if config::first_stranger(fields, known_keys()) is Some {
        Err(
            config::unknown_field(
                config::first_stranger(fields, known_keys())->0,
                "`on_first_sync` or `wrap`"@,
            ),
        )
    } else {
        match json::given_text(fields, "on_first_sync"@) {
            Err(e) => Err(e),
            Ok(hook) => match wrap_field(fields) {
                Err(e) => Err(e),
                Ok(wrap) => Ok((hook, wrap)),
            },
        }
    }
}

/// What the text of a repo's configuration comes to, or what is wrong with it.
pub open spec fn text_says(text: Seq<char>) -> Result<
    (Option<Seq<char>>, Seq<Seq<char>>),
    Seq<char>,
> {
    match json::toml_in(text) {
        Err(e) => Err(e),
        Ok(table) => match json::fields_in(table) {
            Err(e) => Err(e),
            Ok(fields) => fields_say(fields),
        },
    }
}

impl RepoConfig {
    /// What the configuration comes to.
    pub open spec fn means(self) -> (Option<Seq<char>>, Seq<Seq<char>>) {
        (text::opt_string(self.on_first_sync), text::views(self.wrap@))
    }

    /// The configuration that a text is, or what is wrong with it.
    pub fn parse(text: &str) -> (r: Result<RepoConfig, String>)
        ensures
            match r {
                Ok(cfg) => json::ok(text_says(text@), cfg.means()),
                Err(e) => json::bad(text_says(text@), e@),
            },
    {
        let table: String = match json::read_toml(text) {
            Ok(t) => t,
            Err(e) => {
                return Err(e);
            },
        };
        let fields: Vec<(String, String)> = match json::read_fields(table.as_str()) {
            Ok(fields) => fields,
            Err(e) => {
                return Err(e);
            },
        };
        let ghost all = json::pairs(fields@);
        let ghost known = known_keys();
        let mut i: usize = 0;
        assert(all.skip(0) =~= all);
        while i < fields.len()
            invariant
                i <= fields@.len(),
                all == json::pairs(fields@),
                known == known_keys(),
                json::ok(json::toml_in(text@), table@),
                json::ok(json::fields_in(table@), all),
                config::first_stranger(all, known) == config::first_stranger(
                    all.skip(i as int),
                    known,
                ),
            decreases fields@.len() - i,
        {
            let key: &str = fields[i].0.as_str();
            assert(all.skip(i as int)[0] == (key@, fields@[i as int].1@));
            assert(known[0] == "on_first_sync"@ && known[1] == "wrap"@);
            if !text::same(key, "on_first_sync") && !text::same(key, "wrap") {
                assert(!known.contains(key@));
                return Err(config::stranger(key, "`on_first_sync` or `wrap`"));
            }
            assert(known.contains(key@));
            assert(all.skip(i as int).skip(1) =~= all.skip(i + 1));
            i = i + 1;
        }
        assert(config::first_stranger(all.skip(i as int), known) is None);
        let on_first_sync: Option<String> = match json::text_if_given(&fields, "on_first_sync") {
            Ok(s) => s,
            Err(e) => {
                return Err(e);
            },
        };
        match json::find(&fields, "wrap") {
            None => {
                let cfg = RepoConfig { on_first_sync, wrap: Vec::new() };
                assert(text::views(cfg.wrap@) =~= Seq::<Seq<char>>::empty());
                Ok(cfg)
            },
            Some(value) => match json::read_strings(value) {
                Ok(wrap) => Ok(RepoConfig { on_first_sync, wrap }),
                Err(e) => Err(e),
            },
        }
    }

    /// Where the configuration of a repo is.
    pub fn path(root: &str) -> (r: String)
        ensures
            r@ == config::path_below(root@, ".vm.toml"@),
    {
        config::below(root, ".vm.toml")
    }

    /// The configuration of a repo. No file is no error; a file that cannot be
    /// read or parsed is the user's to fix.
    pub fn load(path: &str, found: Found) -> (r: Result<RepoConfig, Failure>)
        ensures
            match found {
                Found::Nothing => r matches Ok(c) && c.on_first_sync is None && c.wrap@.len() == 0,
                Found::Unreadable(why) => r matches Err(e) && e is Usage && e.says()
                    == "cannot read "@ + path@ + " ("@ + why@ + ")"@,
                Found::Text(text) => match r {
                    Ok(cfg) => json::ok(text_says(text@), cfg.means()),
                    Err(e) => e is Usage && (text_says(text@) matches Err(why) && e.says()
                        == "invalid "@ + path@ + " — "@ + why),
                },
            },
    {
        match found {
            Found::Nothing => Ok(RepoConfig::default()),
            Found::Unreadable(why) => {
                let mut msg = "cannot read ".to_owned();
                msg.append(path);
                msg.append(" (");
                msg.append(why.as_str());
                msg.append(")");
                Err(usage(msg))
            },
            Found::Text(text) => match RepoConfig::parse(text.as_str()) {
                Ok(cfg) => Ok(cfg),
                Err(why) => {
                    let mut msg = "invalid ".to_owned();
                    msg.append(path);
                    msg.append(" — ");
                    msg.append(why.as_str());
                    Err(usage(msg))
                },
            },
        }
    }
}

/// A repo's file says what its two fields hold, each where it is there: a hook that is a
/// string, and a wrapping that is a list of strings. Neither has to be there, and no other
/// field may be.
pub proof fn a_repo_says_its_hook_and_its_wrapping(
    hook: Seq<char>,
    wrap: Seq<char>,
    key: Seq<char>,
    value: Seq<char>,
    said: Seq<char>,
    words: Seq<Seq<char>>,
)
    ensures
        fields_say(Seq::empty()) == Ok::<(Option<Seq<char>>, Seq<Seq<char>>), Seq<char>>(
            (None, Seq::empty()),
        ),
        json::ok(json::string_in(hook), said) ==> json::ok(
            fields_say(seq![("on_first_sync"@, hook)]),
            (Some(said), Seq::<Seq<char>>::empty()),
        ),
        json::string_in(hook) is Err ==> fields_say(seq![("on_first_sync"@, hook)]) is Err,
        json::ok(json::strings_in(wrap), words) ==> json::ok(
            fields_say(seq![("wrap"@, wrap)]),
            (None::<Seq<char>>, words),
        ),
        json::strings_in(wrap) is Err ==> fields_say(seq![("wrap"@, wrap)]) is Err,
        json::ok(json::string_in(hook), said) && json::ok(json::strings_in(wrap), words)
            ==> json::ok(
            fields_say(seq![("on_first_sync"@, hook), ("wrap"@, wrap)]),
            (Some(said), words),
        ),
        key != "on_first_sync"@ && key != "wrap"@ ==> fields_say(seq![(key, value)]) is Err,
{
    reveal_strlit("on_first_sync");
    reveal_strlit("wrap");
    assert("on_first_sync"@[0] == 'o' && "wrap"@[0] == 'w');
    let known = known_keys();
    assert(known[0] == "on_first_sync"@ && known[1] == "wrap"@);
    let none = Seq::<(Seq<char>, Seq<char>)>::empty();
    let a = seq![("on_first_sync"@, hook)];
    let b = seq![("wrap"@, wrap)];
    let c = seq![("on_first_sync"@, hook), ("wrap"@, wrap)];
    assert(a[0].0 == known[0] && b[0].0 == known[1] && c[0].0 == known[0] && c[1].0 == known[1]);
    config::the_first_stranger_is_named(none, key, value, none, known);
    config::the_first_stranger_is_named(a, key, value, none, known);
    config::the_first_stranger_is_named(b, key, value, none, known);
    config::the_first_stranger_is_named(c, key, value, none, known);
    assert(none + seq![(key, value)] + none =~= seq![(key, value)]);
    assert(json::distinct(a) && json::distinct(b) && json::distinct(c));
    json::field_at(a, 0);
    json::field_at(b, 0);
    json::field_at(c, 0);
    json::field_at(c, 1);
    json::no_field(none, "on_first_sync"@);
    json::no_field(none, "wrap"@);
    json::no_field(a, "wrap"@);
    json::no_field(b, "on_first_sync"@);
    if key != "on_first_sync"@ && key != "wrap"@ {
        assert(!known.contains(key));
    }
}

/// What a repo says is the table of its file; what is wrong with the file is said first.
pub proof fn a_repo_says_what_its_file_says(
    text: Seq<char>,
    table: Seq<char>,
    fields: Seq<(Seq<char>, Seq<char>)>,
    why: Seq<char>,
    cfg: RepoConfig,
)
    ensures
        json::bad(json::toml_in(text), why) ==> json::bad(text_says(text), why),
        json::ok(json::toml_in(text), table) && json::ok(json::fields_in(table), fields)
            ==> text_says(text) == fields_say(fields),
        cfg.means().0 is Some == cfg.on_first_sync is Some,
        cfg.on_first_sync matches Some(hook) ==> cfg.means().0 == Some(hook@),
        cfg.means().1 == text::views(cfg.wrap@),
{
}

} // verus!
