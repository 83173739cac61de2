//! The hook installer's logic: the additive merge that installs this
//! system's hook entries into an existing configuration, and the removal
//! that strips exactly them back out.  Entries of this system are
//! identified by a marker substring (the status directory's name) in their
//! command; entries of anyone else are never touched.  Reading and writing
//! the configuration file is I/O and happens outside this crate, which sees
//! the configuration as named categories of entries.

use vstd::prelude::*;
use vstd::string::StringExecFns;
use crate::session::ClaudeHooksConfig;
use crate::store::view_opt_string;
use crate::strutil::{contains_str, has_substring, str_eq};

verus! {

/// The marker naming this system's entries: the status directory's name.
pub open spec fn spec_marker() -> Seq<char> {
    ".woodeye-status"@
}

/// One entry of a hook category: either an entry of this system (a shell
/// command, with an optional matcher), or anyone else's entry, carried as
/// its configuration text and never inspected beyond the marker test.
pub enum HookEntry {
    Foreign(String),
    Command { matcher: Option<String>, command: String },
}

/// A named hook category and its entries, in configuration order.
pub struct HookCategory {
    pub name: String,
    pub entries: Vec<HookEntry>,
}

/// A hook configuration: its categories, in configuration order.
pub struct HooksSettings {
    pub categories: Vec<HookCategory>,
}

/// The view of an entry: whether it is a command entry, its matcher, and
/// its command (or, for a foreign entry, its text).
pub type EntryV = (bool, Option<Seq<char>>, Seq<char>);

/// The view of a category: its name and its entries.
pub type CatV = (Seq<char>, Seq<EntryV>);

pub open spec fn entry_view(e: HookEntry) -> EntryV {
    match e {
        HookEntry::Foreign(t) => (false, None, t@),
        HookEntry::Command { matcher, command } => (true, view_opt_string(matcher), command@),
    }
}

pub open spec fn cat_view(c: HookCategory) -> CatV {
    (c.name@, c.entries@.map_values(|e: HookEntry| entry_view(e)))
}

pub open spec fn cats_view(cs: Seq<HookCategory>) -> Seq<CatV> {
    cs.map_values(|c: HookCategory| cat_view(c))
}

/// An entry of this system: its text carries the marker.
pub open spec fn spec_marked(e: EntryV) -> bool {
    has_substring(e.2, spec_marker())
}

/// Does this entry carry the marker?
pub fn entry_marked(e: &HookEntry) -> (r: bool)
    ensures
        r == spec_marked(entry_view(*e)),
{
    match e {
        HookEntry::Foreign(t) => contains_str(t.as_str(), ".woodeye-status"),
        HookEntry::Command { matcher: _, command } => contains_str(
            command.as_str(),
            ".woodeye-status",
        ),
    }
}

impl Clone for HookEntry {
    fn clone(&self) -> (r: Self)
        ensures
            r == *self,
    {
        match self {
            HookEntry::Foreign(t) => HookEntry::Foreign(t.clone()),
            HookEntry::Command { matcher, command } => HookEntry::Command {
                matcher: crate::session::clone_opt_string(matcher),
                command: command.clone(),
            },
        }
    }
}

impl Clone for HookCategory {
    fn clone(&self) -> (r: Self)
        ensures
            r.name == self.name,
            r.entries@ == self.entries@,
            cat_view(r) == cat_view(*self),
    {
        let mut entries: Vec<HookEntry> = Vec::new();
        let mut i: usize = 0;
        while i < self.entries.len()
            invariant
                i <= self.entries@.len(),
                entries@ =~= self.entries@.take(i as int),
            decreases self.entries@.len() - i,
        {
            entries.push(self.entries[i].clone());
            i += 1;
        }
        proof {
            assert(self.entries@.take(self.entries@.len() as int) =~= self.entries@);
        }
        HookCategory { name: self.name.clone(), entries }
    }
}

/// A status-writing hook command: create the status directory and write one
/// JSON status file under the project path's key (the `mid` part carries
/// the state and fields written).
pub open spec fn spec_status_cmd(dir: Seq<char>, mid: Seq<char>) -> Seq<char> {
    "mkdir -p "@ + dir + mid + dir
        + "/$(echo \"$CLAUDE_PROJECT_DIR\" | md5 | cut -c1-16).json"@
}

/// The command a tool event writes: a working-state status file naming the
/// tool, under the project path's key in the status directory.
pub open spec fn spec_tool_event_cmd(dir: Seq<char>) -> Seq<char> {
    spec_status_cmd(
        dir,
        " && echo '{\"project_path\":\"'\"$CLAUDE_PROJECT_DIR\"'\",\"state\":\"working\",\"last_tool\":\"'\"$CLAUDE_TOOL_NAME\"'\",\"timestamp\":'$(date +%s)'}' > "@,
    )
}

/// The command a permission request writes: a waiting-for-approval status
/// file naming the tool as the waiting reason.
pub open spec fn spec_permission_cmd(dir: Seq<char>) -> Seq<char> {
    spec_status_cmd(
        dir,
        " && echo '{\"project_path\":\"'\"$CLAUDE_PROJECT_DIR\"'\",\"state\":\"waiting_for_approval\",\"waiting_reason\":\"'\"$CLAUDE_TOOL_NAME\"'\",\"timestamp\":'$(date +%s)'}' > "@,
    )
}

/// The command a notification writes: a waiting-for-input status file.
pub open spec fn spec_notification_cmd(dir: Seq<char>) -> Seq<char> {
    spec_status_cmd(
        dir,
        " && echo '{\"project_path\":\"'\"$CLAUDE_PROJECT_DIR\"'\",\"state\":\"waiting_for_input\",\"timestamp\":'$(date +%s)'}' > "@,
    )
}

/// The command a session start writes: a working-state status file.
pub open spec fn spec_session_start_cmd(dir: Seq<char>) -> Seq<char> {
    spec_status_cmd(
        dir,
        " && echo '{\"project_path\":\"'\"$CLAUDE_PROJECT_DIR\"'\",\"state\":\"working\",\"timestamp\":'$(date +%s)'}' > "@,
    )
}

/// The command a session end runs: remove the path's status file.
pub open spec fn spec_cleanup_cmd(dir: Seq<char>) -> Seq<char> {
    "rm -f "@ + dir + "/$(echo \"$CLAUDE_PROJECT_DIR\" | md5 | cut -c1-16).json"@
}

/// The hook categories this system installs, given its status directory:
/// tool events record work (with the tool name, for the tool-aware
/// timeouts), permission requests and notifications record the waiting
/// states, session start records work, and stop and session end clean the
/// status file up.
pub open spec fn spec_woodeye_cats(dir: Seq<char>) -> Seq<CatV> {
    seq![
        ("PreToolUse"@, seq![(true, Some("*"@), spec_tool_event_cmd(dir))]),
        ("PostToolUse"@, seq![(true, Some("*"@), spec_tool_event_cmd(dir))]),
        ("PermissionRequest"@, seq![(true, None, spec_permission_cmd(dir))]),
        ("Notification"@, seq![(true, None, spec_notification_cmd(dir))]),
        ("Stop"@, seq![(true, None, spec_cleanup_cmd(dir))]),
        ("SessionStart"@, seq![(true, None, spec_session_start_cmd(dir))]),
        ("SessionEnd"@, seq![(true, None, spec_cleanup_cmd(dir))]),
    ]
}

/// Build a status-writing hook command.
fn build_status_cmd(dir: &str, mid: &'static str) -> (r: String)
    ensures
        r@ == spec_status_cmd(dir@, mid@),
{
    let mut s = String::from_str("mkdir -p ");
    s.append(dir);
    s.append(mid);
    s.append(dir);
    s.append("/$(echo \"$CLAUDE_PROJECT_DIR\" | md5 | cut -c1-16).json");
    proof {
        assert(s@ =~= spec_status_cmd(dir@, mid@));
    }
    s
}

/// One generated category holding one command entry.
fn single_command_cat(name: &'static str, matcher: Option<String>, command: String) -> (r:
    HookCategory)
    ensures
        cat_view(r) == (name@, seq![(true, view_opt_string(matcher), command@)]),
{
    let ghost m = view_opt_string(matcher);
    let ghost cv = command@;
    let mut entries: Vec<HookEntry> = Vec::new();
    entries.push(HookEntry::Command { matcher, command });
    let r = HookCategory { name: String::from_str(name), entries };
    proof {
        assert(cat_view(r).1 =~= seq![(true, m, cv)]);
    }
    r
}

/// The hook categories this system installs, for the given status
/// directory.
pub fn generate_woodeye_hooks(status_dir: &str) -> (r: Vec<HookCategory>)
    ensures
        cats_view(r@) == spec_woodeye_cats(status_dir@),
{
    let mut cats: Vec<HookCategory> = Vec::new();
    let tool_cmd = build_status_cmd(
        status_dir,
        " && echo '{\"project_path\":\"'\"$CLAUDE_PROJECT_DIR\"'\",\"state\":\"working\",\"last_tool\":\"'\"$CLAUDE_TOOL_NAME\"'\",\"timestamp\":'$(date +%s)'}' > ",
    );
    cats.push(single_command_cat("PreToolUse", Some(String::from_str("*")), tool_cmd));
    let tool_cmd2 = build_status_cmd(
        status_dir,
        " && echo '{\"project_path\":\"'\"$CLAUDE_PROJECT_DIR\"'\",\"state\":\"working\",\"last_tool\":\"'\"$CLAUDE_TOOL_NAME\"'\",\"timestamp\":'$(date +%s)'}' > ",
    );
    cats.push(single_command_cat("PostToolUse", Some(String::from_str("*")), tool_cmd2));
    let perm_cmd = build_status_cmd(
        status_dir,
        " && echo '{\"project_path\":\"'\"$CLAUDE_PROJECT_DIR\"'\",\"state\":\"waiting_for_approval\",\"waiting_reason\":\"'\"$CLAUDE_TOOL_NAME\"'\",\"timestamp\":'$(date +%s)'}' > ",
    );
    cats.push(single_command_cat("PermissionRequest", None, perm_cmd));
    let notif_cmd = build_status_cmd(
        status_dir,
        " && echo '{\"project_path\":\"'\"$CLAUDE_PROJECT_DIR\"'\",\"state\":\"waiting_for_input\",\"timestamp\":'$(date +%s)'}' > ",
    );
    cats.push(single_command_cat("Notification", None, notif_cmd));
    let stop_cmd = build_cleanup_cmd(status_dir);
    cats.push(single_command_cat("Stop", None, stop_cmd));
    let start_cmd = build_status_cmd(
        status_dir,
        " && echo '{\"project_path\":\"'\"$CLAUDE_PROJECT_DIR\"'\",\"state\":\"working\",\"timestamp\":'$(date +%s)'}' > ",
    );
    cats.push(single_command_cat("SessionStart", None, start_cmd));
    let end_cmd = build_cleanup_cmd(status_dir);
    cats.push(single_command_cat("SessionEnd", None, end_cmd));
    proof {
        assert(cats_view(cats@) =~~= spec_woodeye_cats(status_dir@));
    }
    cats
}

/// Build the cleanup command for the status directory.
fn build_cleanup_cmd(dir: &str) -> (r: String)
    ensures
        r@ == spec_cleanup_cmd(dir@),
{
    let mut s = String::from_str("rm -f ");
    s.append(dir);
    s.append("/$(echo \"$CLAUDE_PROJECT_DIR\" | md5 | cut -c1-16).json");
    proof {
        assert(s@ =~= spec_cleanup_cmd(dir@));
    }
    s
}

/// Hooks are considered enabled when a `SessionStart` category is present.
pub open spec fn spec_hooks_enabled(cats: Seq<CatV>) -> bool {
    exists|i: int| 0 <= i < cats.len() && cats[i].0 == "SessionStart"@
}

/// Is a `SessionStart` category present?
pub fn hooks_enabled(settings: &HooksSettings) -> (r: bool)
    ensures
        r == spec_hooks_enabled(cats_view(settings.categories@)),
{
    let mut i: usize = 0;
    while i < settings.categories.len()
        invariant
            i <= settings.categories@.len(),
            forall|j: int|
                0 <= j < i ==> cats_view(settings.categories@)[j].0 != "SessionStart"@,
        decreases settings.categories@.len() - i,
    {
        if str_eq(settings.categories[i].name.as_str(), "SessionStart") {
            proof {
                assert(cats_view(settings.categories@)[i as int].0
                    == settings.categories@[i as int].name@);
            }
            return true;
        }
        proof {
            assert(cats_view(settings.categories@)[i as int].0
                == settings.categories@[i as int].name@);
        }
        i += 1;
    }
    false
}

/// Some entry of the category carries the marker.
pub open spec fn spec_has_marked(entries: Seq<EntryV>) -> bool {
    exists|i: int| 0 <= i < entries.len() && spec_marked(entries[i])
}

/// Does any entry of the vector carry the marker?
fn any_entry_marked(entries: &Vec<HookEntry>) -> (r: bool)
    ensures
        r == spec_has_marked(entries@.map_values(|e: HookEntry| entry_view(e))),
{
    let ghost ev = entries@.map_values(|e: HookEntry| entry_view(e));
    let mut i: usize = 0;
    while i < entries.len()
        invariant
            i <= entries@.len(),
            ev == entries@.map_values(|e: HookEntry| entry_view(e)),
            forall|j: int| 0 <= j < i ==> !spec_marked(ev[j]),
        decreases entries@.len() - i,
    {
        if entry_marked(&entries[i]) {
            proof {
                assert(ev[i as int] == entry_view(entries@[i as int]));
            }
            return true;
        }
        proof {
            assert(ev[i as int] == entry_view(entries@[i as int]));
        }
        i += 1;
    }
    false
}

/// The first category of the given name, if any.
pub open spec fn spec_find_cat(cats: Seq<CatV>, name: Seq<char>) -> Option<int>
    decreases cats.len(),
{
    if cats.len() == 0 {
        None
    } else if cats[0].0 == name {
        Some(0)
    } else {
        match spec_find_cat(cats.drop_first(), name) {
            None => None,
            Some(i) => Some(i + 1),
        }
    }
}

/// What a find result means: the index it returns is the first bearing the
/// name, and a miss means no category bears it.
pub proof fn lemma_find_cat_props(cats: Seq<CatV>, name: Seq<char>)
    ensures
        match spec_find_cat(cats, name) {
            None => forall|j: int| 0 <= j < cats.len() ==> (#[trigger] cats[j]).0 != name,
            Some(i) => 0 <= i < cats.len() && cats[i].0 == name && forall|j: int|
                0 <= j < i ==> (#[trigger] cats[j]).0 != name,
        },
    decreases cats.len(),
{
    if cats.len() > 0 && cats[0].0 != name {
        lemma_find_cat_props(cats.drop_first(), name);
        assert forall|j: int| 1 <= j < cats.len() implies cats.drop_first()[j - 1] == (
        #[trigger] cats[j]) by {}
    }
}

/// Find the first category of the given name.
fn find_category(cats: &Vec<HookCategory>, name: &str) -> (r: Option<usize>)
    ensures
        match r {
            Some(k) => k < cats@.len() && spec_find_cat(cats_view(cats@), name@) == Some(
                k as int,
            ),
            None => spec_find_cat(cats_view(cats@), name@) is None,
        },
{
    let ghost cv = cats_view(cats@);
    let mut i: usize = 0;
    while i < cats.len()
        invariant
            i <= cats@.len(),
            cv == cats_view(cats@),
            forall|j: int| 0 <= j < i ==> (#[trigger] cv[j]).0 != name@,
        decreases cats@.len() - i,
    {
        proof {
            assert(cv[i as int] == cat_view(cats@[i as int]));
        }
        if str_eq(cats[i].name.as_str(), name) {
            proof {
                lemma_find_cat_props(cv, name@);
                match spec_find_cat(cv, name@) {
                    None => {
                        assert(cv[i as int].0 != name@);
                    },
                    Some(k0) => {
                        if k0 < i {
                            assert(cv[k0].0 != name@);
                        } else if k0 > i {
                            assert(cv[i as int].0 != name@);
                        }
                    },
                }
            }
            return Some(i);
        }
        i += 1;
    }
    proof {
        lemma_find_cat_props(cv, name@);
        match spec_find_cat(cv, name@) {
            None => {},
            Some(k0) => {
                assert(cv[k0].0 != name@);
            },
        }
    }
    None
}

/// One step of the additive merge: a category of the generated name gains
/// the generated entries unless it already holds a marked one; a missing
/// category is appended whole.
pub open spec fn spec_install_one(cats: Seq<CatV>, g: CatV) -> Seq<CatV> {
    match spec_find_cat(cats, g.0) {
        None => cats.push(g),
        Some(i) => if spec_has_marked(cats[i].1) {
            cats
        } else {
            cats.update(i, (cats[i].0, cats[i].1 + g.1))
        },
    }
}

/// The additive merge of a list of generated categories, first to last.
pub open spec fn spec_install(cats: Seq<CatV>, gens: Seq<CatV>) -> Seq<CatV>
    decreases gens.len(),
{
    if gens.len() == 0 {
        cats
    } else {
        spec_install(spec_install_one(cats, gens[0]), gens.drop_first())
    }
}

/// What installing this system's hooks does to a configuration.
pub open spec fn spec_configure(cats: Seq<CatV>, dir: Seq<char>) -> Seq<CatV> {
    spec_install(cats, spec_woodeye_cats(dir))
}

/// The merge processes its list one generated category at a time.
pub proof fn lemma_install_snoc(cats: Seq<CatV>, gens: Seq<CatV>, g: CatV)
    ensures
        spec_install(cats, gens.push(g)) == spec_install_one(spec_install(cats, gens), g),
    decreases gens.len(),
{
    let s = gens.push(g);
    if gens.len() == 0 {
        assert(s[0] == g);
        assert(s.drop_first() =~= Seq::<CatV>::empty());
        assert(spec_install(cats, s) == spec_install(spec_install_one(cats, g), s.drop_first()));
        assert(spec_install(spec_install_one(cats, g), s.drop_first()) == spec_install_one(
            cats,
            g,
        ));
        assert(spec_install(cats, gens) == cats);
    } else {
        assert(s[0] == gens[0]);
        assert(s.drop_first() =~= gens.drop_first().push(g));
        assert(spec_install(cats, s) == spec_install(
            spec_install_one(cats, gens[0]),
            s.drop_first(),
        ));
        lemma_install_snoc(spec_install_one(cats, gens[0]), gens.drop_first(), g);
        assert(spec_install(cats, gens) == spec_install(
            spec_install_one(cats, gens[0]),
            gens.drop_first(),
        ));
    }
}

/// Install this system's hooks: merge the generated categories into the
/// configuration, appending each category's entry only where no marked
/// entry already stands, and never touching anyone else's entries.
pub fn configure_hooks(settings: HooksSettings, status_dir: &str) -> (r: HooksSettings)
    ensures
        cats_view(r.categories@) == spec_configure(
            cats_view(settings.categories@),
            status_dir@,
        ),
{
    let ghost orig = cats_view(settings.categories@);
    let ghost gensv = spec_woodeye_cats(status_dir@);
    let gens = generate_woodeye_hooks(status_dir);
    let mut cats = settings.categories;
    let mut k: usize = 0;
    proof {
        assert(gensv.take(0) =~= Seq::<CatV>::empty());
    }
    while k < gens.len()
        invariant
            k <= gens@.len(),
            cats_view(gens@) == gensv,
            cats_view(cats@) == spec_install(orig, gensv.take(k as int)),
        decreases gens@.len() - k,
    {
        proof {
            assert(gensv.take(k + 1).drop_last() =~= gensv.take(k as int));
            assert(gensv.take(k + 1) =~= gensv.take(k as int).push(gensv[k as int]));
            lemma_install_snoc(orig, gensv.take(k as int), gensv[k as int]);
            assert(gensv[k as int] == cat_view(gens@[k as int]));
        }
        let ghost before = cats_view(cats@);
        let g = gens[k].clone();
        let found = find_category(&cats, g.name.as_str());
        match found {
            None => {
                cats.push(g);
                proof {
                    assert(cats_view(cats@) =~= before.push(gensv[k as int]));
                }
            },
            Some(i) => {
                if !any_entry_marked(&cats[i].entries) {
                    proof {
                        assert(before[i as int] == cat_view(cats@[i as int]));
                        assert(!spec_has_marked(before[i as int].1));
                    }
                    let ghost cats_before = cats@;
                    let mut cat = cats.remove(i);
                    let mut ge = g.entries;
                    cat.entries.append(&mut ge);
                    cats.insert(i, cat);
                    proof {
                        assert(cats@ =~= cats_before.update(
                            i as int,
                            HookCategory {
                                name: cats_before[i as int].name,
                                entries: cats@[i as int].entries,
                            },
                        )) by {
                            assert(cats@.len() == cats_before.len());
                            assert forall|j: int|
                                0 <= j < cats@.len() && j != i implies cats@[j]
                                == cats_before[j] by {
                                if j < i {
                                    assert(cats_before.remove(i as int)[j] == cats_before[j]);
                                } else {
                                    assert(cats_before.remove(i as int)[j - 1]
                                        == cats_before[j]);
                                }
                            }
                        }
                        assert(cat_view(cats@[i as int]).1 =~= before[i as int].1
                            + gensv[k as int].1);
                        assert(cats_view(cats@) =~= before.update(
                            i as int,
                            (before[i as int].0, before[i as int].1 + gensv[k as int].1),
                        ));
                    }
                } else {
                    proof {
                        assert(before[i as int] == cat_view(cats@[i as int]));
                        assert(spec_has_marked(before[i as int].1));
                    }
                }
            },
        }
        k += 1;
    }
    proof {
        assert(gensv.take(gensv.len() as int) =~= gensv);
    }
    HooksSettings { categories: cats }
}

/// Entries that stay on removal: those not of this system.
pub open spec fn unmarked_fn() -> spec_fn(EntryV) -> bool {
    |e: EntryV| !spec_marked(e)
}

/// What removing this system's hooks does: every category keeps exactly its
/// unmarked entries, in order; categories themselves stay.
pub open spec fn spec_uninstall(cats: Seq<CatV>) -> Seq<CatV> {
    cats.map_values(|c: CatV| (c.0, c.1.filter(unmarked_fn())))
}

/// Remove this system's hooks: drop every marked entry, keep everything
/// else byte for byte.
pub fn remove_woodeye_hooks(settings: HooksSettings) -> (r: HooksSettings)
    ensures
        cats_view(r.categories@) == spec_uninstall(cats_view(settings.categories@)),
{
    let ghost orig = cats_view(settings.categories@);
    let cats = settings.categories;
    let mut out: Vec<HookCategory> = Vec::new();
    let mut i: usize = 0;
    while i < cats.len()
        invariant
            i <= cats@.len(),
            orig == cats_view(cats@),
            out@.len() == i,
            forall|j: int|
                0 <= j < i ==> cat_view(#[trigger] out@[j]) == (
                    orig[j].0,
                    orig[j].1.filter(unmarked_fn()),
                ),
        decreases cats@.len() - i,
    {
        let cat = &cats[i];
        let ghost ev = cat_view(cats@[i as int]).1;
        let mut kept: Vec<HookEntry> = Vec::new();
        let mut j: usize = 0;
        proof {
            reveal(Seq::filter);
            assert(ev.take(0) =~= Seq::<EntryV>::empty());
            assert(kept@.map_values(|e: HookEntry| entry_view(e)) =~= ev.take(0).filter(
                unmarked_fn(),
            ));
        }
        while j < cat.entries.len()
            invariant
                j <= cat.entries@.len(),
                ev == cat_view(*cat).1,
                ev == cat.entries@.map_values(|e: HookEntry| entry_view(e)),
                kept@.map_values(|e: HookEntry| entry_view(e)) == ev.take(j as int).filter(
                    unmarked_fn(),
                ),
            decreases cat.entries@.len() - j,
        {
            proof {
                reveal(Seq::filter);
                assert(ev.take(j + 1).drop_last() =~= ev.take(j as int));
                assert(ev.take(j + 1).last() == ev[j as int]);
                assert(ev[j as int] == entry_view(cat.entries@[j as int]));
            }
            let ghost kept_before = kept@;
            if !entry_marked(&cat.entries[j]) {
                kept.push(cat.entries[j].clone());
                proof {
                    assert(kept@.map_values(|e: HookEntry| entry_view(e)) =~= kept_before
                        .map_values(|e: HookEntry| entry_view(e)).push(ev[j as int]));
                }
            }
            j += 1;
        }
        proof {
            assert(ev.take(ev.len() as int) =~= ev);
        }
        out.push(HookCategory { name: cat.name.clone(), entries: kept });
        proof {
            assert(orig[i as int] == cat_view(cats@[i as int]));
        }
        i += 1;
    }
    proof {
        assert(cats_view(out@) =~= spec_uninstall(orig));
    }
    HooksSettings { categories: out }
}

/// Entries of this system, for counting on installation.
pub open spec fn marked_fn() -> spec_fn(EntryV) -> bool {
    |e: EntryV| spec_marked(e)
}

/// The entries of the first category of the given name, if any.
pub open spec fn spec_cat_entries(cats: Seq<CatV>, name: Seq<char>) -> Option<Seq<EntryV>> {
    match spec_find_cat(cats, name) {
        None => None,
        Some(i) => Some(cats[i].1),
    }
}

/// A generated category is satisfied when a category of its name already
/// holds a marked entry.
pub open spec fn spec_gen_satisfied(cats: Seq<CatV>, g: CatV) -> bool {
    match spec_cat_entries(cats, g.0) {
        None => false,
        Some(es) => spec_has_marked(es),
    }
}

/// A substring of a part is a substring of the whole.
pub proof fn lemma_substring_in_concat(a: Seq<char>, s: Seq<char>, b: Seq<char>, sub: Seq<char>)
    requires
        has_substring(s, sub),
    ensures
        has_substring(a + s + b, sub),
{
    let i = choose|i: int| crate::strutil::is_substring_at(s, sub, i);
    let t = a + s + b;
    assert(t.subrange(a.len() + i, a.len() + i + sub.len() as int) =~= sub) by {
        assert forall|l: int| 0 <= l < sub.len() implies t[a.len() + i + l] == sub[l] by {
            assert(t[a.len() + i + l] == s[i + l]);
            assert(s.subrange(i, i + sub.len() as int)[l] == s[i + l]);
        }
    }
    assert(crate::strutil::is_substring_at(t, sub, a.len() + i));
}

/// Every status-writing command carries the marker whenever the status
/// directory's path does.
pub proof fn lemma_status_cmds_marked(dir: Seq<char>)
    requires
        has_substring(dir, spec_marker()),
    ensures
        forall|mid: Seq<char>| has_substring(#[trigger] spec_status_cmd(dir, mid), spec_marker()),
        has_substring(spec_cleanup_cmd(dir), spec_marker()),
{
    assert forall|mid: Seq<char>|
        has_substring(#[trigger] spec_status_cmd(dir, mid), spec_marker()) by {
        let b = mid + dir + "/$(echo \"$CLAUDE_PROJECT_DIR\" | md5 | cut -c1-16).json"@;
        assert(spec_status_cmd(dir, mid) =~= "mkdir -p "@ + dir + b);
        lemma_substring_in_concat("mkdir -p "@, dir, b, spec_marker());
    }
    let suf = "/$(echo \"$CLAUDE_PROJECT_DIR\" | md5 | cut -c1-16).json"@;
    assert(spec_cleanup_cmd(dir) =~= "rm -f "@ + dir + suf);
    lemma_substring_in_concat("rm -f "@, dir, suf, spec_marker());
}

/// Each generated category holds exactly one entry, and that entry carries
/// the marker whenever the status directory's path does.
pub proof fn lemma_woodeye_entries_marked(dir: Seq<char>)
    requires
        has_substring(dir, spec_marker()),
    ensures
        forall|k: int|
            0 <= k < spec_woodeye_cats(dir).len() ==> (#[trigger] spec_woodeye_cats(dir)[k]).1.len()
                == 1 && spec_marked(spec_woodeye_cats(dir)[k].1[0]),
{
    lemma_status_cmds_marked(dir);
    let cats = spec_woodeye_cats(dir);
    assert forall|k: int|
        0 <= k < cats.len() implies (#[trigger] cats[k]).1.len() == 1 && spec_marked(
        cats[k].1[0],
    ) by {
        if k == 0 || k == 1 {
            assert(cats[k].1 =~= seq![(true, Some("*"@), spec_tool_event_cmd(dir))]);
        } else if k == 2 {
            assert(cats[k].1 =~= seq![(true, None, spec_permission_cmd(dir))]);
        } else if k == 3 {
            assert(cats[k].1 =~= seq![(true, None, spec_notification_cmd(dir))]);
        } else if k == 4 {
            assert(cats[k].1 =~= seq![(true, None, spec_cleanup_cmd(dir))]);
        } else if k == 5 {
            assert(cats[k].1 =~= seq![(true, None, spec_session_start_cmd(dir))]);
        } else {
            assert(cats[k].1 =~= seq![(true, None, spec_cleanup_cmd(dir))]);
        }
    }
}

/// A category with a marked entry keeps one when entries are appended.
pub proof fn lemma_has_marked_append_left(es: Seq<EntryV>, more: Seq<EntryV>)
    requires
        spec_has_marked(es),
    ensures
        spec_has_marked(es + more),
{
    let i = choose|i: int| 0 <= i < es.len() && spec_marked(es[i]);
    assert((es + more)[i] == es[i]);
}

/// Appending a marked entry leaves the category with one.
pub proof fn lemma_has_marked_append_right(es: Seq<EntryV>, more: Seq<EntryV>)
    requires
        spec_has_marked(more),
    ensures
        spec_has_marked(es + more),
{
    let i = choose|i: int| 0 <= i < more.len() && spec_marked(more[i]);
    assert((es + more)[es.len() + i] == more[i]);
}

/// Finding a category looks only at the names.
pub proof fn lemma_find_cat_names(v: Seq<CatV>, w: Seq<CatV>, n: Seq<char>)
    requires
        v.len() == w.len(),
        forall|k: int| 0 <= k < v.len() ==> (#[trigger] v[k]).0 == w[k].0,
    ensures
        spec_find_cat(v, n) == spec_find_cat(w, n),
    decreases v.len(),
{
    if v.len() > 0 {
        assert(v[0].0 == w[0].0);
        if v[0].0 != n {
            assert forall|k: int|
                0 <= k < v.drop_first().len() implies (#[trigger] v.drop_first()[k]).0
                == w.drop_first()[k].0 by {
                assert(v.drop_first()[k] == v[k + 1]);
                assert(w.drop_first()[k] == w[k + 1]);
            }
            lemma_find_cat_names(v.drop_first(), w.drop_first(), n);
        }
    }
}

/// How appending a category changes a find: hits stay where they are, and a
/// miss hits the appended category exactly when the name is its.
pub proof fn lemma_find_cat_push(v: Seq<CatV>, c: CatV, n: Seq<char>)
    ensures
        match spec_find_cat(v, n) {
            Some(i) => spec_find_cat(v.push(c), n) == Some(i),
            None => spec_find_cat(v.push(c), n) == if c.0 == n {
                Some(v.len() as int)
            } else {
                None::<int>
            },
        },
    decreases v.len(),
{
    if v.len() == 0 {
        assert(v.push(c)[0] == c);
        assert(v.push(c).drop_first() =~= Seq::<CatV>::empty());
    } else {
        assert(v.push(c)[0] == v[0]);
        assert(v.push(c).drop_first() =~= v.drop_first().push(c));
        lemma_find_cat_push(v.drop_first(), c, n);
    }
}

/// What one merge step does, category by category: the generated name's
/// category is created, left alone (already marked), or extended by the
/// generated entries; every other name's category is untouched.
pub proof fn lemma_install_one_effects(v: Seq<CatV>, g: CatV)
    ensures
        spec_install_one(v, g).len() >= v.len(),
        forall|j: int|
            0 <= j < v.len() ==> (#[trigger] spec_install_one(v, g)[j]).0 == v[j].0,
        spec_cat_entries(spec_install_one(v, g), g.0) == match spec_cat_entries(v, g.0) {
            None => Some(g.1),
            Some(es) => Some(
                if spec_has_marked(es) {
                    es
                } else {
                    es + g.1
                },
            ),
        },
        forall|n: Seq<char>|
            n != g.0 ==> #[trigger] spec_cat_entries(spec_install_one(v, g), n)
                == spec_cat_entries(v, n),
{
    let r = spec_install_one(v, g);
    lemma_find_cat_props(v, g.0);
    match spec_find_cat(v, g.0) {
        None => {
            assert(r == v.push(g));
            lemma_find_cat_push(v, g, g.0);
            assert(r[v.len() as int] == g);
            assert(spec_cat_entries(r, g.0) == Some(g.1));
            assert forall|n: Seq<char>|
                n != g.0 implies #[trigger] spec_cat_entries(r, n) == spec_cat_entries(v, n) by {
                lemma_find_cat_push(v, g, n);
                lemma_find_cat_props(v, n);
                match spec_find_cat(v, n) {
                    None => {},
                    Some(i) => {
                        assert(r[i] == v[i]);
                    },
                }
            }
        },
        Some(i) => {
            if spec_has_marked(v[i].1) {
                assert(r == v);
            } else {
                let upd = (v[i].0, v[i].1 + g.1);
                assert(r == v.update(i, upd));
                assert forall|j: int|
                    0 <= j < v.len() implies (#[trigger] r[j]).0 == v[j].0 by {
                    if j != i {
                        assert(r[j] == v[j]);
                    }
                }
                lemma_find_cat_names(r, v, g.0);
                assert(spec_cat_entries(r, g.0) == Some(v[i].1 + g.1));
                assert forall|n: Seq<char>|
                    n != g.0 implies #[trigger] spec_cat_entries(r, n) == spec_cat_entries(
                    v,
                    n,
                ) by {
                    lemma_find_cat_names(r, v, n);
                    lemma_find_cat_props(v, n);
                    match spec_find_cat(v, n) {
                        None => {},
                        Some(j) => {
                            assert(v[j].0 == n);
                            assert(j != i);
                            assert(r[j] == v[j]);
                        },
                    }
                }
            }
        },
    }
}

/// A merge whose generated names avoid `n` leaves `n`'s category untouched.
pub proof fn lemma_install_preserves_state(v: Seq<CatV>, gens: Seq<CatV>, n: Seq<char>)
    requires
        forall|k: int| 0 <= k < gens.len() ==> (#[trigger] gens[k]).0 != n,
    ensures
        spec_cat_entries(spec_install(v, gens), n) == spec_cat_entries(v, n),
    decreases gens.len(),
{
    if gens.len() > 0 {
        lemma_install_one_effects(v, gens[0]);
        assert forall|k: int|
            0 <= k < gens.drop_first().len() implies (#[trigger] gens.drop_first()[k]).0 != n by {
            assert(gens.drop_first()[k] == gens[k + 1]);
        }
        lemma_install_preserves_state(spec_install_one(v, gens[0]), gens.drop_first(), n);
    }
}

/// Once a generated category is satisfied, any further merge leaves its
/// category's entries untouched.
pub proof fn lemma_install_one_keeps_satisfied(v: Seq<CatV>, g2: CatV, g: CatV)
    requires
        spec_gen_satisfied(v, g),
    ensures
        spec_gen_satisfied(spec_install_one(v, g2), g),
        spec_cat_entries(spec_install_one(v, g2), g.0) == spec_cat_entries(v, g.0),
{
    lemma_install_one_effects(v, g2);
    if g2.0 == g.0 {
        assert(spec_has_marked(spec_cat_entries(v, g.0).unwrap()));
    }
}

/// Satisfaction survives a whole merge, entries untouched.
pub proof fn lemma_install_keeps_satisfied(v: Seq<CatV>, gens: Seq<CatV>, g: CatV)
    requires
        spec_gen_satisfied(v, g),
    ensures
        spec_gen_satisfied(spec_install(v, gens), g),
        spec_cat_entries(spec_install(v, gens), g.0) == spec_cat_entries(v, g.0),
    decreases gens.len(),
{
    if gens.len() > 0 {
        lemma_install_one_keeps_satisfied(v, gens[0], g);
        lemma_install_keeps_satisfied(spec_install_one(v, gens[0]), gens.drop_first(), g);
    }
}

/// One merge step satisfies its own generated category, provided the
/// generated entries include a marked one.
pub proof fn lemma_install_one_satisfies_self(v: Seq<CatV>, g: CatV)
    requires
        spec_has_marked(g.1),
    ensures
        spec_gen_satisfied(spec_install_one(v, g), g),
{
    lemma_install_one_effects(v, g);
    match spec_cat_entries(v, g.0) {
        None => {},
        Some(es) => {
            if !spec_has_marked(es) {
                lemma_has_marked_append_right(es, g.1);
            }
        },
    }
}

/// After a merge of marked categories, every one of them is satisfied.
pub proof fn lemma_install_all_satisfied(v: Seq<CatV>, gens: Seq<CatV>)
    requires
        forall|k: int| 0 <= k < gens.len() ==> spec_has_marked((#[trigger] gens[k]).1),
    ensures
        forall|k: int|
            0 <= k < gens.len() ==> spec_gen_satisfied(spec_install(v, gens), #[trigger] gens[k]),
    decreases gens.len(),
{
    if gens.len() > 0 {
        let w1 = spec_install_one(v, gens[0]);
        lemma_install_one_satisfies_self(v, gens[0]);
        lemma_install_keeps_satisfied(w1, gens.drop_first(), gens[0]);
        assert forall|k: int|
            0 <= k < gens.drop_first().len() implies spec_has_marked(
            (#[trigger] gens.drop_first()[k]).1,
        ) by {
            assert(gens.drop_first()[k] == gens[k + 1]);
        }
        lemma_install_all_satisfied(w1, gens.drop_first());
        assert forall|k: int|
            0 <= k < gens.len() implies spec_gen_satisfied(
            spec_install(v, gens),
            #[trigger] gens[k],
        ) by {
            if k > 0 {
                assert(gens.drop_first()[k - 1] == gens[k]);
                assert(spec_gen_satisfied(spec_install(w1, gens.drop_first()), gens[k]));
            }
        }
    }
}

/// A merge whose every generated category is already satisfied changes
/// nothing.
pub proof fn lemma_install_noop(v: Seq<CatV>, gens: Seq<CatV>)
    requires
        forall|k: int| 0 <= k < gens.len() ==> spec_gen_satisfied(v, #[trigger] gens[k]),
    ensures
        spec_install(v, gens) == v,
    decreases gens.len(),
{
    if gens.len() > 0 {
        lemma_find_cat_props(v, gens[0].0);
        assert(spec_install_one(v, gens[0]) == v);
        assert forall|k: int|
            0 <= k < gens.drop_first().len() implies spec_gen_satisfied(
            v,
            #[trigger] gens.drop_first()[k],
        ) by {
            assert(gens.drop_first()[k] == gens[k + 1]);
        }
        lemma_install_noop(v, gens.drop_first());
    }
}

/// Installing the hooks twice is the same as installing them once, for any
/// status directory whose path carries the marker.
pub proof fn lemma_configure_idempotent(v: Seq<CatV>, dir: Seq<char>)
    requires
        has_substring(dir, spec_marker()),
    ensures
        spec_configure(spec_configure(v, dir), dir) == spec_configure(v, dir),
{
    let gens = spec_woodeye_cats(dir);
    lemma_woodeye_entries_marked(dir);
    assert forall|k: int| 0 <= k < gens.len() implies spec_has_marked((#[trigger] gens[k]).1) by {
        assert(spec_marked(gens[k].1[0]));
    }
    lemma_install_all_satisfied(v, gens);
    lemma_install_noop(spec_install(v, gens), gens);
}

/// A category none of whose entries satisfies the predicate filters to
/// nothing.
pub proof fn lemma_entry_filter_none(es: Seq<EntryV>, pred: spec_fn(EntryV) -> bool)
    requires
        forall|i: int| 0 <= i < es.len() ==> !pred(#[trigger] es[i]),
    ensures
        es.filter(pred) == Seq::<EntryV>::empty(),
    decreases es.len(),
{
    reveal(Seq::filter);
    if es.len() > 0 {
        lemma_entry_filter_none(es.drop_last(), pred);
    }
}

/// A category all of whose entries satisfy the predicate filters to itself.
pub proof fn lemma_entry_filter_all(es: Seq<EntryV>, pred: spec_fn(EntryV) -> bool)
    requires
        forall|i: int| 0 <= i < es.len() ==> pred(#[trigger] es[i]),
    ensures
        es.filter(pred) == es,
    decreases es.len(),
{
    reveal(Seq::filter);
    if es.len() > 0 {
        lemma_entry_filter_all(es.drop_last(), pred);
        assert(es.drop_last().push(es.last()) =~= es);
    }
}

/// The seven generated category names are pairwise distinct.
pub proof fn lemma_woodeye_names_distinct(dir: Seq<char>)
    ensures
        forall|k1: int, k2: int|
            0 <= k1 < k2 < spec_woodeye_cats(dir).len() ==> (#[trigger] spec_woodeye_cats(
                dir,
            )[k1]).0 != (#[trigger] spec_woodeye_cats(dir)[k2]).0,
{
    let cats = spec_woodeye_cats(dir);
    assert forall|k1: int, k2: int|
        0 <= k1 < k2 < cats.len() implies (#[trigger] cats[k1]).0 != (#[trigger] cats[k2]).0 by {
        reveal_strlit("PreToolUse");
        reveal_strlit("PostToolUse");
        reveal_strlit("PermissionRequest");
        reveal_strlit("Notification");
        reveal_strlit("Stop");
        reveal_strlit("SessionStart");
        reveal_strlit("SessionEnd");
        assert(cats[0].0 == "PreToolUse"@);
        assert(cats[1].0 == "PostToolUse"@);
        assert(cats[2].0 == "PermissionRequest"@);
        assert(cats[3].0 == "Notification"@);
        assert(cats[4].0 == "Stop"@);
        assert(cats[5].0 == "SessionStart"@);
        assert(cats[6].0 == "SessionEnd"@);
        assert(("PreToolUse"@).len() == 10);
        assert(("PostToolUse"@).len() == 11);
        assert(("PermissionRequest"@).len() == 17);
        assert(("Notification"@).len() == 12);
        assert(("Stop"@).len() == 4);
        assert(("SessionStart"@).len() == 12);
        assert(("SessionEnd"@).len() == 10);
        assert(("PreToolUse"@)[0] != ("SessionEnd"@)[0]);
        assert(("Notification"@)[0] != ("SessionStart"@)[0]);
    }
}

/// A merge of pairwise-distinct, singly- and markedly-entried categories
/// into a configuration clean of marked entries leaves each generated name
/// with exactly one marked entry.
pub proof fn lemma_install_marked_once(v: Seq<CatV>, gens: Seq<CatV>)
    requires
        forall|k1: int, k2: int|
            0 <= k1 < k2 < gens.len() ==> (#[trigger] gens[k1]).0 != (#[trigger] gens[k2]).0,
        forall|k: int|
            0 <= k < gens.len() ==> (#[trigger] gens[k]).1.len() == 1 && spec_marked(
                gens[k].1[0],
            ),
        forall|k: int|
            0 <= k < gens.len() ==> match spec_cat_entries(v, (#[trigger] gens[k]).0) {
                None => true,
                Some(es) => !spec_has_marked(es),
            },
    ensures
        forall|k: int|
            0 <= k < gens.len() ==> match spec_cat_entries(
                spec_install(v, gens),
                (#[trigger] gens[k]).0,
            ) {
                None => false,
                Some(es) => es.filter(marked_fn()).len() == 1,
            },
    decreases gens.len(),
{
    if gens.len() > 0 {
        let g = gens[0];
        let w1 = spec_install_one(v, g);
        lemma_install_one_effects(v, g);
        assert forall|i: int| 0 <= i < g.1.len() implies marked_fn()(#[trigger] g.1[i]) by {
            assert(g.1[i] == g.1[0]);
        }
        lemma_entry_filter_all(g.1, marked_fn());
        match spec_cat_entries(v, g.0) {
            None => {
                assert(spec_cat_entries(w1, g.0) == Some(g.1));
            },
            Some(es) => {
                assert(!spec_has_marked(es));
                assert forall|i: int|
                    0 <= i < es.len() implies !marked_fn()(#[trigger] es[i]) by {}
                lemma_entry_filter_none(es, marked_fn());
                Seq::filter_distributes_over_add(es, g.1, marked_fn());
                assert((es + g.1).filter(marked_fn()) =~= g.1);
            },
        }
        let es1 = spec_cat_entries(w1, g.0).unwrap();
        assert(es1.filter(marked_fn()).len() == 1);
        let rest = gens.drop_first();
        assert forall|k: int|
            0 <= k < rest.len() implies (#[trigger] rest[k]).0 != g.0 by {
            assert(rest[k] == gens[k + 1]);
        }
        lemma_install_preserves_state(w1, rest, g.0);
        assert forall|k1: int, k2: int|
            0 <= k1 < k2 < rest.len() implies (#[trigger] rest[k1]).0 != (
        #[trigger] rest[k2]).0 by {
            assert(rest[k1] == gens[k1 + 1]);
            assert(rest[k2] == gens[k2 + 1]);
        }
        assert forall|k: int|
            0 <= k < rest.len() implies (#[trigger] rest[k]).1.len() == 1 && spec_marked(
            rest[k].1[0],
        ) by {
            assert(rest[k] == gens[k + 1]);
        }
        assert forall|k: int|
            0 <= k < rest.len() implies match spec_cat_entries(w1, (#[trigger] rest[k]).0) {
            None => true,
            Some(es) => !spec_has_marked(es),
        } by {
            assert(rest[k] == gens[k + 1]);
            assert(rest[k].0 != g.0);
            assert(spec_cat_entries(w1, rest[k].0) == spec_cat_entries(v, rest[k].0));
        }
        lemma_install_marked_once(w1, rest);
        assert forall|k: int|
            0 <= k < gens.len() implies match spec_cat_entries(
            spec_install(v, gens),
            (#[trigger] gens[k]).0,
        ) {
            None => false,
            Some(es) => es.filter(marked_fn()).len() == 1,
        } by {
            if k == 0 {
                assert(spec_cat_entries(spec_install(w1, rest), g.0) == Some(es1));
            } else {
                assert(rest[k - 1] == gens[k]);
            }
        }
    }
}

/// Installing the hooks into a configuration free of marked entries leaves
/// exactly one marked entry per generated hook category.
pub proof fn lemma_configure_marks_once(v: Seq<CatV>, dir: Seq<char>)
    requires
        has_substring(dir, spec_marker()),
        forall|i: int| 0 <= i < v.len() ==> !spec_has_marked((#[trigger] v[i]).1),
    ensures
        forall|k: int|
            0 <= k < spec_woodeye_cats(dir).len() ==> match spec_cat_entries(
                spec_configure(v, dir),
                (#[trigger] spec_woodeye_cats(dir)[k]).0,
            ) {
                None => false,
                Some(es) => es.filter(marked_fn()).len() == 1,
            },
{
    let gens = spec_woodeye_cats(dir);
    lemma_woodeye_names_distinct(dir);
    lemma_woodeye_entries_marked(dir);
    assert forall|k: int|
        0 <= k < gens.len() implies match spec_cat_entries(v, (#[trigger] gens[k]).0) {
        None => true,
        Some(es) => !spec_has_marked(es),
    } by {
        lemma_find_cat_props(v, gens[k].0);
        match spec_find_cat(v, gens[k].0) {
            None => {},
            Some(i) => {
                assert(!spec_has_marked(v[i].1));
            },
        }
    }
    lemma_install_marked_once(v, gens);
}

/// A merge of categories whose entries are all marked neither renames nor
/// reorders anything, and adds nothing unmarked: every original category
/// keeps exactly its unmarked entries, and every added category has none.
pub proof fn lemma_install_keeps_foreign(v: Seq<CatV>, gens: Seq<CatV>)
    requires
        forall|k: int|
            0 <= k < gens.len() ==> (#[trigger] gens[k]).1.filter(unmarked_fn())
                == Seq::<EntryV>::empty(),
    ensures
        spec_install(v, gens).len() >= v.len(),
        forall|i: int|
            0 <= i < v.len() ==> (#[trigger] spec_install(v, gens)[i]).0 == v[i].0
                && spec_install(v, gens)[i].1.filter(unmarked_fn()) == v[i].1.filter(
                unmarked_fn(),
            ),
        forall|i: int|
            v.len() <= i < spec_install(v, gens).len() ==> (#[trigger] spec_install(
                v,
                gens,
            )[i]).1.filter(unmarked_fn()) == Seq::<EntryV>::empty(),
    decreases gens.len(),
{
    if gens.len() > 0 {
        let g = gens[0];
        let w1 = spec_install_one(v, g);
        lemma_find_cat_props(v, g.0);
        match spec_find_cat(v, g.0) {
            None => {
                assert(w1 == v.push(g));
                assert(w1[v.len() as int] == g);
            },
            Some(i) => {
                if !spec_has_marked(v[i].1) {
                    assert(w1 == v.update(i, (v[i].0, v[i].1 + g.1)));
                    Seq::filter_distributes_over_add(v[i].1, g.1, unmarked_fn());
                    Seq::add_empty_right(
                        v[i].1.filter(unmarked_fn()),
                        g.1.filter(unmarked_fn()),
                    );
                }
            },
        }
        assert(w1.len() >= v.len());
        assert forall|i: int|
            0 <= i < v.len() implies (#[trigger] w1[i]).0 == v[i].0 && w1[i].1.filter(
            unmarked_fn(),
        ) == v[i].1.filter(unmarked_fn()) by {}
        assert forall|i: int|
            v.len() <= i < w1.len() implies (#[trigger] w1[i]).1.filter(unmarked_fn())
            == Seq::<EntryV>::empty() by {}
        let rest = gens.drop_first();
        assert forall|k: int|
            0 <= k < rest.len() implies (#[trigger] rest[k]).1.filter(unmarked_fn())
            == Seq::<EntryV>::empty() by {
            assert(rest[k] == gens[k + 1]);
        }
        lemma_install_keeps_foreign(w1, rest);
    }
}

/// Removing the hooks right after installing them restores every original
/// category's entries exactly as a removal alone would: its unmarked
/// entries, byte for byte; categories the installation added are left
/// empty.
pub proof fn lemma_uninstall_after_configure(v: Seq<CatV>, dir: Seq<char>)
    requires
        has_substring(dir, spec_marker()),
    ensures
        spec_uninstall(spec_configure(v, dir)).len() >= v.len(),
        forall|i: int|
            0 <= i < v.len() ==> (#[trigger] spec_uninstall(spec_configure(v, dir))[i]).0
                == v[i].0 && spec_uninstall(spec_configure(v, dir))[i].1 == v[i].1.filter(
                unmarked_fn(),
            ),
        forall|i: int|
            v.len() <= i < spec_uninstall(spec_configure(v, dir)).len() ==> (
            #[trigger] spec_uninstall(spec_configure(v, dir))[i]).1 == Seq::<EntryV>::empty(),
{
    let gens = spec_woodeye_cats(dir);
    lemma_woodeye_entries_marked(dir);
    assert forall|k: int|
        0 <= k < gens.len() implies (#[trigger] gens[k]).1.filter(unmarked_fn())
        == Seq::<EntryV>::empty() by {
        assert forall|i: int|
            0 <= i < gens[k].1.len() implies !unmarked_fn()(#[trigger] gens[k].1[i]) by {
            assert(gens[k].1[i] == gens[k].1[0]);
        }
        lemma_entry_filter_none(gens[k].1, unmarked_fn());
    }
    lemma_install_keeps_foreign(v, gens);
}

/// On a configuration with no marked entries, removal right after
/// installation gives every original category back unchanged.
pub proof fn lemma_uninstall_restores_foreign(v: Seq<CatV>, dir: Seq<char>)
    requires
        has_substring(dir, spec_marker()),
        forall|i: int| 0 <= i < v.len() ==> !spec_has_marked((#[trigger] v[i]).1),
    ensures
        forall|i: int|
            0 <= i < v.len() ==> (#[trigger] spec_uninstall(spec_configure(v, dir))[i]).0
                == v[i].0 && spec_uninstall(spec_configure(v, dir))[i].1 == v[i].1,
{
    lemma_uninstall_after_configure(v, dir);
    assert forall|i: int|
        0 <= i < v.len() implies (#[trigger] spec_uninstall(spec_configure(v, dir))[i]).0
        == v[i].0 && spec_uninstall(spec_configure(v, dir))[i].1 == v[i].1 by {
        assert forall|j: int|
            0 <= j < v[i].1.len() implies unmarked_fn()(#[trigger] v[i].1[j]) by {}
        lemma_entry_filter_all(v[i].1, unmarked_fn());
    }
}

/// Whether the external configuration already references this system's
/// status directory, from the configuration file's text (absent when the
/// file is absent or unreadable) and whether the directory exists.
pub fn check_hooks_configured(settings_content: Option<&str>, status_dir_exists: bool) -> (r:
    ClaudeHooksConfig)
    ensures
        r.configured == match settings_content {
            Some(c) => has_substring(c@, spec_marker()),
            None => false,
        },
        r.status_dir_exists == status_dir_exists,
{
    let configured = match settings_content {
        Some(c) => contains_str(c, ".woodeye-status"),
        None => false,
    };
    ClaudeHooksConfig { configured, status_dir_exists }
}

} // verus!
