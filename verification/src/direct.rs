use crate::conf;
use crate::config::{OSConfig, OSConfigView};
use crate::text;
use crate::text::Text;
use vstd::prelude::*;
use vstd::string::StringExecFns;

verus! {

/// The file that tells the system which nameservers to ask.
pub const RESOLV_CONF: &'static str = "/etc/resolv.conf";

/// Where the original of that file is kept while it is replaced.
pub const RESOLV_CONF_BACKUP: &'static str = "/etc/resolv.conf.easytier.bak";

/// The first line of the file that replaces it.
pub const RESOLV_CONF_HEADER: &'static str = "# Added by easytier\n";

/// Directly modifies `/etc/resolv.conf` as a last resort when no DNS manager
/// is detected. Backs up the original file and restores it on close.
#[derive(Clone, Copy, Debug, PartialEq, Eq, Structural)]
pub struct DirectManager;

/// What there is to see of the two files before anything is done to them.
#[derive(Debug, PartialEq, Eq)]
pub struct FilesSeen {
    /// The text of `/etc/resolv.conf`, if it can be read as text.
    pub conf_text: Option<String>,
    /// Whether `/etc/resolv.conf` exists.
    pub conf_exists: bool,
    /// Whether the backup exists.
    pub backup_exists: bool,
}

/// The values of a `FilesSeen`.
pub struct FilesSeenView {
    pub conf_text: Option<Text>,
    pub conf_exists: bool,
    pub backup_exists: bool,
}

impl View for FilesSeen {
    type V = FilesSeenView;

    open spec fn view(&self) -> FilesSeenView {
        FilesSeenView {
            conf_text: text::opt_text(self.conf_text),
            conf_exists: self.conf_exists,
            backup_exists: self.backup_exists,
        }
    }
}

/// One thing to do to a file.
#[derive(Debug, PartialEq, Eq)]
pub enum FileAction {
    /// Copy a file over another.
    Copy { from: String, to: String },
    /// Replace what a file holds.
    Write { path: String, content: String },
    /// Remove a file.
    Remove { path: String },
}

/// The texts of a `FileAction`.
pub enum FileActionView {
    Copy { from: Text, to: Text },
    Write { path: Text, content: Text },
    Remove { path: Text },
}

impl View for FileAction {
    type V = FileActionView;

    open spec fn view(&self) -> FileActionView {
        match *self {
            FileAction::Copy { from, to } => FileActionView::Copy { from: from@, to: to@ },
            FileAction::Write { path, content } => FileActionView::Write {
                path: path@,
                content: content@,
            },
            FileAction::Remove { path } => FileActionView::Remove { path: path@ },
        }
    }
}

/// The texts of a list of actions.
pub open spec fn actions(v: Seq<FileAction>) -> Seq<FileActionView> {
    v.map_values(|a: FileAction| a@)
}

/// Whether a text is one that this manager wrote.
pub open spec fn is_ours(content: Text) -> bool {
    text::starts_with(content, RESOLV_CONF_HEADER@)
}

/// The nameservers to keep of the file that is there. What this manager wrote
/// has none to keep.
pub open spec fn kept_nameservers(conf_text: Option<Text>) -> Seq<Text> {
    match conf_text {
        Some(content) => if is_ours(content) {
            Seq::empty()
        } else {
            conf::nameservers_in(text::lines(content))
        },
        None => Seq::empty(),
    }
}

/// The search domains to keep of the file that is there. What this manager wrote
/// has none to keep.
pub open spec fn kept_domains(conf_text: Option<Text>) -> Seq<Text> {
    match conf_text {
        Some(content) => if is_ours(content) {
            Seq::empty()
        } else {
            conf::searches_in(text::lines(content))
        },
        None => Seq::empty(),
    }
}

/// The configured nameservers, then those to keep that are not among them.
pub open spec fn merged_nameservers(configured: Seq<Text>, kept: Seq<Text>) -> Seq<Text> {
    configured + kept.filter(|address: Text| !configured.contains(address))
}

/// The domains, then each further one, without the dots at its end, that has not
/// come before.
pub open spec fn merged_domains(domains: Seq<Text>, further: Seq<Text>) -> Seq<Text>
    decreases further.len(),
{
    if further.len() == 0 {
        domains
    } else {
        let before = merged_domains(domains, further.drop_last());
        let domain = text::trim_dots(further.last());
        if before.contains(domain) {
            before
        } else {
            before.push(domain)
        }
    }
}

/// The comments with which the new file starts.
pub open spec fn preamble() -> Text {
    RESOLV_CONF_HEADER@ + "# Original resolv.conf backed up to "@ + RESOLV_CONF_BACKUP@ + "\n"@
}

/// The text to put in place of the file that is there.
pub open spec fn new_conf(cfg: OSConfigView, conf_text: Option<Text>) -> Text {
    preamble() + conf::nameserver_lines(
        merged_nameservers(cfg.nameservers, kept_nameservers(conf_text)),
    ) + conf::search_line(
        merged_domains(text::trim_dots_all(cfg.search_domains), kept_domains(conf_text)),
    )
}

/// What to do to the files to apply a configuration. The backup is made only
/// where there is none yet, so that what was there first is what is kept.
pub open spec fn set_dns_actions(cfg: OSConfigView, seen: FilesSeenView) -> Seq<FileActionView> {
    let write = FileActionView::Write {
        path: RESOLV_CONF@,
        content: new_conf(cfg, seen.conf_text),
    };
    if !seen.backup_exists && seen.conf_exists {
        seq![FileActionView::Copy { from: RESOLV_CONF@, to: RESOLV_CONF_BACKUP@ }, write]
    } else {
        seq![write]
    }
}

/// What to do to the files to undo it: nothing where the file is readable and not
/// what this manager wrote, or where there is no backup.
pub open spec fn close_actions(seen: FilesSeenView) -> Seq<FileActionView> {
    let foreign = match seen.conf_text {
        Some(content) => !is_ours(content),
        None => false,
    };
    if !foreign && seen.backup_exists {
        seq![
            FileActionView::Copy { from: RESOLV_CONF_BACKUP@, to: RESOLV_CONF@ },
            FileActionView::Remove { path: RESOLV_CONF_BACKUP@ },
        ]
    } else {
        Seq::empty()
    }
}

/// Whether a text is one that this manager wrote.
pub fn written_by_us(content: &str) -> (r: bool)
    ensures
        r == is_ours(content@),
{
    text::has_prefix(
        text::chars_of(content).as_slice(),
        text::chars_of(RESOLV_CONF_HEADER).as_slice(),
    )
}

impl DirectManager {
    /// The manager, which has no state of its own.
    pub fn new() -> (r: Self)
        ensures
            r == DirectManager,
    {
        DirectManager
    }

    /// The text to put in place of the file that is there.
    pub fn new_content(&self, cfg: &OSConfig, conf_text: &Option<String>) -> (r: String)
        ensures
            r@ == new_conf(cfg@, text::opt_text(*conf_text)),
    {
        let (kept_ns, kept_search): (Vec<String>, Vec<String>) = match conf_text {
            Some(content) => if written_by_us(content.as_str()) {
                (Vec::new(), Vec::new())
            } else {
                conf::entries_of(content.as_str())
            },
            None => (Vec::new(), Vec::new()),
        };
        assert(text::texts(kept_ns@) == kept_nameservers(text::opt_text(*conf_text)));
        assert(text::texts(kept_search@) == kept_domains(text::opt_text(*conf_text)));

        let mut content = RESOLV_CONF_HEADER.to_string();
        content.append("# Original resolv.conf backed up to ");
        content.append(RESOLV_CONF_BACKUP);
        content.append("\n");

        let nameservers = merge_nameservers(&cfg.nameservers, &kept_ns);
        conf::push_nameserver_lines(&mut content, &nameservers);

        let domains = merge_domains(&cfg.search_domains, &kept_search);
        conf::push_search_line(&mut content, &domains);
        content
    }

    /// What to do to the files to apply a configuration, in order. Each action is
    /// to be done only if those before it succeeded.
    pub fn set_dns(&self, cfg: &OSConfig, seen: &FilesSeen) -> (r: Vec<FileAction>)
        ensures
            actions(r@) == set_dns_actions(cfg@, seen@),
    {
        let mut r: Vec<FileAction> = Vec::new();
        let content = self.new_content(cfg, &seen.conf_text);
        if !seen.backup_exists && seen.conf_exists {
            r.push(
                FileAction::Copy {
                    from: RESOLV_CONF.to_string(),
                    to: RESOLV_CONF_BACKUP.to_string(),
                },
            );
        }
        r.push(FileAction::Write { path: RESOLV_CONF.to_string(), content });
        assert(actions(r@) == set_dns_actions(cfg@, seen@));
        r
    }

    /// What to do to the files to undo it, in order. Each action is to be done
    /// only if those before it succeeded.
    pub fn close(&self, seen: &FilesSeen) -> (r: Vec<FileAction>)
        ensures
            actions(r@) == close_actions(seen@),
    {
        let mut r: Vec<FileAction> = Vec::new();
        if let Some(content) = &seen.conf_text {
            if !written_by_us(content.as_str()) {
                assert(actions(r@) == close_actions(seen@));
                return r;
            }
        }
        if seen.backup_exists {
            r.push(
                FileAction::Copy {
                    from: RESOLV_CONF_BACKUP.to_string(),
                    to: RESOLV_CONF.to_string(),
                },
            );
            r.push(FileAction::Remove { path: RESOLV_CONF_BACKUP.to_string() });
        }
        assert(actions(r@) == close_actions(seen@));
        r
    }
}

impl Default for DirectManager {
    fn default() -> (r: Self)
        ensures
            r == DirectManager,
    {
        DirectManager
    }
}

/// The configured nameservers, then those to keep that are not among them.
pub fn merge_nameservers(configured: &Vec<String>, kept: &Vec<String>) -> (r: Vec<String>)
    ensures
        text::texts(r@) == merged_nameservers(text::texts(configured@), text::texts(kept@)),
{
    let ghost conf = text::texts(configured@);
    let ghost all = text::texts(kept@);
    let ghost fresh = |address: Text| !conf.contains(address);
    let mut r: Vec<String> = configured.clone();
    assert(text::texts(r@) == conf);
    proof {
        reveal(Seq::filter);
    }
    for i in 0..kept.len()
        invariant
            conf == text::texts(configured@),
            all == text::texts(kept@),
            fresh == (|address: Text| !conf.contains(address)),
            text::texts(r@) == conf + all.take(i as int).filter(fresh),
    {
        let ghost before = text::texts(r@);
        proof {
            reveal(Seq::filter);
            assert(all.take(i + 1).drop_last() == all.take(i as int));
            assert(all.take(i + 1).last() == kept@[i as int]@);
        }
        if !text::lists(configured, kept[i].as_str()) {
            r.push(kept[i].clone());
            assert(text::texts(r@) == before.push(kept@[i as int]@));
        }
    }
    assert(all.take(all.len() as int) == all);
    r
}

/// The configured domains without the dots at their ends, then each one to keep,
/// without those dots, that has not come before.
pub fn merge_domains(configured: &Vec<String>, kept: &Vec<String>) -> (r: Vec<String>)
    ensures
        text::texts(r@) == merged_domains(
            text::trim_dots_all(text::texts(configured@)),
            text::texts(kept@),
        ),
{
    let mut r = text::all_without_dots(configured);
    let ghost first = text::texts(r@);
    let ghost all = text::texts(kept@);
    for i in 0..kept.len()
        invariant
            all == text::texts(kept@),
            text::texts(r@) == merged_domains(first, all.take(i as int)),
    {
        let ghost before = text::texts(r@);
        let domain = text::without_dots(kept[i].as_str());
        proof {
            assert(all.take(i + 1).drop_last() == all.take(i as int));
            assert(all.take(i + 1).last() == kept@[i as int]@);
        }
        if !text::lists(&r, domain.as_str()) {
            r.push(domain);
            assert(text::texts(r@) == before.push(domain@));
        }
    }
    assert(all.take(all.len() as int) == all);
    r
}

} // verus!
