use crate::config::OSConfigView;
use crate::direct;
use crate::direct::{FileActionView, FilesSeenView, RESOLV_CONF, RESOLV_CONF_BACKUP, RESOLV_CONF_HEADER};
use crate::text;
use crate::text::Text;
use vstd::prelude::*;
use vstd::utf8;

verus! {

/// What the files of a system hold, by their paths.
pub type Files = Map<Text, Seq<u8>>;

/// The files after an action that succeeded.
pub open spec fn apply(files: Files, action: FileActionView) -> Files {
    match action {
        FileActionView::Copy { from, to } => files.insert(to, files[from]),
        FileActionView::Write { path, content } => files.insert(path, utf8::encode_utf8(content)),
        FileActionView::Remove { path } => files.remove(path),
    }
}

/// The files after actions that succeeded, done in order.
pub open spec fn apply_all(files: Files, actions: Seq<FileActionView>) -> Files
    decreases actions.len(),
{
    if actions.len() == 0 {
        files
    } else {
        apply(apply_all(files, actions.drop_last()), actions.last())
    }
}

/// What there is to see of the files.
pub open spec fn look(files: Files) -> FilesSeenView {
    FilesSeenView {
        conf_text: if files.contains_key(RESOLV_CONF@) && utf8::valid_utf8(files[RESOLV_CONF@]) {
            Some(utf8::decode_utf8(files[RESOLV_CONF@]))
        } else {
            None
        },
        conf_exists: files.contains_key(RESOLV_CONF@),
        backup_exists: files.contains_key(RESOLV_CONF_BACKUP@),
    }
}

/// The files after a configuration was applied.
pub open spec fn after_set_dns(files: Files, cfg: OSConfigView) -> Files {
    apply_all(files, direct::set_dns_actions(cfg, look(files)))
}

/// The files after configurations were applied one after the other.
pub open spec fn after_all_set_dns(files: Files, cfgs: Seq<OSConfigView>) -> Files
    decreases cfgs.len(),
{
    if cfgs.len() == 0 {
        files
    } else {
        after_set_dns(after_all_set_dns(files, cfgs.drop_last()), cfgs.last())
    }
}

/// The files after it was undone.
pub open spec fn after_close(files: Files) -> Files {
    apply_all(files, direct::close_actions(look(files)))
}

/// The two files are different.
proof fn lemma_paths()
    ensures
        RESOLV_CONF@ != RESOLV_CONF_BACKUP@,
{
    reveal_strlit("/etc/resolv.conf");
    reveal_strlit("/etc/resolv.conf.easytier.bak");
    assert("/etc/resolv.conf"@.len() != "/etc/resolv.conf.easytier.bak"@.len());
}

/// What is written is told from what is not by its first line.
pub proof fn written_files_are_ours(cfg: OSConfigView, conf_text: Option<Text>)
    ensures
        direct::is_ours(direct::new_conf(cfg, conf_text)),
{
    let content = direct::new_conf(cfg, conf_text);
    assert(content.take(RESOLV_CONF_HEADER@.len() as int) == RESOLV_CONF_HEADER@);
}

/// A repeated call does not take over what an earlier one wrote: it writes what it
/// would write where there is no file.
pub proof fn own_output_is_not_taken_over(
    cfg: OSConfigView,
    earlier: OSConfigView,
    conf_text: Option<Text>,
)
    ensures
        direct::new_conf(cfg, Some(direct::new_conf(earlier, conf_text))) == direct::new_conf(
            cfg,
            None,
        ),
{
    written_files_are_ours(earlier, conf_text);
}

/// The effect of the actions, one by one.
proof fn lemma_apply_two(files: Files, a: FileActionView, b: FileActionView)
    ensures
        apply_all(files, Seq::empty()) == files,
        apply_all(files, seq![a]) == apply(files, a),
        apply_all(files, seq![a, b]) == apply(apply(files, a), b),
{
    reveal_with_fuel(apply_all, 3);
    assert(seq![a].drop_last() == Seq::<FileActionView>::empty());
    assert(seq![a, b].drop_last() == seq![a]);
}

/// Applying a configuration writes the new `resolv.conf`, copies the one that was
/// there to the backup if there is no backup yet, and touches nothing else.
pub proof fn set_dns_effect(files: Files, cfg: OSConfigView)
    ensures
        after_set_dns(files, cfg) == (if files.contains_key(RESOLV_CONF@) && !files.contains_key(
            RESOLV_CONF_BACKUP@,
        ) {
            files.insert(RESOLV_CONF_BACKUP@, files[RESOLV_CONF@])
        } else {
            files
        }).insert(RESOLV_CONF@, utf8::encode_utf8(direct::new_conf(cfg, look(files).conf_text))),
{
    let copy = FileActionView::Copy { from: RESOLV_CONF@, to: RESOLV_CONF_BACKUP@ };
    let write = FileActionView::Write {
        path: RESOLV_CONF@,
        content: direct::new_conf(cfg, look(files).conf_text),
    };
    lemma_apply_two(files, copy, write);
    lemma_apply_two(files, write, write);
}

/// Undoing it, where the file is the manager's own and there is a backup, puts the
/// backup back in its place; else it changes nothing.
pub proof fn close_effect(files: Files)
    ensures
        after_close(files) == (if files.contains_key(RESOLV_CONF_BACKUP@) && (look(
            files,
        ).conf_text matches Some(content) ==> direct::is_ours(content)) {
            files.insert(RESOLV_CONF@, files[RESOLV_CONF_BACKUP@]).remove(RESOLV_CONF_BACKUP@)
        } else {
            files
        }),
{
    lemma_apply_two(
        files,
        FileActionView::Copy { from: RESOLV_CONF_BACKUP@, to: RESOLV_CONF@ },
        FileActionView::Remove { path: RESOLV_CONF_BACKUP@ },
    );
}

/// What is written reads back as it was.
proof fn lemma_look_after_write(files: Files, content: Text)
    requires
        files.contains_key(RESOLV_CONF@),
        files[RESOLV_CONF@] == utf8::encode_utf8(content),
    ensures
        look(files).conf_text == Some(content),
{
    utf8::encode_utf8_valid_utf8(content);
    utf8::encode_utf8_decode_utf8(content);
}

/// After any number of calls, the file is the manager's own, the backup holds what was
/// there first, and nothing else is touched.
proof fn lemma_after_calls(files: Files, cfgs: Seq<OSConfigView>)
    requires
        cfgs.len() > 0,
        files.contains_key(RESOLV_CONF@),
        !files.contains_key(RESOLV_CONF_BACKUP@),
    ensures
        exists|content: Text| #[trigger]
            direct::is_ours(content) && after_all_set_dns(files, cfgs) == files.insert(
                RESOLV_CONF_BACKUP@,
                files[RESOLV_CONF@],
            ).insert(RESOLV_CONF@, utf8::encode_utf8(content)),
    decreases cfgs.len(),
{
    lemma_paths();
    let before = after_all_set_dns(files, cfgs.drop_last());
    let cfg = cfgs.last();
    let content = direct::new_conf(cfg, look(before).conf_text);
    set_dns_effect(before, cfg);
    written_files_are_ours(cfg, look(before).conf_text);
    if cfgs.len() > 1 {
        lemma_after_calls(files, cfgs.drop_last());
    }
    assert(after_all_set_dns(files, cfgs) == files.insert(
        RESOLV_CONF_BACKUP@,
        files[RESOLV_CONF@],
    ).insert(RESOLV_CONF@, utf8::encode_utf8(content)));
}

/// The original file is restored on close: however often and with whatever settings a
/// configuration was applied, undoing it leaves every file as it was before the first
/// call, if there was a `resolv.conf` and no backup.
pub proof fn close_restores_the_original(files: Files, cfgs: Seq<OSConfigView>)
    requires
        cfgs.len() > 0,
        files.contains_key(RESOLV_CONF@),
        !files.contains_key(RESOLV_CONF_BACKUP@),
    ensures
        after_close(after_all_set_dns(files, cfgs)) == files,
{
    lemma_paths();
    lemma_after_calls(files, cfgs);
    let now = after_all_set_dns(files, cfgs);
    let content = choose|content: Text| #[trigger]
        direct::is_ours(content) && now == files.insert(
            RESOLV_CONF_BACKUP@,
            files[RESOLV_CONF@],
        ).insert(RESOLV_CONF@, utf8::encode_utf8(content));
    lemma_look_after_write(now, content);
    close_effect(now);
    assert(after_close(now) =~= files);
}

/// A backup that is already there is never overwritten, and is what undoing restores.
pub proof fn an_older_backup_is_kept(files: Files, cfg: OSConfigView)
    requires
        files.contains_key(RESOLV_CONF_BACKUP@),
    ensures
        after_set_dns(files, cfg)[RESOLV_CONF_BACKUP@] == files[RESOLV_CONF_BACKUP@],
        after_close(after_set_dns(files, cfg)) == files.insert(
            RESOLV_CONF@,
            files[RESOLV_CONF_BACKUP@],
        ).remove(RESOLV_CONF_BACKUP@),
{
    lemma_paths();
    let content = direct::new_conf(cfg, look(files).conf_text);
    set_dns_effect(files, cfg);
    written_files_are_ours(cfg, look(files).conf_text);
    let now = after_set_dns(files, cfg);
    lemma_look_after_write(now, content);
    close_effect(now);
    assert(after_close(now) =~= files.insert(RESOLV_CONF@, files[RESOLV_CONF_BACKUP@]).remove(
        RESOLV_CONF_BACKUP@,
    ));
}

/// Undoing leaves every file alone where `resolv.conf` is readable and not what the
/// manager wrote.
pub proof fn a_foreign_file_is_left_alone(files: Files)
    requires
        look(files).conf_text matches Some(content) && !direct::is_ours(content),
    ensures
        after_close(files) == files,
{
    close_effect(files);
}

/// Undoing twice is undoing once.
pub proof fn close_is_idempotent(files: Files)
    ensures
        after_close(after_close(files)) == after_close(files),
{
    close_effect(files);
    close_effect(after_close(files));
}

/// The original is never lost, even if only the first of the actions are done: after any
/// number of those that apply a configuration, and after any number of those that then
/// undo it, `resolv.conf` or the backup holds what `resolv.conf` held.
pub proof fn the_original_is_never_lost(files: Files, cfg: OSConfigView, done: int)
    requires
        files.contains_key(RESOLV_CONF@),
        !files.contains_key(RESOLV_CONF_BACKUP@),
    ensures
        ({
            let actions = direct::set_dns_actions(cfg, look(files));
            0 <= done <= actions.len() ==> {
                let now = apply_all(files, actions.take(done));
                ||| now.contains_key(RESOLV_CONF@) && now[RESOLV_CONF@] == files[RESOLV_CONF@]
                ||| now.contains_key(RESOLV_CONF_BACKUP@) && now[RESOLV_CONF_BACKUP@]
                    == files[RESOLV_CONF@]
            }
        }),
        ({
            let applied = after_set_dns(files, cfg);
            let actions = direct::close_actions(look(applied));
            0 <= done <= actions.len() ==> {
                let now = apply_all(applied, actions.take(done));
                ||| now.contains_key(RESOLV_CONF@) && now[RESOLV_CONF@] == files[RESOLV_CONF@]
                ||| now.contains_key(RESOLV_CONF_BACKUP@) && now[RESOLV_CONF_BACKUP@]
                    == files[RESOLV_CONF@]
            }
        }),
{
    lemma_paths();
    let actions = direct::set_dns_actions(cfg, look(files));
    lemma_apply_two(files, actions[0], actions[1]);
    assert(actions.take(0) =~= Seq::empty());
    assert(actions.take(1) =~= seq![actions[0]]);
    assert(actions.take(2) =~= seq![actions[0], actions[1]]);
    set_dns_effect(files, cfg);
    let applied = after_set_dns(files, cfg);
    let undo = direct::close_actions(look(applied));
    if undo.len() > 0 {
        lemma_apply_two(applied, undo[0], undo[1]);
        assert(undo.take(0) =~= Seq::empty());
        assert(undo.take(1) =~= seq![undo[0]]);
        assert(undo.take(2) =~= seq![undo[0], undo[1]]);
    } else {
        assert(undo.take(0) =~= Seq::empty());
        lemma_apply_two(applied, actions[0], actions[1]);
    }
}

} // verus!
