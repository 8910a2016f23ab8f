//! `SSLKEYLOGFILE` injection for the targeted applications: a launch wrapper that sets the
//! variable, and a user override of each application's `.desktop` entry whose `Exec=` lines
//! go through the wrapper. An override that existed before is saved and restored exactly.

use vstd::prelude::*;

use crate::attribution::desktop::{file_name_of, file_name_text, key_value};
use crate::paths::{data_home, join, opt_str_view, path_join, vitrail_data_dir, vitrail_dir};
use crate::shared::opt_view;

use super::desktop_store::{apply_op, replay, DesktopStore, FileOp};
use crate::storage::keylog::{app_rows, app_view, clear_injection, get_app, list_apps, record_injection};
use crate::storage::{KeylogAppRow, StorageHandle};
use crate::text::{chars_of, from_chars, lines, lines_chars, owned, push_char, push_str};

verus! {

/// The outcome of one injection; an application that cannot be injected is only left
/// uncovered.
pub enum InjectionOutcome {
    Injected { desktop_path: String, backup_path: Option<String> },
    NoDesktopFile,
    AlreadyInjected,
}

/// `<data>/vitrail/tls_keylog.log`, where the applications write their session keys.
pub fn keylog_path(xdg_data_home: Option<&str>, home: Option<&str>) -> (r: String)
    ensures
        r@ == path_join(vitrail_dir(opt_str_view(xdg_data_home), opt_str_view(home)), "tls_keylog.log"@),
{
    let base = vitrail_data_dir(xdg_data_home, home);
    join(base.as_str(), "tls_keylog.log")
}

/// `<data>/vitrail/keylog-wrapper.sh`, the launch wrapper.
pub fn wrapper_path(xdg_data_home: Option<&str>, home: Option<&str>) -> (r: String)
    ensures
        r@ == path_join(vitrail_dir(opt_str_view(xdg_data_home), opt_str_view(home)), "keylog-wrapper.sh"@),
{
    let base = vitrail_data_dir(xdg_data_home, home);
    join(base.as_str(), "keylog-wrapper.sh")
}

/// Single quotes for the shell: each `'` becomes `'\''`.
pub open spec fn quote_body(s: Seq<char>) -> Seq<char>
    decreases s.len(),
{
    if s.len() == 0 {
        Seq::empty()
    } else {
        quote_body(s.drop_last()) + if s.last() == '\'' {
            seq!['\'', '\\', '\'', '\'']
        } else {
            seq![s.last()]
        }
    }
}

pub open spec fn shell_quoted(s: Seq<char>) -> Seq<char> {
    seq!['\''] + quote_body(s) + seq!['\'']
}

pub fn shell_quote(value: &str) -> (r: String)
    ensures
        r@ == shell_quoted(value@),
{
    let chars = chars_of(value);
    let mut r = String::new();
    push_char(&mut r, '\'');
    let mut i: usize = 0;
    assert(chars@.subrange(0, 0) =~= Seq::<char>::empty());
    while i < chars.len()
        invariant
            chars@ == value@,
            0 <= i <= chars@.len(),
            r@ == seq!['\''] + quote_body(chars@.subrange(0, i as int)),
        decreases chars@.len() - i,
    {
        let c = chars[i];
        assert(chars@.subrange(0, i + 1).drop_last() =~= chars@.subrange(0, i as int));
        if c == '\'' {
            push_char(&mut r, '\'');
            push_char(&mut r, '\\');
            push_char(&mut r, '\'');
            push_char(&mut r, '\'');
        } else {
            push_char(&mut r, c);
        }
        assert(r@ =~= seq!['\''] + quote_body(chars@.subrange(0, i + 1)));
        i += 1;
    }
    assert(chars@.subrange(0, chars@.len() as int) =~= chars@);
    push_char(&mut r, '\'');
    r
}

/// The launch wrapper: sets `SSLKEYLOGFILE` to the key file, then runs its arguments.
pub open spec fn wrapper_script(keyfile: Seq<char>) -> Seq<char> {
    "#!/bin/sh\nexport SSLKEYLOGFILE="@ + shell_quoted(keyfile) + "\nexec \"$@\"\n"@
}

pub fn wrapper_content(keyfile: &str) -> (r: String)
    ensures
        r@ == wrapper_script(keyfile@),
{
    let mut r = owned("#!/bin/sh\nexport SSLKEYLOGFILE=");
    let q = shell_quote(keyfile);
    push_str(&mut r, q.as_str());
    push_str(&mut r, "\nexec \"$@\"\n");
    r
}

/// A line of a `.desktop` entry with its `Exec=` going through the wrapper.
pub open spec fn rewrite_line(line: Seq<char>, wrapper: Seq<char>) -> Seq<char> {
    match key_value(line, "Exec="@) {
        Some(rest) => "Exec="@ + wrapper + " "@ + rest,
        None => line,
    }
}

/// Lines joined with `\n`.
pub open spec fn joined(ls: Seq<Seq<char>>) -> Seq<char>
    decreases ls.len(),
{
    if ls.len() == 0 {
        Seq::empty()
    } else if ls.len() == 1 {
        ls[0]
    } else {
        joined(ls.drop_last()) + "\n"@ + ls.last()
    }
}

/// The entry with every `Exec=` line rewritten, each line ended by `\n`.
pub open spec fn rewritten(content: Seq<char>, wrapper: Seq<char>) -> Seq<char> {
    let ls = lines(content);
    joined(Seq::new(ls.len(), |i: int| rewrite_line(ls[i], wrapper))) + "\n"@
}

fn rewrite_one(line: &Vec<char>, wrapper: &str, exec_key: &Vec<char>) -> (r: String)
    requires
        exec_key@ == "Exec="@,
    ensures
        r@ == rewrite_line(line@, wrapper@),
{
    proof {
        reveal_strlit("Exec=");
        reveal_strlit(" ");
    }
    let n = line.len();
    assert(line@.subrange(0, n as int) =~= line@);
    let k = crate::text::leading_ws(line, 0, n);
    let t = crate::text::slice_vec(line, k, n);
    if crate::text::has_prefix(&t, exec_key) {
        let rest = crate::text::slice_vec(&t, 5, t.len());
        let mut r = owned("Exec=");
        push_str(&mut r, wrapper);
        push_str(&mut r, " ");
        let rs = from_chars(&rest);
        push_str(&mut r, rs.as_str());
        r
    } else {
        from_chars(line)
    }
}

/// Rewrites every `Exec=` line of an entry to go through `wrapper`.
pub fn rewrite_exec_lines(content: &str, wrapper: &str) -> (r: String)
    ensures
        r@ == rewritten(content@, wrapper@),
{
    proof {
        reveal_strlit("Exec=");
    }
    let ls = lines_chars(&chars_of(content));
    let exec_key = chars_of("Exec=");
    let ghost lv = ls@.map_values(|w: Vec<char>| w@);
    let ghost target = Seq::new(lv.len(), |i: int| rewrite_line(lv[i], wrapper@));
    let mut out = String::new();
    let mut i: usize = 0;
    while i < ls.len()
        invariant
            lv == ls@.map_values(|w: Vec<char>| w@),
            lv == lines(content@),
            target == Seq::new(lv.len(), |i: int| rewrite_line(lv[i], wrapper@)),
            exec_key@ == "Exec="@,
            0 <= i <= ls@.len(),
            out@ == joined(target.subrange(0, i as int)),
        decreases ls@.len() - i,
    {
        let line = rewrite_one(&ls[i], wrapper, &exec_key);
        assert(line@ == target[i as int]);
        let ghost sub = target.subrange(0, i + 1);
        assert(sub.drop_last() =~= target.subrange(0, i as int));
        if i > 0 {
            push_str(&mut out, "\n");
        }
        push_str(&mut out, line.as_str());
        proof {
            if i == 0 {
                assert(sub.len() == 1);
                assert(out@ =~= joined(sub));
            } else {
                assert(out@ =~= joined(sub));
            }
        }
        i += 1;
    }
    assert(target.subrange(0, lv.len() as int) =~= target);
    push_str(&mut out, "\n");
    out
}

/// The file operations that injection needs (the real file system in the application).
pub trait DesktopFiles {
    /// The `.desktop` entry whose `Exec=` line names the binary.
    fn find_desktop_file(&self, exe_path: &str) -> Option<String>;

    fn path_exists(&self, path: &str) -> bool;

    fn create_dir_all(&mut self, path: &str) -> Result<(), String>;

    fn copy(&mut self, from: &str, to: &str) -> Result<(), String>;

    fn read_to_string(&self, path: &str) -> Result<String, String>;

    fn write(&mut self, path: &str, content: &str) -> Result<(), String>;

    fn remove_if_present(&mut self, path: &str) -> Result<(), String>;
}

/// The name of the override of the entry at `source`: the entry's file name.
pub open spec fn entry_name(source: Seq<char>) -> Seq<char> {
    match file_name_of(source) {
        Some(n) => n,
        None => Seq::empty(),
    }
}

/// `<data>/applications`, where the overrides live.
pub open spec fn applications_dir(xdg: Option<Seq<char>>, home: Option<Seq<char>>) -> Seq<char> {
    path_join(data_home(xdg, home), "applications"@)
}

/// `<data>/vitrail/keylog-backups`, where previous overrides are saved.
pub open spec fn backups_dir(xdg: Option<Seq<char>>, home: Option<Seq<char>>) -> Seq<char> {
    path_join(vitrail_dir(xdg, home), "keylog-backups"@)
}

/// The operations of a successful injection: the entry found at `source`, whether the
/// override existed (then saved to `backup`), the entry read, and the override written with
/// its `Exec=` lines going through `wrapper`.
pub open spec fn injection_ops(
    exe: Seq<char>,
    source: Seq<char>,
    override_path: Seq<char>,
    backup: Option<Seq<char>>,
    backup_dir: Seq<char>,
    applications: Seq<char>,
    content: Seq<char>,
    wrapper: Seq<char>,
) -> Seq<FileOp> {
    seq![FileOp::Find(exe, Some(source)), FileOp::Exists(override_path, backup is Some)] + (
    match backup {
        Some(b) => seq![FileOp::CreateDir(backup_dir, true), FileOp::Copy(override_path, b, true)],
        None => Seq::empty(),
    }) + seq![
        FileOp::Read(source, Some(content)),
        FileOp::CreateDir(applications, true),
        FileOp::Write(override_path, rewritten(content, wrapper), true),
    ]
}

/// The operation that restores an override: the saved one copied back, else the override
/// removed.
pub open spec fn restore_op(override_path: Seq<char>, backup: Option<Seq<char>>, ok: bool) -> FileOp {
    match backup {
        Some(b) => FileOp::Copy(b, override_path, ok),
        None => FileOp::Remove(override_path, ok),
    }
}

/// Turning the injection off leaves no residue: on files where the override existed exactly
/// when the injection saw it, replaying a successful injection and then the successful
/// restoration of its override leaves the override as it was, with the same content, or
/// absent.
pub proof fn lemma_restore_undoes_injection(
    m: Map<Seq<char>, Seq<char>>,
    exe: Seq<char>,
    source: Seq<char>,
    override_path: Seq<char>,
    backup: Option<Seq<char>>,
    backup_dir: Seq<char>,
    applications: Seq<char>,
    content: Seq<char>,
    wrapper: Seq<char>,
)
    requires
        m.contains_key(override_path) == (backup is Some),
        backup matches Some(b) ==> b != override_path,
    ensures
        apply_op(
            replay(
                m,
                injection_ops(exe, source, override_path, backup, backup_dir, applications, content, wrapper),
            ),
            restore_op(override_path, backup, true),
        ).contains_key(override_path) == m.contains_key(override_path),
        m.contains_key(override_path) ==> apply_op(
            replay(
                m,
                injection_ops(exe, source, override_path, backup, backup_dir, applications, content, wrapper),
            ),
            restore_op(override_path, backup, true),
        )[override_path] == m[override_path],
{
    let ops = injection_ops(exe, source, override_path, backup, backup_dir, applications, content, wrapper);
    let w = FileOp::Write(override_path, rewritten(content, wrapper), true);
    let rd = FileOp::Read(source, Some(content));
    let cd = FileOp::CreateDir(applications, true);
    let f = FileOp::Find(exe, Some(source));
    let e = FileOp::Exists(override_path, backup is Some);
    match backup {
        Some(b) => {
            let bd = FileOp::CreateDir(backup_dir, true);
            let cp = FileOp::Copy(override_path, b, true);
            assert(ops =~= seq![f, e, bd, cp, rd, cd, w]);
            reveal_with_fuel(replay, 8);
            let m4 = m.insert(b, m[override_path]);
            assert(replay(m, ops.subrange(0, 4)) == m4) by {
                assert(ops.subrange(0, 4).drop_last() =~= ops.subrange(0, 3));
                assert(ops.subrange(0, 3).drop_last() =~= ops.subrange(0, 2));
                assert(ops.subrange(0, 2).drop_last() =~= ops.subrange(0, 1));
                assert(ops.subrange(0, 1).drop_last() =~= ops.subrange(0, 0));
            }
            assert(ops.subrange(0, 7) =~= ops);
            assert(ops.drop_last() =~= ops.subrange(0, 6));
            assert(ops.subrange(0, 6).drop_last() =~= ops.subrange(0, 5));
            assert(ops.subrange(0, 5).drop_last() =~= ops.subrange(0, 4));
            let m7 = m4.insert(override_path, rewritten(content, wrapper));
            assert(replay(m, ops) == m7);
            assert(m7.contains_key(b) && m7[b] == m[override_path]);
        },
        None => {
            assert(ops =~= seq![f, e, rd, cd, w]);
            reveal_with_fuel(replay, 6);
            assert(ops.drop_last() =~= ops.subrange(0, 4));
            assert(ops.subrange(0, 4).drop_last() =~= ops.subrange(0, 3));
            assert(ops.subrange(0, 3).drop_last() =~= ops.subrange(0, 2));
            assert(ops.subrange(0, 2).drop_last() =~= ops.subrange(0, 1));
            assert(ops.subrange(0, 1).drop_last() =~= ops.subrange(0, 0));
            assert(replay(m, ops) == m.insert(override_path, rewritten(content, wrapper)));
        },
    }
}

/// The file operations from `before` to `after` are a successful injection of the binary
/// `exe`: the entry found at some source, the override written at `desktop_path` in the
/// applications directory under the entry's name, and a previous override saved at `backup`.
pub open spec fn injection_made(
    before: Seq<FileOp>,
    after: Seq<FileOp>,
    exe: Seq<char>,
    desktop_path: Seq<char>,
    backup: Option<Seq<char>>,
    xdg: Option<Seq<char>>,
    home: Option<Seq<char>>,
    wrapper: Seq<char>,
) -> bool {
    &&& before.len() <= after.len()
    &&& after.subrange(0, before.len() as int) == before
    &&& exists|source: Seq<char>, content: Seq<char>|
        #[trigger] injection_ops(
            exe,
            source,
            desktop_path,
            backup,
            backups_dir(xdg, home),
            applications_dir(xdg, home),
            content,
            wrapper,
        ) == after.subrange(before.len() as int, after.len() as int) && desktop_path == path_join(
            applications_dir(xdg, home),
            entry_name(source),
        ) && (backup matches Some(b) ==> b == path_join(backups_dir(xdg, home), entry_name(source)))
}

/// Injecting then restoring gives back the original entry: after a successful injection and
/// the successful restoration of its override, on files where the override existed exactly
/// when the injection saw it, the override is as it was before, with the same content, or
/// absent again.
pub proof fn lemma_inject_then_restore(
    m: Map<Seq<char>, Seq<char>>,
    ops0: Seq<FileOp>,
    ops1: Seq<FileOp>,
    exe: Seq<char>,
    desktop_path: Seq<char>,
    backup: Option<Seq<char>>,
    xdg: Option<Seq<char>>,
    home: Option<Seq<char>>,
    wrapper: Seq<char>,
)
    requires
        injection_made(ops0, ops1, exe, desktop_path, backup, xdg, home, wrapper),
        m.contains_key(desktop_path) == (backup is Some),
        backup matches Some(b) ==> b != desktop_path,
    ensures
        ({
            let done = replay(
                m,
                ops1.push(restore_op(desktop_path, backup, true)).subrange(
                    ops0.len() as int,
                    ops1.len() + 1 as int,
                ),
            );
            &&& done.contains_key(desktop_path) == m.contains_key(desktop_path)
            &&& m.contains_key(desktop_path) ==> done[desktop_path] == m[desktop_path]
        }),
{
    let (source, content) = choose|source: Seq<char>, content: Seq<char>|
        #[trigger] injection_ops(
            exe,
            source,
            desktop_path,
            backup,
            backups_dir(xdg, home),
            applications_dir(xdg, home),
            content,
            wrapper,
        ) == ops1.subrange(ops0.len() as int, ops1.len() as int) && desktop_path == path_join(
            applications_dir(xdg, home),
            entry_name(source),
        ) && (backup matches Some(b) ==> b == path_join(backups_dir(xdg, home), entry_name(source)));
    let ops = injection_ops(
        exe,
        source,
        desktop_path,
        backup,
        backups_dir(xdg, home),
        applications_dir(xdg, home),
        content,
        wrapper,
    );
    let all = ops1.push(restore_op(desktop_path, backup, true)).subrange(ops0.len() as int, ops1.len() + 1 as int);
    assert(all =~= ops.push(restore_op(desktop_path, backup, true)));
    assert(all.drop_last() =~= ops);
    lemma_restore_undoes_injection(
        m,
        exe,
        source,
        desktop_path,
        backup,
        backups_dir(xdg, home),
        applications_dir(xdg, home),
        content,
        wrapper,
    );
}

/// No file was written among the operations from index `n` on.
pub open spec fn no_write_since(ops: Seq<FileOp>, n: int) -> bool {
    forall|i: int| n <= i < ops.len() ==> !(#[trigger] ops[i] matches FileOp::Write(_, _, true))
}

/// Injects one targeted application: its entry is overridden in
/// `<data>/applications/<entry name>` (a previous override saved first in
/// `<data>/vitrail/keylog-backups/`), and the injection is recorded. An application already
/// marked injected (what an unclean stop leaves) is left alone: overriding the override again
/// would lose the original.
pub fn inject_app<F: DesktopStore>(
    storage: &mut StorageHandle,
    row: &KeylogAppRow,
    wrapper: &str,
    files: &mut F,
    xdg_data_home: Option<&str>,
    home: Option<&str>,
) -> (r: InjectionOutcome)
    ensures
        row.desktop_path is Some <==> r is AlreadyInjected,
        r is AlreadyInjected ==> final(files).spec_ops() == old(files).spec_ops(),
        !(r is AlreadyInjected) ==> (final(files).spec_ops().len() > old(files).spec_ops().len()
            && (final(files).spec_ops()[old(files).spec_ops().len() as int] matches FileOp::Find(
            exe,
            found,
        ) && exe == row.binary_path@ && (found is None ==> r is NoDesktopFile
            && final(files).spec_ops() == old(files).spec_ops().push(FileOp::Find(row.binary_path@, None))))),
        r is NoDesktopFile ==> final(files).spec_ops().subrange(0, old(files).spec_ops().len() as int)
            == old(files).spec_ops() && no_write_since(final(files).spec_ops(), old(files).spec_ops().len() as int),
        r matches InjectionOutcome::Injected { desktop_path, backup_path } ==> injection_made(
            old(files).spec_ops(),
            final(files).spec_ops(),
            row.binary_path@,
            desktop_path@,
            opt_view(backup_path),
            opt_str_view(xdg_data_home),
            opt_str_view(home),
            wrapper@,
        ),
        !(r is Injected) ==> *final(storage) == *old(storage),
        r matches InjectionOutcome::Injected { desktop_path, backup_path } ==> app_rows(*final(storage))
            .len() == app_rows(*old(storage)).len() && forall|i: int|
            0 <= i < app_rows(*old(storage)).len() ==> #[trigger] app_rows(*final(storage))[i] == (
            if app_rows(*old(storage))[i].0 == row.binary_path@ {
                (row.binary_path@, Some(desktop_path@), crate::shared::opt_view(backup_path))
            } else {
                app_rows(*old(storage))[i]
            }),
{
    if row.desktop_path.is_some() {
        return InjectionOutcome::AlreadyInjected;
    }
    let ghost ops0 = files.spec_ops();
    let source = match files.find_desktop_file(row.binary_path.as_str()) {
        Some(s) => s,
        None => {
            return InjectionOutcome::NoDesktopFile;
        },
    };
    let entry_name = match file_name_text(source.as_str()) {
        Some(n) => n,
        None => String::new(),
    };
    assert(entry_name@ == self::entry_name(source@));
    let data = crate::paths::xdg_data_home(xdg_data_home, home);
    let applications = join(data.as_str(), "applications");
    let override_path = join(applications.as_str(), entry_name.as_str());
    let backup_path = if files.path_exists(override_path.as_str()) {
        let vitrail = vitrail_data_dir(xdg_data_home, home);
        let backup_dir = join(vitrail.as_str(), "keylog-backups");
        if files.create_dir_all(backup_dir.as_str()).is_err() {
            return InjectionOutcome::NoDesktopFile;
        }
        let backup = join(backup_dir.as_str(), entry_name.as_str());
        if files.copy(override_path.as_str(), backup.as_str()).is_err() {
            return InjectionOutcome::NoDesktopFile;
        }
        Some(backup)
    } else {
        None
    };
    let content = match files.read_to_string(source.as_str()) {
        Ok(c) => c,
        Err(_) => {
            return InjectionOutcome::NoDesktopFile;
        },
    };
    let rewritten_content = rewrite_exec_lines(content.as_str(), wrapper);
    if files.create_dir_all(applications.as_str()).is_err() {
        return InjectionOutcome::NoDesktopFile;
    }
    if files.write(override_path.as_str(), rewritten_content.as_str()).is_err() {
        return InjectionOutcome::NoDesktopFile;
    }
    let backup_ref: Option<&str> = match &backup_path {
        Some(b) => Some(b.as_str()),
        None => None,
    };
    let _ = record_injection(storage, row.binary_path.as_str(), override_path.as_str(), backup_ref);
    proof {
        let ops = files.spec_ops();
        let expected = injection_ops(
            row.binary_path@,
            source@,
            override_path@,
            opt_view(backup_path),
            backups_dir(opt_str_view(xdg_data_home), opt_str_view(home)),
            applications_dir(opt_str_view(xdg_data_home), opt_str_view(home)),
            content@,
            wrapper@,
        );
        assert(ops.subrange(ops0.len() as int, ops.len() as int) =~= expected);
        assert(ops.subrange(0, ops0.len() as int) =~= ops0);
    }
    InjectionOutcome::Injected { desktop_path: override_path, backup_path }
}

/// Restores one application: its saved override is copied back when there was one, else
/// the override Vitrail created is removed; then the injection is forgotten. Nothing happens
/// for an application that was not injected. Whether the file system part succeeded.
pub fn restore_app<F: DesktopStore>(storage: &mut StorageHandle, row: &KeylogAppRow, files: &mut F) -> (r:
    bool)
    ensures
        row.desktop_path is None ==> r && *final(storage) == *old(storage) && final(files).spec_ops()
            == old(files).spec_ops(),
        row.desktop_path matches Some(d) ==> final(files).spec_ops() == old(files).spec_ops().push(
            restore_op(d@, opt_view(row.backup_path), r),
        ),
        row.desktop_path is Some ==> app_rows(*final(storage)).len() == app_rows(*old(storage)).len()
            && forall|i: int|
            0 <= i < app_rows(*old(storage)).len() ==> #[trigger] app_rows(*final(storage))[i] == (
            if app_rows(*old(storage))[i].0 == row.binary_path@ {
                (row.binary_path@, None, None)
            } else {
                app_rows(*old(storage))[i]
            }),
{
    let desktop_path = match &row.desktop_path {
        Some(p) => p,
        None => {
            return true;
        },
    };
    let result = match &row.backup_path {
        Some(backup) => files.copy(backup.as_str(), desktop_path.as_str()),
        None => files.remove_if_present(desktop_path.as_str()),
    };
    let _ = clear_injection(storage, row.binary_path.as_str());
    result.is_ok()
}

/// The first target with that binary path has an injection recorded.
pub open spec fn first_app_injected(
    rows: Seq<(Seq<char>, Option<Seq<char>>, Option<Seq<char>>)>,
    binary: Seq<char>,
) -> bool {
    exists|i: int|
        0 <= i < rows.len() && #[trigger] rows[i].0 == binary && rows[i].1 is Some && forall|j: int|
            0 <= j < i ==> rows[j].0 != binary
}

/// The first target with that binary path.
pub open spec fn first_injected_row(
    rows: Seq<(Seq<char>, Option<Seq<char>>, Option<Seq<char>>)>,
    binary: Seq<char>,
) -> (Seq<char>, Option<Seq<char>>, Option<Seq<char>>) {
    rows[choose|i: int|
        0 <= i < rows.len() && #[trigger] rows[i].0 == binary && rows[i].1 is Some && forall|j: int|
            0 <= j < i ==> rows[j].0 != binary]
}

/// Restores the injection of one application before it leaves the targets, so that its
/// override is never orphaned; nothing happens when it was not injected.
pub fn restore_app_injection<F: DesktopStore>(storage: &mut StorageHandle, binary_path: &str, files: &mut F)
    ensures
        !first_app_injected(app_rows(*old(storage)), binary_path@) ==> *final(storage) == *old(storage)
            && final(files).spec_ops() == old(files).spec_ops(),
        first_app_injected(app_rows(*old(storage)), binary_path@) ==> exists|ok: bool|
            #[trigger] final(files).spec_ops() == old(files).spec_ops().push(
                restore_op(
                    first_injected_row(app_rows(*old(storage)), binary_path@).1->0,
                    first_injected_row(app_rows(*old(storage)), binary_path@).2,
                    ok,
                ),
            ),
        first_app_injected(app_rows(*old(storage)), binary_path@) ==> app_rows(*final(storage)).len()
            == app_rows(*old(storage)).len() && forall|i: int|
            0 <= i < app_rows(*old(storage)).len() ==> #[trigger] app_rows(*final(storage))[i] == (
            if app_rows(*old(storage))[i].0 == binary_path@ {
                (binary_path@, None, None)
            } else {
                app_rows(*old(storage))[i]
            }),
{
    let ghost rows = app_rows(*storage);
    match get_app(storage, binary_path) {
        Ok(Some(row)) => {
            let ghost k = choose|i: int|
                0 <= i < rows.len() && rows[i] == app_view(row) && app_view(row).0 == binary_path@
                    && forall|j: int| 0 <= j < i ==> rows[j].0 != binary_path@;
            if row.desktop_path.is_some() {
                assert(rows[k].0 == binary_path@ && rows[k].1 is Some);
                proof {
                    let i = choose|i: int|
                        0 <= i < rows.len() && #[trigger] rows[i].0 == binary_path@ && rows[i].1 is Some
                            && forall|j: int| 0 <= j < i ==> rows[j].0 != binary_path@;
                    assert(first_app_injected(rows, binary_path@));
                    if i < k {
                        assert(rows[i].0 != binary_path@);
                    } else if i > k {
                        assert(rows[k].0 != binary_path@);
                    }
                    assert(first_injected_row(rows, binary_path@) == app_view(row));
                }
                let ok = restore_app(storage, &row, files);
                assert(files.spec_ops() == old(files).spec_ops().push(
                    restore_op(
                        first_injected_row(app_rows(*old(storage)), binary_path@).1->0,
                        first_injected_row(app_rows(*old(storage)), binary_path@).2,
                        ok,
                    ),
                ));
            } else {
                proof {
                    if first_app_injected(rows, binary_path@) {
                        let i = choose|i: int|
                            0 <= i < rows.len() && #[trigger] rows[i].0 == binary_path@ && rows[i].1 is Some
                                && forall|j: int| 0 <= j < i ==> rows[j].0 != binary_path@;
                        if i < k {
                            assert(rows[i].0 != binary_path@);
                        } else if i > k {
                            assert(rows[k].0 != binary_path@);
                        }
                        assert(false);
                    }
                }
            }
        },
        _ => {},
    }
}

/// Injects every targeted application, in the order of the targets; one outcome each. An
/// application already marked injected is left alone.
pub fn inject_apps<F: DesktopStore>(
    storage: &mut StorageHandle,
    wrapper: &str,
    files: &mut F,
    xdg_data_home: Option<&str>,
    home: Option<&str>,
) -> (outcomes: Vec<InjectionOutcome>)
    ensures
        outcomes@.len() == app_rows(*old(storage)).len(),
        app_rows(*final(storage)).len() == app_rows(*old(storage)).len(),
        forall|i: int|
            0 <= i < app_rows(*old(storage)).len() ==> #[trigger] app_rows(*final(storage))[i].0
                == app_rows(*old(storage))[i].0,
        forall|i: int|
            0 <= i < outcomes@.len() ==> (#[trigger] outcomes@[i] is AlreadyInjected <==> app_rows(
                *old(storage),
            )[i].1 is Some),
{
    let ghost rows0 = app_rows(*storage);
    let apps = match list_apps(storage) {
        Ok(apps) => apps,
        Err(_) => Vec::new(),
    };
    let mut outcomes: Vec<InjectionOutcome> = Vec::new();
    let mut i: usize = 0;
    while i < apps.len()
        invariant
            apps@.map_values(|a: KeylogAppRow| app_view(a)) == rows0,
            0 <= i <= apps@.len(),
            outcomes@.len() == i,
            app_rows(*storage).len() == rows0.len(),
            forall|k: int| 0 <= k < rows0.len() ==> #[trigger] app_rows(*storage)[k].0 == rows0[k].0,
            forall|k: int|
                0 <= k < i ==> (#[trigger] outcomes@[k] is AlreadyInjected <==> rows0[k].1 is Some),
        decreases apps@.len() - i,
    {
        assert(app_view(apps@[i as int]) == rows0[i as int]);
        let ghost before = app_rows(*storage);
        let outcome = inject_app(storage, &apps[i], wrapper, files, xdg_data_home, home);
        assert forall|k: int| 0 <= k < rows0.len() implies #[trigger] app_rows(*storage)[k].0
            == rows0[k].0 by {
            assert(before[k].0 == rows0[k].0);
        }
        outcomes.push(outcome);
        i += 1;
    }
    outcomes
}

/// Restores every injected application, in the order of the targets.
pub fn restore_apps<F: DesktopStore>(storage: &mut StorageHandle, files: &mut F)
    ensures
        app_rows(*final(storage)).len() == app_rows(*old(storage)).len(),
        forall|i: int|
            0 <= i < app_rows(*old(storage)).len() ==> #[trigger] app_rows(*final(storage))[i].0
                == app_rows(*old(storage))[i].0,
        forall|i: int|
            0 <= i < app_rows(*old(storage)).len() && app_rows(*old(storage))[i].1 is Some
                ==> #[trigger] app_rows(*final(storage))[i] == (app_rows(*old(storage))[i].0, None::<
                Seq<char>>, None::<Seq<char>>),
{
    let ghost rows0 = app_rows(*storage);
    let apps = match list_apps(storage) {
        Ok(apps) => apps,
        Err(_) => Vec::new(),
    };
    let mut i: usize = 0;
    while i < apps.len()
        invariant
            apps@.map_values(|a: KeylogAppRow| app_view(a)) == rows0,
            0 <= i <= apps@.len(),
            app_rows(*storage).len() == rows0.len(),
            forall|k: int| 0 <= k < rows0.len() ==> #[trigger] app_rows(*storage)[k].0 == rows0[k].0,
            forall|k: int|
                0 <= k < i && rows0[k].1 is Some ==> #[trigger] app_rows(*storage)[k] == (
                rows0[k].0,
                None::<Seq<char>>,
                None::<Seq<char>>,
            ),
        decreases apps@.len() - i,
    {
        assert(app_view(apps@[i as int]) == rows0[i as int]);
        let ghost before = app_rows(*storage);
        let _ = restore_app(storage, &apps[i], files);
        assert forall|k: int| 0 <= k < rows0.len() implies #[trigger] app_rows(*storage)[k].0
            == rows0[k].0 by {
            assert(before[k].0 == rows0[k].0);
        }
        assert forall|k: int| 0 <= k < i + 1 && rows0[k].1 is Some implies #[trigger] app_rows(
            *storage,
        )[k] == (rows0[k].0, None::<Seq<char>>, None::<Seq<char>>) by {
            assert(before[k].0 == rows0[k].0);
        }
        i += 1;
    }
}

} // verus!
