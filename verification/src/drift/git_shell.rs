//! Parsing of `git status --porcelain` output for the dotfiles repository.
use crate::text::{
    concat2, concat3, signed_decimal, signed_decimal_string, chars_of, find_chars, find_seq, lemma_utf8_len_bounds, string_of_range, trim_bounds, trim_seq,
    utf8_len, utf8_len_of,
};
use vstd::prelude::*;

verus! {

/// Why the status of the dotfiles repository could not be read.
#[derive(Debug, Clone, PartialEq, Eq)]
pub enum GitDriftError {
    /// The dotfiles directory does not exist (its path is held).
    DirectoryNotFound(String),
    /// The `git` command could not be started (the reason is held).
    GitExecutionFailed(String),
    /// `git status` exited unsuccessfully with this exit code.
    GitExitError(i32),
}

/// One entry of `git status --porcelain`.
#[derive(Debug, Clone, PartialEq, Eq)]
pub struct GitStatusEntry {
    pub index_state: char,
    pub worktree_state: char,
    pub path: String,
}

/// `l` without one trailing carriage return.
pub open spec fn strip_cr(l: Seq<char>) -> Seq<char> {
    if l.len() > 0 && l.last() == '\r' {
        l.drop_last()
    } else {
        l
    }
}

/// The lines completed so far and the line in progress after reading `s`
/// from the start: a line feed ends a line (and drops a carriage return just
/// before it); every other character extends the line in progress.
pub open spec fn line_split_state(s: Seq<char>) -> (Seq<Seq<char>>, Seq<char>)
    decreases s.len(),
{
    if s.len() == 0 {
        (Seq::empty(), Seq::empty())
    } else {
        let prev = line_split_state(s.drop_last());
        if s.last() == '\n' {
            (prev.0.push(strip_cr(prev.1)), Seq::empty())
        } else {
            (prev.0, prev.1.push(s.last()))
        }
    }
}

/// The lines of `s` as `str::lines` yields them: split at `\n` or `\r\n`,
/// with a final line ending optional.
pub open spec fn lines_seq(s: Seq<char>) -> Seq<Seq<char>> {
    let st = line_split_state(s);
    if st.1.len() == 0 {
        st.0
    } else {
        st.0.push(st.1)
    }
}

/// The lines whose UTF-8 encoding takes at least four bytes; shorter lines
/// cannot hold a status entry.
pub open spec fn entry_lines(ls: Seq<Seq<char>>) -> Seq<Seq<char>>
    decreases ls.len(),
{
    if ls.len() == 0 {
        Seq::empty()
    } else if utf8_len(ls.last()) >= 4 {
        entry_lines(ls.drop_last()).push(ls.last())
    } else {
        entry_lines(ls.drop_last())
    }
}

/// The separator between the old and new path of a rename.
pub open spec fn rename_arrow() -> Seq<char> {
    seq![' ', '-', '>', ' ']
}

/// The path that a porcelain line names: what follows the two state columns
/// and a separator, trimmed; for a rename `old -> new`, the new path.
pub open spec fn porcelain_path(l: Seq<char>) -> Seq<char> {
    let raw = if l.len() >= 3 {
        l.skip(3)
    } else {
        Seq::empty()
    };
    let t = trim_seq(raw);
    match find_seq(t, rename_arrow()) {
        Some(k) => trim_seq(t.skip(k + 4)),
        None => t,
    }
}

/// Whether `e` is the entry that the porcelain line `l` describes.
pub open spec fn entry_of_line(e: GitStatusEntry, l: Seq<char>) -> bool {
    &&& e.index_state == (if l.len() > 0 { l[0] } else { ' ' })
    &&& e.worktree_state == (if l.len() > 1 { l[1] } else { ' ' })
    &&& e.path@ == porcelain_path(l)
}

/// Splits `text` into its lines.
pub(crate) fn split_lines(text: &Vec<char>) -> (ls: Vec<Vec<char>>)
    ensures
        ls@.len() == lines_seq(text@).len(),
        forall|i: int| 0 <= i < ls@.len() ==> #[trigger] ls@[i]@ == lines_seq(text@)[i],
{
    let mut done: Vec<Vec<char>> = Vec::new();
    let mut cur: Vec<char> = Vec::new();
    let mut i: usize = 0;
    while i < text.len()
        invariant
            i <= text.len(),
            done@.len() == line_split_state(text@.take(i as int)).0.len(),
            forall|k: int|
                0 <= k < done@.len() ==> #[trigger] done@[k]@ == line_split_state(
                    text@.take(i as int),
                ).0[k],
            cur@ == line_split_state(text@.take(i as int)).1,
        decreases text.len() - i,
    {
        let c = text[i];
        assert(text@.take(i + 1).drop_last() =~= text@.take(i as int));
        if c == '\n' {
            let mut line = cur;
            if line.len() > 0 && line[line.len() - 1] == '\r' {
                line.pop();
            }
            done.push(line);
            cur = Vec::new();
        } else {
            cur.push(c);
        }
        i = i + 1;
    }
    assert(text@.take(text.len() as int) =~= text@);
    if cur.len() > 0 {
        done.push(cur);
    }
    done
}

/// The entry described by one porcelain line of at least four bytes.
fn entry_from_line(l: &Vec<char>) -> (e: GitStatusEntry)
    ensures
        entry_of_line(e, l@),
{
    let index_state = if l.len() > 0 {
        l[0]
    } else {
        ' '
    };
    let worktree_state = if l.len() > 1 {
        l[1]
    } else {
        ' '
    };
    let raw: Vec<char> = if l.len() >= 3 {
        let mut r: Vec<char> = Vec::new();
        let mut j: usize = 3;
        while j < l.len()
            invariant
                3 <= j <= l.len(),
                r@ == l@.subrange(3, j as int),
            decreases l.len() - j,
        {
            r.push(l[j]);
            assert(l@.subrange(3, j as int).push(l@[j as int]) =~= l@.subrange(3, j + 1));
            j = j + 1;
        }
        assert(l@.subrange(3, l.len() as int) =~= l@.skip(3));
        r
    } else {
        Vec::new()
    };
    let (lo, hi) = trim_bounds(&raw);
    let mut t: Vec<char> = Vec::new();
    let mut j: usize = lo;
    while j < hi
        invariant
            lo <= j <= hi <= raw.len(),
            t@ == raw@.subrange(lo as int, j as int),
        decreases hi - j,
    {
        t.push(raw[j]);
        assert(raw@.subrange(lo as int, j as int).push(raw@[j as int]) =~= raw@.subrange(
            lo as int,
            j + 1,
        ));
        j = j + 1;
    }
    let arrow: Vec<char> = vec![' ', '-', '>', ' '];
    assert(arrow@ =~= rename_arrow());
    let path = match find_chars(&t, &arrow) {
        Some(k) => {
            let (lo2, hi2) = trim_bounds_from(&t, k + 4);
            string_of_range(&t, lo2, hi2)
        },
        None => string_of_range(&t, 0, t.len()),
    };
    proof {
        assert(t@.subrange(0, t@.len() as int) =~= t@);
    }
    GitStatusEntry { index_state, worktree_state, path }
}

/// The range of `t[from..]` that remains after trimming whitespace.
fn trim_bounds_from(t: &Vec<char>, from: usize) -> (r: (usize, usize))
    requires
        from <= t.len(),
    ensures
        from <= r.0 <= r.1 <= t.len(),
        trim_seq(t@.skip(from as int)) == t@.subrange(r.0 as int, r.1 as int),
{
    let mut rest: Vec<char> = Vec::new();
    let mut j: usize = from;
    while j < t.len()
        invariant
            from <= j <= t.len(),
            rest@ == t@.subrange(from as int, j as int),
        decreases t.len() - j,
    {
        rest.push(t[j]);
        assert(t@.subrange(from as int, j as int).push(t@[j as int]) =~= t@.subrange(
            from as int,
            j + 1,
        ));
        j = j + 1;
    }
    assert(t@.subrange(from as int, t.len() as int) =~= t@.skip(from as int));
    let (lo, hi) = trim_bounds(&rest);
    assert(rest@.subrange(lo as int, hi as int) =~= t@.subrange(from + lo, from + hi));
    (from + lo, from + hi)
}

/// Parses `git status --porcelain` output: one entry per line of at least
/// four bytes, in order, holding the two state columns and the path (the new
/// path for a rename).
pub fn parse_porcelain_output(stdout: &str) -> (entries: Vec<GitStatusEntry>)
    ensures
        entries@.len() == entry_lines(lines_seq(stdout@)).len(),
        forall|i: int|
            0 <= i < entries@.len() ==> entry_of_line(
                #[trigger] entries@[i],
                entry_lines(lines_seq(stdout@))[i],
            ),
{
    let text = chars_of(stdout);
    let ls = split_lines(&text);
    let ghost all = lines_seq(stdout@);
    let mut entries: Vec<GitStatusEntry> = Vec::new();
    let mut i: usize = 0;
    while i < ls.len()
        invariant
            i <= ls@.len(),
            ls@.len() == all.len(),
            forall|k: int| 0 <= k < ls@.len() ==> #[trigger] ls@[k]@ == all[k],
            entries@.len() == entry_lines(all.take(i as int)).len(),
            forall|k: int|
                0 <= k < entries@.len() ==> entry_of_line(
                    #[trigger] entries@[k],
                    entry_lines(all.take(i as int))[k],
                ),
        decreases ls@.len() - i,
    {
        let line = &ls[i];
        assert(all.take(i + 1).drop_last() =~= all.take(i as int));
        assert(all.take(i + 1).last() == all[i as int]);
        let long_enough = if line.len() >= 4 {
            proof {
                lemma_utf8_len_bounds(line@);
            }
            true
        } else {
            proof {
                lemma_utf8_len_bounds(line@);
            }
            utf8_len_of(line) >= 4
        };
        if long_enough {
            let e = entry_from_line(line);
            entries.push(e);
        }
        i = i + 1;
    }
    assert(all.take(ls@.len() as int) =~= all);
    entries
}

/// The message of an error, as the error's display shows it.
pub open spec fn git_error_text(e: GitDriftError) -> Seq<char> {
    match e {
        GitDriftError::DirectoryNotFound(p) => "Dotfiles directory '"@ + p@ + "' does not exist"@,
        GitDriftError::GitExecutionFailed(m) => "Failed to execute git command: "@ + m@,
        GitDriftError::GitExitError(c) => "git status failed with exit code: "@ + signed_decimal(
            c as int,
        ),
    }
}

impl GitDriftError {
    /// The message of the error.
    pub fn message(&self) -> (r: String)
        ensures
            r@ == git_error_text(*self),
    {
        match self {
            GitDriftError::DirectoryNotFound(p) => concat3(
                "Dotfiles directory '",
                p.as_str(),
                "' does not exist",
            ),
            GitDriftError::GitExecutionFailed(m) => concat2("Failed to execute git command: ", m.as_str()),
            GitDriftError::GitExitError(c) => {
                let digits = signed_decimal_string(*c);
                concat2("git status failed with exit code: ", digits.as_str())
            },
        }
    }
}

/// How asking git for the repository's status went.
#[derive(Debug)]
pub enum GitRun {
    /// The dotfiles directory does not exist, so git was not asked.
    DirectoryMissing,
    /// `git` could not be started, for this reason.
    NotStarted(String),
    /// `git status --porcelain` ran: whether it succeeded, its exit code
    /// (none when a signal ended it), and what it printed.
    Finished { success: bool, exit_code: Option<i32>, stdout: String },
}

/// Whether `es` are the entries of porcelain output `out`, in order.
pub open spec fn porcelain_entries(es: Seq<GitStatusEntry>, out: Seq<char>) -> bool {
    &&& es.len() == entry_lines(lines_seq(out)).len()
    &&& forall|i: int| 0 <= i < es.len() ==> entry_of_line(#[trigger] es[i], entry_lines(lines_seq(out))[i])
}

/// The status of the dotfiles repository at `dotfiles_dir` from how running
/// `git status --porcelain` went: its entries when git succeeded, else the
/// error (a missing directory, git not starting, or git's exit code, `-1`
/// when it has none).
pub fn repo_status_from_run(dotfiles_dir: &str, run: GitRun) -> (r: Result<Vec<GitStatusEntry>, GitDriftError>)
    ensures
        match run {
            GitRun::DirectoryMissing => r matches Err(GitDriftError::DirectoryNotFound(p)) && p@
                == dotfiles_dir@,
            GitRun::NotStarted(m) => r matches Err(GitDriftError::GitExecutionFailed(x)) && x@
                == m@,
            GitRun::Finished { success, exit_code, stdout } => if success {
                r matches Ok(es) && porcelain_entries(es@, stdout@)
            } else {
                r == Err::<Vec<GitStatusEntry>, GitDriftError>(
                    GitDriftError::GitExitError(
                        match exit_code {
                            Some(c) => c,
                            None => -1i32,
                        },
                    ),
                )
            },
        },
{
    match run {
        GitRun::DirectoryMissing => Err(GitDriftError::DirectoryNotFound(dotfiles_dir.to_owned())),
        GitRun::NotStarted(m) => Err(GitDriftError::GitExecutionFailed(m)),
        GitRun::Finished { success, exit_code, stdout } => {
            if success {
                Ok(parse_porcelain_output(stdout.as_str()))
            } else {
                let code = match exit_code {
                    Some(c) => c,
                    None => -1,
                };
                Err(GitDriftError::GitExitError(code))
            }
        },
    }
}

} // verus!
