//! Job relations and the interactive attach command.

use crate::text::{split_whitespace, to_string, words_seq};
use vstd::prelude::*;

verus! {

/// One dependency of a job: its type (`afterok`, ...), the job it waits on,
/// and that job's state.
#[derive(Debug, Clone, PartialEq, Eq)]
pub struct JobDependency {
    pub dep_type: String,
    pub job_id: String,
    pub state: String,
}

/// The words of the `srun` command that attaches a shell to job `job_id`:
/// `srun --pty --overlap`, the extra arguments, `--jobid <id>`, `-w <node>`
/// when a node is given, then the words of the command to run.
pub open spec fn attach_command_spec(
    job_id: Seq<char>,
    node: Option<Seq<char>>,
    default_command: Seq<char>,
    extra_args: Seq<char>,
) -> Seq<Seq<char>> {
    seq!["srun"@, "--pty"@, "--overlap"@] + words_seq(extra_args) + seq!["--jobid"@, job_id]
        + match node {
        Some(n) => seq!["-w"@, n],
        None => Seq::empty(),
    } + words_seq(default_command)
}

/// Appends `words` to `v`.
fn push_all(v: &mut Vec<String>, words: Vec<String>)
    ensures
        final(v).deep_view() == old(v).deep_view() + words.deep_view(),
{
    let ghost start = v.deep_view();
    let mut i: usize = 0;
    while i < words.len()
        invariant
            i <= words@.len(),
            v.deep_view() == start + words.deep_view().take(i as int),
        decreases words@.len() - i,
    {
        let ghost before = v.deep_view();
        v.push(words[i].clone());
        assert(v.deep_view() =~= before.push(words@[i as int]@));
        assert(words.deep_view().take(i + 1) =~= words.deep_view().take(i as int).push(
            words@[i as int]@,
        ));
        i = i + 1;
    }
    assert(words.deep_view().take(words@.len() as int) =~= words.deep_view());
}

/// Appends one word to `v`.
fn push_word(v: &mut Vec<String>, w: &str)
    ensures
        final(v).deep_view() == old(v).deep_view().push(w@),
{
    let ghost before = v.deep_view();
    v.push(to_string(w));
    assert(v.deep_view() =~= before.push(w@));
}

/// Build the `srun` command that attaches an interactive shell to a job,
/// optionally on a given node.
pub fn build_attach_command(
    job_id: &str,
    node: Option<&str>,
    default_command: &str,
    extra_args: &str,
) -> (r: Vec<String>)
    ensures
        r.deep_view() == attach_command_spec(
            job_id@,
            match node {
                Some(n) => Some(n@),
                None => None,
            },
            default_command@,
            extra_args@,
        ),
{
    let mut r: Vec<String> = Vec::new();
    push_word(&mut r, "srun");
    push_word(&mut r, "--pty");
    push_word(&mut r, "--overlap");
    push_all(&mut r, split_whitespace(extra_args));
    push_word(&mut r, "--jobid");
    push_word(&mut r, job_id);
    let ghost mid = r.deep_view();
    if let Some(n) = node {
        push_word(&mut r, "-w");
        push_word(&mut r, n);
    }
    push_all(&mut r, split_whitespace(default_command));
    assert(r.deep_view() =~= attach_command_spec(
        job_id@,
        match node {
            Some(n) => Some(n@),
            None => None,
        },
        default_command@,
        extra_args@,
    ));
    r
}

} // verus!
