//! Decisions around stopping containers and scheduling the container generator.

use vstd::prelude::*;
use vstd::string::StringExecFns;
use crate::text::{chars_of, trimmed, trimmed_span};

verus! {

/// A container is spared when it is the log container: `docker ps` listed a log container
/// (its output is not blank) and the container's id starts with the listed id, with
/// surrounding whitespace removed.
pub open spec fn spared(container_id: Seq<char>, log_container_listing: Seq<char>) -> bool {
    &&& trimmed(log_container_listing).len() > 0
    &&& trimmed(log_container_listing).is_prefix_of(container_id)
}

/// Tells whether the container `container_id` must be left running because it is the log
/// container, given what `docker ps` printed for the log container.
pub fn spares_container(container_id: &str, log_container_listing: &str) -> (spare: bool)
    ensures
        spare == spared(container_id@, log_container_listing@),
{
    let id = chars_of(container_id);
    let listing = chars_of(log_container_listing);
    let (lo, hi) = trimmed_span(&listing);
    let ghost prefix = listing@.subrange(lo as int, hi as int);
    let len = hi - lo;
    proof {
        assert(prefix == trimmed(log_container_listing@));
        assert(prefix.len() == len);
    }
    if len == 0 || len > id.len() {
        return false;
    }
    let mut i: usize = 0;
    while i < len
        invariant
            lo <= hi <= listing@.len(),
            len == hi - lo,
            0 < len <= id@.len(),
            i <= len,
            prefix == listing@.subrange(lo as int, hi as int),
            prefix == trimmed(log_container_listing@),
            id@ == container_id@,
            forall|k: int| 0 <= k < i ==> id@[k] == prefix[k],
        decreases len - i,
    {
        if id[i] != listing[lo + i] {
            proof {
                assert(prefix[i as int] == listing@[lo + i]);
                assert(id@.subrange(0, prefix.len() as int)[i as int] == id@[i as int]);
                assert(!prefix.is_prefix_of(id@));
            }
            return false;
        }
        i = i + 1;
    }
    proof {
        assert(id@.subrange(0, prefix.len() as int) =~= prefix);
    }
    true
}

/// When no log container runs, `docker ps` prints nothing and no container is spared.
pub proof fn lemma_blank_listing_spares_none(container_id: Seq<char>, listing: Seq<char>)
    requires
        trimmed(listing).len() == 0,
    ensures
        !spared(container_id, listing),
{
}

/// The shell command that appends `cron_job` to the user's crontab.
pub open spec fn cron_install_command(cron_job: Seq<char>) -> Seq<char> {
    "(crontab -l 2>/dev/null; echo \""@ + cron_job + "\") | crontab -"@
}

/// Builds the shell command that adds the line `cron_job` to the crontab.
pub fn install_cronjob_command(cron_job: &str) -> (command: String)
    ensures
        command@ == cron_install_command(cron_job@),
{
    let mut command = "(crontab -l 2>/dev/null; echo \"".to_string();
    command.append(cron_job);
    command.append("\") | crontab -");
    command
}

/// A container is spared exactly when the listing is not blank and the container's id begins
/// with the listed id, character by character, whatever the lengths of the two ids.
pub proof fn lemma_spared_when_id_begins_with_listing(container_id: Seq<char>, listing: Seq<char>)
    ensures
        spared(container_id, listing) == {
            let listed = trimmed(listing);
            &&& listed.len() > 0
            &&& listed.len() <= container_id.len()
            &&& forall|k: int| 0 <= k < listed.len() ==> container_id[k] == #[trigger] listed[k]
        },
{
    let listed = trimmed(listing);
    if listed.len() > 0 && listed.len() <= container_id.len() && (forall|k: int|
        0 <= k < listed.len() ==> container_id[k] == #[trigger] listed[k]) {
        assert(listed =~= container_id.subrange(0, listed.len() as int));
    }
}

/// The crontab command lists the current crontab first and then appends the job, for a job
/// of any length: it is the fixed head, the job unchanged, and the fixed tail.
pub proof fn lemma_cron_command_keeps_current_entries(cron_job: Seq<char>)
    ensures
        cron_install_command(cron_job).len() == 31 + cron_job.len() + 14,
        cron_install_command(cron_job).take(31) == "(crontab -l 2>/dev/null; echo \""@,
        cron_install_command(cron_job).subrange(31, 31 + cron_job.len() as int) == cron_job,
        cron_install_command(cron_job).skip(31 + cron_job.len() as int) == "\") | crontab -"@,
{
    reveal_strlit("(crontab -l 2>/dev/null; echo \"");
    reveal_strlit("\") | crontab -");
    let head = "(crontab -l 2>/dev/null; echo \""@;
    let tail = "\") | crontab -"@;
    let c = cron_install_command(cron_job);
    assert(c =~= head + cron_job + tail);
    assert(c.take(31) =~= head);
    assert(c.subrange(31, 31 + cron_job.len() as int) =~= cron_job);
    assert(c.skip(31 + cron_job.len() as int) =~= tail);
}

} // verus!
