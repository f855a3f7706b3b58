//! What is said where a queue does not do what it is asked.

use crate::failure::Failure;
use vstd::prelude::*;
use vstd::string::*;

verus! {

/// The words of a failure that names a queue.
pub open spec fn about_queue(words: Seq<char>, name: Seq<char>) -> Seq<char> {
    words + name + "'"@
}

/// Puts the name of a queue behind `words`, and closes the quotation that they open.
pub fn name_queue(words: &str, name: &str) -> (message: String)
    ensures
        message@ == about_queue(words@, name@),
{
    let mut message = words.to_owned();
    message.append(name);
    message.append("'");
    message
}

/// The failure to connect to Redis for the queue `name`.
pub fn unreachable_queue(name: &str, cause: String) -> (failure: Failure)
    ensures
        failure.says_because("failed to connect to Redis for queue '"@ + name@ + "'"@, cause@),
{
    Failure::because(name_queue("failed to connect to Redis for queue '", name), cause)
}

/// The failure to add a job to the queue `name`.
pub fn unadded_job(name: &str, cause: String) -> (failure: Failure)
    ensures
        failure.says_because("failed to add job to queue '"@ + name@ + "'"@, cause@),
{
    Failure::because(name_queue("failed to add job to queue '", name), cause)
}

/// The failure to pause the queue `name`.
pub fn unpaused_queue(name: &str, cause: String) -> (failure: Failure)
    ensures
        failure.says_because("failed to pause queue '"@ + name@ + "'"@, cause@),
{
    Failure::because(name_queue("failed to pause queue '", name), cause)
}

/// The failure to resume the queue `name`.
pub fn unresumed_queue(name: &str, cause: String) -> (failure: Failure)
    ensures
        failure.says_because("failed to resume queue '"@ + name@ + "'"@, cause@),
{
    Failure::because(name_queue("failed to resume queue '", name), cause)
}

/// The failure to start a worker for the queue `name`.
pub fn unstarted_worker(name: &str, cause: String) -> (failure: Failure)
    ensures
        failure.says_because("failed to start worker for queue '"@ + name@ + "'"@, cause@),
{
    Failure::because(name_queue("failed to start worker for queue '", name), cause)
}

/// The failure to read how many jobs a queue holds.
pub fn unread_counts(cause: String) -> (failure: Failure)
    ensures
        failure.says_because("failed to read queue job counts"@, cause@),
{
    Failure::because("failed to read queue job counts".to_owned(), cause)
}

/// The failure to read whether a queue is paused.
pub fn unread_state(cause: String) -> (failure: Failure)
    ensures
        failure.says_because("failed to read queue state"@, cause@),
{
    Failure::because("failed to read queue state".to_owned(), cause)
}

/// The failure to count the workers of a queue.
pub fn uncounted_workers(cause: String) -> (failure: Failure)
    ensures
        failure.says_because("failed to count queue workers"@, cause@),
{
    Failure::because("failed to count queue workers".to_owned(), cause)
}

/// A complaint about a queue names it between quotation marks, and keeps what brought it about.
pub proof fn law_complaints_name_the_queue(
    name: &str,
    cause: String,
    connecting: Failure,
    adding: Failure,
    pausing: Failure,
    resuming: Failure,
    starting: Failure,
)
    requires
        call_ensures(unreachable_queue, (name, cause), connecting),
        call_ensures(unadded_job, (name, cause), adding),
        call_ensures(unpaused_queue, (name, cause), pausing),
        call_ensures(unresumed_queue, (name, cause), resuming),
        call_ensures(unstarted_worker, (name, cause), starting),
    ensures
        connecting.message@ == "failed to connect to Redis for queue '"@ + name@ + "'"@,
        adding.message@ == "failed to add job to queue '"@ + name@ + "'"@,
        pausing.message@ == "failed to pause queue '"@ + name@ + "'"@,
        resuming.message@ == "failed to resume queue '"@ + name@ + "'"@,
        starting.message@ == "failed to start worker for queue '"@ + name@ + "'"@,
        connecting.cause matches Some(c) && c@ == cause@,
        adding.cause matches Some(c) && c@ == cause@,
        pausing.cause matches Some(c) && c@ == cause@,
        resuming.cause matches Some(c) && c@ == cause@,
        starting.cause matches Some(c) && c@ == cause@,
{
}

/// A complaint about reading a queue says what could not be read, and keeps what brought it about.
pub proof fn law_complaints_say_what_was_not_read(
    cause: String,
    counts: Failure,
    state: Failure,
    workers: Failure,
)
    requires
        call_ensures(unread_counts, (cause,), counts),
        call_ensures(unread_state, (cause,), state),
        call_ensures(uncounted_workers, (cause,), workers),
    ensures
        counts.message@ == "failed to read queue job counts"@,
        state.message@ == "failed to read queue state"@,
        workers.message@ == "failed to count queue workers"@,
        counts.cause matches Some(c) && c@ == cause@,
        state.cause matches Some(c) && c@ == cause@,
        workers.cause matches Some(c) && c@ == cause@,
{
}

/// The name of a queue stands behind the words, between them and a quotation mark.
pub proof fn law_name_of_the_queue_is_quoted(words: &str, name: &str, message: String)
    requires
        call_ensures(name_queue, (words, name), message),
    ensures
        message@.len() == words@.len() + name@.len() + 1,
        message@.take(words@.len() as int) == words@,
        message@.subrange(words@.len() as int, message@.len() - 1) == name@,
        message@.last() == '\'',
{
    reveal_strlit("'");
}

} // verus!
