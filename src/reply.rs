//! The text of the bot's replies.
use vstd::prelude::*;
use vstd::string::*;
use rand::Rng;
use crate::text::substring;

verus! {

/// How many emojis the bot answers with.
pub const EMOJI_COUNT: usize = 7;

/// The emojis the bot answers an unreadable command with.
pub open spec fn emojis() -> Seq<Seq<char>> {
    seq![
        ":hugging_face:"@,
        ":lion_face:"@,
        ":see_no_evil:"@,
        ":duck:"@,
        ":palm_tree:"@,
        ":microscope:"@,
        ":man-surfing:"@,
    ]
}

/// The emoji at `i`.
pub fn emoji(i: usize) -> (r: String)
    requires
        i < EMOJI_COUNT,
    ensures
        r@ == emojis()[i as int],
{
    match i {
        0 => ":hugging_face:".to_owned(),
        1 => ":lion_face:".to_owned(),
        2 => ":see_no_evil:".to_owned(),
        3 => ":duck:".to_owned(),
        4 => ":palm_tree:".to_owned(),
        5 => ":microscope:".to_owned(),
        _ => ":man-surfing:".to_owned(),
    }
}

/// Relies on rand::Rng::gen_range on rand::thread_rng: a value of the range
/// `0..n`, which must not be empty (gen_range panics on an empty range).
#[verifier::external_body]
fn random_below(n: usize) -> (r: usize)
    requires
        n > 0,
    ensures
        r < n,
{
    rand::thread_rng().gen_range(0..n)
}

/// One of the emojis, picked at random.
pub fn random_emoji() -> (r: String)
    ensures
        emojis().contains(r@),
{
    let i = random_below(EMOJI_COUNT);
    let r = emoji(i);
    proof {
        assert(emojis()[i as int] == r@);
    }
    r
}

/// A reply's text, tagged with the job it comes from when `add_job_id`.
pub fn format_text(text: &str, add_job_id: bool, worker_id: &str) -> (r: String)
    ensures
        r@ == if add_job_id {
            text@ + " [JOB "@ + worker_id@ + "]"@
        } else {
            text@
        },
{
    let mut r = text.to_owned();
    if add_job_id {
        r.append(" [JOB ");
        r.append(worker_id);
        r.append("]");
    }
    r
}

/// The answer to a cancel request for job `id`, found or not.
pub fn cancel_reply(id: &str, found: bool) -> (r: String)
    ensures
        r@ == if found {
            "Canceling "@ + id@
        } else {
            "No active job "@ + id@ + " found"@
        },
{
    if found {
        let mut r = "Canceling ".to_owned();
        r.append(id);
        r
    } else {
        let mut r = "No active job ".to_owned();
        r.append(id);
        r.append(" found");
        r
    }
}

/// At most the first `max` characters of `text`.
pub fn clip_message(text: &str, max: usize) -> (r: String)
    ensures
        r@ == text@.take(if max < text@.len() { max as int } else { text@.len() as int }),
{
    let n = text.unicode_len();
    let end = if max < n {
        max
    } else {
        n
    };
    let r = substring(text, 0, end);
    proof {
        assert(r@ =~= text@.take(end as int));
    }
    r
}

} // verus!
