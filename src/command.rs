//! Reading chat messages addressed to the bot: whether a message asks to
//! cancel a job, to list jobs, or to run a command, and the cleaning that
//! messages get before they are read.
use vstd::prelude::*;
use vstd::string::*;
use crate::text::{
    CharClass, chars_of, decimal_digit, has_at, is_decimal_digit, occurs_anywhere, occurs_at, occurs_in, run_end,
    scan_run, substring,
};

verus! {

/// How messages to the bot start: the mention of its user.
pub const BOT_ID: &'static str = "<@U013X667NR4>";

/// Whether a message is addressed to the bot.
pub open spec fn addressed(s: Seq<char>) -> bool {
    has_at(s, 0, BOT_ID@)
}

/// The job id of a cancel request at `i`: `cancel ` or `stop `, then the
/// decimal digits that follow (any Unicode decimal digit; an id with a
/// digit outside ASCII names no job, and is reported as not found).
pub open spec fn cancel_at(s: Seq<char>, i: int) -> Option<Seq<char>> {
    let kc = i + "cancel "@.len();
    let ks = i + "stop "@.len();
    if has_at(s, i, "cancel "@) && kc < s.len() && is_decimal_digit(s[kc]) {
        Some(s.subrange(kc, run_end(s, kc, CharClass::Digit)))
    } else if has_at(s, i, "stop "@) && ks < s.len() && is_decimal_digit(s[ks]) {
        Some(s.subrange(ks, run_end(s, ks, CharClass::Digit)))
    } else {
        None
    }
}

/// The first cancel request at a position from `i` on.
pub open spec fn first_cancel_from(s: Seq<char>, i: int) -> Option<Seq<char>>
    decreases s.len() - i,
{
    if i < 0 || i >= s.len() {
        None
    } else if cancel_at(s, i) is Some {
        cancel_at(s, i)
    } else {
        first_cancel_from(s, i + 1)
    }
}

/// The job id that a message asks to cancel, if it is addressed to the bot
/// and holds a cancel request.
pub open spec fn cancel_target(s: Seq<char>) -> Option<Seq<char>> {
    if addressed(s) {
        first_cancel_from(s, 0)
    } else {
        None
    }
}

/// Whether a message addressed to the bot asks for the list of jobs.
pub open spec fn asks_list(s: Seq<char>) -> bool {
    addressed(s) && occurs_in(s, "list"@)
}

/// What the supervisor does with a message.
#[derive(Debug, PartialEq, Eq)]
pub enum Directive {
    /// Cancel the job with this id, as written.
    Cancel(String),
    /// List the running jobs.
    List,
    /// Start a job for the message.
    Run,
    /// The message is not for the bot.
    Ignore,
}

fn is_addressed(cs: &Vec<char>) -> (r: bool)
    ensures
        r == addressed(cs@),
{
    let id = chars_of(BOT_ID);
    occurs_at(cs, 0, &id)
}

/// The job id that `m` asks to cancel.
fn cancel_in(m: &str) -> (r: Option<String>)
    ensures
        match r {
            Some(id) => cancel_target(m@) == Some(id@),
            None => cancel_target(m@) is None,
        },
{
    let cs = chars_of(m);
    if !is_addressed(&cs) {
        return None;
    }
    let cancel = chars_of("cancel ");
    let stop = chars_of("stop ");
    let mut i: usize = 0;
    while i < cs.len()
        invariant
            cs@ == m@,
            addressed(m@),
            cancel@ == "cancel "@,
            stop@ == "stop "@,
            i <= cs.len(),
            first_cancel_from(cs@, 0) == first_cancel_from(cs@, i as int),
        decreases cs.len() - i,
    {
        if occurs_at(&cs, i, &cancel) && i + cancel.len() < cs.len() && decimal_digit(
            cs[i + cancel.len()],
        ) {
            let k = scan_run(&cs, i + cancel.len(), CharClass::Digit);
            return Some(substring(m, i + cancel.len(), k));
        }
        if occurs_at(&cs, i, &stop) && i + stop.len() < cs.len() && decimal_digit(
            cs[i + stop.len()],
        ) {
            let k = scan_run(&cs, i + stop.len(), CharClass::Digit);
            return Some(substring(m, i + stop.len(), k));
        }
        i += 1;
    }
    None
}

/// The job id that `text` asks to cancel: it must be addressed to the bot
/// and hold `cancel` or `stop`, a space and decimal digits.
pub fn should_cancel_job(text: &Option<String>) -> (r: Option<String>)
    ensures
        match text {
            None => r is None,
            Some(m) => match r {
                Some(id) => cancel_target(m@) == Some(id@),
                None => cancel_target(m@) is None,
            },
        },
{
    match text {
        Some(m) => cancel_in(m.as_str()),
        None => None,
    }
}

/// Whether `text` is addressed to the bot and asks for the list of jobs.
pub fn should_list_active_jobs(text: &Option<String>) -> (r: bool)
    ensures
        r == (text matches Some(m) && asks_list(m@)),
{
    match text {
        Some(m) => {
            let cs = chars_of(m.as_str());
            is_addressed(&cs) && occurs_anywhere(&cs, &chars_of("list"))
        },
        None => false,
    }
}

/// Whether `text` is addressed to the bot.
pub fn should_pass_message_to_bot(text: &Option<String>) -> (r: bool)
    ensures
        r == (text matches Some(m) && addressed(m@)),
{
    match text {
        Some(m) => is_addressed(&chars_of(m.as_str())),
        None => false,
    }
}

/// What to do with a message: a cancel request first, then a list request,
/// then any other message to the bot starts a job.
pub fn classify(text: &Option<String>) -> (r: Directive)
    ensures
        match r {
            Directive::Cancel(id) => text matches Some(m) && cancel_target(m@) == Some(id@),
            Directive::List => text matches Some(m) && cancel_target(m@) is None && asks_list(m@),
            Directive::Run => text matches Some(m) && cancel_target(m@) is None && !asks_list(m@)
                && addressed(m@),
            Directive::Ignore => text is None || !addressed(text->0@),
        },
{
    if let Some(id) = should_cancel_job(text) {
        Directive::Cancel(id)
    } else if should_list_active_jobs(text) {
        Directive::List
    } else if should_pass_message_to_bot(text) {
        Directive::Run
    } else {
        Directive::Ignore
    }
}

/// The characters that count as white space (Unicode's White_Space).
pub open spec fn is_white_space(c: char) -> bool {
    ('\t' <= c && c <= '\r') || c == ' ' || c == '\u{85}' || c == '\u{a0}' || c == '\u{1680}'
        || ('\u{2000}' <= c && c <= '\u{200a}') || c == '\u{2028}' || c == '\u{2029}' || c
        == '\u{202f}' || c == '\u{205f}' || c == '\u{3000}'
}

fn white_space(c: char) -> (r: bool)
    ensures
        r == is_white_space(c),
{
    ('\t' <= c && c <= '\r') || c == ' ' || c == '\u{85}' || c == '\u{a0}' || c == '\u{1680}'
        || ('\u{2000}' <= c && c <= '\u{200a}') || c == '\u{2028}' || c == '\u{2029}' || c
        == '\u{202f}' || c == '\u{205f}' || c == '\u{3000}'
}

/// `s` with each no-break space made a plain space.
pub open spec fn without_nbsp(s: Seq<char>) -> Seq<char> {
    Seq::new(s.len(), |i: int| if s[i] == '\u{a0}' { ' ' } else { s[i] })
}

/// `s` from `i` on, with each run of two or more white space characters
/// made one space; `in_run` says that `i` is inside such a run, whose space
/// was already given.
pub open spec fn squeeze_from(s: Seq<char>, i: int, in_run: bool) -> Seq<char>
    decreases s.len() - i,
{
    if i < 0 || i >= s.len() {
        Seq::empty()
    } else if in_run && is_white_space(s[i]) {
        squeeze_from(s, i + 1, true)
    } else if !in_run && is_white_space(s[i]) && i + 1 < s.len() && is_white_space(s[i + 1]) {
        seq![' '] + squeeze_from(s, i + 1, true)
    } else {
        seq![s[i]] + squeeze_from(s, i + 1, false)
    }
}

/// A message as the bot reads it: no-break spaces made plain, and each run
/// of two or more white space characters made one space.
pub open spec fn cleaned(s: Seq<char>) -> Seq<char> {
    squeeze_from(without_nbsp(s), 0, false)
}

/// Cleans a message's text before it is read.
pub fn clean_message_text(message_text: String) -> (r: String)
    ensures
        r@ == cleaned(message_text@),
{
    let s = message_text.as_str();
    let cs = chars_of(s);
    let ghost t = without_nbsp(s@);
    let mut out = String::new();
    let mut in_run = false;
    let mut i: usize = 0;
    proof {
        reveal_strlit(" ");
        assert(out@ + squeeze_from(t, 0, false) =~= cleaned(s@));
    }
    while i < cs.len()
        invariant
            cs@ == s@,
            s@ == message_text@,
            t == without_nbsp(s@),
            " "@ == seq![' '],
            i <= cs.len(),
            out@ + squeeze_from(t, i as int, in_run) == cleaned(s@),
        decreases cs.len() - i,
    {
        let c = cs[i];
        let ws = white_space(c);
        let next_ws = i + 1 < cs.len() && white_space(cs[i + 1]);
        let ghost before = out@;
        let ghost was_in_run = in_run;
        proof {
            assert(t[i as int] == if c == '\u{a0}' { ' ' } else { c });
            if i + 1 < cs.len() {
                assert(t[i + 1] == if cs@[i + 1] == '\u{a0}' { ' ' } else { cs@[i + 1] });
            }
        }
        if in_run && ws {
            in_run = true;
            proof {
                assert(before + squeeze_from(t, i as int, true) == out@ + squeeze_from(
                    t,
                    i + 1,
                    true,
                ));
            }
        } else if !in_run && ws && next_ws {
            out.append(" ");
            in_run = true;
            proof {
                assert(before + squeeze_from(t, i as int, false) =~= out@ + squeeze_from(
                    t,
                    i + 1,
                    true,
                ));
            }
        } else {
            if c == '\u{a0}' || c == ' ' {
                out.append(" ");
            } else {
                let one = substring(s, i, i + 1);
                proof {
                    assert(one@ =~= seq![t[i as int]]);
                }
                out.append(one.as_str());
            }
            in_run = false;
            proof {
                assert(before + squeeze_from(t, i as int, was_in_run) =~= out@
                    + squeeze_from(t, i + 1, false));
            }
        }
        i += 1;
    }
    proof {
        assert(out@ =~= cleaned(s@));
    }
    out
}

} // verus!
