//! A stand-in for the runtime: what it answers, so that the whole message path can
//! run without an engine.

use crate::client::{EventView, MessageType, StatusType, StatusView};
use crate::osc::{arg_views, message_views, ArgView, OscMessage, OscMessageView, OscType};
use crate::protocol::addr;
use crate::protocol::incoming::event_of;
use crate::protocol::out::{run_buffer_message, stop_all_jobs_message};
use crate::protocol::readings::{
    law_info_is_read, law_multi_is_read, law_status_is_read, text_at,
};
use crate::text::{
    blank, chars_of, contains, has_chars, lemma_trim_blank, lines, lines_of, same_text, string_of,
    trim, trimmed, views,
};
use vstd::prelude::*;
use vstd::string::*;

verus! {

/// The text of an argument, if it is one.
pub open spec fn arg_text(args: Seq<ArgView>, i: int) -> Option<Seq<char>> {
    if i < args.len() {
        match args[i] {
            ArgView::Text(t) => Some(t),
            _ => None,
        }
    } else {
        None
    }
}

/// The name and the code of a run request; both empty unless both are there.
pub open spec fn run_request(args: Seq<ArgView>) -> (Seq<char>, Seq<char>) {
    match (arg_text(args, 1), arg_text(args, 2)) {
        (Some(n), Some(c)) => (n, c),
        _ => (seq![], seq![]),
    }
}

/// The first line that is not blank, without white space at its ends.
pub open spec fn first_statement(ls: Seq<Seq<char>>) -> Seq<char>
    decreases ls.len(),
{
    if ls.len() == 0 {
        seq![]
    } else if !blank(ls[0]) {
        trim(ls[0])
    } else {
        first_statement(ls.drop_first())
    }
}

/// The index of the first line with `boom` in it, or the number of lines.
pub open spec fn boom_line(ls: Seq<Seq<char>>) -> int
    decreases ls.len(),
{
    if ls.len() == 0 || contains(ls[0], "boom"@) {
        0
    } else {
        1 + boom_line(ls.drop_first())
    }
}

/// The report of a syntax error at line index `i`.
pub open spec fn boom_message(i: int) -> OscMessageView {
    OscMessageView {
        addr: addr::SYNTAX_ERROR@,
        args: seq![
            ArgView::Int(1),
            ArgView::Text("undefined method `boom`"@),
            ArgView::Text(seq![]),
            ArgView::Int((i + 1) as i32),
        ],
    }
}

/// A line for the log.
pub open spec fn log_message(text: Seq<char>) -> OscMessageView {
    OscMessageView { addr: addr::LOG_INFO@, args: seq![ArgView::Int(0), ArgView::Text(text)] }
}

/// The report of a run of `first`.
pub open spec fn run_message(first: Seq<char>) -> OscMessageView {
    OscMessageView {
        addr: addr::LOG_MULTI_MESSAGE@,
        args: seq![
            ArgView::Int(1),
            ArgView::Text(":main"@),
            ArgView::Text("0.0"@),
            ArgView::Int(1),
            ArgView::Int(0),
            ArgView::Text("run → "@ + first),
        ],
    }
}

/// A message with one text.
pub open spec fn text_message(a: Seq<char>, text: Seq<char>) -> OscMessageView {
    OscMessageView { addr: a, args: seq![ArgView::Text(text)] }
}

/// What the stand-in answers: a run is acknowledged, reported and completed, unless
/// a line of it says `boom`, which is an error at that line; a stop is
/// acknowledged; anything else is not answered.
pub open spec fn replies(m: OscMessageView) -> Seq<OscMessageView> {
    if m.addr == addr::SAVE_AND_RUN_BUFFER@ {
        let (name, code) = run_request(m.args);
        let ls = lines(code);
        if boom_line(ls) < ls.len() {
            seq![boom_message(boom_line(ls))]
        } else {
            seq![
                log_message("=> Run "@ + name),
                run_message(first_statement(ls)),
                text_message(addr::RUNS_ALL_COMPLETED@, name),
            ]
        }
    } else if m.addr == addr::STOP_ALL_JOBS@ {
        seq![log_message("=> Stopping all runs"@), text_message(addr::ACK@, "stop"@)]
    } else {
        seq![]
    }
}

fn text_arg(args: &Vec<OscType>, i: usize) -> (r: Option<&String>)
    ensures
        match r {
            Some(t) => arg_text(arg_views(args@), i as int) == Some(t@),
            None => arg_text(arg_views(args@), i as int) is None,
        },
{
    if i < args.len() {
        assert(arg_views(args@)[i as int] == args@[i as int]@);
        match &args[i] {
            OscType::String(t) => Some(t),
            _ => None,
        }
    } else {
        None
    }
}

fn find_boom(ls: &Vec<&[char]>) -> (r: usize)
    ensures
        r == boom_line(views(ls@)),
        r <= ls@.len(),
{
    let ghost all = views(ls@);
    let word: Vec<char> = chars_of("boom");
    let mut i: usize = 0;
    assert(all.skip(0) =~= all);
    while i < ls.len() && !has_chars(ls[i], word.as_slice())
        invariant
            i <= ls@.len(),
            all == views(ls@),
            word@ == "boom"@,
            boom_line(all) == i + boom_line(all.skip(i as int)),
        decreases ls@.len() - i,
    {
        assert(all[i as int] == ls@[i as int]@);
        assert(all.skip(i as int).drop_first() =~= all.skip(i + 1));
        i = i + 1;
    }
    if i < ls.len() {
        assert(all[i as int] == ls@[i as int]@);
        assert(all.skip(i as int)[0] == all[i as int]);
    }
    i
}

fn find_statement(ls: &Vec<&[char]>) -> (r: String)
    ensures
        r@ == first_statement(views(ls@)),
{
    let ghost all = views(ls@);
    let mut i: usize = 0;
    assert(all.skip(0) =~= all);
    while i < ls.len()
        invariant
            i <= ls@.len(),
            all == views(ls@),
            first_statement(all) == first_statement(all.skip(i as int)),
        decreases ls@.len() - i,
    {
        assert(all[i as int] == ls@[i as int]@);
        assert(all.skip(i as int)[0] == all[i as int]);
        proof {
            lemma_trim_blank(ls@[i as int]@);
        }
        let t: &[char] = trimmed(ls[i]);
        if t.len() > 0 {
            return string_of(t);
        }
        assert(all.skip(i as int).drop_first() =~= all.skip(i + 1));
        i = i + 1;
    }
    let out: String = String::new();
    assert(out@ =~= seq![]);
    out
}

fn info(text: String) -> (r: OscMessage)
    ensures
        r@ == log_message(text@),
{
    let mut args: Vec<OscType> = Vec::new();
    args.push(OscType::Int(0));
    args.push(OscType::String(text));
    assert(arg_views(args@) =~= log_message(text@).args);
    OscMessage { addr: String::from_str(addr::LOG_INFO), args }
}

fn one_text(a: &str, text: &str) -> (r: OscMessage)
    ensures
        r@ == text_message(a@, text@),
{
    let mut args: Vec<OscType> = Vec::new();
    args.push(OscType::String(String::from_str(text)));
    assert(arg_views(args@) =~= text_message(a@, text@).args);
    OscMessage { addr: String::from_str(a), args }
}

fn boom(i: usize) -> (r: OscMessage)
    requires
        i < usize::MAX,
    ensures
        r@ == boom_message(i as int),
{
    let mut args: Vec<OscType> = Vec::new();
    args.push(OscType::Int(1));
    args.push(OscType::String(String::from_str("undefined method `boom`")));
    let empty: String = String::new();
    assert(empty@ =~= seq![]);
    args.push(OscType::String(empty));
    args.push(OscType::Int(#[verifier::truncate] ((i + 1) as i32)));
    assert(arg_views(args@) =~= boom_message(i as int).args);
    OscMessage { addr: String::from_str(addr::SYNTAX_ERROR), args }
}

fn run_report(first: &str) -> (r: OscMessage)
    ensures
        r@ == run_message(first@),
{
    let mut args: Vec<OscType> = Vec::new();
    args.push(OscType::Int(1));
    args.push(OscType::String(String::from_str(":main")));
    args.push(OscType::String(String::from_str("0.0")));
    args.push(OscType::Int(1));
    args.push(OscType::Int(0));
    args.push(OscType::String(String::from_str("run → ").concat(first)));
    assert(arg_views(args@) =~= run_message(first@).args);
    OscMessage { addr: String::from_str(addr::LOG_MULTI_MESSAGE), args }
}

/// The messages with which the stand-in answers `m`.
pub fn spider_replies(m: &OscMessage) -> (r: Vec<OscMessage>)
    ensures
        message_views(r@) == replies(m@),
{
    let mut out: Vec<OscMessage> = Vec::new();
    if same_text(m.addr.as_str(), addr::SAVE_AND_RUN_BUFFER) {
        let empty: String = String::new();
        assert(empty@ =~= seq![]);
        let (name, code): (&String, &String) = match (text_arg(&m.args, 1), text_arg(&m.args, 2)) {
            (Some(n), Some(c)) => (n, c),
            _ => (&empty, &empty),
        };
        let cs: Vec<char> = chars_of(code.as_str());
        let ls: Vec<&[char]> = lines_of(cs.as_slice());
        let n: usize = ls.len();
        let i: usize = find_boom(&ls);
        if i < n {
            out.push(boom(i));
        } else {
            let first: String = find_statement(&ls);
            out.push(info(String::from_str("=> Run ").concat(name.as_str())));
            out.push(run_report(first.as_str()));
            out.push(one_text(addr::RUNS_ALL_COMPLETED, name.as_str()));
        }
    } else if same_text(m.addr.as_str(), addr::STOP_ALL_JOBS) {
        out.push(info(String::from_str("=> Stopping all runs")));
        out.push(one_text(addr::ACK, "stop"));
    }
    assert(message_views(out@) =~= replies(m@));
    out
}

/// A run of the stand-in, asked for as any run is, ends with the event that all
/// runs are complete; one that says `boom` ends with a syntax error at that line.
pub proof fn law_stand_in_answers_every_run(token: i32, name: Seq<char>, code: Seq<char>)
    ensures
        ({
            let answers = replies(run_buffer_message(token, name, code));
            let ls = lines(code);
            let last = event_of(answers.last());
            &&& answers.len() > 0
            &&& boom_line(ls) >= ls.len() ==> last == Some(
                EventView::Status(StatusView { kind: StatusType::AllComplete, id: name }),
            )
            &&& boom_line(ls) < ls.len() ==> (last matches Some(EventView::Report(m))
                && m.kind == MessageType::SyntaxError && m.line == (boom_line(ls) + 1) as i32)
        }),
{
    reveal_strlit("/runs/all-completed");
    reveal_strlit("/ack");
    reveal_strlit("/syntax_error");
    reveal_strlit("/exited");
    reveal_strlit("/exited-with-boot-error");
    reveal_strlit("/spider/ready");
    reveal_strlit("/link-bpm");
    reveal_strlit("/link-num-peers");
    reveal_strlit("/log/info");
    reveal_strlit("/error");
    let m = run_buffer_message(token, name, code);
    assert(arg_text(m.args, 1) == Some(name));
    assert(arg_text(m.args, 2) == Some(code));
    assert(addr::RUNS_ALL_COMPLETED@.len() != addr::ACK@.len());
    let s = addr::SYNTAX_ERROR@;
    assert(s[1] == 's' && s[2] == 'y');
    assert(addr::SPIDER_READY@[2] == 'p');
    assert(addr::ACK@[1] == 'a');
    assert(addr::RUNS_ALL_COMPLETED@[1] == 'r');
    assert(addr::EXITED@[1] == 'e');
    assert(addr::EXITED_WITH_BOOT_ERROR@[1] == 'e');
    assert(addr::LINK_BPM@[1] == 'l');
    assert(addr::LINK_NUM_PEERS@[1] == 'l');
    assert(addr::LOG_INFO@[1] == 'l');
    assert(addr::ERROR@[1] == 'e');
}

/// A run that says nothing of `boom` is answered by a line that names it, by a report
/// of its first statement, and by its completion; each is read as what it is.
pub proof fn law_stand_in_runs_the_code(token: i32, name: Seq<char>, code: Seq<char>)
    requires
        boom_line(lines(code)) >= lines(code).len(),
    ensures
        ({
            let answers = replies(run_buffer_message(token, name, code));
            &&& answers.len() == 3
            &&& event_of(answers[0]) matches Some(EventView::Report(m)) && m.kind
                == MessageType::Info && m.text == "=> Run "@ + name
            &&& event_of(answers[1]) matches Some(EventView::Report(m)) && m.kind
                == MessageType::Multi && m.multi.len() == 1 && m.multi[0].text == "run → "@
                + first_statement(lines(code))
        }),
{
    let m = run_buffer_message(token, name, code);
    let answers = replies(m);
    reveal_strlit("/save-and-run-buffer");
    assert(arg_text(m.args, 1) == Some(name));
    assert(arg_text(m.args, 2) == Some(code));
    let a = answers[0].args;
    law_info_is_read(a, 0, "=> Run "@ + name);
    let b = answers[1].args;
    law_multi_is_read(b, 1, ":main"@, "0.0"@, 1);
    let r = event_of(answers[1])->0->Report_0;
    assert(r.multi.len() == 1);
    let line = r.multi[0];
    assert(text_at(b, 5int, line.text));
}

/// A stop is answered by a line and an acknowledgement, and anything that is neither a
/// run nor a stop by nothing.
pub proof fn law_stand_in_acknowledges_a_stop(token: i32, m: OscMessageView)
    ensures
        ({
            let answers = replies(stop_all_jobs_message(token));
            &&& answers.len() == 2
            &&& event_of(answers[0]) matches Some(EventView::Report(r)) && r.kind
                == MessageType::Info && r.text == "=> Stopping all runs"@
            &&& event_of(answers[1]) == Some(
                EventView::Status(StatusView { kind: StatusType::Ack, id: "stop"@ }),
            )
        }),
        m.addr != "/save-and-run-buffer"@ && m.addr != "/stop-all-jobs"@ ==> replies(m).len() == 0,
{
    reveal_strlit("/save-and-run-buffer");
    reveal_strlit("/stop-all-jobs");
    assert("/save-and-run-buffer"@.len() != "/stop-all-jobs"@.len());
    let answers = replies(stop_all_jobs_message(token));
    law_info_is_read(answers[0].args, 0, "=> Stopping all runs"@);
    law_status_is_read(answers[1].args, "stop"@);
}

/// The first statement is the first line that is not blank, without the white space
/// around it.
pub proof fn law_first_statement_is_the_first_line(ls: Seq<Seq<char>>, i: int)
    requires
        0 <= i < ls.len(),
        forall|j: int| 0 <= j < i ==> blank(#[trigger] ls[j]),
        !blank(ls[i]),
    ensures
        first_statement(ls) == trim(ls[i]),
    decreases i,
{
    if i > 0 {
        let rest = ls.drop_first();
        assert(blank(ls[0]));
        assert forall|j: int| 0 <= j < i - 1 implies blank(#[trigger] rest[j]) by {
            assert(rest[j] == ls[j + 1]);
        }
        law_first_statement_is_the_first_line(rest, i - 1);
    }
}

/// The error is at the first line that says `boom`.
pub proof fn law_first_boom_is_the_error(ls: Seq<Seq<char>>, i: int)
    requires
        0 <= i <= ls.len(),
        forall|j: int| 0 <= j < i ==> !contains(#[trigger] ls[j], "boom"@),
        i < ls.len() ==> contains(ls[i], "boom"@),
    ensures
        boom_line(ls) == i,
    decreases i,
{
    if i > 0 {
        let rest = ls.drop_first();
        assert(!contains(ls[0], "boom"@));
        assert forall|j: int| 0 <= j < i - 1 implies !contains(#[trigger] rest[j], "boom"@) by {
            assert(rest[j] == ls[j + 1]);
        }
        law_first_boom_is_the_error(rest, i - 1);
    }
}

} // verus!
