//! Interactive operator messaging: decision prompts offered over a chat
//! provider, the replies that answer them, and the message types that
//! travel between the loop and the messaging service.

use vstd::prelude::*;
use crate::text::{
    chars_to_string, lower_seq, owned, push_chars, push_decimal, push_str, push_upper, str_chars,
    str_eq_ignore_ascii_case, str_starts_with, str_to_ascii_lowercase, str_trim, trim_seq,
    upper_seq, decimal, starts_with_seq, chars_eq,
};

verus! {

/// One lettered choice of a decision prompt.
pub struct DecisionOption {
    pub key: String,
    pub label: String,
    pub action: String,
}

/// A question put to the operator together with its lettered choices.
pub struct DecisionPrompt {
    pub question: String,
    pub prompt_id: String,
    pub options: Vec<DecisionOption>,
}

/// A message handed to a provider for delivery.
pub struct OutboundMessage {
    pub provider: String,
    pub channel: String,
    pub subject: String,
    pub body: String,
}

impl OutboundMessage {
    /// Bundles the four parts of an outbound message.
    pub fn new(provider: String, channel: String, subject: String, body: String) -> (m: Self)
        ensures
            m.provider@ == provider@,
            m.channel@ == channel@,
            m.subject@ == subject@,
            m.body@ == body@,
    {
        OutboundMessage { provider, channel, subject, body }
    }
}

/// A message received from a provider.
pub struct InboundMessage {
    pub provider: String,
    pub channel: String,
    pub sender: String,
    pub content: String,
}

/// A message that interrupts the running loop.
pub struct InterruptionMessage {
    pub sender: String,
    pub channel: String,
    pub content: String,
}

/// A post to the boardroom channel.
pub struct BoardroomPost {
    pub subject: String,
    pub body: String,
}

/// The messaging service through which prompts are created and sent.
pub struct HermesService;

/// Lower-case hexadecimal digit.
pub open spec fn is_lower_hex(c: char) -> bool {
    ('0' <= c && c <= '9') || ('a' <= c && c <= 'f')
}

/// The hyphenated lower-case text of a version-4 UUID:
/// `xxxxxxxx-xxxx-4xxx-Yxxx-xxxxxxxxxxxx` with `Y` one of `8 9 a b`.
pub open spec fn is_v4_uuid_text(s: Seq<char>) -> bool {
    &&& s.len() == 36
    &&& forall|i: int| 0 <= i < 36 ==> (if i == 8 || i == 13 || i == 18 || i == 23 {
        #[trigger] s[i] == '-'
    } else {
        is_lower_hex(s[i])
    })
    &&& s[14] == '4'
    &&& (s[19] == '8' || s[19] == '9' || s[19] == 'a' || s[19] == 'b')
}

/// A fresh random version-4 UUID in its hyphenated lower-case text form
/// (`uuid::Uuid::new_v4` formatted with `Display`). The value is random;
/// only its shape is stated.
#[verifier::external_body]
fn new_v4_uuid_text() -> (s: String)
    ensures
        is_v4_uuid_text(s@),
{
    uuid::Uuid::new_v4().to_string()
}

/// The prompt id made from a UUID's text: `prompt-` followed by it.
pub fn prompt_id_from(uuid: &str) -> (id: String)
    ensures
        id@ == "prompt-"@ + uuid@,
{
    let mut id: Vec<char> = Vec::new();
    push_str(&mut id, "prompt-");
    push_str(&mut id, uuid);
    chars_to_string(id.as_slice())
}

impl HermesService {
    /// Creates a decision prompt for `question` with the given choices and
    /// a fresh prompt id `prompt-<uuid v4>`. The provider, sender and
    /// channel do not enter the prompt.
    pub fn create_decision_prompt(
        &self,
        provider: &str,
        sender: &str,
        channel: &str,
        question: &str,
        options: Vec<DecisionOption>,
    ) -> (p: DecisionPrompt)
        ensures
            p.question@ == question@,
            p.options@ == options@,
            p.prompt_id@.len() == 43,
            starts_with_seq(p.prompt_id@, "prompt-"@),
            is_v4_uuid_text(p.prompt_id@.subrange(7, 43)),
    {
        let uuid = new_v4_uuid_text();
        let id = prompt_id_from(uuid.as_str());
        proof {
            reveal_strlit("prompt-");
            assert(id@.subrange(0, 7) =~= "prompt-"@);
            assert(id@.subrange(7, 43) =~= uuid@);
        }
        DecisionPrompt { question: owned(question), prompt_id: id, options }
    }
}

/// The lines naming each option, `KEY. label`, each followed by a newline.
pub open spec fn option_lines(options: Seq<DecisionOption>) -> Seq<char>
    decreases options.len(),
{
    if options.len() == 0 {
        Seq::empty()
    } else {
        let o = options.last();
        option_lines(options.drop_last()) + upper_seq(o.key@) + ". "@ + o.label@ + "\n"@
    }
}

/// The chat text of a decision prompt.
pub open spec fn decision_prompt_text(p: DecisionPrompt) -> Seq<char> {
    "Decision: "@ + p.question@ + "\nPrompt ID: "@ + p.prompt_id@ + "\n\n"@ + option_lines(p.options@)
        + "\nReply with A, B, or C."@
}

/// Renders a decision prompt as chat text: the question, the prompt id, a
/// blank line, one line per option with its key upper-cased, a blank line,
/// and the reply hint.
pub fn format_decision_prompt_message(prompt: &DecisionPrompt) -> (s: String)
    ensures
        s@ == decision_prompt_text(*prompt),
{
    let mut out: Vec<char> = Vec::new();
    push_str(&mut out, "Decision: ");
    push_str(&mut out, prompt.question.as_str());
    push_str(&mut out, "\nPrompt ID: ");
    push_str(&mut out, prompt.prompt_id.as_str());
    push_str(&mut out, "\n\n");
    let ghost head = out@;
    let mut i: usize = 0;
    while i < prompt.options.len()
        invariant
            i <= prompt.options.len(),
            out@ == head + option_lines(prompt.options@.subrange(0, i as int)),
        decreases prompt.options.len() - i,
    {
        let o = &prompt.options[i];
        push_upper(&mut out, o.key.as_str());
        push_str(&mut out, ". ");
        push_str(&mut out, o.label.as_str());
        push_str(&mut out, "\n");
        proof {
            let sub = prompt.options@.subrange(0, i + 1);
            assert(sub.drop_last() =~= prompt.options@.subrange(0, i as int));
            assert(sub.last() == prompt.options@[i as int]);
        }
        i += 1;
    }
    push_str(&mut out, "\nReply with A, B, or C.");
    proof {
        assert(prompt.options@.subrange(0, prompt.options@.len() as int) =~= prompt.options@);
    }
    chars_to_string(out.as_slice())
}

/// A reply that picks one of the three options: `a`, `b` or `c`, alone
/// or followed by `.` or `)`, in either case and with surrounding white
/// space.
pub open spec fn is_option_reply_text(content: Seq<char>) -> bool {
    let t = lower_seq(trim_seq(content));
    t == "a"@ || t == "a."@ || t == "a)"@ || t == "b"@ || t == "b."@ || t == "b)"@ || t == "c"@
        || t == "c."@ || t == "c)"@
}

/// Whether `content` answers a decision prompt with one of its letters.
pub fn is_option_reply(content: &str) -> (r: bool)
    ensures
        r == is_option_reply_text(content@),
{
    let trimmed = str_trim(content);
    let t = str_to_ascii_lowercase(chars_to_string(trimmed.as_slice()).as_str());
    proof {
        reveal_strlit("a");
        reveal_strlit("a.");
        reveal_strlit("a)");
        reveal_strlit("b");
        reveal_strlit("b.");
        reveal_strlit("b)");
        reveal_strlit("c");
        reveal_strlit("c.");
        reveal_strlit("c)");
        assert("a"@ =~= seq!['a']);
        assert("b"@ =~= seq!['b']);
        assert("c"@ =~= seq!['c']);
        assert("a."@ =~= seq!['a', '.']);
        assert("b."@ =~= seq!['b', '.']);
        assert("c."@ =~= seq!['c', '.']);
        assert("a)"@ =~= seq!['a', ')']);
        assert("b)"@ =~= seq!['b', ')']);
        assert("c)"@ =~= seq!['c', ')']);
    }
    if t.len() == 1 {
        proof {
            assert(t@ =~= seq![t@[0]]);
        }
        t[0] == 'a' || t[0] == 'b' || t[0] == 'c'
    } else if t.len() == 2 {
        proof {
            assert(t@ =~= seq![t@[0], t@[1]]);
        }
        (t[0] == 'a' || t[0] == 'b' || t[0] == 'c') && (t[1] == '.' || t[1] == ')')
    } else {
        false
    }
}

/// Whether an inbound message should be answered with a decision prompt:
/// it comes from the operator over Discord (names compared ignoring ASCII
/// case) and is not itself a reply to a prompt.
pub open spec fn offers_decision_prompt(
    is_operator: bool,
    provider: Seq<char>,
    sender: Seq<char>,
    expected_sender: Seq<char>,
    content: Seq<char>,
) -> bool {
    &&& is_operator
    &&& lower_seq(provider) == lower_seq("discord"@)
    &&& lower_seq(sender) == lower_seq(expected_sender)
    &&& !is_option_reply_text(content)
}

/// Decides whether to send a decision prompt for an inbound message.
pub fn should_offer_decision_prompt(
    is_operator: bool,
    provider: &str,
    sender: &str,
    expected_sender: &str,
    content: &str,
) -> (r: bool)
    ensures
        r == offers_decision_prompt(is_operator, provider@, sender@, expected_sender@, content@),
{
    is_operator && str_eq_ignore_ascii_case(provider, "discord") && str_eq_ignore_ascii_case(
        sender,
        expected_sender,
    ) && !is_option_reply(content)
}

/// The option with the given key, label and action.
pub open spec fn option_is(o: DecisionOption, key: Seq<char>, label: Seq<char>, action: Seq<char>) -> bool {
    o.key@ == key && o.label@ == label && o.action@ == action
}

fn make_option(key: &str, label: Vec<char>, action: Vec<char>) -> (o: DecisionOption)
    ensures
        o.key@ == key@,
        o.label@ == label@,
        o.action@ == action@,
{
    DecisionOption {
        key: owned(key),
        label: chars_to_string(label.as_slice()),
        action: chars_to_string(action.as_slice()),
    }
}

fn text_of(s: &str) -> (v: Vec<char>)
    ensures
        v@ == s@,
{
    str_chars(s)
}

/// The question and choices offered to the operator. With an empty queue:
/// chat mode, a maintenance sweep or a research pass. Otherwise: execute
/// the top queued task, review the top tasks, or chat mode.
pub open spec fn decision_choices_ok(
    queued_task_ids: Seq<Seq<char>>,
    question: Seq<char>,
    options: Seq<DecisionOption>,
) -> bool {
    if queued_task_ids.len() == 0 {
        &&& question == "Queue is empty. Choose next mode."@
        &&& options.len() == 3
        &&& option_is(options[0], "a"@, "Enter chat mode"@, "enter chat mode"@)
        &&& option_is(options[1], "b"@, "Run maintenance sweep"@, "execute hades maintenance sweep"@)
        &&& option_is(options[2], "c"@, "Run ATHENA research"@, "execute athena research pass"@)
    } else {
        let top = queued_task_ids[0];
        &&& question == "Queue has "@ + decimal(queued_task_ids.len()) + " pending tasks. Choose next action."@
        &&& options.len() == 3
        &&& option_is(options[0], "a"@, "Execute "@ + top, "execute queued task "@ + top)
        &&& option_is(options[1], "b"@, "Review top tasks"@, "show top queued tasks and plan"@)
        &&& option_is(options[2], "c"@, "Enter chat mode"@, "enter chat mode"@)
    }
}

/// Chooses the question and the three options of the decision prompt from
/// the ids of the queued tasks, top task first.
pub fn decision_choices(queued_task_ids: &Vec<String>) -> (r: (String, Vec<DecisionOption>))
    ensures
        decision_choices_ok(queued_task_ids.deep_view(), r.0@, r.1@),
{
    let mut options: Vec<DecisionOption> = Vec::new();
    if queued_task_ids.len() == 0 {
        options.push(make_option("a", text_of("Enter chat mode"), text_of("enter chat mode")));
        options.push(make_option("b", text_of("Run maintenance sweep"), text_of("execute hades maintenance sweep")));
        options.push(make_option("c", text_of("Run ATHENA research"), text_of("execute athena research pass")));
        (owned("Queue is empty. Choose next mode."), options)
    } else {
        let top = queued_task_ids[0].as_str();
        let mut label: Vec<char> = Vec::new();
        push_str(&mut label, "Execute ");
        push_str(&mut label, top);
        let mut action: Vec<char> = Vec::new();
        push_str(&mut action, "execute queued task ");
        push_str(&mut action, top);
        options.push(make_option("a", label, action));
        options.push(make_option("b", text_of("Review top tasks"), text_of("show top queued tasks and plan")));
        options.push(make_option("c", text_of("Enter chat mode"), text_of("enter chat mode")));
        let mut q: Vec<char> = Vec::new();
        push_str(&mut q, "Queue has ");
        push_decimal(&mut q, queued_task_ids.len() as u64);
        push_str(&mut q, " pending tasks. Choose next action.");
        proof {
            assert(queued_task_ids.deep_view()[0] == queued_task_ids@[0]@);
        }
        (chars_to_string(q.as_slice()), options)
    }
}

/// The digest fields that identify a research source.
pub struct DigestEntry {
    pub id: Option<String>,
    pub raw_input: Option<String>,
    pub url: Option<String>,
    pub book_ref: Option<String>,
}

/// The field holds exactly `t`.
pub open spec fn field_is(f: Option<String>, t: Seq<char>) -> bool {
    match f {
        Some(s) => s@ == t,
        None => false,
    }
}

/// The entry has an id and one of its raw input, URL or book reference is `t`.
pub open spec fn entry_matches(e: DigestEntry, t: Seq<char>) -> bool {
    e.id is Some && (field_is(e.raw_input, t) || field_is(e.url, t) || field_is(e.book_ref, t))
}

/// The id of the last of the first `n` entries that matches `t`, if any.
pub open spec fn last_match(entries: Seq<DigestEntry>, t: Seq<char>, n: int) -> Option<Seq<char>>
    decreases n,
{
    if n <= 0 {
        None
    } else if entry_matches(entries[n - 1], t) {
        Some(entries[n - 1].id.unwrap()@)
    } else {
        last_match(entries, t, n - 1)
    }
}

/// What a source reference resolves to: the trimmed candidate itself when
/// it is empty or already a source id (`src_...`); otherwise the id of the
/// last digest entry that records it, or the trimmed candidate when none does.
pub open spec fn resolved_source_id(candidate: Seq<char>, entries: Seq<DigestEntry>) -> Seq<char> {
    let t = trim_seq(candidate);
    if t.len() == 0 || starts_with_seq(t, "src_"@) {
        t
    } else {
        match last_match(entries, t, entries.len() as int) {
            Some(id) => id,
            None => t,
        }
    }
}

fn field_eq(f: &Option<String>, t: &Vec<char>) -> (r: bool)
    ensures
        r == field_is(*f, t@),
{
    match f {
        Some(s) => {
            let v = str_chars(s.as_str());
            chars_eq(&v, t)
        },
        None => false,
    }
}

/// Resolves a research source reference against the digest entries, in
/// digest order.
pub fn resolve_source_id(candidate: &str, entries: &Vec<DigestEntry>) -> (r: String)
    ensures
        r@ == resolved_source_id(candidate@, entries@),
{
    let t = str_trim(candidate);
    let ts = chars_to_string(t.as_slice());
    if t.len() == 0 || str_starts_with(ts.as_str(), "src_") {
        return ts;
    }
    let mut found: Option<usize> = None;
    let mut i: usize = 0;
    while i < entries.len()
        invariant
            i <= entries.len(),
            match found {
                Some(k) => k < i && last_match(entries@, t@, i as int) == Some(entries@[k as int].id.unwrap()@)
                    && entries@[k as int].id is Some,
                None => last_match(entries@, t@, i as int) is None,
            },
        decreases entries.len() - i,
    {
        let e = &entries[i];
        if e.id.is_some() && (field_eq(&e.raw_input, &t) || field_eq(&e.url, &t) || field_eq(&e.book_ref, &t)) {
            found = Some(i);
        }
        i += 1;
    }
    match found {
        Some(k) => {
            match &entries[k].id {
                Some(id) => owned(id.as_str()),
                None => ts,
            }
        },
        None => ts,
    }
}

/// Law (option replies): a reply picks an option exactly when, trimmed and
/// in lower case, it is one of the letters a, b, c, alone or followed by
/// "." or ")"; such a reply is never answered with a new prompt.
pub proof fn law_option_replies(
    content: Seq<char>,
    is_operator: bool,
    provider: Seq<char>,
    sender: Seq<char>,
    expected_sender: Seq<char>,
)
    ensures
        is_option_reply_text(content) <==> ({
            let t = lower_seq(trim_seq(content));
            &&& 1 <= t.len() <= 2
            &&& (t[0] == 'a' || t[0] == 'b' || t[0] == 'c')
            &&& (t.len() == 2 ==> (t[1] == '.' || t[1] == ')'))
        }),
        is_option_reply_text(content) ==> !offers_decision_prompt(is_operator, provider, sender, expected_sender, content),
{
    reveal_strlit("a");
    reveal_strlit("a.");
    reveal_strlit("a)");
    reveal_strlit("b");
    reveal_strlit("b.");
    reveal_strlit("b)");
    reveal_strlit("c");
    reveal_strlit("c.");
    reveal_strlit("c)");
    let t = lower_seq(trim_seq(content));
    assert("a"@ =~= seq!['a']);
    assert("b"@ =~= seq!['b']);
    assert("c"@ =~= seq!['c']);
    assert("a."@ =~= seq!['a', '.']);
    assert("b."@ =~= seq!['b', '.']);
    assert("c."@ =~= seq!['c', '.']);
    assert("a)"@ =~= seq!['a', ')']);
    assert("b)"@ =~= seq!['b', ')']);
    assert("c)"@ =~= seq!['c', ')']);
    if t.len() == 1 {
        assert(t =~= seq![t[0]]);
    }
    if t.len() == 2 {
        assert(t =~= seq![t[0], t[1]]);
    }
}

/// Law (source references): a reference that is empty or already a
/// source id ("src_...") resolves to itself once trimmed; otherwise the
/// latest digest entry that records it decides, and a reference nothing
/// records stays as it is.
pub proof fn law_source_references(candidate: Seq<char>, entries: Seq<DigestEntry>, e: DigestEntry)
    requires
        e.id is Some,
    ensures
        starts_with_seq(trim_seq(candidate), "src_"@) ==> resolved_source_id(candidate, entries) == trim_seq(candidate),
        trim_seq(candidate).len() > 0 && !starts_with_seq(trim_seq(candidate), "src_"@)
            && entry_matches(e, trim_seq(candidate))
            ==> resolved_source_id(candidate, entries.push(e)) == e.id.unwrap()@,
        last_match(entries, trim_seq(candidate), entries.len() as int) is None
            ==> resolved_source_id(candidate, entries) == trim_seq(candidate),
{
    let t = trim_seq(candidate);
    let all = entries.push(e);
    assert(all[entries.len() as int] == e);
}

} // verus!
