//! Messages for Slack webhooks.

use vstd::prelude::*;
use vstd::string::*;
use crate::text::{
    decimal, holds, join, joined, lemma_holds, lemma_holds_within, lemma_joined_holds,
    lemma_pieces_of_joined, pieces, text_opt, texts, to_decimal,
};
use crate::time::{utc_text, Instant, Timestamp};

verus! {

/// A line of a quotation.
pub open spec fn quoted_line(line: Seq<char>) -> Seq<char> {
    "> "@ + line
}

/// Lines as one quotation.
pub open spec fn quotation(lines: Seq<Seq<char>>) -> Seq<char> {
    joined(lines.map_values(|l: Seq<char>| quoted_line(l)), "\n"@)
}

/// The lines as one quotation: each after `> `, with a line feed between them.
pub fn quote(lines: &Vec<String>) -> (r: String)
    ensures
        r@ == quotation(texts(lines@)),
{
    let mut quoted: Vec<String> = Vec::new();
    let mut i: usize = 0;
    while i < lines.len()
        invariant
            i <= lines.len(),
            quoted@.len() == i,
            forall|j: int| 0 <= j < i ==> (#[trigger] quoted@[j])@ == quoted_line(lines@[j]@),
        decreases lines.len() - i,
    {
        let mut line: String = "> ".to_owned();
        line.append(lines[i].as_str());
        quoted.push(line);
        i = i + 1;
    }
    assert(texts(quoted@) =~= texts(lines@).map_values(|l: Seq<char>| quoted_line(l)));
    join(&quoted, "\n")
}

/// A line that Slack shows as `label` and the instant in the reader's zone,
/// and that reads `label` and the instant in UTC elsewhere.
pub open spec fn date_text(label: Seq<char>, at: Instant) -> Seq<char> {
    "<!date^"@ + decimal(at.seconds) + "^"@ + label + " {date_num} {time_secs}|"@ + label + " "@
        + utc_text(at.seconds, at.nanos) + ">"@
}

/// The line of `date_text`.
pub fn date_line(label: &str, at: &Timestamp) -> (r: String)
    ensures
        r@ == date_text(label@, at@),
{
    let mut r: String = "<!date^".to_owned();
    r.append(to_decimal(at.seconds()).as_str());
    r.append("^");
    r.append(label);
    r.append(" {date_num} {time_secs}|");
    r.append(label);
    r.append(" ");
    r.append(at.to_utc_text().as_str());
    r.append(">");
    r
}

/// A message and the webhook that it goes to.
#[derive(Debug, PartialEq)]
pub struct Message {
    pub url: String,
    pub text: String,
}

/// The webhook and the text of a message.
pub open spec fn message_of(m: Message) -> (Seq<char>, Seq<char>) {
    (m.url@, m.text@)
}

/// The webhooks and texts of messages.
pub open spec fn messages_of(v: Seq<Message>) -> Seq<(Seq<char>, Seq<char>)> {
    v.map_values(|m: Message| message_of(m))
}

/// The one text for each of two webhooks that is set.
pub open spec fn broadcast_messages(
    url: Option<Seq<char>>,
    on_error_url: Option<Seq<char>>,
    text: Seq<char>,
) -> Seq<(Seq<char>, Seq<char>)> {
    (match url {
        Some(u) => seq![(u, text)],
        None => Seq::empty(),
    }) + (match on_error_url {
        Some(u) => seq![(u, text)],
        None => Seq::empty(),
    })
}

/// A message for each of the two webhooks that is set.
pub fn to_webhooks(url: &Option<String>, on_error_url: &Option<String>, text: &str) -> (r: Vec<
    Message,
>)
    ensures
        messages_of(r@) == broadcast_messages(text_opt(*url), text_opt(*on_error_url), text@),
{
    let mut r: Vec<Message> = Vec::new();
    if let Some(u) = url {
        r.push(Message { url: u.clone(), text: text.to_owned() });
    }
    if let Some(u) = on_error_url {
        r.push(Message { url: u.clone(), text: text.to_owned() });
    }
    assert(messages_of(r@) =~= broadcast_messages(text_opt(*url), text_opt(*on_error_url), text@));
    r
}

/// The webhook URL to use: one that is blank is ignored.
pub fn sanitize_url(url: String) -> (r: Option<String>)
    ensures
        r == (if crate::text::trimmed(url@).len() == 0 {
            None::<String>
        } else {
            Some(url)
        }),
{
    if crate::text::trim(url.as_str()).is_empty() {
        None
    } else {
        Some(url)
    }
}

/// A quotation reads back as its lines, each behind its quotation mark: none is
/// lost, added or moved.
pub proof fn law_quotation_reads_back(lines: Seq<Seq<char>>)
    requires
        lines.len() > 0,
        forall|i: int| 0 <= i < lines.len() ==> !(#[trigger] lines[i]).contains('\n'),
    ensures
        pieces(quotation(lines), '\n').len() == lines.len(),
        forall|i: int|
            0 <= i < lines.len() ==> #[trigger] pieces(quotation(lines), '\n')[i] == "> "@
                + lines[i],
{
    reveal_strlit("\n");
    reveal_strlit("> ");
    assert("\n"@ =~= seq!['\n']);
    let quoted = lines.map_values(|l: Seq<char>| quoted_line(l));
    assert forall|i: int| 0 <= i < quoted.len() implies !(#[trigger] quoted[i]).contains('\n') by {
        let line = quoted[i];
        assert(!lines[i].contains('\n'));
        assert forall|j: int| 0 <= j < line.len() implies line[j] != '\n' by {
            if j >= 2 {
                assert(lines[i].contains(lines[i][j - 2]));
            }
        }
    }
    lemma_pieces_of_joined(quoted, '\n');
}

/// A quotation holds each of its lines behind a quotation mark, be it one that
/// goes over several lines itself.
pub proof fn law_quotation_holds_lines(lines: Seq<Seq<char>>, i: int)
    requires
        0 <= i < lines.len(),
    ensures
        holds(quotation(lines), "> "@ + lines[i]),
        holds(quotation(lines), lines[i]),
{
    let quoted = lines.map_values(|l: Seq<char>| quoted_line(l));
    lemma_joined_holds(quoted, "\n"@, i);
    let nothing = Seq::<char>::empty();
    lemma_holds("> "@, lines[i], nothing);
    assert("> "@ + lines[i] + nothing =~= quoted[i]);
    lemma_holds_within(quotation(lines), quoted[i], lines[i]);
}

/// A message goes once to each webhook that is set, to no other, and with the
/// text that was given.
pub proof fn law_each_webhook_is_told_once(
    url: Option<Seq<char>>,
    on_error_url: Option<Seq<char>>,
    text: Seq<char>,
    target: Seq<char>,
)
    ensures
        broadcast_messages(url, on_error_url, text).len() == (if url is Some {
            1int
        } else {
            0
        }) + (if on_error_url is Some {
            1int
        } else {
            0
        }),
        broadcast_messages(url, on_error_url, text).contains((target, text)) <==> url == Some(
            target,
        ) || on_error_url == Some(target),
        forall|i: int|
            0 <= i < broadcast_messages(url, on_error_url, text).len() ==> (
            #[trigger] broadcast_messages(url, on_error_url, text)[i]).1 == text,
{
    let all = broadcast_messages(url, on_error_url, text);
    if url == Some(target) {
        assert(all[0] == (target, text));
    }
    if on_error_url == Some(target) {
        assert(all[all.len() - 1] == (target, text));
    }
    if all.contains((target, text)) {
        let k = choose|k: int| 0 <= k < all.len() && all[k] == (target, text);
        assert(k == 0 || k == all.len() - 1);
    }
}

/// A line with a time tells the label and the time twice: as seconds for Slack
/// to show in the reader's zone, and as it reads in UTC.
pub proof fn law_date_tells_the_time(label: Seq<char>, at: Instant)
    ensures
        holds(date_text(label, at), "<!date^"@ + decimal(at.seconds) + "^"@ + label),
        holds(date_text(label, at), label + " "@ + utc_text(at.seconds, at.nanos)),
{
    let nothing = Seq::<char>::empty();
    let start = "<!date^"@ + decimal(at.seconds) + "^"@ + label;
    let end = label + " "@ + utc_text(at.seconds, at.nanos);
    let middle = " {date_num} {time_secs}|"@;
    lemma_holds(nothing, start, middle + end + ">"@);
    assert(nothing + start + (middle + end + ">"@) =~= date_text(label, at));
    lemma_holds(start + middle, end, ">"@);
    assert(start + middle + end + ">"@ =~= date_text(label, at));
}

/// A quotation goes on line by line: each further line stands behind a line feed
/// and a quotation mark, and what was there before stays as it is.
pub proof fn law_quotations_go_on(lines: Seq<Seq<char>>, line: Seq<char>)
    ensures
        quotation(seq![line]) == "> "@ + line,
        lines.len() > 0 ==> quotation(lines.push(line)) == quotation(lines) + "\n> "@ + line,
{
    reveal_strlit("\n");
    reveal_strlit("> ");
    reveal_strlit("\n> ");
    let f = |l: Seq<char>| quoted_line(l);
    let quoted = lines.push(line).map_values(f);
    assert(seq![line].map_values(f) =~= seq!["> "@ + line]);
    assert(quoted.drop_last() =~= lines.map_values(f));
    assert("\n> "@ =~= "\n"@ + "> "@);
    if lines.len() > 0 {
        assert(quotation(lines.push(line)) =~= quotation(lines) + "\n> "@ + line);
    }
}

/// A line with a time is made of what Slack shows and of what is read elsewhere,
/// and of nothing else.
pub proof fn law_date_has_two_sides(label: Seq<char>, at: Instant)
    ensures
        ({
            let shown = "<!date^"@ + decimal(at.seconds) + "^"@ + label
                + " {date_num} {time_secs}|"@;
            let read = label + " "@ + utc_text(at.seconds, at.nanos) + ">"@;
            &&& shown.is_prefix_of(date_text(label, at))
            &&& read.is_suffix_of(date_text(label, at))
            &&& date_text(label, at).len() == shown.len() + read.len()
        }),
{
    let shown = "<!date^"@ + decimal(at.seconds) + "^"@ + label + " {date_num} {time_secs}|"@;
    let read = label + " "@ + utc_text(at.seconds, at.nanos) + ">"@;
    let s = date_text(label, at);
    assert(s =~= shown + read);
    assert(s.subrange(0, shown.len() as int) =~= shown);
    assert(s.subrange(s.len() - read.len(), s.len() as int) =~= read);
}

/// A webhook URL that is blank counts as none, and any other is used as it is.
pub proof fn law_blank_urls_are_ignored(url: String, used: Option<String>)
    requires
        call_ensures(sanitize_url, (url,), used),
    ensures
        used matches Some(u) ==> u == url,
        url@.len() == 0 ==> used is None,
        (forall|i: int| 0 <= i < url@.len() ==> crate::text::whitespace(#[trigger] url@[i]))
            ==> used is None,
        (exists|i: int| 0 <= i < url@.len() && !crate::text::whitespace(#[trigger] url@[i]))
            ==> used is Some,
{
    let nothing = Seq::<char>::empty();
    if forall|i: int| 0 <= i < url@.len() ==> crate::text::whitespace(#[trigger] url@[i]) {
        crate::text::lemma_trimmed_padding(url@, nothing, nothing);
        assert(url@ + nothing + nothing =~= url@);
        crate::text::lemma_trimmed_is(nothing);
    }
    if exists|i: int| 0 <= i < url@.len() && !crate::text::whitespace(#[trigger] url@[i]) {
        let i = choose|i: int|
            0 <= i < url@.len() && !crate::text::whitespace(#[trigger] url@[i]);
        crate::text::lemma_trimmed_keeps(url@, i);
    }
}

} // verus!
