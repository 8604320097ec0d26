//! The notifiers' rendering step: a match-set becomes a channel-specific
//! payload.  Rendering never performs I/O; delivery is left to the caller.
use vstd::prelude::*;

use crate::chars::{dec_str, fmt_u64, join_strings, join_with, str_views};
use crate::strings::string_from_chars;

verus! {

/// Renders a count in decimal.
pub fn fmt_count(n: usize) -> (r: String)
    ensures
        r@ == dec_str(n as nat),
{
    let v = fmt_u64(n as u64);
    string_from_chars(&v)
}

/// The subject line: `Found {n} match(es) for {url}`.
pub open spec fn spec_subject(n: nat, url: Seq<char>) -> Seq<char> {
    "Found "@ + dec_str(n) + " match(es) for "@ + url
}

/// The plain-text body: the matches joined by a `---` separator line.
pub open spec fn spec_text_body(ms: Seq<Seq<char>>) -> Seq<char> {
    "Results:\n"@ + join_with(ms, "\n---\n"@)
}

/// One table cell of the HTML body.
pub open spec fn spec_cell(m: Seq<char>) -> Seq<char> {
    "<td>"@ + m + "<td>"@
}

/// The match rows of the HTML body.
pub open spec fn spec_rows(ms: Seq<Seq<char>>) -> Seq<char> {
    join_with(ms.map_values(|m: Seq<char>| spec_cell(m)), "<br/>"@)
}

/// The fixed document head: a minimal styled document with a fixed-width
/// container and responsive image sizing.
pub open spec fn spec_html_head() -> Seq<char> {
    "<!DOCTYPE html>\n<html lang=\"en\">\n<head>\n<meta charset=\"UTF-8\">\n<meta name=\"viewport\" content=\"width=device-width, initial-scale=1.0\">\n<style>\n.container {\nmax-width: 440px;\n}\n.container img {\nmax-width: 440px;\nheight: unset;\n}\n</style>\n"@
}

/// The HTML body: the styled head, the subject as title, a heading that
/// links the polled page, and one table cell per match.
pub open spec fn spec_html_body(url: Seq<char>, n: nat, ms: Seq<Seq<char>>) -> Seq<char> {
    spec_html_head() + "<title>"@ + spec_subject(n, url) + "</title>"@ + "</head>"@ + "<body>"@
        + "<h2><a class=\"url\" href=\""@ + url + "\">"@ + url + "</h2></a><br>"@
        + "<table class=\"container\"><tbody>"@ + spec_rows(ms) + "</tbody></table>"@ + "</body>"@
        + "</html>"@
}

/// A rendered email: subject, plain-text alternative and HTML alternative.
pub struct EmailContent {
    pub subject: String,
    pub text_body: String,
    pub html_body: String,
}

/// Renders the subject line for `n` matches at `url`.
pub fn render_subject(n: usize, url: &str) -> (r: String)
    ensures
        r@ == spec_subject(n as nat, url@),
{
    let mut r = String::new();
    r.append("Found ");
    let count = fmt_count(n);
    r.append(count.as_str());
    r.append(" match(es) for ");
    r.append(url);
    proof {
        assert(r@ =~= spec_subject(n as nat, url@));
    }
    r
}

/// Renders the dual-part email for a match-set.
pub fn render_email(url: &str, matches: &Vec<String>) -> (e: EmailContent)
    ensures
        e.subject@ == spec_subject(matches@.len(), url@),
        e.text_body@ == spec_text_body(str_views(matches@)),
        e.html_body@ == spec_html_body(url@, matches@.len(), str_views(matches@)),
{
    let subject = render_subject(matches.len(), url);

    let mut text_body = String::new();
    text_body.append("Results:\n");
    let joined = join_strings(matches, "\n---\n");
    text_body.append(joined.as_str());
    proof {
        assert(text_body@ =~= spec_text_body(str_views(matches@)));
    }

    let ghost ms = str_views(matches@);
    let mut cells: Vec<String> = Vec::new();
    let mut k: usize = 0;
    while k < matches.len()
        invariant
            0 <= k <= matches.len(),
            ms == str_views(matches@),
            ms.len() == matches@.len(),
            cells@.len() == k,
            forall|j: int| 0 <= j < k ==> str_views(cells@)[j] == spec_cell(ms[j]),
        decreases matches.len() - k,
    {
        let mut cell = String::new();
        cell.append("<td>");
        cell.append(matches[k].as_str());
        cell.append("<td>");
        let ghost prev = cells@;
        cells.push(cell);
        proof {
            assert(str_views(cells@) =~= str_views(prev).push(cell@));
        }
        k += 1;
    }
    proof {
        assert(str_views(cells@) =~= ms.map_values(|m: Seq<char>| spec_cell(m)));
    }
    let rows = join_strings(&cells, "<br/>");

    let mut html_body = String::new();
    html_body.append(
        "<!DOCTYPE html>\n<html lang=\"en\">\n<head>\n<meta charset=\"UTF-8\">\n<meta name=\"viewport\" content=\"width=device-width, initial-scale=1.0\">\n<style>\n.container {\nmax-width: 440px;\n}\n.container img {\nmax-width: 440px;\nheight: unset;\n}\n</style>\n",
    );
    html_body.append("<title>");
    html_body.append(subject.as_str());
    html_body.append("</title>");
    html_body.append("</head>");
    html_body.append("<body>");
    html_body.append("<h2><a class=\"url\" href=\"");
    html_body.append(url);
    html_body.append("\">");
    html_body.append(url);
    html_body.append("</h2></a><br>");
    html_body.append("<table class=\"container\"><tbody>");
    html_body.append(rows.as_str());
    html_body.append("</tbody></table>");
    html_body.append("</body>");
    html_body.append("</html>");
    proof {
        assert(html_body@ =~= spec_html_body(url@, matches@.len(), ms));
    }

    EmailContent { subject, text_body, html_body }
}

/// The webhook message line: `{prefix}Found {n} match(es) at {url}`.
pub open spec fn spec_webhook_message(prefix: Seq<char>, n: nat, url: Seq<char>) -> Seq<char> {
    prefix + "Found "@ + dec_str(n) + " match(es) at "@ + url
}

/// The structured webhook payload; the transport serializes it as the
/// request body.
pub struct WebhookPayload {
    pub text_mode: String,
    pub number: String,
    pub recipients: Vec<String>,
    pub message: String,
}

/// Renders the webhook payload for a match-set.
pub fn render_webhook_payload(
    prefix: &str,
    n: usize,
    url: &str,
    sender: &str,
    recipients: Vec<String>,
) -> (p: WebhookPayload)
    ensures
        p.text_mode@ == "styled"@,
        p.number@ == sender@,
        p.recipients == recipients,
        p.message@ == spec_webhook_message(prefix@, n as nat, url@),
{
    let mut message = String::new();
    message.append(prefix);
    message.append("Found ");
    let count = fmt_count(n);
    message.append(count.as_str());
    message.append(" match(es) at ");
    message.append(url);
    proof {
        assert(message@ =~= spec_webhook_message(prefix@, n as nat, url@));
    }
    WebhookPayload {
        text_mode: "styled".to_owned(),
        number: sender.to_owned(),
        recipients,
        message,
    }
}

} // verus!
