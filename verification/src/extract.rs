//! The extractor: turns fetched content plus a match rule into an ordered
//! sequence of match fragments.
//!
//! Text mode scans every line for every configured term and emits a
//! three-line context window per hit, term-major then line-major.  HTML mode
//! selects fragments with a CSS selector and rewrites relative links against
//! the page origin before emitting them.
use vstd::prelude::*;

use crate::chars::{
    contains_pat, find_from, first_match, lemma_replace_single, lemma_strip_single, push_all,
    replace_all, replace_all_chars, split_at_char, split_char_vec, str_views, strip_quoted_runs,
    strip_quoted_runs_chars, views_of,
};
use crate::strings::{chars_of_str, string_from_chars};

verus! {

/// A configured extraction rule, fixed before a run starts.
pub enum MatchRule {
    /// Scan plain text for each term, in order.
    TextSearch { terms: Vec<String> },
    /// Select HTML fragments; relative links are resolved against `origin`
    /// (scheme, host and port of the fetched page).
    HtmlSelect { selector: String, origin: String },
}

/// The context window for a hit on line `i`: previous line, matched line and
/// next line joined by newlines; a missing neighbour is the empty string.
pub open spec fn context_window(lines: Seq<Seq<char>>, i: int) -> Seq<char> {
    let prev = if i > 0 {
        lines[i - 1]
    } else {
        Seq::empty()
    };
    let next = if i + 1 < lines.len() {
        lines[i + 1]
    } else {
        Seq::empty()
    };
    prev + seq!['\n'] + lines[i] + seq!['\n'] + next
}

/// The windows for every line at or after `i` that contains `term`.
pub open spec fn term_matches_from(lines: Seq<Seq<char>>, term: Seq<char>, i: int) -> Seq<
    Seq<char>,
>
    decreases lines.len() - i,
{
    if i < 0 || i >= lines.len() {
        Seq::empty()
    } else if contains_pat(lines[i], term) {
        seq![context_window(lines, i)] + term_matches_from(lines, term, i + 1)
    } else {
        term_matches_from(lines, term, i + 1)
    }
}

/// The windows for every `(term, line)` pair from term index `t` on,
/// term-major then line-major.
pub open spec fn matches_for_terms(lines: Seq<Seq<char>>, terms: Seq<Seq<char>>, t: int) -> Seq<
    Seq<char>,
>
    decreases terms.len() - t,
{
    if t < 0 || t >= terms.len() {
        Seq::empty()
    } else {
        term_matches_from(lines, terms[t], 0) + matches_for_terms(lines, terms, t + 1)
    }
}

/// All text-mode matches of `terms` in `content`.
pub open spec fn text_matches(content: Seq<char>, terms: Seq<Seq<char>>) -> Seq<Seq<char>> {
    matches_for_terms(split_at_char(content, '\n'), terms, 0)
}

/// Does `needle` occur in `hay`?
pub fn contains_chars(hay: &Vec<char>, needle: &Vec<char>) -> (b: bool)
    ensures
        b == contains_pat(hay@, needle@),
{
    find_from(hay, needle, 0).is_some()
}

/// Builds the context window for a hit on line `i`.
fn build_window(lines: &Vec<Vec<char>>, i: usize) -> (w: Vec<char>)
    requires
        i < lines.len(),
    ensures
        w@ == context_window(views_of(lines@), i as int),
{
    let mut w: Vec<char> = Vec::new();
    if i > 0 {
        push_all(&mut w, &lines[i - 1]);
    }
    w.push('\n');
    push_all(&mut w, &lines[i]);
    w.push('\n');
    if i + 1 < lines.len() {
        push_all(&mut w, &lines[i + 1]);
    }
    proof {
        assert(w@ =~= context_window(views_of(lines@), i as int));
    }
    w
}

/// Text-mode extraction: the window of every `(term, line)` pair where the
/// line contains the term as a substring, term-major then line-major.
pub fn extract_text(content: &str, terms: &Vec<String>) -> (r: Vec<String>)
    ensures
        str_views(r@) == text_matches(content@, str_views(terms@)),
{
    let cv = chars_of_str(content);
    let lines = split_char_vec(&cv, '\n');
    let ghost lviews = views_of(lines@);
    let ghost tviews = str_views(terms@);
    proof {
        assert(lviews == split_at_char(content@, '\n'));
    }
    let mut out: Vec<String> = Vec::new();
    let mut t: usize = 0;
    while t < terms.len()
        invariant
            0 <= t <= terms.len(),
            lviews == split_at_char(content@, '\n'),
            lviews == views_of(lines@),
            tviews == str_views(terms@),
            tviews.len() == terms@.len(),
            text_matches(content@, tviews) == str_views(out@) + matches_for_terms(
                lviews,
                tviews,
                t as int,
            ),
        decreases terms.len() - t,
    {
        let term = chars_of_str(terms[t].as_str());
        let mut i: usize = 0;
        while i < lines.len()
            invariant
                0 <= i <= lines.len(),
                t < terms.len(),
                lviews == split_at_char(content@, '\n'),
                lviews == views_of(lines@),
                lviews.len() == lines@.len(),
                tviews == str_views(terms@),
                tviews.len() == terms@.len(),
                term@ == tviews[t as int],
                text_matches(content@, tviews) == str_views(out@) + term_matches_from(
                    lviews,
                    term@,
                    i as int,
                ) + matches_for_terms(lviews, tviews, t + 1int),
            decreases lines.len() - i,
        {
            let ghost prev_out = out@;
            if contains_chars(&lines[i], &term) {
                let w = build_window(&lines, i);
                let ws = string_from_chars(&w);
                out.push(ws);
                proof {
                    assert(str_views(out@) =~= str_views(prev_out).push(w@));
                    assert(str_views(prev_out) + (seq![context_window(lviews, i as int)]
                        + term_matches_from(lviews, term@, i + 1int)) =~= str_views(out@)
                        + term_matches_from(lviews, term@, i + 1int));
                    assert(str_views(prev_out) + term_matches_from(lviews, term@, i as int)
                        + matches_for_terms(lviews, tviews, t + 1int) =~= str_views(prev_out) + (
                    seq![context_window(lviews, i as int)] + term_matches_from(
                        lviews,
                        term@,
                        i + 1int,
                    )) + matches_for_terms(lviews, tviews, t + 1int));
                }
            }
            i += 1;
        }
        proof {
            assert(term_matches_from(lviews, term@, lines@.len() as int) =~= Seq::<
                Seq<char>,
            >::empty());
            assert(str_views(out@) + Seq::<Seq<char>>::empty() + matches_for_terms(
                lviews,
                tviews,
                t + 1int,
            ) =~= str_views(out@) + matches_for_terms(lviews, tviews, t + 1int));
        }
        t += 1;
    }
    proof {
        assert(matches_for_terms(lviews, tviews, terms@.len() as int) =~= Seq::<
            Seq<char>,
        >::empty());
        assert(str_views(out@) + Seq::<Seq<char>>::empty() =~= str_views(out@));
    }
    out
}

/// Whether scraper accepts `selector` as a CSS selector.  Names the outcome
/// of `scraper::Selector::parse`, which depends on the selector text alone.
pub uninterp spec fn selector_parses(selector: Seq<char>) -> bool;

/// The serialized HTML of the elements that `selector` selects in `content`,
/// in document order.  Names the outcome of parsing `content` with
/// `scraper::Html::parse_document`, selecting with the parsed `selector` and
/// serializing each element with `ElementRef::html`; all three are functions
/// of the two texts alone.
pub uninterp spec fn selected_fragments(content: Seq<char>, selector: Seq<char>) -> Seq<Seq<char>>;

/// Relies on `scraper::Selector::parse`, `scraper::Html::parse_document`,
/// `Html::select` and `ElementRef::html`: parsing fails exactly when the
/// selector text is rejected, and selection yields the selected elements'
/// serialized HTML in document order.
#[verifier::external_body]
fn select_fragments(content: &str, selector: &str) -> (r: Option<Vec<String>>)
    ensures
        r is Some <==> selector_parses(selector@),
        r matches Some(v) ==> str_views(v@) == selected_fragments(content@, selector@),
{
    let sel = match scraper::Selector::parse(selector) {
        Ok(sel) => sel,
        Err(_) => return None,
    };
    let document = scraper::Html::parse_document(content);
    let mut fragments = Vec::new();
    for element in document.select(&sel) {
        fragments.push(element.html());
    }
    Some(fragments)
}

/// The `href="/` pattern: a double-quoted attribute value that starts with
/// a slash, directly after an `href` attribute name.
pub open spec fn href_pat() -> Seq<char> {
    seq!['h', 'r', 'e', 'f', '=', '"', '/']
}

/// The replacement for `href_pat()`: the same attribute opening with the
/// page origin spliced in before the slash.
pub open spec fn href_rep(origin: Seq<char>) -> Seq<char> {
    seq!['h', 'r', 'e', 'f', '=', '"'] + origin + seq!['/']
}

/// The `src="//` pattern: a protocol-relative URL in a `src` attribute.
pub open spec fn src_pat() -> Seq<char> {
    seq!['s', 'r', 'c', '=', '"', '/', '/']
}

/// The replacement for `src_pat()`: the same URL pinned to `https:`.
pub open spec fn src_rep() -> Seq<char> {
    seq!['s', 'r', 'c', '=', '"', 'h', 't', 't', 'p', 's', ':', '/', '/']
}

/// The opening of a `srcset` attribute.
pub open spec fn srcset_pat() -> Seq<char> {
    seq!['s', 'r', 'c', 's', 'e', 't', '=', '"']
}

/// One selected fragment after link rewriting: relative `href` values gain
/// the page origin, protocol-relative `src` values gain `https:`, and
/// `srcset` attributes are removed.
pub open spec fn rewrite_fragment(frag: Seq<char>, origin: Seq<char>) -> Seq<char> {
    strip_quoted_runs(
        replace_all(replace_all(frag, href_pat(), href_rep(origin)), src_pat(), src_rep()),
        srcset_pat(),
    )
}

/// All HTML-mode matches: every selected fragment, rewritten.
pub open spec fn html_matches(content: Seq<char>, selector: Seq<char>, origin: Seq<char>) -> Seq<
    Seq<char>,
> {
    selected_fragments(content, selector).map_values(|f: Seq<char>| rewrite_fragment(f, origin))
}

/// Rewrites one fragment: resolves relative `href` values against `origin`,
/// pins protocol-relative `src` values to `https:` and strips `srcset`
/// attributes.
pub fn rewrite_fragment_chars(frag: &Vec<char>, origin: &Vec<char>) -> (r: Vec<char>)
    ensures
        r@ == rewrite_fragment(frag@, origin@),
{
    let hpat: Vec<char> = vec!['h', 'r', 'e', 'f', '=', '"', '/'];
    let mut hrep: Vec<char> = vec!['h', 'r', 'e', 'f', '=', '"'];
    push_all(&mut hrep, origin);
    hrep.push('/');
    let spat: Vec<char> = vec!['s', 'r', 'c', '=', '"', '/', '/'];
    let srep: Vec<char> = vec!['s', 'r', 'c', '=', '"', 'h', 't', 't', 'p', 's', ':', '/', '/'];
    let sspat: Vec<char> = vec!['s', 'r', 'c', 's', 'e', 't', '=', '"'];
    proof {
        assert(hpat@ =~= href_pat());
        assert(hrep@ =~= href_rep(origin@));
        assert(spat@ =~= src_pat());
        assert(srep@ =~= src_rep());
        assert(sspat@ =~= srcset_pat());
    }
    let step1 = replace_all_chars(frag, &hpat, &hrep);
    let step2 = replace_all_chars(&step1, &spat, &srep);
    strip_quoted_runs_chars(&step2, &sspat)
}

/// HTML-mode extraction: selects fragments with `selector` and rewrites
/// each against `origin`.  Fails exactly when the selector is rejected.
pub fn extract_html(content: &str, selector: &str, origin: &str) -> (r: Option<Vec<String>>)
    ensures
        r is Some <==> selector_parses(selector@),
        r matches Some(v) ==> str_views(v@) == html_matches(content@, selector@, origin@),
{
    let fragments = match select_fragments(content, selector) {
        Some(f) => f,
        None => return None,
    };
    let ov = chars_of_str(origin);
    let ghost selected = selected_fragments(content@, selector@);
    let mut out: Vec<String> = Vec::new();
    let mut k: usize = 0;
    while k < fragments.len()
        invariant
            0 <= k <= fragments.len(),
            ov@ == origin@,
            selected == selected_fragments(content@, selector@),
            str_views(fragments@) == selected,
            selected.len() == fragments@.len(),
            out@.len() == k,
            forall|j: int|
                0 <= j < k ==> str_views(out@)[j] == rewrite_fragment(selected[j], origin@),
        decreases fragments.len() - k,
    {
        let fv = chars_of_str(fragments[k].as_str());
        let rw = rewrite_fragment_chars(&fv, &ov);
        let rs = string_from_chars(&rw);
        let ghost prev = out@;
        out.push(rs);
        proof {
            assert(str_views(out@) =~= str_views(prev).push(rs@));
            assert(fv@ == selected[k as int]);
        }
        k += 1;
    }
    proof {
        assert(str_views(out@) =~= html_matches(content@, selector@, origin@));
    }
    Some(out)
}

/// One extraction failure: the configured selector was rejected by the HTML
/// selector parser.
#[derive(PartialEq, Eq, Structural, Clone, Copy, Debug)]
pub enum ExtractError {
    InvalidSelector,
}

/// All matches of `rule` in `content`, in encounter order.
pub open spec fn spec_extract(content: Seq<char>, rule: MatchRule) -> Seq<Seq<char>> {
    match rule {
        MatchRule::TextSearch { terms } => text_matches(content, str_views(terms@)),
        MatchRule::HtmlSelect { selector, origin } => html_matches(content, selector@, origin@),
    }
}

/// Extraction over either rule kind.  Text rules always succeed; an HTML
/// rule fails exactly when its selector is rejected.
pub fn extract(content: &str, rule: &MatchRule) -> (r: Result<Vec<String>, ExtractError>)
    ensures
        r is Ok <==> (rule is TextSearch || selector_parses(rule->HtmlSelect_selector@)),
        r matches Ok(v) ==> str_views(v@) == spec_extract(content@, *rule),
        r matches Err(e) ==> e == ExtractError::InvalidSelector,
{
    match rule {
        MatchRule::TextSearch { terms } => Ok(extract_text(content, terms)),
        MatchRule::HtmlSelect { selector, origin } => {
            match extract_html(content, selector.as_str(), origin.as_str()) {
                Some(v) => Ok(v),
                None => Err(ExtractError::InvalidSelector),
            }
        },
    }
}

/// Law (relative `href` values): where a fragment holds one `href="/`
/// opening — first occurring right after `a`, with none further in `b` —
/// the rewrite makes that attribute value begin with the page origin.
pub proof fn lemma_href_gains_origin(a: Seq<char>, b: Seq<char>, origin: Seq<char>)
    requires
        first_match(a + href_pat() + b, href_pat()) == a.len(),
        !contains_pat(b, href_pat()),
    ensures
        replace_all(a + href_pat() + b, href_pat(), href_rep(origin)) == a + href_rep(origin) + b,
{
    lemma_replace_single(a, href_pat(), b, href_rep(origin));
}

/// Law (protocol-relative `src` values): where a fragment holds one
/// `src="//` opening — first occurring right after `a`, with none further
/// in `b` — the rewrite pins that value to `https:`.
pub proof fn lemma_src_gains_https(a: Seq<char>, b: Seq<char>)
    requires
        first_match(a + src_pat() + b, src_pat()) == a.len(),
        !contains_pat(b, src_pat()),
    ensures
        replace_all(a + src_pat() + b, src_pat(), src_rep()) == a + src_rep() + b,
{
    lemma_replace_single(a, src_pat(), b, src_rep());
}

/// Law (`srcset` attributes): where a fragment holds a complete
/// `srcset="..."` attribute — first occurring right after `a`, its value
/// `v` quote-free — stripping removes the attribute entirely and continues
/// after its closing quote.
pub proof fn lemma_srcset_removed(a: Seq<char>, v: Seq<char>, b: Seq<char>)
    requires
        first_match(a + srcset_pat() + v + seq!['"'] + b, srcset_pat()) == a.len(),
        !contains_pat(v, seq!['"']),
    ensures
        strip_quoted_runs(a + srcset_pat() + v + seq!['"'] + b, srcset_pat()) == a
            + strip_quoted_runs(b, srcset_pat()),
{
    lemma_strip_single(a, srcset_pat(), v, b);
}

/// Law: extraction is a pure function of `(content, rule)` — two runs over
/// identical inputs yield identical match sequences.
pub proof fn lemma_extract_deterministic(
    content: Seq<char>,
    rule: MatchRule,
    r1: Seq<Seq<char>>,
    r2: Seq<Seq<char>>,
)
    requires
        r1 == spec_extract(content, rule),
        r2 == spec_extract(content, rule),
    ensures
        r1 == r2,
{
}

/// The number of lines at or after `i` that contain `term`.
pub open spec fn term_hit_count(lines: Seq<Seq<char>>, term: Seq<char>, i: int) -> nat
    decreases lines.len() - i,
{
    if i < 0 || i >= lines.len() {
        0
    } else if contains_pat(lines[i], term) {
        1 + term_hit_count(lines, term, i + 1)
    } else {
        term_hit_count(lines, term, i + 1)
    }
}

/// The number of `(term, line)` pairs, from term index `t` on, where the
/// line contains the term.
pub open spec fn pair_hit_count(lines: Seq<Seq<char>>, terms: Seq<Seq<char>>, t: int) -> nat
    decreases terms.len() - t,
{
    if t < 0 || t >= terms.len() {
        0
    } else {
        term_hit_count(lines, terms[t], 0) + pair_hit_count(lines, terms, t + 1)
    }
}

proof fn lemma_term_matches_len(lines: Seq<Seq<char>>, term: Seq<char>, i: int)
    ensures
        term_matches_from(lines, term, i).len() == term_hit_count(lines, term, i),
    decreases lines.len() - i,
{
    if i < 0 || i >= lines.len() {
    } else {
        lemma_term_matches_len(lines, term, i + 1);
    }
}

proof fn lemma_pair_matches_len(lines: Seq<Seq<char>>, terms: Seq<Seq<char>>, t: int)
    ensures
        matches_for_terms(lines, terms, t).len() == pair_hit_count(lines, terms, t),
    decreases terms.len() - t,
{
    if t < 0 || t >= terms.len() {
    } else {
        lemma_term_matches_len(lines, terms[t], 0);
        lemma_pair_matches_len(lines, terms, t + 1);
    }
}

/// Law: text mode produces exactly one match per `(term, line)` pair where
/// the line contains the term as a substring.
pub proof fn lemma_text_match_count(content: Seq<char>, terms: Seq<Seq<char>>)
    ensures
        text_matches(content, terms).len() == pair_hit_count(
            split_at_char(content, '\n'),
            terms,
            0,
        ),
{
    lemma_pair_matches_len(split_at_char(content, '\n'), terms, 0);
}

} // verus!
