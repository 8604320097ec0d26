//! Configuration: the raw settings a run starts from, and the single
//! constructing function that either yields a fully valid configuration or
//! a descriptive construction error, before any network I/O happens.
use vstd::prelude::*;

use crate::chars::{
    matches_word_ci, spells_word, split_at_char, split_char_vec, str_views, trim_chars, trimmed,
    views_of,
};
use crate::strings::{chars_of_str, string_from_chars};

verus! {

/// How the fetched content is interpreted.
#[derive(PartialEq, Eq, Structural, Clone, Copy, Debug)]
pub enum ContentType {
    Html,
    Text,
}

/// One notification backend.
#[derive(PartialEq, Eq, Structural, Clone, Copy, Debug)]
pub enum NotificationType {
    Email,
    Webhook,
}

impl ContentType {
    /// The display name of the content type.
    pub fn name(&self) -> (r: &'static str)
        ensures
            *self is Html ==> r@ == "HTML"@,
            *self is Text ==> r@ == "text"@,
    {
        match self {
            ContentType::Html => "HTML",
            ContentType::Text => "text",
        }
    }
}

impl NotificationType {
    /// The display name of the notification type.
    pub fn name(&self) -> (r: &'static str)
        ensures
            *self is Email ==> r@ == "Email"@,
            *self is Webhook ==> r@ == "Signal"@,
    {
        match self {
            NotificationType::Email => "Email",
            NotificationType::Webhook => "Signal",
        }
    }
}

/// The content type a setting text denotes: `html` or `text`, in any ASCII
/// case, with surrounding whitespace ignored.
pub open spec fn spec_content_type_of(s: Seq<char>) -> Option<ContentType> {
    let t = trimmed(s);
    if spells_word(t, seq!['h', 't', 'm', 'l'], seq!['H', 'T', 'M', 'L']) {
        Some(ContentType::Html)
    } else if spells_word(t, seq!['t', 'e', 'x', 't'], seq!['T', 'E', 'X', 'T']) {
        Some(ContentType::Text)
    } else {
        None
    }
}

/// Parses a content type setting.
pub fn parse_content_type(s: &str) -> (r: Option<ContentType>)
    ensures
        r == spec_content_type_of(s@),
{
    let cv = chars_of_str(s);
    let t = trim_chars(&cv);
    let html_lo: Vec<char> = vec!['h', 't', 'm', 'l'];
    let html_up: Vec<char> = vec!['H', 'T', 'M', 'L'];
    let text_lo: Vec<char> = vec!['t', 'e', 'x', 't'];
    let text_up: Vec<char> = vec!['T', 'E', 'X', 'T'];
    proof {
        assert(html_lo@ =~= seq!['h', 't', 'm', 'l']);
        assert(html_up@ =~= seq!['H', 'T', 'M', 'L']);
        assert(text_lo@ =~= seq!['t', 'e', 'x', 't']);
        assert(text_up@ =~= seq!['T', 'E', 'X', 'T']);
    }
    if matches_word_ci(&t, &html_lo, &html_up) {
        Some(ContentType::Html)
    } else if matches_word_ci(&t, &text_lo, &text_up) {
        Some(ContentType::Text)
    } else {
        None
    }
}

/// The notification type a list entry denotes: `signal` or `email`, in any
/// ASCII case, with surrounding whitespace ignored.
pub open spec fn spec_notification_type_of(s: Seq<char>) -> Option<NotificationType> {
    let t = trimmed(s);
    if spells_word(t, seq!['s', 'i', 'g', 'n', 'a', 'l'], seq!['S', 'I', 'G', 'N', 'A', 'L']) {
        Some(NotificationType::Webhook)
    } else if spells_word(t, seq!['e', 'm', 'a', 'i', 'l'], seq!['E', 'M', 'A', 'I', 'L']) {
        Some(NotificationType::Email)
    } else {
        None
    }
}

/// Parses one notification type entry.
pub fn parse_notification_type(s: &Vec<char>) -> (r: Option<NotificationType>)
    ensures
        r == spec_notification_type_of(s@),
{
    let t = trim_chars(s);
    let sig_lo: Vec<char> = vec!['s', 'i', 'g', 'n', 'a', 'l'];
    let sig_up: Vec<char> = vec!['S', 'I', 'G', 'N', 'A', 'L'];
    let em_lo: Vec<char> = vec!['e', 'm', 'a', 'i', 'l'];
    let em_up: Vec<char> = vec!['E', 'M', 'A', 'I', 'L'];
    proof {
        assert(sig_lo@ =~= seq!['s', 'i', 'g', 'n', 'a', 'l']);
        assert(sig_up@ =~= seq!['S', 'I', 'G', 'N', 'A', 'L']);
        assert(em_lo@ =~= seq!['e', 'm', 'a', 'i', 'l']);
        assert(em_up@ =~= seq!['E', 'M', 'A', 'I', 'L']);
    }
    if matches_word_ci(&t, &sig_lo, &sig_up) {
        Some(NotificationType::Webhook)
    } else if matches_word_ci(&t, &em_lo, &em_up) {
        Some(NotificationType::Email)
    } else {
        None
    }
}

/// The notification types a comma-separated list denotes; `None` as soon
/// as one entry is unknown.
pub open spec fn spec_notification_list_from(pieces: Seq<Seq<char>>, k: int) -> Option<
    Seq<NotificationType>,
>
    decreases pieces.len() - k,
{
    if k < 0 || k >= pieces.len() {
        Some(Seq::empty())
    } else {
        match spec_notification_type_of(pieces[k]) {
            None => None,
            Some(n) => match spec_notification_list_from(pieces, k + 1) {
                None => None,
                Some(rest) => Some(seq![n] + rest),
            },
        }
    }
}

/// The notification types the whole setting text denotes.
pub open spec fn spec_notification_list(s: Seq<char>) -> Option<Seq<NotificationType>> {
    spec_notification_list_from(split_at_char(s, ','), 0)
}

/// Parses the comma-separated notification type list.
pub fn parse_notification_list(s: &str) -> (r: Option<Vec<NotificationType>>)
    ensures
        r is Some <==> spec_notification_list(s@) is Some,
        r matches Some(v) ==> spec_notification_list(s@) == Some(v@),
{
    let cv = chars_of_str(s);
    let pieces = split_char_vec(&cv, ',');
    let ghost pviews = views_of(pieces@);
    let mut out: Vec<NotificationType> = Vec::new();
    let mut k: usize = 0;
    while k < pieces.len()
        invariant
            0 <= k <= pieces.len(),
            pviews == split_at_char(s@, ','),
            pviews == views_of(pieces@),
            pviews.len() == pieces@.len(),
            spec_notification_list_from(pviews, 0) == match spec_notification_list_from(
                pviews,
                k as int,
            ) {
                None => None::<Seq<NotificationType>>,
                Some(rest) => Some(out@ + rest),
            },
        decreases pieces.len() - k,
    {
        let n = match parse_notification_type(&pieces[k]) {
            Some(n) => n,
            None => {
                return None;
            },
        };
        let ghost prev = out@;
        out.push(n);
        proof {
            if spec_notification_list_from(pviews, k + 1int) is Some {
                let rest = spec_notification_list_from(pviews, k + 1int)->0;
                assert(prev + (seq![n] + rest) =~= out@ + rest);
            }
        }
        k += 1;
    }
    proof {
        assert(spec_notification_list_from(pviews, pieces@.len() as int) == Some(Seq::<
            NotificationType,
        >::empty()));
        assert(out@ + Seq::<NotificationType>::empty() =~= out@);
    }
    Some(out)
}

/// Whether the URL text parses.  Names the outcome of `reqwest::Url::parse`
/// (the `url` crate's parser), a function of the text alone.
pub uninterp spec fn url_parses(s: Seq<char>) -> bool;

/// The ASCII serialization of a parseable URL's origin (scheme, host and
/// port).  Names `Url::origin().ascii_serialization()`, a function of the
/// URL text alone.
pub uninterp spec fn origin_of(s: Seq<char>) -> Seq<char>;

/// The domain of a parseable URL, or the empty string where it has none
/// (an IP-address host, say).  Names `Url::domain()` with that fallback, a
/// function of the URL text alone.
pub uninterp spec fn domain_of(s: Seq<char>) -> Seq<char>;

/// Relies on `reqwest::Url::parse`, `Url::origin` with
/// `Origin::ascii_serialization`, and `Url::domain`: parsing fails exactly
/// when the text is not a valid absolute URL, and origin and domain are
/// functions of the URL text alone.
#[verifier::external_body]
fn analyze_url(s: &str) -> (r: Option<(String, String)>)
    ensures
        r is Some <==> url_parses(s@),
        r matches Some(p) ==> p.0@ == origin_of(s@) && p.1@ == domain_of(s@),
{
    let url = match reqwest::Url::parse(s) {
        Ok(u) => u,
        Err(_) => return None,
    };
    let origin = url.origin().ascii_serialization();
    let domain = url.domain().unwrap_or("").to_owned();
    Some((origin, domain))
}

/// Whether an address like `User <user@example.com>` parses as a mailbox.
/// Names the outcome of lettre's `Mailbox` parser, a function of the text
/// alone.
pub uninterp spec fn mailbox_ok(s: Seq<char>) -> bool;

/// Relies on lettre's `impl FromStr for Mailbox`: whether the address text
/// parses depends on the text alone.
#[verifier::external_body]
fn parse_mailbox_ok(s: &str) -> (b: bool)
    ensures
        b == mailbox_ok(s@),
{
    s.parse::<lettre::message::Mailbox>().is_ok()
}

/// The single polled page, with what the rest of the run needs of it.
#[derive(Clone, Debug)]
pub struct Target {
    /// The URL as configured.
    pub url: String,
    /// Scheme, host and port, for resolving relative links.
    pub origin: String,
    /// The domain, keying the throttle record; empty when undeterminable.
    pub domain: String,
}

/// Parses and analyzes the target URL.
pub fn parse_target(url: &str) -> (r: Option<Target>)
    ensures
        r is Some <==> url_parses(url@),
        r matches Some(t) ==> t.url@ == url@ && t.origin@ == origin_of(url@) && t.domain@
            == domain_of(url@),
{
    match analyze_url(url) {
        Some(p) => Some(Target { url: url.to_owned(), origin: p.0, domain: p.1 }),
        None => None,
    }
}

/// The raw settings handed in at startup, each absent or its setting text.
pub struct RawSettings {
    pub target_url: Option<String>,
    pub content_type: Option<String>,
    pub search_text: Option<String>,
    pub selector: Option<String>,
    pub notification_types: Option<String>,
    pub email_to: Option<String>,
    pub email_from: Option<String>,
    pub smtp_relay: Option<String>,
    pub smtp_user: Option<String>,
    pub smtp_pass: Option<String>,
    pub webhook_url: Option<String>,
    pub webhook_sender: Option<String>,
    pub webhook_recipients: Option<String>,
    pub webhook_message_prefix: Option<String>,
}

/// A missing or invalid required setting; fatal before any network call.
#[derive(PartialEq, Eq, Structural, Clone, Copy, Debug)]
pub enum ConfigError {
    MissingTargetUrl,
    InvalidTargetUrl,
    MissingContentType,
    UnknownContentType,
    MissingSelector,
    MissingSearchText,
    MissingNotificationTypes,
    UnknownNotificationType,
    MissingEmailTo,
    InvalidEmailTo,
    MissingEmailFrom,
    InvalidEmailFrom,
    MissingSmtpRelay,
    MissingSmtpUser,
    MissingSmtpPass,
    MissingWebhookUrl,
    InvalidWebhookUrl,
    MissingWebhookRecipients,
    MissingWebhookSender,
}

/// The delivery settings of the email channel.
#[derive(Clone, Debug)]
pub struct EmailSettings {
    pub to: String,
    pub from: String,
    pub relay: String,
    pub user: String,
    pub pass: String,
}

/// The delivery settings of the webhook channel.
#[derive(Clone, Debug)]
pub struct WebhookSettings {
    pub url: String,
    pub sender: String,
    pub recipients: Vec<String>,
    pub message_prefix: String,
}

/// A fully validated configuration: every field the active rule variant
/// and the active channels require is present and parses.
#[derive(Clone, Debug)]
pub struct Config {
    pub target: Target,
    pub content_type: ContentType,
    pub search_terms: Vec<String>,
    pub selector: String,
    pub notification_types: Vec<NotificationType>,
    pub email: Option<EmailSettings>,
    pub webhook: Option<WebhookSettings>,
}

/// The first check that fails on `raw`, in the order the checks run, or
/// `None` when every required setting is present and parses.
pub open spec fn first_config_error(raw: RawSettings) -> Option<ConfigError> {
    if raw.target_url is None {
        Some(ConfigError::MissingTargetUrl)
    } else if !url_parses(raw.target_url->0@) {
        Some(ConfigError::InvalidTargetUrl)
    } else if raw.content_type is None {
        Some(ConfigError::MissingContentType)
    } else if spec_content_type_of(raw.content_type->0@) is None {
        Some(ConfigError::UnknownContentType)
    } else if spec_content_type_of(raw.content_type->0@) == Some(ContentType::Html)
        && raw.selector is None {
        Some(ConfigError::MissingSelector)
    } else if spec_content_type_of(raw.content_type->0@) == Some(ContentType::Text)
        && raw.search_text is None {
        Some(ConfigError::MissingSearchText)
    } else if raw.notification_types is None {
        Some(ConfigError::MissingNotificationTypes)
    } else if spec_notification_list(raw.notification_types->0@) is None {
        Some(ConfigError::UnknownNotificationType)
    } else {
        let notifs = spec_notification_list(raw.notification_types->0@)->0;
        if notifs.contains(NotificationType::Email) && raw.email_to is None {
            Some(ConfigError::MissingEmailTo)
        } else if notifs.contains(NotificationType::Email) && !mailbox_ok(raw.email_to->0@) {
            Some(ConfigError::InvalidEmailTo)
        } else if notifs.contains(NotificationType::Email) && raw.email_from is None {
            Some(ConfigError::MissingEmailFrom)
        } else if notifs.contains(NotificationType::Email) && !mailbox_ok(raw.email_from->0@) {
            Some(ConfigError::InvalidEmailFrom)
        } else if notifs.contains(NotificationType::Email) && raw.smtp_relay is None {
            Some(ConfigError::MissingSmtpRelay)
        } else if notifs.contains(NotificationType::Email) && raw.smtp_user is None {
            Some(ConfigError::MissingSmtpUser)
        } else if notifs.contains(NotificationType::Email) && raw.smtp_pass is None {
            Some(ConfigError::MissingSmtpPass)
        } else if notifs.contains(NotificationType::Webhook) && raw.webhook_url is None {
            Some(ConfigError::MissingWebhookUrl)
        } else if notifs.contains(NotificationType::Webhook) && !url_parses(raw.webhook_url->0@) {
            Some(ConfigError::InvalidWebhookUrl)
        } else if notifs.contains(NotificationType::Webhook) && raw.webhook_recipients is None {
            Some(ConfigError::MissingWebhookRecipients)
        } else if notifs.contains(NotificationType::Webhook) && raw.webhook_sender is None {
            Some(ConfigError::MissingWebhookSender)
        } else {
            None
        }
    }
}

/// Does the list name this channel?
fn list_contains(list: &Vec<NotificationType>, which: NotificationType) -> (b: bool)
    ensures
        b == list@.contains(which),
{
    let mut k: usize = 0;
    while k < list.len()
        invariant
            0 <= k <= list.len(),
            forall|i: int| 0 <= i < k ==> list@[i] != which,
        decreases list.len() - k,
    {
        if list[k] == which {
            return true;
        }
        k += 1;
    }
    proof {
        assert(!list@.contains(which));
    }
    false
}

/// Splits a comma-separated setting into its raw entries.
pub fn split_setting(s: &str) -> (r: Vec<String>)
    ensures
        str_views(r@) == split_at_char(s@, ','),
{
    let cv = chars_of_str(s);
    let pieces = split_char_vec(&cv, ',');
    let mut out: Vec<String> = Vec::new();
    let mut k: usize = 0;
    while k < pieces.len()
        invariant
            0 <= k <= pieces.len(),
            views_of(pieces@) == split_at_char(s@, ','),
            views_of(pieces@).len() == pieces@.len(),
            out@.len() == k,
            forall|i: int| 0 <= i < k ==> str_views(out@)[i] == views_of(pieces@)[i],
        decreases pieces.len() - k,
    {
        let piece = string_from_chars(&pieces[k]);
        let ghost prev = out@;
        out.push(piece);
        proof {
            assert(str_views(out@) =~= str_views(prev).push(piece@));
        }
        k += 1;
    }
    proof {
        assert(str_views(out@) =~= split_at_char(s@, ','));
    }
    out
}

/// Builds the configuration, or reports the first missing or invalid
/// required setting.  Nothing here touches the network: a configuration
/// error is fatal before any side effect.
pub fn build_config(raw: &RawSettings) -> (r: Result<Config, ConfigError>)
    ensures
        r is Ok <==> first_config_error(*raw) is None,
        r matches Err(e) ==> first_config_error(*raw) == Some(e),
        r matches Ok(c) ==> {
            &&& c.target.url@ == raw.target_url->0@
            &&& c.target.origin@ == origin_of(raw.target_url->0@)
            &&& c.target.domain@ == domain_of(raw.target_url->0@)
            &&& Some(c.content_type) == spec_content_type_of(raw.content_type->0@)
            &&& c.content_type is Html ==> c.selector@ == raw.selector->0@
                && c.search_terms@.len() == 0
            &&& c.content_type is Text ==> str_views(c.search_terms@) == split_at_char(
                raw.search_text->0@,
                ',',
            ) && c.selector@.len() == 0
            &&& Some(c.notification_types@) == spec_notification_list(
                raw.notification_types->0@,
            )
            &&& (c.email is Some <==> c.notification_types@.contains(NotificationType::Email))
            &&& c.email matches Some(em) ==> em.to@ == raw.email_to->0@ && em.from@
                == raw.email_from->0@ && em.relay@ == raw.smtp_relay->0@ && em.user@
                == raw.smtp_user->0@ && em.pass@ == raw.smtp_pass->0@
            &&& (c.webhook is Some <==> c.notification_types@.contains(
                NotificationType::Webhook,
            ))
            &&& c.webhook matches Some(wh) ==> wh.url@ == raw.webhook_url->0@ && wh.sender@
                == raw.webhook_sender->0@ && str_views(wh.recipients@) == split_at_char(
                raw.webhook_recipients->0@,
                ',',
            ) && (raw.webhook_message_prefix matches Some(p) ==> wh.message_prefix@ == p@) && (
            raw.webhook_message_prefix is None ==> wh.message_prefix@.len() == 0)
        },
{
    let url = match &raw.target_url {
        Some(u) => u,
        None => {
            return Err(ConfigError::MissingTargetUrl);
        },
    };
    let target = match parse_target(url.as_str()) {
        Some(t) => t,
        None => {
            return Err(ConfigError::InvalidTargetUrl);
        },
    };
    let content_type_str = match &raw.content_type {
        Some(s) => s,
        None => {
            return Err(ConfigError::MissingContentType);
        },
    };
    let content_type = match parse_content_type(content_type_str.as_str()) {
        Some(c) => c,
        None => {
            return Err(ConfigError::UnknownContentType);
        },
    };
    let mut selector = String::new();
    let mut search_terms: Vec<String> = Vec::new();
    match content_type {
        ContentType::Html => {
            match &raw.selector {
                Some(s) => {
                    selector = s.clone();
                },
                None => {
                    return Err(ConfigError::MissingSelector);
                },
            }
        },
        ContentType::Text => {
            match &raw.search_text {
                Some(s) => {
                    search_terms = split_setting(s.as_str());
                },
                None => {
                    return Err(ConfigError::MissingSearchText);
                },
            }
        },
    }
    let notif_str = match &raw.notification_types {
        Some(s) => s,
        None => {
            return Err(ConfigError::MissingNotificationTypes);
        },
    };
    let notification_types = match parse_notification_list(notif_str.as_str()) {
        Some(v) => v,
        None => {
            return Err(ConfigError::UnknownNotificationType);
        },
    };
    let mut email: Option<EmailSettings> = None;
    if list_contains(&notification_types, NotificationType::Email) {
        let to = match &raw.email_to {
            Some(s) => s,
            None => {
                return Err(ConfigError::MissingEmailTo);
            },
        };
        if !parse_mailbox_ok(to.as_str()) {
            return Err(ConfigError::InvalidEmailTo);
        }
        let from = match &raw.email_from {
            Some(s) => s,
            None => {
                return Err(ConfigError::MissingEmailFrom);
            },
        };
        if !parse_mailbox_ok(from.as_str()) {
            return Err(ConfigError::InvalidEmailFrom);
        }
        let relay = match &raw.smtp_relay {
            Some(s) => s,
            None => {
                return Err(ConfigError::MissingSmtpRelay);
            },
        };
        let user = match &raw.smtp_user {
            Some(s) => s,
            None => {
                return Err(ConfigError::MissingSmtpUser);
            },
        };
        let pass = match &raw.smtp_pass {
            Some(s) => s,
            None => {
                return Err(ConfigError::MissingSmtpPass);
            },
        };
        email = Some(
            EmailSettings {
                to: to.clone(),
                from: from.clone(),
                relay: relay.clone(),
                user: user.clone(),
                pass: pass.clone(),
            },
        );
    }
    let mut webhook: Option<WebhookSettings> = None;
    if list_contains(&notification_types, NotificationType::Webhook) {
        let wurl = match &raw.webhook_url {
            Some(s) => s,
            None => {
                return Err(ConfigError::MissingWebhookUrl);
            },
        };
        match analyze_url(wurl.as_str()) {
            Some(_) => (),
            None => {
                return Err(ConfigError::InvalidWebhookUrl);
            },
        }
        let recipients_str = match &raw.webhook_recipients {
            Some(s) => s,
            None => {
                return Err(ConfigError::MissingWebhookRecipients);
            },
        };
        let sender = match &raw.webhook_sender {
            Some(s) => s,
            None => {
                return Err(ConfigError::MissingWebhookSender);
            },
        };
        let recipients = split_setting(recipients_str.as_str());
        let message_prefix = match &raw.webhook_message_prefix {
            Some(p) => p.clone(),
            None => String::new(),
        };
        webhook = Some(
            WebhookSettings { url: wurl.clone(), sender: sender.clone(), recipients, message_prefix },
        );
    }
    Ok(
        Config {
            target,
            content_type,
            search_terms,
            selector,
            notification_types,
            email,
            webhook,
        },
    )
}

} // verus!
