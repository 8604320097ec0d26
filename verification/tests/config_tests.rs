use pagewatch::config::{
    build_config, parse_content_type, parse_notification_list, parse_target, ConfigError,
    ContentType, NotificationType, RawSettings,
};

fn raw_text_webhook() -> RawSettings {
    RawSettings {
        target_url: Some("https://example.com/offers?page=1".to_string()),
        content_type: Some("text".to_string()),
        search_text: Some("sale,discount".to_string()),
        selector: None,
        notification_types: Some("signal".to_string()),
        email_to: None,
        email_from: None,
        smtp_relay: None,
        smtp_user: None,
        smtp_pass: None,
        webhook_url: Some("http://localhost:8686/v2/send".to_string()),
        webhook_sender: Some("+15550001111".to_string()),
        webhook_recipients: Some("+15550002222,+15550003333".to_string()),
        webhook_message_prefix: Some("[offers] ".to_string()),
    }
}

fn raw_html_email() -> RawSettings {
    RawSettings {
        target_url: Some("https://shop.example.com:8443/items".to_string()),
        content_type: Some("HTML".to_string()),
        search_text: None,
        selector: Some("div.item".to_string()),
        notification_types: Some("email".to_string()),
        email_to: Some("User <user@example.com>".to_string()),
        email_from: Some("Watcher <watch@example.com>".to_string()),
        smtp_relay: Some("smtp.example.com".to_string()),
        smtp_user: Some("watch@example.com".to_string()),
        smtp_pass: Some("SECRET-REDACTED".to_string()),
        webhook_url: None,
        webhook_sender: None,
        webhook_recipients: None,
        webhook_message_prefix: None,
    }
}

#[test]
fn text_webhook_config_builds() {
    let c = build_config(&raw_text_webhook()).unwrap();
    assert_eq!(c.target.url, "https://example.com/offers?page=1");
    assert_eq!(c.target.origin, "https://example.com");
    assert_eq!(c.target.domain, "example.com");
    assert_eq!(c.content_type, ContentType::Text);
    assert_eq!(c.search_terms, vec!["sale".to_string(), "discount".to_string()]);
    assert_eq!(c.notification_types, vec![NotificationType::Webhook]);
    assert!(c.email.is_none());
    let wh = c.webhook.unwrap();
    assert_eq!(wh.url, "http://localhost:8686/v2/send");
    assert_eq!(wh.sender, "+15550001111");
    assert_eq!(
        wh.recipients,
        vec!["+15550002222".to_string(), "+15550003333".to_string()]
    );
    assert_eq!(wh.message_prefix, "[offers] ");
}

#[test]
fn html_email_config_builds() {
    let c = build_config(&raw_html_email()).unwrap();
    assert_eq!(c.content_type, ContentType::Html);
    assert_eq!(c.selector, "div.item");
    assert!(c.search_terms.is_empty());
    assert_eq!(c.target.origin, "https://shop.example.com:8443");
    assert_eq!(c.target.domain, "shop.example.com");
    let em = c.email.unwrap();
    assert_eq!(em.to, "User <user@example.com>");
    assert_eq!(em.relay, "smtp.example.com");
    assert!(c.webhook.is_none());
}

#[test]
fn missing_target_url_is_fatal() {
    let mut raw = raw_text_webhook();
    raw.target_url = None;
    assert_eq!(build_config(&raw).unwrap_err(), ConfigError::MissingTargetUrl);
}

#[test]
fn invalid_target_url_is_fatal() {
    let mut raw = raw_text_webhook();
    raw.target_url = Some("not a url at all".to_string());
    assert_eq!(build_config(&raw).unwrap_err(), ConfigError::InvalidTargetUrl);
}

#[test]
fn missing_content_type_is_fatal() {
    let mut raw = raw_text_webhook();
    raw.content_type = None;
    assert_eq!(build_config(&raw).unwrap_err(), ConfigError::MissingContentType);
}

#[test]
fn unknown_content_type_is_fatal() {
    let mut raw = raw_text_webhook();
    raw.content_type = Some("xml".to_string());
    assert_eq!(build_config(&raw).unwrap_err(), ConfigError::UnknownContentType);
}

#[test]
fn html_without_selector_is_fatal() {
    let mut raw = raw_html_email();
    raw.selector = None;
    assert_eq!(build_config(&raw).unwrap_err(), ConfigError::MissingSelector);
}

#[test]
fn text_without_search_text_is_fatal() {
    let mut raw = raw_text_webhook();
    raw.search_text = None;
    assert_eq!(build_config(&raw).unwrap_err(), ConfigError::MissingSearchText);
}

#[test]
fn missing_notification_types_is_fatal() {
    let mut raw = raw_text_webhook();
    raw.notification_types = None;
    assert_eq!(
        build_config(&raw).unwrap_err(),
        ConfigError::MissingNotificationTypes
    );
}

#[test]
fn unknown_notification_type_is_fatal() {
    let mut raw = raw_text_webhook();
    raw.notification_types = Some("signal,pager".to_string());
    assert_eq!(
        build_config(&raw).unwrap_err(),
        ConfigError::UnknownNotificationType
    );
}

#[test]
fn email_channel_requires_valid_addresses_and_smtp() {
    let mut raw = raw_html_email();
    raw.email_to = None;
    assert_eq!(build_config(&raw).unwrap_err(), ConfigError::MissingEmailTo);

    let mut raw = raw_html_email();
    raw.email_to = Some("not-a-mailbox <<".to_string());
    assert_eq!(build_config(&raw).unwrap_err(), ConfigError::InvalidEmailTo);

    let mut raw = raw_html_email();
    raw.email_from = None;
    assert_eq!(build_config(&raw).unwrap_err(), ConfigError::MissingEmailFrom);

    let mut raw = raw_html_email();
    raw.email_from = Some("also bad <<".to_string());
    assert_eq!(build_config(&raw).unwrap_err(), ConfigError::InvalidEmailFrom);

    let mut raw = raw_html_email();
    raw.smtp_relay = None;
    assert_eq!(build_config(&raw).unwrap_err(), ConfigError::MissingSmtpRelay);

    let mut raw = raw_html_email();
    raw.smtp_user = None;
    assert_eq!(build_config(&raw).unwrap_err(), ConfigError::MissingSmtpUser);

    let mut raw = raw_html_email();
    raw.smtp_pass = None;
    assert_eq!(build_config(&raw).unwrap_err(), ConfigError::MissingSmtpPass);
}

#[test]
fn webhook_channel_requires_url_sender_and_recipients() {
    let mut raw = raw_text_webhook();
    raw.webhook_url = None;
    assert_eq!(build_config(&raw).unwrap_err(), ConfigError::MissingWebhookUrl);

    let mut raw = raw_text_webhook();
    raw.webhook_url = Some("::not a url::".to_string());
    assert_eq!(build_config(&raw).unwrap_err(), ConfigError::InvalidWebhookUrl);

    let mut raw = raw_text_webhook();
    raw.webhook_recipients = None;
    assert_eq!(
        build_config(&raw).unwrap_err(),
        ConfigError::MissingWebhookRecipients
    );

    let mut raw = raw_text_webhook();
    raw.webhook_sender = None;
    assert_eq!(
        build_config(&raw).unwrap_err(),
        ConfigError::MissingWebhookSender
    );
}

#[test]
fn missing_prefix_defaults_to_empty() {
    let mut raw = raw_text_webhook();
    raw.webhook_message_prefix = None;
    let c = build_config(&raw).unwrap();
    assert_eq!(c.webhook.unwrap().message_prefix, "");
}

#[test]
fn content_type_ignores_case_and_whitespace() {
    assert_eq!(parse_content_type(" HtMl "), Some(ContentType::Html));
    assert_eq!(parse_content_type("TEXT"), Some(ContentType::Text));
    assert_eq!(parse_content_type("csv"), None);
}

#[test]
fn notification_list_parses_both_channels() {
    assert_eq!(
        parse_notification_list("signal,email"),
        Some(vec![NotificationType::Webhook, NotificationType::Email])
    );
    assert_eq!(
        parse_notification_list(" Email "),
        Some(vec![NotificationType::Email])
    );
    assert_eq!(parse_notification_list("signal,carrier-pigeon"), None);
}

#[test]
fn target_without_domain_falls_back_to_empty() {
    let t = parse_target("http://127.0.0.1:8080/x").unwrap();
    assert_eq!(t.origin, "http://127.0.0.1:8080");
    assert_eq!(t.domain, "");
    assert!(parse_target("%%%").is_none());
}

#[test]
fn type_names_match_their_display_forms() {
    assert_eq!(ContentType::Html.name(), "HTML");
    assert_eq!(ContentType::Text.name(), "text");
    assert_eq!(NotificationType::Email.name(), "Email");
    assert_eq!(NotificationType::Webhook.name(), "Signal");
}
