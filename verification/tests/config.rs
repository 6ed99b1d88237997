use revolt_core::config::{
    preflight_checks, ApiSecurityCaptcha, ApiSmtp, BoostFeatures, BoostTierPerks, EmailExpiry,
    FeaturesAdvanced, Hosts, PushApn, PushFcm, PushVapid, Pushd,
};
use std::collections::HashMap;

#[test]
fn tier_thresholds() {
    let boosts = BoostFeatures::default();
    assert_eq!(boosts.tier_for(0), 0);
    assert_eq!(boosts.tier_for(1), 0);
    assert_eq!(boosts.tier_for(2), 1);
    assert_eq!(boosts.tier_for(6), 1);
    assert_eq!(boosts.tier_for(7), 2);
    assert_eq!(boosts.tier_for(13), 2);
    assert_eq!(boosts.tier_for(14), 3);
    assert_eq!(boosts.tier_for(500), 3);

    assert_eq!(boosts.next_tier_at(0), Some(2));
    assert_eq!(boosts.next_tier_at(1), Some(7));
    assert_eq!(boosts.next_tier_at(2), Some(14));
    assert_eq!(boosts.next_tier_at(3), None);
}

#[test]
fn effective_limits_max_semantics() {
    let mut boosts = BoostFeatures {
        enabled: true,
        ..Default::default()
    };

    // What a tier gives raises a low limit...
    assert_eq!(boosts.effective_server_emoji(100, 1), 200);
    assert_eq!(boosts.effective_server_emoji(100, 3), 500);
    // ...but never lowers a high one
    assert_eq!(boosts.effective_server_emoji(10_000, 3), 10_000);
    // Without a tier it stays
    assert_eq!(boosts.effective_server_emoji(100, 0), 100);

    // A higher tier that gives nothing keeps what the lower ones give
    boosts.tier3 = BoostTierPerks::default();
    assert_eq!(boosts.effective_server_emoji(100, 3), 300);

    // Without boosts it stays, whatever the tier
    boosts.enabled = false;
    assert_eq!(boosts.effective_server_emoji(100, 3), 100);
}

#[test]
fn sounds_follow_the_same_rule() {
    let mut boosts = BoostFeatures { enabled: true, ..Default::default() };
    assert_eq!(boosts.effective_server_sounds(24, 0), 24);
    assert_eq!(boosts.effective_server_sounds(24, 1), 48);
    assert_eq!(boosts.effective_server_sounds(24, 2), 72);
    assert_eq!(boosts.effective_server_sounds(24, 3), 96);
    assert_eq!(boosts.effective_server_sounds(24, 400), 96);
    assert_eq!(boosts.effective_server_sounds(80, 2), 80);
    boosts.tier1.server_sounds = Some(90);
    assert_eq!(boosts.effective_server_sounds(24, 2), 90);
    boosts.enabled = false;
    assert_eq!(boosts.effective_server_sounds(24, 3), 24);
}

#[test]
fn thresholds_out_of_order_give_the_highest_met() {
    let boosts = BoostFeatures { tier_thresholds: [10, 3, 20], ..Default::default() };
    assert_eq!(boosts.tier_for(2), 0);
    assert_eq!(boosts.tier_for(3), 2);
    assert_eq!(boosts.tier_for(10), 2);
    assert_eq!(boosts.tier_for(20), 3);
}

#[test]
fn defaults_are_dark() {
    let boosts = BoostFeatures::default();
    assert!(!boosts.enabled);
    assert!(!boosts.purchases_enabled);
    assert_eq!(boosts.tier_thresholds, [2, 7, 14]);
    assert_eq!(boosts.max_per_user_per_server, 100);
    assert_eq!(boosts.tier1, BoostTierPerks { server_emoji: Some(200), server_sounds: Some(48) });
    assert_eq!(boosts.tier2, BoostTierPerks { server_emoji: Some(300), server_sounds: Some(72) });
    assert_eq!(boosts.tier3, BoostTierPerks { server_emoji: Some(500), server_sounds: Some(96) });
    assert_eq!(FeaturesAdvanced::default().process_message_delay_limit, 5);
}

fn pushd(production: bool) -> Pushd {
    let text = |s: &str| s.to_string();
    Pushd {
        production,
        exchange: text("revolt.notifications"),
        mass_mention_chunk_size: 200,
        render_cache_time: 60,
        message_queue: text("notifications.origin.message"),
        mass_mention_queue: text("notifications.origin.mass_mention"),
        dm_call_queue: text("notifications.ingest.dm_call"),
        fr_accepted_queue: text("notifications.ingest.fr_accepted"),
        fr_received_queue: text("notifications.ingest.fr_received"),
        generic_queue: text("notifications.ingest.generic"),
        calendar_event_queue: text("notifications.ingest.calendar_event"),
        ack_queue: text("notifications.process.ack"),
        vapid: PushVapid { queue: text(""), private_key: text(""), public_key: text("") },
        fcm: PushFcm {
            queue: text(""),
            key_type: text(""),
            project_id: text(""),
            private_key_id: text(""),
            private_key: text(""),
            client_email: text(""),
            client_id: text(""),
            auth_uri: text(""),
            token_uri: text(""),
            auth_provider_x509_cert_url: text(""),
            client_x509_cert_url: text(""),
        },
        apn: PushApn {
            queue: text(""),
            sandbox: false,
            pkcs8: text(""),
            key_id: text(""),
            team_id: text(""),
        },
    }
}

#[test]
fn routing_keys_tell_production_from_test() {
    let test = pushd(false);
    assert_eq!(test.get_ack_routing_key(), "notifications.process.ack-tst");
    assert_eq!(test.get_message_routing_key(), "notifications.origin.message-tst");
    assert_eq!(test.get_mass_mention_routing_key(), "notifications.origin.mass_mention-tst");
    assert_eq!(test.get_dm_call_routing_key(), "notifications.ingest.dm_call-tst");
    let production = pushd(true);
    assert_eq!(production.get_fr_accepted_routing_key(), "notifications.ingest.fr_accepted-prd");
    assert_eq!(production.get_fr_received_routing_key(), "notifications.ingest.fr_received-prd");
    assert_eq!(production.get_generic_routing_key(), "notifications.ingest.generic-prd");
    assert_eq!(
        production.get_calendar_event_routing_key(),
        "notifications.ingest.calendar_event-prd"
    );
}

fn hosts(api: &str) -> Hosts {
    Hosts {
        app: String::new(),
        api: api.to_string(),
        events: String::new(),
        autumn: String::new(),
        january: String::new(),
        livekit: HashMap::new(),
    }
}

#[test]
fn public_instances_are_told_by_their_address() {
    assert!(hosts("https://api.revolt.chat").is_production());
    assert!(hosts("https://stoat.chat/api").is_production());
    assert!(!hosts("http://api.revolt.chat").is_production());
    assert!(!hosts("https://example.com").is_production());
    assert!(!hosts("https://revolt.cha").is_production());
    assert!(!hosts("").is_production());
}

#[test]
fn missing_settings_are_told() {
    let smtp = |host: &str| ApiSmtp {
        host: host.to_string(),
        username: String::new(),
        password: String::new(),
        from_address: String::new(),
        reply_to: None,
        port: None,
        use_tls: None,
        use_starttls: None,
        expiry: EmailExpiry {
            expire_verification: 1,
            expire_password_reset: 2,
            expire_account_deletion: 3,
        },
    };
    let captcha = |key: &str| ApiSecurityCaptcha {
        hcaptcha_key: key.to_string(),
        hcaptcha_sitekey: String::new(),
    };
    let mail = "No SMTP settings specified! Remember to configure email.";
    let key = "No Captcha key specified! Remember to add hCaptcha key.";
    assert_eq!(preflight_checks(&smtp(""), &captcha("")), vec![mail, key]);
    assert_eq!(preflight_checks(&smtp("mail"), &captcha("")), vec![key]);
    assert_eq!(preflight_checks(&smtp(""), &captcha("key")), vec![mail]);
    assert!(preflight_checks(&smtp("mail"), &captcha("key")).is_empty());
}
