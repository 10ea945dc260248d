use figure_tracker::conditions::{Condition, ConditionType};
use figure_tracker::config::Configuration;
use figure_tracker::currency::SupportedCurrency;
use figure_tracker::items::{Item, ItemConditions};
use figure_tracker::notifications::{
    plan_dispatch, render_message, ChannelTarget, ConditionMatch, NotificationManager,
};
use figure_tracker::prices::Price;

fn config(telegram: bool, discord: bool) -> Configuration {
    Configuration {
        currency: Some("EUR".to_string()),
        taxes: vec![],
        shipping: vec![],
        telegram_active: telegram,
        telegram_api_key: if telegram {
            Some("telegram-key".to_string())
        } else {
            None
        },
        telegram_user_id: if telegram { Some(42) } else { None },
        discord_active: discord,
        discord_client_token: if discord {
            Some("discord-token".to_string())
        } else {
            None
        },
        discord_user_id: if discord { Some(99) } else { None },
    }
}

fn item(image: &str) -> Item {
    Item {
        id: 3,
        jan: 4_571_245_298_836,
        term_en: "".to_string(),
        term_jp: "".to_string(),
        description: "example figure".to_string(),
        image: image.to_string(),
        disabled: false,
    }
}

fn matched_price() -> Price {
    let mut p = Price::new(
        &item(""),
        110_00,
        SupportedCurrency::USD,
        "https://example.test/sale".to_string(),
        "example.test".to_string(),
        ItemConditions::New,
    );
    p.converted_price = 100_00;
    p.converted_currency = "EUR".to_string();
    p.taxes = 1900;
    p.shipping = 5_00;
    p
}

#[test]
fn test_config_channel_getters() {
    let on = config(true, true);
    assert_eq!(on.get_telegram_api_key().unwrap(), "telegram-key");
    assert_eq!(on.get_telegram_user_id(), Some(42));
    assert_eq!(on.get_discord_client_token().unwrap(), "discord-token");
    assert_eq!(on.get_discord_user_id(), Some(99));

    let mut off = config(true, true);
    off.telegram_active = false;
    off.discord_active = false;
    assert!(off.get_telegram_api_key().is_none());
    assert!(off.get_telegram_user_id().is_none());
    assert!(off.get_discord_client_token().is_none());
    assert!(off.get_discord_user_id().is_none());
}

#[test]
fn test_config_currency_and_rates() {
    let cfg = Configuration {
        currency: Some("USD".to_string()),
        taxes: vec![(SupportedCurrency::USD, 1900)],
        shipping: vec![(SupportedCurrency::USD, 5_00)],
        telegram_active: false,
        telegram_api_key: None,
        telegram_user_id: None,
        discord_active: false,
        discord_client_token: None,
        discord_user_id: None,
    };
    assert_eq!(cfg.get_used_currency(), SupportedCurrency::USD);
    assert_eq!(cfg.get_used_tax_rate(SupportedCurrency::USD), 1900);
    assert_eq!(cfg.get_used_tax_rate(SupportedCurrency::JPY), 0);
    assert_eq!(cfg.get_shipping(SupportedCurrency::USD), 5_00);
    assert_eq!(cfg.get_shipping(SupportedCurrency::JPY), 0);

    let fallback = Configuration {
        currency: Some("XXX".to_string()),
        ..cfg
    };
    // an unknown configured code falls back to the baseline currency
    assert_eq!(fallback.get_used_currency(), SupportedCurrency::EUR);
}

#[test]
fn test_notification_manager_wiring() {
    let m = NotificationManager::new(&config(true, false));
    assert!(m.telegram_data.is_some());
    assert!(m.discord_data.is_none());
    assert_eq!(m.telegram_data.unwrap().user_id, 42);

    let m = NotificationManager::new(&config(false, true));
    assert!(m.telegram_data.is_none());
    assert_eq!(m.discord_data.unwrap().user_id, 99);
}

#[test]
fn test_render_message_exact_text() {
    let msg = render_message(
        &item(""),
        &matched_price(),
        &Condition::new(ConditionType::BelowPrice, None, 120_00, 3),
        "<b>",
        "</b>",
    );
    let expected = "met search notification on item:\n\
                    <b>example figure</b>\n\
                    <b>4571245298836</b>\n\
                    \n\
                    price: <b>100.00 EUR</b>\n\
                    price with taxes: <b>119.00 EUR</b>\n\
                    price with shipping and taxes: <b>124.95 EUR</b>\n\
                    raw price: <b>110.00 USD</b>\n\
                    \n\
                    item condition: <b>new</b>\n\
                    \n\
                    notification type: <b>below_price</b>\n\
                    requested item condition: <b>none</b>\n\
                    value: <b>120.00</b>\n\
                    \n\
                    link: https://example.test/sale";
    assert_eq!(msg, expected);
}

#[test]
fn test_render_message_price_drop_value_is_a_fraction() {
    let msg = render_message(
        &item(""),
        &matched_price(),
        &Condition::new(ConditionType::PriceDrop, Some(ItemConditions::Used), 1000, 3),
        "**",
        "**",
    );
    assert!(msg.contains("notification type: **price_drop**"));
    assert!(msg.contains("requested item condition: **used**"));
    assert!(msg.contains("value: **0.10**"));
}

#[test]
fn test_notify_builds_one_attempt_per_channel() {
    let m = NotificationManager::new(&config(true, true));
    let attempts = m.notify(
        &item("https://example.test/image.jpg"),
        &matched_price(),
        &Condition::new(ConditionType::BelowPrice, None, 120_00, 3),
    );
    assert_eq!(attempts.len(), 2);
    assert!(matches!(attempts[0].target, ChannelTarget::Telegram(_)));
    assert!(matches!(attempts[1].target, ChannelTarget::Discord(_)));
    assert_eq!(
        attempts[0].image.as_deref(),
        Some("https://example.test/image.jpg")
    );
    assert!(attempts[0].message.contains("<b>example figure</b>"));
    assert!(attempts[1].message.contains("**example figure**"));

    // without an image reference the plain-text path is taken
    let attempts = m.notify(
        &item(""),
        &matched_price(),
        &Condition::new(ConditionType::BelowPrice, None, 120_00, 3),
    );
    assert!(attempts[0].image.is_none());
}

#[test]
fn test_plan_dispatch_covers_all_pairs() {
    // M matches across K enabled channels give exactly M * K attempts
    let m = NotificationManager::new(&config(true, true));
    let mk = |value: u64| ConditionMatch {
        item: item(""),
        price: matched_price(),
        condition: Condition::new(ConditionType::BelowPrice, None, value, 3),
    };
    let attempts = plan_dispatch(&m, vec![mk(120_00), mk(130_00), mk(140_00)]);
    assert_eq!(attempts.len(), 3 * 2);
    let telegram_count = attempts
        .iter()
        .filter(|a| matches!(a.target, ChannelTarget::Telegram(_)))
        .count();
    let discord_count = attempts
        .iter()
        .filter(|a| matches!(a.target, ChannelTarget::Discord(_)))
        .count();
    assert_eq!(telegram_count, 3);
    assert_eq!(discord_count, 3);
    // grouped by match, each value appears once per channel
    assert!(attempts[0].message.contains("value: <b>120.00</b>"));
    assert!(attempts[1].message.contains("value: **120.00**"));
    assert!(attempts[4].message.contains("value: <b>140.00</b>"));

    // with one channel, M matches give M attempts
    let single = NotificationManager::new(&config(true, false));
    let attempts = plan_dispatch(&single, vec![mk(120_00), mk(130_00)]);
    assert_eq!(attempts.len(), 2);

    // with no channel enabled, nothing is planned
    let none = NotificationManager::new(&config(false, false));
    let attempts = plan_dispatch(&none, vec![mk(120_00)]);
    assert_eq!(attempts.len(), 0);
}
