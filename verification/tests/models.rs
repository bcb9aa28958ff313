use nost::airtable::Base;
use nost::client::{is_whitelisted, ClientIp};
use nost::environment::Secret;
use nost::models_user::User as RecordUser;
use nost::oauth::CallbackQuery;
use nost::orm::{Orm, OrmError, RowId, TwitchId};
use nost::sub_tier::SubTier;
use nost::tables_bits::Bit;
use nost::tables_latests::{LatestBit, LatestFollower, LatestSubgift, LatestSubscriber};
use nost::tables_subgifts::Subgift;
use nost::tables_user::{User, UserBuilder};
use nost::webhook_bits::Bits;
use nost::webhook_subgift::Subgift as SubgiftEvent;
use std::str::FromStr;

#[test]
fn bits_number_cannot_be_zero() {
    let bit = Bit::from(1, 0, None);
    assert_eq!(
        bit.validate(),
        Err(OrmError::BadInput("Bits number cannot be 0".to_string()))
    );
    let ok = Bit::from(1, 1, Some("message".to_string()));
    assert_eq!(ok.validate(), Ok(()));
    assert_eq!(ok.user_id, Some(1));
    assert_eq!(ok.number, 1);
    assert_eq!(ok.message, Some("message".to_string()));
}

#[test]
fn anonymous_bit_has_no_user() {
    let bit = Bit::from_anonymous(5, None);
    assert_eq!(bit.user_id, None);
    assert_eq!(bit.number, 5);
}

#[test]
fn subgift_number_cannot_be_zero() {
    let gift = Subgift::from(1, 0, "Tier1".to_string());
    assert_eq!(
        gift.validate(),
        Err(OrmError::BadInput("Subgifts number cannot be 0".to_string()))
    );
}

#[test]
fn subgift_tier_must_be_known() {
    let gift = Subgift::from(1, 2, "Invalid".to_string());
    assert_eq!(
        gift.validate(),
        Err(OrmError::BadInput("Invalid sub tier name".to_string()))
    );
    let ok = Subgift::from_anonymous(2, "Prime".to_string());
    assert_eq!(ok.validate(), Ok(()));
}

#[test]
fn user_subscriber_since_requires_tier() {
    let mut user = User::from("arinono".to_string(), 42069);
    user.subscriber_since = Some("2024-01-01T00:00:00.000Z".to_string());
    user.subscription_tier = None;
    assert_eq!(
        user.validate(),
        Err(OrmError::BadInput(
            "subscriber_since requires subscriber_tier to be set".to_string()
        ))
    );
}

#[test]
fn user_tier_requires_subscriber_since() {
    let mut user = User::from("arinono".to_string(), 42069);
    user.subscriber_since = None;
    user.subscription_tier = Some("Tier1".to_string());
    assert_eq!(
        user.validate(),
        Err(OrmError::BadInput(
            "subscriber_tier requires subscriber_since to be set".to_string()
        ))
    );
}

#[test]
fn user_tier_name_must_be_known() {
    let mut user = User::from("arinono".to_string(), 42069);
    user.subscriber_since = Some("2024-01-01T00:00:00.000Z".to_string());
    user.subscription_tier = Some("Invalid".to_string());
    assert_eq!(
        user.validate(),
        Err(OrmError::BadInput("Invalid sub tier name".to_string()))
    );
}

#[test]
fn consistent_user_validates() {
    let mut user = User::from("arinono".to_string(), 42069);
    assert_eq!(user.validate(), Ok(()));
    user.subscriber_since = Some("2024-01-01T00:00:00.000Z".to_string());
    user.subscription_tier = Some("Tier3".to_string());
    assert_eq!(user.validate(), Ok(()));
}

#[test]
fn builder_defaults_tier_for_a_subscription_date() {
    let user = User::builder("arinono".to_string(), 42069)
        .subscribe("2024-01-01T00:00:00.000Z".to_string())
        .build("2024-06-01T00:00:00.000Z".to_string());
    assert_eq!(user.subscription_tier, Some("Tier1".to_string()));
    assert_eq!(
        user.subscriber_since,
        Some("2024-01-01T00:00:00.000Z".to_string())
    );
}

#[test]
fn builder_stamps_date_for_a_bare_tier() {
    let user = User::builder("arinono".to_string(), 42069)
        .tier("Tier2".to_string())
        .build("2024-06-01T00:00:00.000Z".to_string());
    assert_eq!(user.subscription_tier, Some("Tier2".to_string()));
    assert_eq!(
        user.subscriber_since,
        Some("2024-06-01T00:00:00.000Z".to_string())
    );
}

#[test]
fn builder_keeps_follow_and_created_dates() {
    let user = UserBuilder(User::from("arinono".to_string(), 7))
        .follow("f".to_string())
        .created_at("c".to_string())
        .build("now".to_string());
    assert_eq!(user.follower_since, Some("f".to_string()));
    assert_eq!(user.created_at, "c".to_string());
    assert_eq!(user.subscription_tier, None);
    assert_eq!(user.subscriber_since, None);
}

#[test]
fn placeholders_enumerate_parameters() {
    assert_eq!(Orm::<RowId>::placeholders(0), "".to_string());
    assert_eq!(Orm::<RowId>::placeholders(1), "?1".to_string());
    assert_eq!(Orm::<RowId>::placeholders(3), "?1, ?2, ?3".to_string());
    assert_eq!(
        Orm::<RowId>::placeholders(12),
        "?1, ?2, ?3, ?4, ?5, ?6, ?7, ?8, ?9, ?10, ?11, ?12".to_string()
    );
}

#[test]
fn update_placeholders_pair_columns_with_parameters() {
    let cols: Vec<&str> = vec!["display_name", "twitch_id"];
    assert_eq!(
        Orm::<RowId>::update_placeholders(&cols),
        "display_name = ?1, twitch_id = ?2".to_string()
    );
    let none: Vec<&str> = vec![];
    assert_eq!(Orm::<RowId>::update_placeholders(&none), "".to_string());
}

#[test]
fn row_and_twitch_ids_are_plain_numbers() {
    let row = RowId { id: 42 };
    assert_eq!(row.id, 42);
    let TwitchId(n) = TwitchId(42069);
    assert_eq!(n, 42069);
}

#[test]
fn tier_names_are_canonical() {
    assert_eq!(SubTier::Tier1.name(), "Tier1");
    assert_eq!(SubTier::Tier2.name(), "Tier2");
    assert_eq!(SubTier::Tier3.name(), "Tier3");
    assert_eq!(SubTier::Prime.name(), "Prime");
    assert_eq!(SubTier::Other.name(), "Other");
}

#[test]
fn base_names_round_trip() {
    assert_eq!(Base::Users.name(), "users");
    assert_eq!(Base::Subgifts.name(), "subgifts");
    assert_eq!(Base::from_str("users"), Ok(Base::Users));
    assert_eq!(Base::from_str("subgifts"), Ok(Base::Subgifts));
    assert_eq!(
        Base::from_str("other"),
        Err("Invalid base: other".to_string())
    );
}

#[test]
fn secrets_keep_their_value() {
    let s = Secret::new("SECRET-REDACTED".to_string());
    assert_eq!(s.secret_str(), "SECRET-REDACTED");
    assert_eq!(s.secret(), "SECRET-REDACTED".as_bytes());
}

#[test]
fn record_user_builder_assembles_fields() {
    let user = RecordUser::builder()
        .display_name("arinono".to_string())
        .twitch_id("42069".to_string())
        .subscription_tier(SubTier::Prime)
        .subgift_total(3)
        .subgifts(vec!["rec1".to_string()])
        .subgifts(vec!["rec2".to_string()])
        .bits(vec!["recb".to_string()])
        .build();
    assert_eq!(user.display_name, "arinono".to_string());
    assert_eq!(user.twitch_id, "42069".to_string());
    assert!(matches!(user.subscription_tier, Some(SubTier::Prime)));
    assert_eq!(user.subgift_total, Some(3));
    assert_eq!(
        user.subgifts,
        Some(vec!["rec1".to_string(), "rec2".to_string()])
    );
    assert_eq!(user.bits, Some(vec!["recb".to_string()]));
}

#[test]
fn bits_event_builder_wraps_attribution() {
    let bits = Bits::builder()
        .user_id(Some("rec0".to_string()))
        .display_name(Some("arinono".to_string()))
        .number(100)
        .message(Some("hi".to_string()))
        .build();
    assert_eq!(bits.user_id, Some(vec!["rec0".to_string()]));
    assert_eq!(bits.display_name, Some(vec!["arinono".to_string()]));
    assert_eq!(bits.number, 100);
    assert_eq!(bits.message, Some("hi".to_string()));
}

#[test]
fn bits_event_builder_skips_missing_fields() {
    let bits = Bits::builder()
        .user_id(None)
        .display_name(None)
        .number(1)
        .message(None)
        .build();
    assert_eq!(bits.user_id, None);
    assert_eq!(bits.display_name, None);
    assert_eq!(bits.message, None);
}

#[test]
fn subgift_event_builder_assembles_fields() {
    let gift = SubgiftEvent::builder()
        .user_id(Some("rec9".to_string()))
        .display_name(Some("arinono".to_string()))
        .number(5)
        .tier(SubTier::Tier2)
        .build();
    assert_eq!(gift.user_id, Some(vec!["rec9".to_string()]));
    assert_eq!(gift.number, 5);
    assert!(matches!(gift.tier, SubTier::Tier2));
}

#[test]
fn latest_rows_hold_their_fields() {
    let f = LatestFollower { name: "a".to_string() };
    let s = LatestSubscriber { name: "b".to_string(), tier: "Tier1".to_string() };
    let g = LatestSubgift { name: "c".to_string(), tier: "Tier2".to_string(), number: 2 };
    let b = LatestBit { name: "d".to_string(), number: 100, message: None };
    assert_eq!(f.name, "a");
    assert_eq!((s.name.as_str(), s.tier.as_str()), ("b", "Tier1"));
    assert_eq!(g.number, 2);
    assert_eq!(b.message, None);
}

#[test]
fn callback_query_holds_code_and_state() {
    let q = CallbackQuery { code: "abc".to_string(), state: "xyz".to_string() };
    assert_eq!(q.code, "abc");
    assert_eq!(q.state, "xyz");
}

// Loopback and all three RFC1918 ranges are exempt; nothing else is,
// and no IPv6 address is.
#[test]
fn whitelist_covers_private_ranges_only() {
    let yes = [
        ClientIp::V4 { a: 127, b: 0, c: 0, d: 1 },
        ClientIp::V4 { a: 127, b: 255, c: 0, d: 9 },
        ClientIp::V4 { a: 10, b: 1, c: 2, d: 3 },
        ClientIp::V4 { a: 10, b: 255, c: 255, d: 255 },
        ClientIp::V4 { a: 172, b: 16, c: 0, d: 1 },
        ClientIp::V4 { a: 172, b: 31, c: 255, d: 255 },
        ClientIp::V4 { a: 192, b: 168, c: 0, d: 1 },
        ClientIp::V4 { a: 192, b: 168, c: 255, d: 255 },
    ];
    for c in yes {
        assert!(is_whitelisted(&c));
    }
    let no = [
        ClientIp::V4 { a: 172, b: 15, c: 0, d: 1 },
        ClientIp::V4 { a: 172, b: 32, c: 0, d: 1 },
        ClientIp::V4 { a: 192, b: 167, c: 0, d: 1 },
        ClientIp::V4 { a: 192, b: 169, c: 0, d: 1 },
        ClientIp::V4 { a: 11, b: 0, c: 0, d: 1 },
        ClientIp::V4 { a: 8, b: 8, c: 8, d: 8 },
        ClientIp::V6 { hi: 0, lo: 1 },
    ];
    for c in no {
        assert!(!is_whitelisted(&c));
    }
}
