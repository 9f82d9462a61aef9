use warden::assignment::{Assignment, Slot};
use warden::models::{ForeignId, Id, IdRangeError};
use warden::registry::Registry;
use warden::settings::SettingField;
use warden::text::{decimal_string, parse_decimal};

fn pool() -> Vec<String> {
    vec!["w1".to_string(), "w2".to_string(), "w3".to_string()]
}

#[test]
fn id_from_signed_column() {
    assert_eq!(Id::try_from(42i64), Ok(Id(42)));
    assert_eq!(Id::try_from(-1i64), Err(IdRangeError));
    assert_eq!(ForeignId::try_from(None), Ok(ForeignId(None)));
    assert_eq!(ForeignId::try_from(Some(7i64)), Ok(ForeignId(Some(7))));
    assert_eq!(ForeignId::try_from(Some(-7i64)), Err(IdRangeError));
}

#[test]
fn id_stored_form_round_trips() {
    let big = Id(u64::MAX);
    assert_eq!(big.to_stored(), -1);
    assert_eq!(Id::from_stored(-1), big);
    let top = Id(9223372036854775808);
    assert_eq!(top.to_stored(), i64::MIN);
    assert_eq!(Id::from_stored(i64::MIN), top);
    assert_eq!(Id(12345).to_stored(), 12345);
    assert_eq!(Id::from_stored(12345), Id(12345));
}

#[test]
fn id_decimal_text() {
    assert_eq!(Id(290146364346597376).to_string(), "290146364346597376");
    assert_eq!(Id(0).to_string(), "0");
    assert_eq!(Id::from_str("290146364346597376"), Some(Id(290146364346597376)));
    assert_eq!(Id::from_str("18446744073709551615"), Some(Id(u64::MAX)));
    assert_eq!(Id::from_str("18446744073709551616"), None);
    assert_eq!(Id::from_str(""), None);
    assert_eq!(Id::from_str("12a"), None);
}

#[test]
fn decimal_numerals() {
    assert_eq!(decimal_string(907), "907");
    assert_eq!(decimal_string(u64::MAX), "18446744073709551615");
    assert_eq!(parse_decimal("007"), Some(7));
    assert_eq!(parse_decimal("-5"), None);
}

#[test]
fn acquire_takes_first_free_worker() {
    let mut a = Assignment::new(3);
    assert_eq!(a.acquire(100), Some(0));
    assert_eq!(a.acquire(200), Some(1));
    assert_eq!(a.destination(0), Slot::Bound(100));
    assert_eq!(a.destination(1), Slot::Bound(200));
    assert_eq!(a.destination(2), Slot::Free);
    assert!(a.is_leased(100));
    assert!(!a.is_leased(300));
}

#[test]
fn acquire_twice_for_one_channel_is_a_no_op() {
    let mut a = Assignment::new(3);
    assert_eq!(a.acquire(100), Some(0));
    assert_eq!(a.acquire(100), None);
    assert_eq!(a.destination(1), Slot::Free);
    assert_eq!(a.lookup(100), Some(0));
}

#[test]
fn acquire_with_every_worker_bound_changes_nothing() {
    let mut a = Assignment::new(2);
    assert_eq!(a.acquire(1), Some(0));
    assert_eq!(a.acquire(2), Some(1));
    assert!(!a.has_free());
    assert_eq!(a.acquire(3), None);
    assert!(!a.is_leased(3));
    assert_eq!(a.destination(0), Slot::Bound(1));
    assert_eq!(a.destination(1), Slot::Bound(2));
}

#[test]
fn release_of_unbound_channel_is_a_no_op() {
    let mut a = Assignment::new(2);
    assert_eq!(a.release(9), None);
    assert_eq!(a.acquire(1), Some(0));
    assert_eq!(a.release(9), None);
    assert_eq!(a.destination(0), Slot::Bound(1));
    assert!(a.is_leased(1));
}

#[test]
fn release_frees_the_worker_and_the_lease() {
    let mut a = Assignment::new(2);
    assert_eq!(a.acquire(1), Some(0));
    assert_eq!(a.acquire(2), Some(1));
    assert_eq!(a.release(1), Some(0));
    assert!(!a.is_leased(1));
    assert_eq!(a.destination(0), Slot::Free);
    assert_eq!(a.acquire(3), Some(0));
    assert_eq!(a.lookup(2), Some(1));
}

#[test]
fn empty_pool_never_assigns() {
    let mut a = Assignment::new(0);
    assert_eq!(a.acquire(1), None);
    assert_eq!(a.len(), 0);
}

#[test]
fn guild_registration_is_idempotent() {
    let mut r = Registry::new(pool());
    let g = Id(10);
    assert!(!r.is_registered(g));
    assert!(r.guild_create(g));
    assert!(r.is_registered(g));
    assert!(!r.guild_create(g));
    let s = r.settings(g).unwrap();
    assert_eq!(s.id, 10);
    assert_eq!(s.log_channel_id, ForeignId(None));
    assert_eq!(s.moderation_channel_id, ForeignId(None));
    assert_eq!(s.music_order_channel_id, ForeignId(None));
    assert_eq!(s.music_log_channel_id, ForeignId(None));
    assert_eq!(s.member_role_id, ForeignId(None));
    assert_eq!(r.pool_size(), 3);
    assert_eq!(r.prefix(1), "w2");
}

#[test]
fn guild_delete_forgets_everything_and_allows_rejoin() {
    let mut r = Registry::new(pool());
    let g = Id(10);
    assert!(!r.guild_delete(g));
    r.guild_create(g);
    assert!(r.set_setting(g, SettingField::LogChannel, Id(5)));
    assert_eq!(r.acquire(g, Id(77)), Some(0));
    assert!(r.guild_delete(g));
    assert!(!r.is_registered(g));
    assert_eq!(r.settings(g), None);
    assert_eq!(r.lookup(g, Id(77)), None);
    assert!(r.guild_create(g));
    assert_eq!(r.settings(g).unwrap().log_channel_id, ForeignId(None));
    assert_eq!(r.lookup(g, Id(77)), None);
}

#[test]
fn settings_fields_are_set_independently() {
    let mut r = Registry::new(pool());
    let g = Id(10);
    assert!(!r.set_setting(g, SettingField::MemberRole, Id(1)));
    r.guild_create(g);
    assert!(r.set_setting(g, SettingField::MusicOrderChannel, Id(1)));
    assert!(r.set_setting(g, SettingField::MusicLogChannel, Id(2)));
    assert!(r.set_setting(g, SettingField::MusicLogChannel, Id(3)));
    let s = r.settings(g).unwrap();
    assert_eq!(s.music_order_channel_id, ForeignId(Some(1)));
    assert_eq!(s.music_log_channel_id, ForeignId(Some(3)));
    assert_eq!(s.field(SettingField::MusicLogChannel), ForeignId(Some(3)));
    assert_eq!(s.log_channel_id, ForeignId(None));
    assert_eq!(s.member_role_id, ForeignId(None));
}

#[test]
fn guilds_keep_separate_pools() {
    let mut r = Registry::new(pool());
    r.guild_create(Id(1));
    r.guild_create(Id(2));
    assert_eq!(r.acquire(Id(1), Id(50)), Some(0));
    assert_eq!(r.acquire(Id(2), Id(60)), Some(0));
    assert_eq!(r.acquire(Id(2), Id(50)), Some(1));
    assert_eq!(r.lookup(Id(1), Id(60)), None);
    assert_eq!(r.acquire(Id(3), Id(50)), None);
    assert_eq!(r.release(Id(1), Id(60)), None);
    assert_eq!(r.release(Id(2), Id(60)), Some(0));
}

#[test]
fn pending_registrations_are_taken_by_member() {
    let mut r = Registry::new(pool());
    r.add_pending(Id(7), Id(1));
    r.add_pending(Id(8), Id(1));
    r.add_pending(Id(7), Id(2));
    let taken = r.take_pending(Id(7));
    assert_eq!(taken.len(), 2);
    assert_eq!(taken[0].guild_id, Id(1));
    assert_eq!(taken[1].guild_id, Id(2));
    assert_eq!(r.take_pending(Id(7)).len(), 0);
    assert_eq!(r.take_pending(Id(8)).len(), 1);
}

#[test]
fn guild_delete_keeps_pending_registrations() {
    let mut r = Registry::new(pool());
    r.guild_create(Id(2));
    r.add_pending(Id(7), Id(1));
    r.add_pending(Id(8), Id(2));
    assert!(!r.guild_delete(Id(1)));
    assert!(r.guild_delete(Id(2)));
    assert_eq!(r.take_pending(Id(7)).len(), 1);
    assert_eq!(r.take_pending(Id(8)).len(), 1);
}

#[test]
fn withdrawn_worker_is_never_assigned_again() {
    let mut a = Assignment::new(2);
    assert_eq!(a.withdraw(0), None);
    assert_eq!(a.destination(0), Slot::Gone);
    assert_eq!(a.acquire(5), Some(1));
    assert_eq!(a.acquire(6), None);
    assert!(!a.has_free());
}

#[test]
fn withdrawing_a_bound_worker_releases_its_channel() {
    let mut r = Registry::new(pool());
    let g = Id(10);
    r.guild_create(g);
    assert_eq!(r.acquire(g, Id(77)), Some(0));
    assert_eq!(r.withdraw(g, 0), Some(77));
    assert_eq!(r.worker_state(g, 0), Some(Slot::Gone));
    assert_eq!(r.lookup(g, Id(77)), None);
    assert_eq!(r.acquire(g, Id(77)), Some(1));
    assert_eq!(r.withdraw(g, 3), None);
    assert_eq!(r.withdraw(Id(11), 0), None);
    assert_eq!(r.worker_state(Id(11), 0), None);
}
