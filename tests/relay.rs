use warden::events::{
    fallback_nickname, naming_argument, registered_nickname, Handler, MusicHandler, Registration,
    Welcome,
};
use warden::assignment::Slot;
use warden::models::{ForeignId, Id};
use warden::music_order::{
    check_music_order_channel, get_music_log_channel, join, leave, pause, play, resume, skip, stop,
    OrderOutcome,
};
use warden::music_playing::{parse_instruction, MusicOrder, WorkerCommand};
use warden::registry::Registry;
use warden::relay::{instruction_text, Order};
use warden::settings::SettingField;

const G: Id = Id(1000);
const C1: Id = Id(11);
const C2: Id = Id(22);
const V: Id = Id(555);

fn pool() -> Vec<String> {
    vec!["w1".to_string(), "w2".to_string(), "w3".to_string()]
}

fn configured() -> Registry {
    let mut r = Registry::new(pool());
    r.guild_create(G);
    r.set_setting(G, SettingField::MusicOrderChannel, C1);
    r.set_setting(G, SettingField::MusicLogChannel, C2);
    r
}

fn relayed(o: OrderOutcome) -> (Id, usize, String) {
    match o {
        OrderOutcome::Relayed { channel, worker, text } => (channel, worker, text),
        OrderOutcome::WrongChannel => panic!("rejected as wrong channel"),
        OrderOutcome::Ignored => panic!("ignored"),
    }
}

fn is_ignored(o: &OrderOutcome) -> bool {
    matches!(o, OrderOutcome::Ignored)
}

fn is_wrong_channel(o: &OrderOutcome) -> bool {
    matches!(o, OrderOutcome::WrongChannel)
}

#[test]
fn join_leave_rejoin_scenario() {
    let mut r = Registry::new(pool());
    assert!(r.guild_create(G));
    let s = r.settings(G).unwrap();
    assert_eq!(s.music_order_channel_id, ForeignId(None));
    assert_eq!(s.music_log_channel_id, ForeignId(None));
    assert_eq!(r.pool_size(), 3);
    for i in 0..3 {
        assert_eq!(r.worker_state(G, i), Some(Slot::Free));
    }
    r.set_setting(G, SettingField::MusicOrderChannel, C1);
    r.set_setting(G, SettingField::MusicLogChannel, C2);

    let (channel, worker, text) = relayed(join(&mut r, G, C1, Some(V)));
    assert_eq!(channel, C2);
    assert_eq!(worker, 0);
    assert_eq!(text, "w1 join 555");
    assert_eq!(r.lookup(G, V), Some(0));

    assert!(is_ignored(&join(&mut r, G, C1, Some(V))));
    assert_eq!(r.lookup(G, V), Some(0));

    let (channel, worker, text) = relayed(leave(&mut r, G, C1, Some(V)));
    assert_eq!(channel, C2);
    assert_eq!(worker, 0);
    assert_eq!(text, "w1 leave 555");
    assert_eq!(r.lookup(G, V), None);

    let (_, worker, text) = relayed(join(&mut r, G, C1, Some(V)));
    assert!(worker < 3);
    assert!(text.ends_with(" join 555"));
    assert_eq!(r.lookup(G, V), Some(worker));
}

#[test]
fn play_relays_order_text_to_assigned_worker() {
    let mut r = configured();
    relayed(join(&mut r, G, C1, Some(Id(1))));
    let (_, worker, _) = relayed(join(&mut r, G, C1, Some(V)));
    assert_eq!(worker, 1);

    let (channel, worker, text) = relayed(play(&r, G, C1, Some(V), "https://example.test/track"));
    assert_eq!(channel, C2);
    assert_eq!(worker, 1);
    assert_eq!(text, "w2 play https://example.test/track");

    let (_, _, text) = relayed(play(&r, G, C1, Some(V), "lofi beats"));
    assert_eq!(text, "w2 play lofi beats");

    match parse_instruction("w2", "w2 play https://example.test/track") {
        Some(WorkerCommand::Play(MusicOrder::Url(u))) => assert_eq!(u, "https://example.test/track"),
        _ => panic!("expected a locator"),
    }
    match parse_instruction("w2", "w2 play lofi beats") {
        Some(WorkerCommand::Play(MusicOrder::Query(q))) => assert_eq!(q, "lofi beats"),
        _ => panic!("expected a query"),
    }
}

#[test]
fn orders_outside_order_channel_are_rejected_without_change() {
    let mut r = configured();
    assert!(is_wrong_channel(&join(&mut r, G, C2, Some(V))));
    assert_eq!(r.lookup(G, V), None);
    relayed(join(&mut r, G, C1, Some(V)));
    assert!(is_wrong_channel(&leave(&mut r, G, Id(99), Some(V))));
    assert_eq!(r.lookup(G, V), Some(0));
    assert!(is_wrong_channel(&play(&r, G, C2, Some(V), "song")));
    assert!(is_wrong_channel(&pause(&r, G, C2, Some(V))));
    assert!(is_wrong_channel(&join(&mut r, Id(4242), C1, Some(V))));
    assert!(!check_music_order_channel(&r, G, C2));
    assert!(check_music_order_channel(&r, G, C1));
}

#[test]
fn unset_order_channel_never_admits() {
    let mut r = Registry::new(pool());
    r.guild_create(G);
    r.set_setting(G, SettingField::MusicLogChannel, C2);
    assert!(is_wrong_channel(&join(&mut r, G, C1, Some(V))));
    assert_eq!(r.lookup(G, V), None);
}

#[test]
fn orders_without_voice_channel_or_relay_channel_are_ignored() {
    let mut r = configured();
    assert!(is_ignored(&join(&mut r, G, C1, None)));
    assert!(is_ignored(&play(&r, G, C1, Some(V), "song")));
    assert!(is_ignored(&leave(&mut r, G, C1, Some(V))));
    assert!(is_ignored(&stop(&r, G, C1, Some(V))));

    let mut bare = Registry::new(pool());
    bare.guild_create(G);
    bare.set_setting(G, SettingField::MusicOrderChannel, C1);
    assert_eq!(get_music_log_channel(&bare, G), None);
    assert!(is_ignored(&join(&mut bare, G, C1, Some(V))));
    assert_eq!(bare.lookup(G, V), None);
}

#[test]
fn play_with_empty_order_is_ignored() {
    let mut r = configured();
    relayed(join(&mut r, G, C1, Some(V)));
    assert!(is_ignored(&play(&r, G, C1, Some(V), "")));
}

#[test]
fn join_with_every_worker_bound_is_ignored() {
    let mut r = configured();
    relayed(join(&mut r, G, C1, Some(Id(1))));
    relayed(join(&mut r, G, C1, Some(Id(2))));
    relayed(join(&mut r, G, C1, Some(Id(3))));
    assert!(is_ignored(&join(&mut r, G, C1, Some(V))));
    assert_eq!(r.lookup(G, V), None);
    assert_eq!(r.lookup(G, Id(3)), Some(2));
}

#[test]
fn queue_controls_relay_bare_command() {
    let mut r = configured();
    relayed(join(&mut r, G, C1, Some(V)));
    assert_eq!(relayed(pause(&r, G, C1, Some(V))).2, "w1 pause");
    assert_eq!(relayed(resume(&r, G, C1, Some(V))).2, "w1 resume");
    assert_eq!(relayed(skip(&r, G, C1, Some(V))).2, "w1 skip");
    assert_eq!(relayed(stop(&r, G, C1, Some(V))).2, "w1 stop");
}

#[test]
fn instruction_text_shape() {
    assert_eq!(instruction_text("music1", Order::Join, Some("42")), "music1 join 42");
    assert_eq!(instruction_text("music3", Order::Skip, None), "music3 skip");
}

#[test]
fn worker_parses_each_command() {
    assert!(matches!(parse_instruction("w1", "w1 join 555"), Some(WorkerCommand::Join(Id(555)))));
    assert!(matches!(parse_instruction("w1", "w1 leave 555"), Some(WorkerCommand::Leave)));
    assert!(matches!(parse_instruction("w1", "w1 leave"), Some(WorkerCommand::Leave)));
    assert!(matches!(parse_instruction("w1", "w1 pause"), Some(WorkerCommand::Pause)));
    assert!(matches!(parse_instruction("w1", "w1 resume"), Some(WorkerCommand::Resume)));
    assert!(matches!(parse_instruction("w1", "w1 skip"), Some(WorkerCommand::Skip)));
    assert!(matches!(parse_instruction("w1", "w1 stop"), Some(WorkerCommand::Stop)));
    assert!(parse_instruction("w1", "w1 join abc").is_none());
    assert!(parse_instruction("w1", "w1 join").is_none());
    assert!(parse_instruction("w1", "w1 play").is_none());
    assert!(parse_instruction("w1", "w1 dance").is_none());
    assert!(parse_instruction("w1", "w1").is_none());
}

#[test]
fn worker_ignores_other_prefixes() {
    assert!(parse_instruction("w1", "w2 pause").is_none());
    assert!(parse_instruction("w1", "w10 pause").is_none());
    assert!(parse_instruction("w1", "pause").is_none());
    let r = configured();
    let w1 = MusicHandler::new("w1".to_string());
    assert!(w1.message(&r, Some(G), C2, "w2 join 555").is_none());
    assert!(w1.message(&r, Some(G), C2, "w1 join 555").is_some());
}

#[test]
fn worker_ignores_other_channels() {
    let r = configured();
    let w1 = MusicHandler::new("w1".to_string());
    assert!(w1.message(&r, Some(G), C1, "w1 join 555").is_none());
    assert!(w1.message(&r, None, C2, "w1 join 555").is_none());
    assert!(w1.message(&r, Some(Id(4242)), C2, "w1 join 555").is_none());
    let mut unset = Registry::new(pool());
    unset.guild_create(G);
    assert!(w1.message(&unset, Some(G), C2, "w1 join 555").is_none());
    match w1.message(&r, Some(G), C2, "w1 play lofi beats") {
        Some(WorkerCommand::Play(o)) => assert_eq!(o.as_str(), "lofi beats"),
        _ => panic!("expected play"),
    }
}

#[test]
fn music_order_classification() {
    assert!(matches!(MusicOrder::from("https://x.test/a".to_string()), MusicOrder::Url(_)));
    assert!(matches!(MusicOrder::from("http://example.test/track".to_string()), MusicOrder::Url(_)));
    assert!(matches!(MusicOrder::from("ftp://x.test/a".to_string()), MusicOrder::Query(_)));
    assert!(matches!(MusicOrder::from("https:/x".to_string()), MusicOrder::Query(_)));
    assert!(matches!(MusicOrder::from("never gonna".to_string()), MusicOrder::Query(_)));
}

#[test]
fn member_welcome_paths() {
    let mut h = Handler::new(pool());
    assert_eq!(h.guild_member_addition(G, Id(7), false), Welcome::Nothing);
    h.registry.guild_create(G);
    assert_eq!(h.guild_member_addition(G, Id(7), true), Welcome::Nothing);
    assert_eq!(h.guild_member_addition(G, Id(7), false), Welcome::AwaitName);
    assert!(h.setup(G, SettingField::MemberRole, Id(99), true));
    assert_eq!(h.guild_member_addition(G, Id(8), false), Welcome::GrantRole(Id(99)));
    let regs = h.message(Id(7), false, "-name Vanya");
    assert_eq!(regs, vec![Registration { guild: G, role: ForeignId(Some(99)) }]);
    assert!(h.message(Id(7), false, "-name Vanya").is_empty());
    assert!(h.message(Id(8), false, "-name Petya").is_empty());
}

#[test]
fn naming_command_shape() {
    assert_eq!(naming_argument("-name Vanya"), Some("Vanya"));
    assert_eq!(naming_argument("-name "), None);
    assert_eq!(naming_argument("-name   "), None);
    assert_eq!(naming_argument("-name"), None);
    assert_eq!(naming_argument("-name  Vanya  Ivanov"), Some("Vanya"));
    assert_eq!(naming_argument("name Vanya"), None);
    assert_eq!(naming_argument("-names Vanya"), None);
    assert_eq!(naming_argument(""), None);
    assert_eq!(naming_argument("-nam Vanya"), None);
    let mut h = Handler::new(pool());
    h.registry.guild_create(G);
    h.guild_member_addition(G, Id(7), false);
    assert!(h.message(Id(7), true, "-name Vanya").is_empty());
    assert!(h.message(Id(7), false, "hello").is_empty());
    assert_eq!(h.message(Id(7), false, "-name Vanya").len(), 1);
}

#[test]
fn setup_requires_existing_reference() {
    let mut h = Handler::new(pool());
    h.registry.guild_create(G);
    assert!(!h.setup(G, SettingField::LogChannel, Id(5), false));
    assert_eq!(h.registry.settings(G).unwrap().log_channel_id, ForeignId(None));
    assert!(h.setup(G, SettingField::LogChannel, Id(5), true));
    assert_eq!(h.registry.settings(G).unwrap().log_channel_id, ForeignId(Some(5)));
    assert!(!h.setup(Id(1), SettingField::LogChannel, Id(5), true));
}

#[test]
fn nicknames() {
    assert_eq!(registered_nickname("Vanya", "vanya42"), "Vanya <vanya42>");
    assert_eq!(fallback_nickname("vanya42"), "<vanya42>");
}

#[test]
fn worker_splits_instruction_on_whitespace() {
    match parse_instruction("music1", "music1 play  lofi") {
        Some(WorkerCommand::Play(MusicOrder::Query(q))) => assert_eq!(q, "lofi"),
        _ => panic!("expected a query"),
    }
    match parse_instruction("music1", "music1  play \t lofi   beats  ") {
        Some(WorkerCommand::Play(MusicOrder::Query(q))) => assert_eq!(q, "lofi beats"),
        _ => panic!("expected a query"),
    }
    assert!(matches!(
        parse_instruction("music1", "music1 join 555 extra"),
        Some(WorkerCommand::Join(Id(555)))
    ));
    assert!(matches!(parse_instruction("music1", "music1 \npause now"), Some(WorkerCommand::Pause)));
    assert!(parse_instruction("music1", "music1   ").is_none());
    assert!(parse_instruction("music1", "music1 play   ").is_none());
}

#[test]
fn naming_command_without_name_changes_nothing() {
    let mut h = Handler::new(pool());
    h.registry.guild_create(G);
    h.guild_member_addition(G, Id(7), false);
    assert!(h.message(Id(7), false, "-name  ").is_empty());
    assert!(h.message(Id(7), false, "-name").is_empty());
    assert_eq!(h.message(Id(7), false, "-name Vanya"), vec![Registration { guild: G, role: ForeignId(None) }]);
}
