//! Music orders taken by the control bot: each is admitted only from the
//! guild's order channel and becomes an instruction, posted on the guild's
//! relay channel, to the worker bound to the caller's voice channel.

use vstd::prelude::*;
use crate::assignment::{all_busy, bound_to, is_first_free, Slot};
use crate::models::Id;
use crate::registry::{same_except, GuildRecord, Registry};
use crate::relay::{instruction, instruction_text, name_of, Order};
use crate::text::decimal;

verus! {

/// What an order comes to.
pub enum OrderOutcome {
    /// The order was not sent from the guild's order channel.
    WrongChannel,
    /// Nothing to do: no voice channel, no worker, no relay channel, or a
    /// channel already served.
    Ignored,
    /// Post `text` on `channel`; it addresses worker `worker`.
    Relayed { channel: Id, worker: usize, text: String },
}

/// Whether orders of guild `g` are taken from channel `c`: the guild is
/// registered and `c` is its configured order channel.
pub open spec fn order_channel_open(reg: Map<u64, GuildRecord>, g: u64, c: u64) -> bool {
    reg.contains_key(g) && reg[g].settings.music_order_channel_id.0 == Some(c)
}

/// The relay channel of guild `g`, if it is registered and has one.
pub open spec fn relay_channel(reg: Map<u64, GuildRecord>, g: u64) -> Option<u64> {
    if reg.contains_key(g) {
        reg[g].settings.music_log_channel_id.0
    } else {
        None
    }
}

/// Whether an order for guild `g` may be taken from channel `channel`.
pub fn check_music_order_channel(reg: &Registry, guild: Id, channel: Id) -> (r: bool)
    requires
        reg.wf(),
    ensures
        r == order_channel_open(reg@, guild.0, channel.0),
{
    match reg.settings(guild) {
        Some(s) => s.music_order_channel_id.is(channel),
        None => false,
    }
}

/// The relay channel of guild `g`.
pub fn get_music_log_channel(reg: &Registry, guild: Id) -> (r: Option<Id>)
    requires
        reg.wf(),
    ensures
        relay_channel(reg@, guild.0) is None ==> r is None,
        relay_channel(reg@, guild.0) is Some ==> r == Some(Id(relay_channel(reg@, guild.0)->0)),
{
    match reg.settings(guild) {
        Some(s) => match s.music_log_channel_id.0 {
            Some(c) => Some(Id(c)),
            None => None,
        },
        None => None,
    }
}

/// Relays command `o`, with `arg`, to the worker bound to `voice`.
fn relay_to_bound(reg: &Registry, guild: Id, channel: Id, voice: Option<Id>, o: Order, arg: Option<&str>) -> (r: OrderOutcome)
    requires
        reg.wf(),
    ensures
        !order_channel_open(reg@, guild.0, channel.0) ==> r is WrongChannel,
        order_channel_open(reg@, guild.0, channel.0) && (voice is None || relay_channel(reg@, guild.0) is None
            || !bound_to(reg@[guild.0].assignment@, (voice->0).0)) ==> r is Ignored,
        order_channel_open(reg@, guild.0, channel.0) && voice is Some && relay_channel(reg@, guild.0) is Some
            && bound_to(reg@[guild.0].assignment@, (voice->0).0) ==> {
            &&& r is Relayed
            &&& r->channel == Id(relay_channel(reg@, guild.0)->0)
            &&& r->worker < reg.prefixes().len()
            &&& reg@[guild.0].assignment@[r->worker as int] == Slot::Bound((voice->0).0)
            &&& arg is None ==> r->text@ == instruction(reg.prefixes()[r->worker as int], name_of(o), None)
            &&& arg is Some ==> r->text@ == instruction(reg.prefixes()[r->worker as int], name_of(o), Some(arg->0@))
        },
{
    if !check_music_order_channel(reg, guild, channel) {
        return OrderOutcome::WrongChannel;
    }
    let v = match voice {
        Some(v) => v,
        None => return OrderOutcome::Ignored,
    };
    let worker = match reg.lookup(guild, v) {
        Some(w) => w,
        None => return OrderOutcome::Ignored,
    };
    let relay = match get_music_log_channel(reg, guild) {
        Some(c) => c,
        None => return OrderOutcome::Ignored,
    };
    let text = instruction_text(reg.prefix(worker), o, arg);
    OrderOutcome::Relayed { channel: relay, worker, text }
}

/// `play <order>`: relays the order to the worker bound to the caller's
/// voice channel.
pub fn play(reg: &Registry, guild: Id, channel: Id, voice: Option<Id>, order: &str) -> (r: OrderOutcome)
    requires
        reg.wf(),
    ensures
        !order_channel_open(reg@, guild.0, channel.0) ==> r is WrongChannel,
        order_channel_open(reg@, guild.0, channel.0) && (voice is None || order@.len() == 0
            || relay_channel(reg@, guild.0) is None
            || !bound_to(reg@[guild.0].assignment@, (voice->0).0)) ==> r is Ignored,
        order_channel_open(reg@, guild.0, channel.0) && voice is Some && order@.len() > 0
            && relay_channel(reg@, guild.0) is Some
            && bound_to(reg@[guild.0].assignment@, (voice->0).0) ==> {
            &&& r is Relayed
            &&& r->channel == Id(relay_channel(reg@, guild.0)->0)
            &&& r->worker < reg.prefixes().len()
            &&& reg@[guild.0].assignment@[r->worker as int] == Slot::Bound((voice->0).0)
            &&& r->text@ == instruction(reg.prefixes()[r->worker as int], name_of(Order::Play), Some(order@))
        },
{
    if check_music_order_channel(reg, guild, channel) && order.unicode_len() == 0 {
        return OrderOutcome::Ignored;
    }
    relay_to_bound(reg, guild, channel, voice, Order::Play, Some(order))
}

/// `pause`: relayed to the worker bound to the caller's voice channel.
pub fn pause(reg: &Registry, guild: Id, channel: Id, voice: Option<Id>) -> (r: OrderOutcome)
    requires
        reg.wf(),
    ensures
        !order_channel_open(reg@, guild.0, channel.0) ==> r is WrongChannel,
        order_channel_open(reg@, guild.0, channel.0) && (voice is None || relay_channel(reg@, guild.0) is None
            || !bound_to(reg@[guild.0].assignment@, (voice->0).0)) ==> r is Ignored,
        order_channel_open(reg@, guild.0, channel.0) && voice is Some && relay_channel(reg@, guild.0) is Some
            && bound_to(reg@[guild.0].assignment@, (voice->0).0) ==> {
            &&& r is Relayed
            &&& r->channel == Id(relay_channel(reg@, guild.0)->0)
            &&& r->worker < reg.prefixes().len()
            &&& reg@[guild.0].assignment@[r->worker as int] == Slot::Bound((voice->0).0)
            &&& r->text@ == instruction(reg.prefixes()[r->worker as int], name_of(Order::Pause), None)
        },
{
    relay_to_bound(reg, guild, channel, voice, Order::Pause, None)
}

/// `resume`: relayed to the worker bound to the caller's voice channel.
pub fn resume(reg: &Registry, guild: Id, channel: Id, voice: Option<Id>) -> (r: OrderOutcome)
    requires
        reg.wf(),
    ensures
        !order_channel_open(reg@, guild.0, channel.0) ==> r is WrongChannel,
        order_channel_open(reg@, guild.0, channel.0) && (voice is None || relay_channel(reg@, guild.0) is None
            || !bound_to(reg@[guild.0].assignment@, (voice->0).0)) ==> r is Ignored,
        order_channel_open(reg@, guild.0, channel.0) && voice is Some && relay_channel(reg@, guild.0) is Some
            && bound_to(reg@[guild.0].assignment@, (voice->0).0) ==> {
            &&& r is Relayed
            &&& r->channel == Id(relay_channel(reg@, guild.0)->0)
            &&& r->worker < reg.prefixes().len()
            &&& reg@[guild.0].assignment@[r->worker as int] == Slot::Bound((voice->0).0)
            &&& r->text@ == instruction(reg.prefixes()[r->worker as int], name_of(Order::Resume), None)
        },
{
    relay_to_bound(reg, guild, channel, voice, Order::Resume, None)
}

/// `skip`: relayed to the worker bound to the caller's voice channel.
pub fn skip(reg: &Registry, guild: Id, channel: Id, voice: Option<Id>) -> (r: OrderOutcome)
    requires
        reg.wf(),
    ensures
        !order_channel_open(reg@, guild.0, channel.0) ==> r is WrongChannel,
        order_channel_open(reg@, guild.0, channel.0) && (voice is None || relay_channel(reg@, guild.0) is None
            || !bound_to(reg@[guild.0].assignment@, (voice->0).0)) ==> r is Ignored,
        order_channel_open(reg@, guild.0, channel.0) && voice is Some && relay_channel(reg@, guild.0) is Some
            && bound_to(reg@[guild.0].assignment@, (voice->0).0) ==> {
            &&& r is Relayed
            &&& r->channel == Id(relay_channel(reg@, guild.0)->0)
            &&& r->worker < reg.prefixes().len()
            &&& reg@[guild.0].assignment@[r->worker as int] == Slot::Bound((voice->0).0)
            &&& r->text@ == instruction(reg.prefixes()[r->worker as int], name_of(Order::Skip), None)
        },
{
    relay_to_bound(reg, guild, channel, voice, Order::Skip, None)
}

/// `stop`: relayed to the worker bound to the caller's voice channel.
pub fn stop(reg: &Registry, guild: Id, channel: Id, voice: Option<Id>) -> (r: OrderOutcome)
    requires
        reg.wf(),
    ensures
        !order_channel_open(reg@, guild.0, channel.0) ==> r is WrongChannel,
        order_channel_open(reg@, guild.0, channel.0) && (voice is None || relay_channel(reg@, guild.0) is None
            || !bound_to(reg@[guild.0].assignment@, (voice->0).0)) ==> r is Ignored,
        order_channel_open(reg@, guild.0, channel.0) && voice is Some && relay_channel(reg@, guild.0) is Some
            && bound_to(reg@[guild.0].assignment@, (voice->0).0) ==> {
            &&& r is Relayed
            &&& r->channel == Id(relay_channel(reg@, guild.0)->0)
            &&& r->worker < reg.prefixes().len()
            &&& reg@[guild.0].assignment@[r->worker as int] == Slot::Bound((voice->0).0)
            &&& r->text@ == instruction(reg.prefixes()[r->worker as int], name_of(Order::Stop), None)
        },
{
    relay_to_bound(reg, guild, channel, voice, Order::Stop, None)
}

/// `join`: binds the first unbound worker of the guild to the caller's
/// voice channel and relays `join <channel id>` to it. Nothing changes
/// unless the order is admitted, the caller is in a voice channel that no
/// worker serves, a worker is unbound, and the guild has a relay channel.
pub fn join(reg: &mut Registry, guild: Id, channel: Id, voice: Option<Id>) -> (r: OrderOutcome)
    requires
        old(reg).wf(),
    ensures
        final(reg).wf(),
        final(reg).prefixes() == old(reg).prefixes(),
        final(reg).pending() == old(reg).pending(),
        !order_channel_open(old(reg)@, guild.0, channel.0) ==> r is WrongChannel && *final(reg) == *old(reg),
        !(r is Relayed) ==> *final(reg) == *old(reg),
        order_channel_open(old(reg)@, guild.0, channel.0) && (voice is None || relay_channel(old(reg)@, guild.0) is None
            || bound_to(old(reg)@[guild.0].assignment@, (voice->0).0)
            || all_busy(old(reg)@[guild.0].assignment@)) ==> r is Ignored,
        order_channel_open(old(reg)@, guild.0, channel.0) && voice is Some && relay_channel(old(reg)@, guild.0) is Some
            && !bound_to(old(reg)@[guild.0].assignment@, (voice->0).0)
            && !all_busy(old(reg)@[guild.0].assignment@) ==> {
            &&& r is Relayed
            &&& r->channel == Id(relay_channel(old(reg)@, guild.0)->0)
            &&& is_first_free(old(reg)@[guild.0].assignment@, r->worker as int)
            &&& r->text@ == instruction(old(reg).prefixes()[r->worker as int], name_of(Order::Join), Some(decimal((voice->0).0 as nat)))
            &&& final(reg)@.contains_key(guild.0)
            &&& same_except(final(reg)@, old(reg)@, guild.0)
            &&& final(reg)@[guild.0].guild == old(reg)@[guild.0].guild
            &&& final(reg)@[guild.0].settings == old(reg)@[guild.0].settings
            &&& final(reg)@[guild.0].assignment@ == old(reg)@[guild.0].assignment@.update(r->worker as int, Slot::Bound((voice->0).0))
        },
{
    if !check_music_order_channel(reg, guild, channel) {
        return OrderOutcome::WrongChannel;
    }
    let v = match voice {
        Some(v) => v,
        None => return OrderOutcome::Ignored,
    };
    let relay = match get_music_log_channel(reg, guild) {
        Some(c) => c,
        None => return OrderOutcome::Ignored,
    };
    match reg.acquire(guild, v) {
        None => OrderOutcome::Ignored,
        Some(worker) => {
            let id = v.to_string();
            let text = instruction_text(reg.prefix(worker), Order::Join, Some(id.as_str()));
            OrderOutcome::Relayed { channel: relay, worker, text }
        },
    }
}

/// `leave`: unbinds the worker bound to the caller's voice channel and
/// relays `leave <channel id>` to it. Nothing changes unless the order is
/// admitted, the guild has a relay channel, and a worker serves the
/// caller's voice channel.
pub fn leave(reg: &mut Registry, guild: Id, channel: Id, voice: Option<Id>) -> (r: OrderOutcome)
    requires
        old(reg).wf(),
    ensures
        final(reg).wf(),
        final(reg).prefixes() == old(reg).prefixes(),
        final(reg).pending() == old(reg).pending(),
        !order_channel_open(old(reg)@, guild.0, channel.0) ==> r is WrongChannel && *final(reg) == *old(reg),
        !(r is Relayed) ==> *final(reg) == *old(reg),
        order_channel_open(old(reg)@, guild.0, channel.0) && (voice is None || relay_channel(old(reg)@, guild.0) is None
            || !bound_to(old(reg)@[guild.0].assignment@, (voice->0).0)) ==> r is Ignored,
        order_channel_open(old(reg)@, guild.0, channel.0) && voice is Some && relay_channel(old(reg)@, guild.0) is Some
            && bound_to(old(reg)@[guild.0].assignment@, (voice->0).0) ==> {
            &&& r is Relayed
            &&& r->channel == Id(relay_channel(old(reg)@, guild.0)->0)
            &&& r->worker < old(reg).prefixes().len()
            &&& old(reg)@[guild.0].assignment@[r->worker as int] == Slot::Bound((voice->0).0)
            &&& r->text@ == instruction(old(reg).prefixes()[r->worker as int], name_of(Order::Leave), Some(decimal((voice->0).0 as nat)))
            &&& final(reg)@.contains_key(guild.0)
            &&& same_except(final(reg)@, old(reg)@, guild.0)
            &&& final(reg)@[guild.0].guild == old(reg)@[guild.0].guild
            &&& final(reg)@[guild.0].settings == old(reg)@[guild.0].settings
            &&& final(reg)@[guild.0].assignment@ == old(reg)@[guild.0].assignment@.update(r->worker as int, Slot::Free)
        },
{
    if !check_music_order_channel(reg, guild, channel) {
        return OrderOutcome::WrongChannel;
    }
    let v = match voice {
        Some(v) => v,
        None => return OrderOutcome::Ignored,
    };
    let relay = match get_music_log_channel(reg, guild) {
        Some(c) => c,
        None => return OrderOutcome::Ignored,
    };
    match reg.release(guild, v) {
        None => OrderOutcome::Ignored,
        Some(worker) => {
            let id = v.to_string();
            let text = instruction_text(reg.prefix(worker), Order::Leave, Some(id.as_str()));
            OrderOutcome::Relayed { channel: relay, worker, text }
        },
    }
}

} // verus!
