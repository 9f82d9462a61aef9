//! Event handling of the control bot (member registration, setup) and of
//! a worker bot (which relayed instructions it carries out).

use vstd::prelude::*;
use crate::models::{ForeignId, Id, UnregisteredMember};
use crate::music_order::relay_channel;
use crate::music_playing::{addressed_command, parse_instruction, WorkerCommand};
use crate::registry::{not_of_member, of_member, Registry};
use crate::settings::{with_field, SettingField};
use crate::text::{has_prefix, same_text, split_words, views, words};

verus! {

/// What to do for a member who joined a guild.
#[derive(Clone, Copy, Debug, PartialEq, Eq, Structural)]
pub enum Welcome {
    /// Nothing more: the guild is unknown or the welcome message arrived.
    Nothing,
    /// Grant the guild's member role directly.
    GrantRole(Id),
    /// Wait for the member's naming command.
    AwaitName,
}

/// A registration to apply when a member names themselves: the guild, and
/// the member role to grant there if the guild has one.
#[derive(Clone, Copy, Debug, PartialEq, Eq, Structural)]
pub struct Registration {
    pub guild: Id,
    pub role: ForeignId,
}

/// The member role of guild `g`, unset when `g` is not registered.
pub open spec fn member_role(reg: Registry, g: u64) -> ForeignId {
    if reg@.contains_key(g) {
        reg@[g].settings.member_role_id
    } else {
        ForeignId(None)
    }
}

/// The command word of the naming command.
pub open spec fn name_word() -> Seq<char> {
    seq!['n', 'a', 'm', 'e']
}

/// The name that a naming command gives, if `text` is one: after a leading
/// `-`, the words of the text are `name` and the name, possibly followed by
/// more words.
pub open spec fn named(text: Seq<char>) -> Option<Seq<char>> {
    if text.len() > 0 && text[0] == '-' {
        let ws = words(text.skip(1));
        if ws.len() >= 2 && ws[0] == name_word() {
            Some(ws[1])
        } else {
            None
        }
    } else {
        None
    }
}

/// The name that a naming command gives, if `text` is one.
pub fn naming_argument(text: &str) -> (r: Option<&str>)
    ensures
        named(text@) is None ==> r is None,
        named(text@) is Some ==> r is Some && r->0@ == named(text@)->0,
{
    proof {
        reveal_strlit("name");
        assert("name"@ =~= name_word());
    }
    let n = text.unicode_len();
    if n == 0 || text.get_char(0) != '-' {
        return None;
    }
    let rest = text.substring_char(1, n);
    assert(rest@ == text@.skip(1));
    let ws = split_words(rest);
    let ghost wv = views(ws@);
    if ws.len() >= 2 && same_text(ws[0], "name") {
        assert(wv[1] == ws@[1]@);
        Some(ws[1])
    } else {
        proof {
            if ws@.len() >= 2 {
                assert(wv[0] == ws@[0]@);
            }
        }
        None
    }
}

/// The nickname of a member registered under `name`: `name <user>`.
pub fn registered_nickname(name: &str, user: &str) -> (r: String)
    ensures
        r@ == name@ + seq![' ', '<'] + user@ + seq!['>'],
{
    proof {
        reveal_strlit(" <");
        reveal_strlit(">");
        assert(" <"@ =~= seq![' ', '<']);
        assert(">"@ =~= seq!['>']);
    }
    let mut r = String::from_str(name);
    r.append(" <");
    r.append(user);
    r.append(">");
    r
}

/// The nickname of a member granted the role without a name: `<user>`.
pub fn fallback_nickname(user: &str) -> (r: String)
    ensures
        r@ == seq!['<'] + user@ + seq!['>'],
{
    proof {
        reveal_strlit("<");
        reveal_strlit(">");
        assert("<"@ =~= seq!['<']);
        assert(">"@ =~= seq!['>']);
    }
    let mut r = String::from_str("<");
    r.append(user);
    r.append(">");
    r
}

/// The control bot's handler, over the state store.
pub struct Handler {
    pub registry: Registry,
}

impl Handler {
    /// A handler over an empty store for a pool with these prefixes.
    pub fn new(prefixes: Vec<String>) -> (r: Handler)
        ensures
            r.registry.wf(),
            r.registry@ == Map::<u64, crate::registry::GuildRecord>::empty(),
            r.registry.pending() == Seq::<UnregisteredMember>::empty(),
            r.registry.prefixes() == prefixes@.map_values(|s: String| s@),
    {
        Handler { registry: Registry::new(prefixes) }
    }

    /// A member joined guild `guild`; `delivered` tells whether the welcome
    /// message reached them. When it did not, the member gets the guild's
    /// member role if one is set, and is otherwise left pending a naming
    /// command.
    pub fn guild_member_addition(&mut self, guild: Id, member: Id, delivered: bool) -> (r: Welcome)
        requires
            old(self).registry.wf(),
        ensures
            final(self).registry.wf(),
            final(self).registry@ == old(self).registry@,
            final(self).registry.prefixes() == old(self).registry.prefixes(),
            !old(self).registry@.contains_key(guild.0) || delivered ==> r == Welcome::Nothing
                && final(self).registry.pending() == old(self).registry.pending(),
            old(self).registry@.contains_key(guild.0) && !delivered
                && member_role(old(self).registry, guild.0).0 is Some ==> r == Welcome::GrantRole(
                Id(member_role(old(self).registry, guild.0).0->0),
            ) && final(self).registry.pending() == old(self).registry.pending(),
            old(self).registry@.contains_key(guild.0) && !delivered
                && member_role(old(self).registry, guild.0).0 is None ==> r == Welcome::AwaitName
                && final(self).registry.pending() == old(self).registry.pending().push(
                UnregisteredMember { discord_id: member, guild_id: guild },
            ),
    {
        if delivered {
            return Welcome::Nothing;
        }
        match self.registry.settings(guild) {
            None => Welcome::Nothing,
            Some(s) => match s.member_role_id.0 {
                Some(role) => Welcome::GrantRole(Id(role)),
                None => {
                    self.registry.add_pending(member, guild);
                    Welcome::AwaitName
                },
            },
        }
    }

    /// A member sent the naming command: every pending registration of
    /// theirs is consumed, and for each the guild and its member role are
    /// returned, in the order the registrations were recorded.
    pub fn register_named(&mut self, member: Id) -> (r: Vec<Registration>)
        requires
            old(self).registry.wf(),
        ensures
            final(self).registry.wf(),
            final(self).registry@ == old(self).registry@,
            final(self).registry.prefixes() == old(self).registry.prefixes(),
            final(self).registry.pending() == old(self).registry.pending().filter(
                not_of_member(member.0),
            ),
            r@.len() == old(self).registry.pending().filter(of_member(member.0)).len(),
            forall|i: int|
                0 <= i < r@.len() ==> {
                    let p = old(self).registry.pending().filter(of_member(member.0))[i];
                    &&& (#[trigger] r@[i]).guild == p.guild_id
                    &&& r@[i].role == member_role(old(self).registry, p.guild_id.0)
                },
    {
        let ghost reg0 = self.registry;
        let taken = self.registry.take_pending(member);
        let mut out: Vec<Registration> = Vec::new();
        let mut i: usize = 0;
        while i < taken.len()
            invariant
                self.registry.wf(),
                self.registry@ == reg0@,
                0 <= i <= taken@.len(),
                out@.len() == i,
                forall|j: int|
                    0 <= j < i ==> {
                        &&& (#[trigger] out@[j]).guild == taken@[j].guild_id
                        &&& out@[j].role == member_role(reg0, taken@[j].guild_id.0)
                    },
            decreases taken@.len() - i,
        {
            let g = taken[i].guild_id;
            let role = match self.registry.settings(g) {
                Some(s) => s.member_role_id,
                None => ForeignId(None),
            };
            out.push(Registration { guild: g, role });
            i = i + 1;
        }
        out
    }

    /// A direct message reached the control bot. A naming command consumes
    /// the sender's pending registrations (see `register_named`); anything
    /// else, or a message sent in a guild, changes nothing.
    pub fn message(&mut self, author: Id, in_guild: bool, text: &str) -> (r: Vec<Registration>)
        requires
            old(self).registry.wf(),
        ensures
            final(self).registry.wf(),
            final(self).registry@ == old(self).registry@,
            final(self).registry.prefixes() == old(self).registry.prefixes(),
            in_guild || named(text@) is None ==> r@.len() == 0 && final(self).registry.pending()
                == old(self).registry.pending(),
            !in_guild && named(text@) is Some ==> {
                &&& final(self).registry.pending() == old(self).registry.pending().filter(
                    not_of_member(author.0),
                )
                &&& r@.len() == old(self).registry.pending().filter(of_member(author.0)).len()
                &&& forall|i: int|
                    0 <= i < r@.len() ==> {
                        let p = old(self).registry.pending().filter(of_member(author.0))[i];
                        &&& (#[trigger] r@[i]).guild == p.guild_id
                        &&& r@[i].role == member_role(old(self).registry, p.guild_id.0)
                    }
            },
    {
        if in_guild || naming_argument(text).is_none() {
            return Vec::new();
        }
        self.register_named(author)
    }

    /// A setup command sets reference `field` of guild `guild` to `value`;
    /// `exists` tells whether that channel or role exists in the guild.
    /// Returns whether the settings changed.
    pub fn setup(&mut self, guild: Id, field: SettingField, value: Id, exists: bool) -> (r: bool)
        requires
            old(self).registry.wf(),
        ensures
            final(self).registry.wf(),
            r == (exists && old(self).registry@.contains_key(guild.0)),
            !r ==> *final(self) == *old(self),
            r ==> final(self).registry@ == old(self).registry@.insert(
                guild.0,
                crate::registry::GuildRecord {
                    settings: with_field(
                        old(self).registry@[guild.0].settings,
                        field,
                        ForeignId(Some(value.0)),
                    ),
                    ..old(self).registry@[guild.0]
                },
            ),
            final(self).registry.pending() == old(self).registry.pending(),
            final(self).registry.prefixes() == old(self).registry.prefixes(),
    {
        if !exists {
            return false;
        }
        let r = self.registry.set_setting(guild, field, value);
        proof {
            if r {
                assert(self.registry@ =~= old(self).registry@.insert(
                    guild.0,
                    crate::registry::GuildRecord {
                        settings: with_field(
                            old(self).registry@[guild.0].settings,
                            field,
                            ForeignId(Some(value.0)),
                        ),
                        ..old(self).registry@[guild.0]
                    },
                ));
            }
        }
        r
    }
}

/// A worker bot's handler: it acts only on instructions that arrive on
/// its guild's relay channel and carry its own prefix.
pub struct MusicHandler {
    prefix: String,
}

impl MusicHandler {
    /// The prefix that addresses this worker.
    pub closed spec fn prefix(&self) -> Seq<char> {
        self.prefix@
    }

    /// A worker addressed by `prefix`.
    pub fn new(prefix: String) -> (r: MusicHandler)
        ensures
            r.prefix() == prefix@,
    {
        MusicHandler { prefix }
    }

    /// The command that a message asks of this worker, if any. The message
    /// must come from a guild, on that guild's relay channel, and be
    /// addressed to this worker's prefix.
    pub fn message(&self, reg: &Registry, guild: Option<Id>, channel: Id, text: &str) -> (r: Option<WorkerCommand>)
        requires
            reg.wf(),
        ensures
            guild is None ==> r is None,
            guild is Some && relay_channel(reg@, (guild->0).0) != Some(channel.0) ==> r is None,
            !has_prefix(text@, self.prefix()) ==> r is None,
            guild is Some && relay_channel(reg@, (guild->0).0) == Some(channel.0) ==> {
                &&& r is None ==> addressed_command(self.prefix(), text@) is None
                &&& r is Some ==> addressed_command(self.prefix(), text@) == Some(r->0@)
            },
            r matches Some(WorkerCommand::Play(o)) ==> (o is Url <==> crate::music_playing::is_locator(o.text())),
    {
        let g = match guild {
            Some(g) => g,
            None => return None,
        };
        let open = match crate::music_order::get_music_log_channel(reg, g) {
            Some(c) => c.0 == channel.0,
            None => false,
        };
        if !open {
            return None;
        }
        let r = parse_instruction(self.prefix.as_str(), text);
        proof {
            if r is Some {
                let head = self.prefix() + seq![' '];
                assert(has_prefix(text@, head));
                assert(text@.subrange(0, self.prefix().len() as int) =~= head.subrange(0, self.prefix().len() as int));
                assert(head.subrange(0, self.prefix().len() as int) =~= self.prefix());
            }
        }
        r
    }
}

} // verus!
