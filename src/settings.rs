//! The fields of a guild's settings that the setup commands write.

use vstd::prelude::*;
use crate::models::{ForeignId, Id, Setting};

verus! {

/// One reference of a guild's settings.
#[derive(Clone, Copy, Debug, PartialEq, Eq, Structural)]
pub enum SettingField {
    LogChannel,
    ModerationChannel,
    MusicOrderChannel,
    MusicLogChannel,
    MemberRole,
}

/// The value of field `f` in `s`.
pub open spec fn field_of(s: Setting, f: SettingField) -> ForeignId {
    match f {
        SettingField::LogChannel => s.log_channel_id,
        SettingField::ModerationChannel => s.moderation_channel_id,
        SettingField::MusicOrderChannel => s.music_order_channel_id,
        SettingField::MusicLogChannel => s.music_log_channel_id,
        SettingField::MemberRole => s.member_role_id,
    }
}

/// `s` with field `f` replaced by `v`.
pub open spec fn with_field(s: Setting, f: SettingField, v: ForeignId) -> Setting {
    match f {
        SettingField::LogChannel => Setting { log_channel_id: v, ..s },
        SettingField::ModerationChannel => Setting { moderation_channel_id: v, ..s },
        SettingField::MusicOrderChannel => Setting { music_order_channel_id: v, ..s },
        SettingField::MusicLogChannel => Setting { music_log_channel_id: v, ..s },
        SettingField::MemberRole => Setting { member_role_id: v, ..s },
    }
}

/// Every reference of `s` is unset.
pub open spec fn all_unset(s: Setting) -> bool {
    forall|f: SettingField| field_of(s, f).0 is None
}

impl Setting {
    /// A settings record with every reference unset.
    pub fn unset(id: u64) -> (r: Setting)
        ensures
            r.id == id,
            all_unset(r),
    {
        Setting {
            id,
            log_channel_id: ForeignId(None),
            moderation_channel_id: ForeignId(None),
            music_order_channel_id: ForeignId(None),
            music_log_channel_id: ForeignId(None),
            member_role_id: ForeignId(None),
        }
    }

    /// The value of one reference.
    pub fn field(&self, f: SettingField) -> (r: ForeignId)
        ensures
            r == field_of(*self, f),
    {
        match f {
            SettingField::LogChannel => self.log_channel_id,
            SettingField::ModerationChannel => self.moderation_channel_id,
            SettingField::MusicOrderChannel => self.music_order_channel_id,
            SettingField::MusicLogChannel => self.music_log_channel_id,
            SettingField::MemberRole => self.member_role_id,
        }
    }

    /// Replaces one reference, leaving the others and the id as they were.
    pub fn set(&mut self, f: SettingField, value: Id)
        ensures
            *final(self) == with_field(*old(self), f, ForeignId(Some(value.0))),
    {
        let v = ForeignId(Some(value.0));
        match f {
            SettingField::LogChannel => self.log_channel_id = v,
            SettingField::ModerationChannel => self.moderation_channel_id = v,
            SettingField::MusicOrderChannel => self.music_order_channel_id = v,
            SettingField::MusicLogChannel => self.music_log_channel_id = v,
            SettingField::MemberRole => self.member_role_id = v,
        }
    }
}

} // verus!
