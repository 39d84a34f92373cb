//! What the player has set.

use vstd::prelude::*;

verus! {

/// Something to drink below a threshold of hit points.
#[derive(Debug, Clone)]
pub struct PotionRow {
    pub enabled: bool,
    pub threshold: u32,
    pub item: String,
}

impl PotionRow {
    /// Nothing is set.
    pub open spec fn blank(&self) -> bool {
        !self.enabled && self.threshold == 0 && self.item@.len() == 0
    }
}

impl Default for PotionRow {
    fn default() -> (r: Self)
        ensures
            r.blank(),
    {
        PotionRow { enabled: false, threshold: 0, item: String::new() }
    }
}

/// Something to use while hit points are high and magic points low.
#[derive(Debug, Clone)]
pub struct MpWhenSafe {
    pub enabled: bool,
    pub hp_lower: u32,
    pub mp_upper: u32,
    pub item: String,
}

impl MpWhenSafe {
    /// Nothing is set.
    pub open spec fn blank(&self) -> bool {
        !self.enabled && self.hp_lower == 0 && self.mp_upper == 0 && self.item@.len() == 0
    }
}

impl Default for MpWhenSafe {
    fn default() -> (r: Self)
        ensures
            r.blank(),
    {
        MpWhenSafe { enabled: false, hp_lower: 0, mp_upper: 0, item: String::new() }
    }
}

/// Whom or what an item or a spell is used on.
#[derive(Debug, Clone)]
pub enum CastTarget {
    /// An item, just used.
    Item,
    /// A spell without a target.
    NoSpec,
    /// A spell on oneself.
    Self_,
    /// A spell on whatever is under the mouse.
    HoverTarget,
    /// An item on the player or companion of this name.
    OnNamedEntity(String),
    /// An item on oneself.
    SelfItem,
    /// On a worn item (of this name).
    OnInUseItem(Option<String>),
    /// On a wielded item (of this name).
    OnWieldedItem(Option<String>),
    /// On the item of this name.
    OnNamedItem(String),
    /// An item to throw away.
    DropItem,
    /// Only shows the player's figures.
    Info,
    /// A function key.
    Key(u8),
    /// A function key that is held.
    DelayKey(u8),
}

impl Default for CastTarget {
    fn default() -> (r: Self)
        ensures
            r == CastTarget::Item,
    {
        CastTarget::Item
    }
}

/// An item, a spell or a key to use.
#[derive(Debug, Clone)]
pub struct BuffItem {
    /// The state that tells whether it is in effect, -1 for none.
    pub id: i32,
    pub name: String,
    /// `I` an item, `S` a spell, `K` a key.
    pub item_type: char,
    pub cast_target: CastTarget,
}

impl Default for BuffItem {
    fn default() -> (r: Self)
        ensures
            r.id == -1,
            r.name@.len() == 0,
            r.item_type == 'I',
            r.cast_target == CastTarget::Item,
    {
        BuffItem { id: -1, name: String::new(), item_type: 'I', cast_target: CastTarget::Item }
    }
}

/// What a function key does.
#[derive(Debug, Clone)]
pub struct FKeyMacro {
    pub enabled: bool,
    pub command: String,
}

impl FKeyMacro {
    /// Nothing is set.
    pub open spec fn blank(&self) -> bool {
        !self.enabled && self.command@.len() == 0
    }
}

impl Default for FKeyMacro {
    fn default() -> (r: Self)
        ensures
            r.blank(),
    {
        FKeyMacro { enabled: false, command: String::new() }
    }
}

/// Switches.
#[derive(Debug, Clone, Copy, PartialEq, Eq, Structural)]
pub struct MiscToggles {
    pub all_day: bool,
    pub underwater_pump: bool,
    pub low_cpu: bool,
    pub monster_level_color: bool,
    pub show_clock: bool,
    pub show_attack_dmg: bool,
    pub damage_at_feet: bool,
}

impl MiscToggles {
    /// Everything is off.
    pub open spec fn all_off(&self) -> bool {
        !self.all_day && !self.underwater_pump && !self.low_cpu && !self.monster_level_color
            && !self.show_clock && !self.show_attack_dmg && !self.damage_at_feet
    }
}

impl Default for MiscToggles {
    fn default() -> (r: Self)
        ensures
            r.all_off(),
    {
        MiscToggles {
            all_day: false,
            underwater_pump: false,
            low_cpu: false,
            monster_level_color: false,
            show_clock: false,
            show_attack_dmg: false,
            damage_at_feet: false,
        }
    }
}

/// Something to do again and again.
#[derive(Debug, Clone)]
pub struct TimerRow {
    pub enabled: bool,
    pub interval_sec: u32,
    pub command: String,
}

impl TimerRow {
    /// Nothing is set but an interval of 5 seconds.
    pub open spec fn blank(&self) -> bool {
        !self.enabled && self.interval_sec == 5 && self.command@.len() == 0
    }
}

impl Default for TimerRow {
    fn default() -> (r: Self)
        ensures
            r.blank(),
    {
        TimerRow { enabled: false, interval_sec: 5, command: String::new() }
    }
}

/// Everything that the player has set.
#[derive(Debug, Clone)]
pub struct AuxSettings {
    pub current_profile: String,
    pub potion_rows: [PotionRow; 7],
    pub mp_when_safe: MpWhenSafe,
    pub potion_use_percent: bool,
    pub potion_show_inventory: bool,
    pub buff_enabled: bool,
    pub buff_items: Vec<BuffItem>,
    pub buff_inventory_items: Vec<BuffItem>,
    pub status_show_exp: bool,
    pub status_whetstone: bool,
    pub status_eat_meat: bool,
    pub status_transform_enabled: bool,
    pub status_transform_item: String,
    pub status_transform_cond: String,
    pub status_antidote_enabled: bool,
    pub status_antidote_item: String,
    pub fkey_macros: [FKeyMacro; 4],
    pub delete_enabled: bool,
    /// Names of items to delete.
    pub delete_list: Vec<String>,
    /// Names of items to dissolve.
    pub dissolve_list: Vec<String>,
    pub shout_enabled: bool,
    pub shout_interval_sec: u32,
    pub shout_messages: Vec<String>,
    pub misc: MiscToggles,
    pub timer_master_enabled: bool,
    pub timer_rows: [TimerRow; 6],
}

impl AuxSettings {
    /// Nothing is set, whatever the profile is called.
    pub open spec fn blank(&self) -> bool {
        &&& forall|i: int| 0 <= i < 7 ==> (#[trigger] self.potion_rows@[i]).blank()
        &&& self.mp_when_safe.blank()
        &&& !self.potion_use_percent
        &&& !self.potion_show_inventory
        &&& !self.buff_enabled
        &&& self.buff_items@.len() == 0
        &&& self.buff_inventory_items@.len() == 0
        &&& !self.status_show_exp
        &&& !self.status_whetstone
        &&& !self.status_eat_meat
        &&& !self.status_transform_enabled
        &&& self.status_transform_item@.len() == 0
        &&& self.status_transform_cond@.len() == 0
        &&& !self.status_antidote_enabled
        &&& self.status_antidote_item@.len() == 0
        &&& forall|i: int| 0 <= i < 4 ==> (#[trigger] self.fkey_macros@[i]).blank()
        &&& !self.delete_enabled
        &&& self.delete_list@.len() == 0
        &&& self.dissolve_list@.len() == 0
        &&& !self.shout_enabled
        &&& self.shout_interval_sec == 0
        &&& self.shout_messages@.len() == 0
        &&& self.misc.all_off()
        &&& !self.timer_master_enabled
        &&& forall|i: int| 0 <= i < 6 ==> (#[trigger] self.timer_rows@[i]).blank()
    }
}

impl Default for AuxSettings {
    fn default() -> (r: Self)
        ensures
            r.blank(),
            r.current_profile@.len() == 0,
    {
        AuxSettings {
            current_profile: String::new(),
            potion_rows: [
                PotionRow::default(),
                PotionRow::default(),
                PotionRow::default(),
                PotionRow::default(),
                PotionRow::default(),
                PotionRow::default(),
                PotionRow::default(),
            ],
            mp_when_safe: MpWhenSafe::default(),
            potion_use_percent: false,
            potion_show_inventory: false,
            buff_enabled: false,
            buff_items: Vec::new(),
            buff_inventory_items: Vec::new(),
            status_show_exp: false,
            status_whetstone: false,
            status_eat_meat: false,
            status_transform_enabled: false,
            status_transform_item: String::new(),
            status_transform_cond: String::new(),
            status_antidote_enabled: false,
            status_antidote_item: String::new(),
            fkey_macros: [
                FKeyMacro::default(),
                FKeyMacro::default(),
                FKeyMacro::default(),
                FKeyMacro::default(),
            ],
            delete_enabled: false,
            delete_list: Vec::new(),
            dissolve_list: Vec::new(),
            shout_enabled: false,
            shout_interval_sec: 0,
            shout_messages: Vec::new(),
            misc: MiscToggles::default(),
            timer_master_enabled: false,
            timer_rows: [
                TimerRow::default(),
                TimerRow::default(),
                TimerRow::default(),
                TimerRow::default(),
                TimerRow::default(),
                TimerRow::default(),
            ],
        }
    }
}

} // verus!
